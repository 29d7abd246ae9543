//! Yaku: the named scoring rules, and which of them a finished hand satisfies.

use crate::hand::{
    count_of, is_kokushi, is_kokushi_pair, lemma_kokushi_pair, occurrences, CompleteHand,
    WinContext,
};
use crate::tile::Tile;
use vstd::prelude::*;

verus! {

/// The value of a yaku.
#[derive(Debug, Copy, Clone, PartialEq, Eq, Structural)]
pub enum Val {
    /// The yaku is worth some number of han.
    Han(u8),
    /// The yaku is a fixed mangan.
    Mangan,
    /// A yakuman.
    Yakuman,
    /// Double yakuman.
    DoubleYakuman,
}

/// The value of a yaku in an open hand.
#[derive(Debug, Copy, Clone, PartialEq, Eq, Structural)]
pub enum OpenVal {
    /// The yaku is worth full value.
    Full,
    /// The yaku is worth one fewer han in an open hand.
    Reduced,
    /// The yaku cannot occur in an open hand.
    Invalid,
}

/// The conditions under which a hand contains a yaku, one for each rule that the
/// library knows.
#[derive(Debug, Copy, Clone, PartialEq, Eq, Structural)]
pub enum Rule {
    /// The hand is thirteen orphans.
    ThirteenOrphans,
    /// The hand is thirteen orphans, and the winning tile made its pair.
    ThirteenSidedThirteenOrphans,
}

impl Rule {
    /// Whether the rule is met by a hand won under the given circumstances.
    pub open spec fn holds(self, hand: CompleteHand, ctx: WinContext) -> bool {
        match self {
            Rule::ThirteenOrphans => hand is Kokushi,
            Rule::ThirteenSidedThirteenOrphans => match hand {
                CompleteHand::Kokushi(tiles) => occurrences(tiles@, ctx.agari) == 2,
                _ => false,
            },
        }
    }

    /// Decides whether the rule is met by a hand won under the given circumstances.
    pub fn decide(self, hand: &CompleteHand, ctx: &WinContext) -> (r: bool)
        ensures
            r == self.holds(*hand, *ctx),
    {
        match self {
            Rule::ThirteenOrphans => match hand {
                CompleteHand::Kokushi(_) => true,
                _ => false,
            },
            Rule::ThirteenSidedThirteenOrphans => match hand {
                CompleteHand::Kokushi(tiles) => count_of(tiles, ctx.agari) == 2,
                _ => false,
            },
        }
    }
}

/// In a hand of thirteen orphans the thirteen-sided rule is met exactly when the
/// winning tile is the tile of the pair.
pub proof fn lemma_thirteen_sided(tiles: [Tile; 14], pair: Tile, ctx: WinContext)
    requires
        is_kokushi(tiles),
        is_kokushi_pair(tiles, pair),
        ctx.agari.wf(),
    ensures
        Rule::ThirteenOrphans.holds(CompleteHand::Kokushi(tiles), ctx),
        Rule::ThirteenSidedThirteenOrphans.holds(CompleteHand::Kokushi(tiles), ctx) <==> ctx.agari
            == pair,
{
    lemma_kokushi_pair(tiles, pair, ctx.agari);
}

/// A yaku.
#[derive(Debug, Copy, Clone)]
pub struct Yaku {
    /// The name of the yaku, in kanji.
    pub kanji: &'static str,
    /// The name of the yaku, in romaji.
    pub romaji: &'static str,
    /// The name of the yaku, in English.
    pub english: &'static str,
    /// The normal value of the yaku.
    pub val: Val,
    /// The modifier of the yaku's value in an open hand.
    pub open_val: OpenVal,
    /// The condition under which a hand contains the yaku.
    pub rule: Rule,
}

impl Yaku {
    /// What the yaku is worth in a closed or an open hand, if it can be claimed there:
    /// its value in a closed hand; in an open hand its value, one han less (and never
    /// less than none), or nothing, as its modifier says.
    pub open spec fn spec_effective_val(self, open: bool) -> Option<Val> {
        if !open {
            Some(self.val)
        } else {
            match self.open_val {
                OpenVal::Full => Some(self.val),
                OpenVal::Reduced => match self.val {
                    Val::Han(n) => Some(
                        Val::Han(
                            if n > 0 {
                                (n - 1) as u8
                            } else {
                                0u8
                            },
                        ),
                    ),
                    v => Some(v),
                },
                OpenVal::Invalid => None,
            }
        }
    }

    /// What the yaku yields for a hand won under the given circumstances: nothing
    /// where its rule is not met, else its worth in that hand, closed or open.
    pub open spec fn outcome(self, hand: CompleteHand, ctx: WinContext) -> Option<Val> {
        if self.rule.holds(hand, ctx) {
            self.spec_effective_val(hand.spec_is_open())
        } else {
            None
        }
    }

    /// Evaluate whether a hand contains the yaku.
    pub fn in_hand(&self, hand: &CompleteHand, ctx: &WinContext) -> (r: bool)
        ensures
            r == self.rule.holds(*hand, *ctx),
    {
        self.rule.decide(hand, ctx)
    }

    /// Returns what the yaku is worth in a closed hand (`open` false) or an open one,
    /// or `None` where it cannot be claimed in an open hand.
    pub fn effective_val(&self, open: bool) -> (r: Option<Val>)
        ensures
            r == self.spec_effective_val(open),
    {
        if !open {
            Some(self.val)
        } else {
            match self.open_val {
                OpenVal::Full => Some(self.val),
                OpenVal::Reduced => match self.val {
                    Val::Han(n) => Some(
                        Val::Han(
                            if n > 0 {
                                n - 1
                            } else {
                                0
                            },
                        ),
                    ),
                    v => Some(v),
                },
                OpenVal::Invalid => None,
            }
        }
    }
}

/// The yaku of thirteen orphans.
pub open spec fn spec_kokushi() -> Yaku {
    Yaku {
        kanji: "国士無双",
        romaji: "kokushimusō",
        english: "Thirteen Orphans",
        val: Val::Yakuman,
        open_val: OpenVal::Invalid,
        rule: Rule::ThirteenOrphans,
    }
}

/// The yaku of thirteen orphans won on a thirteen-sided wait.
pub open spec fn spec_kokushi_13() -> Yaku {
    Yaku {
        kanji: "国士無双十三面",
        romaji: "kokushimusōjūsanmen",
        english: "Thirteen-Sided Thirteen Orphans",
        val: Val::DoubleYakuman,
        open_val: OpenVal::Invalid,
        rule: Rule::ThirteenSidedThirteenOrphans,
    }
}

/// Returns the yaku of thirteen orphans.
#[verifier::when_used_as_spec(spec_kokushi)]
pub fn kokushi() -> (r: Yaku)
    ensures
        r == spec_kokushi(),
{
    Yaku {
        kanji: "国士無双",
        romaji: "kokushimusō",
        english: "Thirteen Orphans",
        val: Val::Yakuman,
        open_val: OpenVal::Invalid,
        rule: Rule::ThirteenOrphans,
    }
}

/// Returns the yaku of thirteen orphans won on a thirteen-sided wait.
#[verifier::when_used_as_spec(spec_kokushi_13)]
pub fn kokushi_13() -> (r: Yaku)
    ensures
        r == spec_kokushi_13(),
{
    Yaku {
        kanji: "国士無双十三面",
        romaji: "kokushimusōjūsanmen",
        english: "Thirteen-Sided Thirteen Orphans",
        val: Val::DoubleYakuman,
        open_val: OpenVal::Invalid,
        rule: Rule::ThirteenSidedThirteenOrphans,
    }
}

/// Returns the yaku that the library knows, in the order in which they are judged.
pub fn registry() -> (r: Vec<Yaku>)
    ensures
        r@ == seq![spec_kokushi(), spec_kokushi_13()],
{
    let mut out: Vec<Yaku> = Vec::new();
    out.push(kokushi());
    out.push(kokushi_13());
    proof {
        assert(out@ =~= seq![spec_kokushi(), spec_kokushi_13()]);
    }
    out
}

/// The yaku of `registry` that a hand yields, each with what it is worth in that
/// hand, in the order of the registry.
pub open spec fn hits(registry: Seq<Yaku>, hand: CompleteHand, ctx: WinContext) -> Seq<(Yaku, Val)>
    decreases registry.len(),
{
    if registry.len() == 0 {
        Seq::empty()
    } else {
        let rest = hits(registry.drop_last(), hand, ctx);
        match registry.last().outcome(hand, ctx) {
            Some(v) => rest.push((registry.last(), v)),
            None => rest,
        }
    }
}

/// Judges a hand, won under the given circumstances, by every yaku of a registry, and
/// returns those that it contains and can claim, each with its effective value. No yaku
/// at all is an ordinary result.
pub fn evaluate(hand: &CompleteHand, ctx: &WinContext, registry: &[Yaku]) -> (r: Vec<(Yaku, Val)>)
    ensures
        r@ == hits(registry@, *hand, *ctx),
{
    let open: bool = hand.is_open();
    let mut out: Vec<(Yaku, Val)> = Vec::new();
    let mut i: usize = 0;
    while i < registry.len()
        invariant
            i <= registry.len(),
            open == hand.spec_is_open(),
            out@ == hits(registry@.take(i as int), *hand, *ctx),
        decreases registry.len() - i,
    {
        proof {
            assert(registry@.take(i + 1).drop_last() =~= registry@.take(i as int));
        }
        let y: Yaku = registry[i];
        if y.in_hand(hand, ctx) {
            match y.effective_val(open) {
                Some(v) => {
                    out.push((y, v));
                },
                None => {},
            }
        }
        i += 1;
    }
    proof {
        assert(registry@.take(registry.len() as int) =~= registry@);
    }
    out
}

/// A yaku that a hand yields stands in the registry, its rule is met, and the value
/// beside it is what the yaku is worth in that hand; the hand yields at most one
/// entry for each entry of the registry.
pub proof fn lemma_hits_sound(registry: Seq<Yaku>, hand: CompleteHand, ctx: WinContext)
    ensures
        hits(registry, hand, ctx).len() <= registry.len(),
        forall|k: int|
            0 <= k < hits(registry, hand, ctx).len() ==> {
                let hit = #[trigger] hits(registry, hand, ctx)[k];
                &&& registry.contains(hit.0)
                &&& hit.0.rule.holds(hand, ctx)
                &&& hit.0.spec_effective_val(hand.spec_is_open()) == Some(hit.1)
            },
    decreases registry.len(),
{
    if registry.len() > 0 {
        let rest = registry.drop_last();
        lemma_hits_sound(rest, hand, ctx);
        assert forall|k: int| 0 <= k < hits(registry, hand, ctx).len() implies {
            let hit = #[trigger] hits(registry, hand, ctx)[k];
            &&& registry.contains(hit.0)
            &&& hit.0.rule.holds(hand, ctx)
            &&& hit.0.spec_effective_val(hand.spec_is_open()) == Some(hit.1)
        } by {
            if k < hits(rest, hand, ctx).len() {
                let hit = hits(rest, hand, ctx)[k];
                let j = choose|j: int| 0 <= j < rest.len() && rest[j] == hit.0;
                assert(registry[j] == hit.0);
            } else {
                assert(registry[registry.len() - 1] == registry.last());
            }
        }
    }
}

/// Every yaku of the registry whose rule the hand meets, and which can be claimed in
/// that hand, is among those that the hand yields, with what it is worth there.
pub proof fn lemma_hits_complete(registry: Seq<Yaku>, hand: CompleteHand, ctx: WinContext, j: int)
    requires
        0 <= j < registry.len(),
        registry[j].outcome(hand, ctx) is Some,
    ensures
        hits(registry, hand, ctx).contains((registry[j], registry[j].outcome(hand, ctx)->0)),
    decreases registry.len(),
{
    let rest = registry.drop_last();
    let all = hits(registry, hand, ctx);
    let hit = (registry[j], registry[j].outcome(hand, ctx)->0);
    if j == registry.len() - 1 {
        assert(all[all.len() - 1] == hit);
    } else {
        lemma_hits_complete(rest, hand, ctx, j);
        let k = choose|k: int| 0 <= k < hits(rest, hand, ctx).len() && hits(rest, hand, ctx)[k] == hit;
        assert(all[k] == hit);
    }
}

/// Judged by the library's own yaku, a hand of thirteen orphans yields the yakuman,
/// and the double yakuman after it exactly when two of its tiles are the winning
/// tile; any other hand yields nothing.
pub proof fn lemma_registry_hits(hand: CompleteHand, ctx: WinContext)
    ensures
        hits(seq![spec_kokushi(), spec_kokushi_13()], hand, ctx) == match hand {
            CompleteHand::Kokushi(tiles) => if occurrences(tiles@, ctx.agari) == 2 {
                seq![(spec_kokushi(), Val::Yakuman), (spec_kokushi_13(), Val::DoubleYakuman)]
            } else {
                seq![(spec_kokushi(), Val::Yakuman)]
            },
            _ => Seq::empty(),
        },
{
    let both = seq![spec_kokushi(), spec_kokushi_13()];
    let one = seq![spec_kokushi()];
    assert(both.drop_last() =~= one);
    assert(one.drop_last() =~= Seq::<Yaku>::empty());
    assert(hits(Seq::<Yaku>::empty(), hand, ctx) =~= Seq::empty());
    assert(!hand.spec_is_open() || !(hand is Kokushi));
    let first = hits(one, hand, ctx);
    let all = hits(both, hand, ctx);
    match hand {
        CompleteHand::Kokushi(tiles) => {
            assert(first =~= seq![(spec_kokushi(), Val::Yakuman)]);
            if occurrences(tiles@, ctx.agari) == 2 {
                assert(all =~= seq![
                    (spec_kokushi(), Val::Yakuman),
                    (spec_kokushi_13(), Val::DoubleYakuman),
                ]);
            } else {
                assert(all =~= first);
            }
        },
        _ => {
            assert(first =~= Seq::empty());
            assert(all =~= Seq::empty());
        },
    }
}

} // verus!
