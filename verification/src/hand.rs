//! Melds, the circumstances of a win, and the shapes of a finished hand.

use crate::tile::{Direction, Tile};
use vstd::prelude::*;

pub mod yaku;

verus! {

/// The seating positions of a player's opponents.
#[derive(Debug, Copy, Clone, Hash, PartialEq, Eq, PartialOrd, Ord, Structural)]
#[allow(missing_docs)]
pub enum Opponent {
    Right,
    Across,
    Left,
}

/// A location from which a tile can come, when used in a call or a win.
#[derive(Debug, Copy, Clone, Hash, PartialEq, Eq, PartialOrd, Ord, Structural)]
pub enum Location {
    /// The live wall; in other words, a player's normal draw for their turn.
    LiveWall,
    /// The dead wall, drawn from after a kan.
    DeadWall,
    /// Another player's discard.
    Discard(Opponent),
    /// A tile used in a kan by another player.
    Kan(Opponent),
}

impl Location {
    /// A tile is drawn when it comes from the live or the dead wall.
    pub open spec fn spec_is_drawn(self) -> bool {
        self is LiveWall || self is DeadWall
    }

    /// The seat that a claimed tile comes from.
    pub open spec fn spec_opponent(self) -> Option<Opponent> {
        match self {
            Location::Discard(o) | Location::Kan(o) => Some(o),
            _ => None,
        }
    }

    /// Returns `true` if the location corresponds to a tile drawn by the (potentially)
    /// winning player.
    #[verifier::when_used_as_spec(spec_is_drawn)]
    pub fn is_drawn(self) -> (r: bool)
        ensures
            r == self.spec_is_drawn(),
    {
        match self {
            Location::LiveWall | Location::DeadWall => true,
            _ => false,
        }
    }

    /// Returns the opponent, if any, to which the location corresponds.
    #[verifier::when_used_as_spec(spec_opponent)]
    pub fn opponent(self) -> (r: Option<Opponent>)
        ensures
            r == self.spec_opponent(),
    {
        match self {
            Location::Discard(o) | Location::Kan(o) => Some(o),
            _ => None,
        }
    }
}

/// The circumstances surrounding a winning hand. This includes all the information
/// required to determine if a win is legal and to score a hand, other than its contents.
#[derive(Debug, Copy, Clone)]
pub struct WinContext {
    /// The winning tile.
    pub agari: Tile,
    /// The location of the winning tile.
    pub source: Location,
    /// Whether the winner had declared riichi.
    pub riichi: bool,
    /// Whether the win occurred on the player's first turn after the start of a hand or
    /// after a riichi. A player declaring riichi has necessarily had a turn, so the two
    /// meanings never meet. Once any player has made a call after the start of the hand
    /// or the riichi, it is no longer the first turn.
    pub first_turn: bool,
    /// Whether the live wall is empty. When the location is a drawn tile, this means
    /// that the live wall was empty after the player's draw.
    pub wall_empty: bool,
    /// The current round wind.
    pub round: Direction,
    /// The player's seat wind. The player is the dealer if this is East.
    pub seat: Direction,
    /// The number of honba currently on the table.
    pub honba: u8,
}

/// The kinds of group which can be formed.
#[derive(Debug, Copy, Clone, Hash, PartialEq, Eq, PartialOrd, Ord, Structural)]
#[allow(missing_docs)]
pub enum GroupType {
    Sequence,
    Triplet,
    Quad,
}

/// The kinds of wait that a normal hand can have.
#[derive(Debug, Copy, Clone, Hash, PartialEq, Eq, PartialOrd, Ord, Structural)]
#[allow(missing_docs)]
pub enum Wait {
    Ryanmen,
    Kanchan,
    Penchan,
    Shanpon,
    Tanki,
}

/// The smallest of three numbers.
pub open spec fn min3(a: int, b: int, c: int) -> int {
    if a <= b && a <= c {
        a
    } else if b <= c {
        b
    } else {
        c
    }
}

/// The largest of three numbers.
pub open spec fn max3(a: int, b: int, c: int) -> int {
    if a >= b && a >= c {
        a
    } else if b >= c {
        b
    } else {
        c
    }
}

/// Whether three tiles, in any order, make a run: suited tiles of one suit whose
/// numbers are three consecutive ones.
pub open spec fn is_run(a: Tile, b: Tile, c: Tile) -> bool {
    &&& a is Suited
    &&& b.suit() == a.suit()
    &&& c.suit() == a.suit()
    &&& a.number() != b.number()
    &&& b.number() != c.number()
    &&& a.number() != c.number()
    &&& max3(a.number(), b.number(), c.number()) == min3(a.number(), b.number(), c.number()) + 2
}

/// What a group is, as plain values.
pub struct GroupView {
    /// The tiles of the group, in the order in which the group holds them.
    pub tiles: Seq<Tile>,
    /// The player off of whom a tile was called.
    pub off: Option<Opponent>,
    /// Whether the group was made by adding a tile to a called triplet.
    pub added: bool,
    /// Whether the group holds the winning tile, which is then its last tile.
    pub agari: bool,
}

impl GroupView {
    /// Whether all the tiles of the group are the same tile.
    pub open spec fn all_same(self) -> bool {
        forall|i: int| 0 <= i < self.tiles.len() ==> #[trigger] self.tiles[i] == self.tiles[0]
    }

    /// A group is three or four well-formed tiles: the same tile three or four times,
    /// or the three tiles of a run. Only a called group of four can have been made by
    /// adding a tile, and such a group never holds the winning tile.
    pub open spec fn wf(self) -> bool {
        &&& forall|i: int| 0 <= i < self.tiles.len() ==> (#[trigger] self.tiles[i]).wf()
        &&& self.tiles.len() == 3 || self.tiles.len() == 4
        &&& self.all_same() || (self.tiles.len() == 3 && is_run(
            self.tiles[0],
            self.tiles[1],
            self.tiles[2],
        ))
        &&& self.added ==> self.tiles.len() == 4 && self.off is Some && !self.agari
    }

    /// Four tiles are a quad; three tiles are a triplet when the first two are equal,
    /// and a sequence otherwise.
    pub open spec fn ty(self) -> GroupType {
        if self.tiles.len() == 4 {
            GroupType::Quad
        } else if self.tiles[0] == self.tiles[1] {
            GroupType::Triplet
        } else {
            GroupType::Sequence
        }
    }

    /// A group is open when a tile of it was called from another player.
    pub open spec fn is_open(self) -> bool {
        self.off is Some
    }

    /// The tile that names the group: the lowest tile of a sequence, and the repeated
    /// tile of a triplet or quad.
    pub open spec fn first_tile(self) -> Tile {
        let a = self.tiles[0];
        let b = self.tiles[1];
        let c = self.tiles[2];
        if self.ty() == GroupType::Sequence {
            if a.spec_rank() <= b.spec_rank() && a.spec_rank() <= c.spec_rank() {
                a
            } else if b.spec_rank() <= c.spec_rank() {
                b
            } else {
                c
            }
        } else {
            a
        }
    }

    /// Where the last of three tiles comes to stand when the three are sorted in
    /// ascending order, counted from 0: the number of tiles that rank below it.
    pub open spec fn sorted_pos(self) -> int {
        let last = self.tiles[2].spec_rank();
        (if self.tiles[0].spec_rank() < last {
            1int
        } else {
            0int
        }) + (if self.tiles[1].spec_rank() < last {
            1int
        } else {
            0int
        })
    }

    /// The wait shape of the group: none unless it holds the winning tile; `Shanpon`
    /// for a triplet or quad; for a sequence, by the sorted position and the number of
    /// the winning tile, which is the group's last tile. The table is kept as the
    /// rules of this library word it, though among three tiles no position 3 exists.
    pub open spec fn wait(self) -> Option<Wait> {
        if !self.agari {
            None
        } else if self.ty() != GroupType::Sequence {
            Some(Wait::Shanpon)
        } else {
            let pos = self.sorted_pos();
            let val = self.tiles[2].number();
            if pos == 2 {
                Some(Wait::Kanchan)
            } else if (pos == 1 && val == 7) || (pos == 3 && val == 3) {
                Some(Wait::Penchan)
            } else {
                Some(Wait::Ryanmen)
            }
        }
    }

    /// In a well-formed group the type tells the contents: a quad is one tile four
    /// times, a triplet one tile three times, and a sequence the three tiles of a run.
    pub proof fn lemma_ty(self)
        requires
            self.wf(),
        ensures
            self.ty() == GroupType::Quad <==> self.tiles.len() == 4,
            self.ty() == GroupType::Triplet <==> self.tiles.len() == 3 && self.all_same(),
            self.ty() == GroupType::Sequence <==> self.tiles.len() == 3 && is_run(
                self.tiles[0],
                self.tiles[1],
                self.tiles[2],
            ),
            self.ty() != GroupType::Sequence ==> self.all_same(),
    {
        if self.all_same() {
            assert(self.tiles[1] == self.tiles[0]);
        }
    }

    /// The first tile of a well-formed group is one of its tiles, and none of its
    /// tiles ranks below it.
    pub proof fn lemma_first_tile(self)
        requires
            self.wf(),
        ensures
            self.tiles.contains(self.first_tile()),
            forall|i: int|
                0 <= i < self.tiles.len() ==> self.first_tile().spec_rank() <= (
                #[trigger] self.tiles[i]).spec_rank(),
            self.ty() == GroupType::Sequence ==> self.first_tile().number() == min3(
                self.tiles[0].number(),
                self.tiles[1].number(),
                self.tiles[2].number(),
            ),
    {
        self.lemma_ty();
        if self.ty() != GroupType::Sequence {
            assert forall|i: int| 0 <= i < self.tiles.len() implies self.first_tile().spec_rank()
                <= (#[trigger] self.tiles[i]).spec_rank() by {
                assert(self.tiles[i] == self.tiles[0]);
            }
        }
    }

    /// However the three tiles of a sequence are sorted in ascending order, its last
    /// tile comes to stand at the sorted position, and nowhere else.
    pub proof fn lemma_sorted_pos(self, sorted: Seq<Tile>)
        requires
            self.wf(),
            self.ty() == GroupType::Sequence,
            sorted.len() == 3,
            forall|i: int| 0 <= i < 3 ==> sorted.contains(#[trigger] self.tiles[i]),
            forall|i: int, j: int|
                0 <= i < j < 3 ==> (#[trigger] sorted[i]).spec_rank() <= (#[trigger] sorted[j]).spec_rank(),
        ensures
            0 <= self.sorted_pos() <= 2,
            sorted[self.sorted_pos()] == self.tiles[2],
            forall|k: int| 0 <= k < 3 && sorted[k] == self.tiles[2] ==> k == self.sorted_pos(),
    {
        self.lemma_ty();
        let a = self.tiles[0];
        let b = self.tiles[1];
        let c = self.tiles[2];
        assert(a.wf() && b.wf() && c.wf());
        assert(sorted.contains(a) && sorted.contains(b) && sorted.contains(c));
        let ia = choose|i: int| 0 <= i < 3 && sorted[i] == a;
        let ib = choose|i: int| 0 <= i < 3 && sorted[i] == b;
        let ic = choose|i: int| 0 <= i < 3 && sorted[i] == c;
    }

    /// A triplet or quad that holds the winning tile always waits `Shanpon`.
    pub proof fn lemma_wait_of_set(self)
        requires
            self.wf(),
            self.agari,
            self.ty() == GroupType::Triplet || self.ty() == GroupType::Quad,
        ensures
            self.wait() == Some(Wait::Shanpon),
    {
    }

    /// A sequence that holds the winning tile waits `Kanchan` when the winning tile is
    /// its highest, `Penchan` when the winning tile is its middle one and a 7, and
    /// `Ryanmen` in every other case; the sorted position of the winning tile is its
    /// distance from the lowest tile, so never more than 2.
    pub proof fn lemma_wait_of_sequence(self)
        requires
            self.wf(),
            self.agari,
            self.ty() == GroupType::Sequence,
        ensures
            self.sorted_pos() == self.tiles[2].number() - self.first_tile().number(),
            0 <= self.sorted_pos() <= 2,
            self.wait() == Some(Wait::Kanchan) || self.wait() == Some(Wait::Penchan) || self.wait()
                == Some(Wait::Ryanmen),
            self.wait() == Some(Wait::Kanchan) <==> self.tiles[2].number()
                == self.first_tile().number() + 2,
            self.wait() == Some(Wait::Penchan) <==> self.tiles[2].number() == 7
                && self.first_tile().number() == 6,
            self.wait() == Some(Wait::Ryanmen) <==> !(self.tiles[2].number()
                == self.first_tile().number() + 2) && !(self.tiles[2].number() == 7
                && self.first_tile().number() == 6),
    {
        self.lemma_ty();
        self.lemma_first_tile();
        assert(self.tiles[0].wf() && self.tiles[1].wf() && self.tiles[2].wf());
    }
}

/// A group of tiles in a player's hand. It can represent both a called group and a
/// closed group that the player completed on their own.
#[derive(Debug, Hash, PartialEq, Eq, PartialOrd, Ord)]
pub struct Group {
    // The tiles of the group.
    tiles: Vec<Tile>,
    // The player off of whom a tile was called. If set, the tile called will be last in
    // the group, except possibly for an added tile.
    off: Option<Opponent>,
    // Whether this group was created by adding a tile to another group. If set, the
    // added tile will be last in the group.
    added: bool,
    // Whether this group contains the tile used to win the hand. In this case, the
    // winning tile will be last in the group (including when it is called). A group
    // cannot be both the agari and an added group at the same time.
    agari: bool,
}

impl View for Group {
    type V = GroupView;

    closed spec fn view(&self) -> GroupView {
        GroupView { tiles: self.tiles@, off: self.off, added: self.added, agari: self.agari }
    }
}

impl Clone for Group {
    fn clone(&self) -> (r: Group)
        ensures
            r@ == self@,
    {
        proof {
            use_type_invariant(self);
        }
        let mut tiles: Vec<Tile> = Vec::new();
        let mut i: usize = 0;
        while i < self.tiles.len()
            invariant
                i <= self.tiles.len(),
                tiles@ == self.tiles@.take(i as int),
            decreases self.tiles.len() - i,
        {
            tiles.push(self.tiles[i]);
            proof {
                assert(self.tiles@.take(i + 1) =~= self.tiles@.take(i as int).push(self.tiles@[i as int]));
            }
            i += 1;
        }
        proof {
            assert(self.tiles@.take(self.tiles.len() as int) =~= self.tiles@);
        }
        Group { tiles, off: self.off, added: self.added, agari: self.agari }
    }
}

/// Returns whether three tiles, in any order, make a run.
fn run_of_three(a: Tile, b: Tile, c: Tile) -> (r: bool)
    ensures
        r == is_run(a, b, c),
        a.wf() && b.wf() && c.wf(),
{
    let va = a.val();
    let vb = b.val();
    let vc = c.val();
    match (a, b, c) {
        (Tile::Suited(sa, x), Tile::Suited(sb, y), Tile::Suited(sc, z)) => {
            let p: u8 = x.val();
            let q: u8 = y.val();
            let s: u8 = z.val();
            let lo: u8 = if p <= q && p <= s {
                p
            } else if q <= s {
                q
            } else {
                s
            };
            let hi: u8 = if p >= q && p >= s {
                p
            } else if q >= s {
                q
            } else {
                s
            };
            sa == sb && sa == sc && p != q && q != s && p != s && hi == lo + 2
        },
        _ => false,
    }
}

impl Group {
    /// Every group that executable code holds is well formed.
    #[verifier::type_invariant]
    pub open spec fn wf(self) -> bool {
        self@.wf()
    }

    /// Makes a group of the given tiles, or `None` where they make none: where they
    /// are not the same tile three or four times nor the three tiles of a run, and
    /// where the group is said to be made by adding a tile without being a called
    /// group of four that holds no winning tile.
    pub fn new(tiles: Vec<Tile>, off: Option<Opponent>, added: bool, agari: bool) -> (r: Option<
        Group,
    >)
        ensures
            r is Some <==> (GroupView { tiles: tiles@, off, added, agari }).wf(),
            r is Some ==> r->0@ == (GroupView { tiles: tiles@, off, added, agari }),
    {
        let ghost model = GroupView { tiles: tiles@, off, added, agari };
        let n: usize = tiles.len();
        if n != 3 && n != 4 {
            return None;
        }
        if added && (n != 4 || off.is_none() || agari) {
            return None;
        }
        let a: Tile = tiles[0];
        let run: bool = run_of_three(a, tiles[1], tiles[2]);
        let mut same: bool = true;
        let mut i: usize = 1;
        while i < n
            invariant
                1 <= i <= n,
                n == tiles.len(),
                a == tiles@[0],
                a.wf(),
                same <==> forall|j: int| 0 <= j < i ==> #[trigger] tiles@[j] == a,
            decreases n - i,
        {
            if !(tiles[i] == a) {
                same = false;
            }
            i += 1;
        }
        if same || (n == 3 && run) {
            proof {
                if same {
                    assert forall|j: int| 0 <= j < n implies (#[trigger] tiles@[j]).wf() by {
                        assert(tiles@[j] == a);
                    }
                }
            }
            Some(Group { tiles, off, added, agari })
        } else {
            None
        }
    }

    /// Returns `true` if any tiles for this group came from another player.
    pub fn is_open(&self) -> (r: bool)
        ensures
            r == self@.is_open(),
    {
        self.off.is_some()
    }

    /// Returns `true` if the group contains the winning tile.
    pub fn has_agari(&self) -> (r: bool)
        ensures
            r == self@.agari,
    {
        self.agari
    }

    /// Returns the type of the group.
    pub fn ty(&self) -> (r: GroupType)
        ensures
            r == self@.ty(),
            self@.wf(),
    {
        proof {
            use_type_invariant(self);
        }
        if self.tiles.len() == 4 {
            GroupType::Quad
        } else if self.tiles[0] == self.tiles[1] {
            GroupType::Triplet
        } else {
            GroupType::Sequence
        }
    }

    /// Returns all the tiles of the group.
    pub fn tiles(&self) -> (r: &[Tile])
        ensures
            r@ == self@.tiles,
    {
        self.tiles.as_slice()
    }

    /// Returns either a single tile in a triplet/quad, or the first tile in a sequence.
    pub fn first_tile(&self) -> (r: Tile)
        ensures
            r == self@.first_tile(),
            self@.tiles.contains(r),
            forall|i: int|
                0 <= i < self@.tiles.len() ==> r.spec_rank() <= (#[trigger] self@.tiles[i]).spec_rank(),
    {
        proof {
            use_type_invariant(self);
            self@.lemma_first_tile();
        }
        match self.ty() {
            GroupType::Sequence => {
                let a: Tile = self.tiles[0];
                let b: Tile = self.tiles[1];
                let c: Tile = self.tiles[2];
                if a <= b && a <= c {
                    a
                } else if b <= c {
                    b
                } else {
                    c
                }
            },
            _ => self.tiles[0],
        }
    }

    /// Returns the wait shape of the group, if it is an agari group.
    pub fn wait(&self) -> (r: Option<Wait>)
        ensures
            r == self@.wait(),
            r is Some <==> self@.agari,
    {
        proof {
            use_type_invariant(self);
            self@.lemma_ty();
        }
        if !self.agari {
            None
        } else {
            match self.ty() {
                GroupType::Sequence => {
                    let agari: Tile = self.tiles[2];
                    let val: u8 = match agari {
                        Tile::Suited(_, v) => v.val(),
                        _ => 0,
                    };
                    let mut pos: u8 = 0;
                    if self.tiles[0] < agari {
                        pos += 1;
                    }
                    if self.tiles[1] < agari {
                        pos += 1;
                    }
                    if pos == 2 {
                        Some(Wait::Kanchan)
                    } else if pos == 1 && val == 7 {
                        Some(Wait::Penchan)
                    } else {
                        Some(Wait::Ryanmen)
                    }
                },
                _ => Some(Wait::Shanpon),
            }
        }
    }
}

/// A hand of tiles held by a player during the game, including any called groups.
#[derive(Debug, Clone, Hash, PartialEq, Eq, PartialOrd, Ord)]
#[allow(dead_code)]
pub struct Hand {
    loose: Vec<Tile>,
    groups: Vec<Group>,
}

/// A complete hand of fourteen tiles, arranged into one of the shapes that make a
/// winning hand.
#[derive(Debug, Clone, Hash, PartialEq, Eq, PartialOrd, Ord)]
pub enum CompleteHand {
    /// Thirteen orphans: the thirteen terminal and honour kinds, one of them twice.
    Kokushi([Tile; 14]),
    /// Seven pairs of seven different kinds.
    SevenPairs([[Tile; 2]; 7]),
    /// A normal hand of four groups and a pair. At most one group has the agari bit set.
    Standard([Group; 4], [Tile; 2]),
}

/// The tiles of which thirteen orphans are made: the terminals and the honours.
pub open spec fn is_orphan(t: Tile) -> bool {
    t.spec_is_terminal() || t.spec_is_honour()
}

/// How many entries of `s` are the tile `t`.
pub open spec fn occurrences(s: Seq<Tile>, t: Tile) -> nat
    decreases s.len(),
{
    if s.len() == 0 {
        0
    } else {
        occurrences(s.drop_last(), t) + if s.last() == t {
            1nat
        } else {
            0nat
        }
    }
}

/// A tile that occurs among `s` is an entry of `s`.
pub proof fn lemma_occurrences_contains(s: Seq<Tile>, t: Tile)
    ensures
        occurrences(s, t) > 0 <==> s.contains(t),
        occurrences(s, t) <= s.len(),
    decreases s.len(),
{
    if s.len() > 0 {
        let rest = s.drop_last();
        lemma_occurrences_contains(rest, t);
        if rest.contains(t) {
            let i = choose|i: int| 0 <= i < rest.len() && rest[i] == t;
            assert(s[i] == t);
        }
        if s.last() == t {
            assert(s[s.len() - 1] == t);
        }
        if s.contains(t) {
            let i = choose|i: int| 0 <= i < s.len() && s[i] == t;
            if i < s.len() - 1 {
                assert(rest[i] == t);
            }
        }
    }
}

/// Whether `d` is the kind that fourteen tiles hold twice while they hold every
/// other terminal and honour kind once.
pub open spec fn is_kokushi_pair(tiles: [Tile; 14], d: Tile) -> bool {
    &&& d.wf()
    &&& is_orphan(d)
    &&& occurrences(tiles@, d) == 2
    &&& forall|t: Tile|
        t.wf() && is_orphan(t) && t != d ==> #[trigger] occurrences(tiles@, t) == 1
}

/// Fourteen tiles are thirteen orphans when each is a terminal or an honour, and one
/// of the thirteen terminal and honour kinds stands twice among them and each of
/// the others once.
pub open spec fn is_kokushi(tiles: [Tile; 14]) -> bool {
    &&& forall|i: int| 0 <= i < 14 ==> (#[trigger] tiles[i]).wf() && is_orphan(tiles[i])
    &&& exists|d: Tile| #[trigger] is_kokushi_pair(tiles, d)
}

/// Among thirteen orphans exactly the tile of the pair occurs twice.
pub proof fn lemma_kokushi_pair(tiles: [Tile; 14], d: Tile, t: Tile)
    requires
        is_kokushi(tiles),
        is_kokushi_pair(tiles, d),
        t.wf(),
    ensures
        occurrences(tiles@, t) == 2 <==> t == d,
        tiles@.contains(t) <==> is_orphan(t),
{
    lemma_occurrences_contains(tiles@, t);
    if tiles@.contains(t) {
        let i = choose|i: int| 0 <= i < 14 && tiles@[i] == t;
        assert(is_orphan(tiles[i]));
    }
}

/// Seven pairs are seven times two of the same tile, of seven different kinds.
pub open spec fn is_seven_pairs(pairs: [[Tile; 2]; 7]) -> bool {
    &&& forall|i: int| 0 <= i < 7 ==> (#[trigger] pairs[i])[0].wf() && pairs[i][0] == pairs[i][1]
    &&& forall|i: int, j: int| 0 <= i < j < 7 ==> (#[trigger] pairs[i])[0] != (#[trigger] pairs[j])[0]
}

/// Four groups and a pair are a standard hand when the groups are well formed, the
/// pair is two of the same tile, and at most one group holds the winning tile.
pub open spec fn is_standard(groups: [Group; 4], pair: [Tile; 2]) -> bool {
    &&& forall|i: int| 0 <= i < 4 ==> (#[trigger] groups[i])@.wf()
    &&& pair[0].wf()
    &&& pair[0] == pair[1]
    &&& forall|i: int, j: int|
        0 <= i < j < 4 ==> !((#[trigger] groups[i])@.agari && (#[trigger] groups[j])@.agari)
}

impl CompleteHand {
    /// A hand is open when one of its groups is; the two shapes without groups are
    /// closed.
    pub open spec fn spec_is_open(self) -> bool {
        match self {
            CompleteHand::Standard(groups, _) => exists|i: int|
                0 <= i < 4 && (#[trigger] groups[i])@.is_open(),
            _ => false,
        }
    }

    /// Whether the hand has the structure that its shape stands for.
    pub open spec fn wf(self) -> bool {
        match self {
            CompleteHand::Kokushi(tiles) => is_kokushi(tiles),
            CompleteHand::SevenPairs(pairs) => is_seven_pairs(pairs),
            CompleteHand::Standard(groups, pair) => is_standard(groups, pair),
        }
    }

    /// Returns `true` if any group of the hand holds a tile called from another
    /// player.
    pub fn is_open(&self) -> (r: bool)
        ensures
            r == self.spec_is_open(),
    {
        match self {
            CompleteHand::Standard(groups, _) => any_open(groups),
            _ => false,
        }
    }

    /// Returns `true` if the hand has the structure that its shape stands for, so
    /// that a malformed hand can be told apart before it is judged.
    pub fn is_well_formed(&self) -> (r: bool)
        ensures
            r == self.wf(),
    {
        match self {
            CompleteHand::Kokushi(tiles) => kokushi_ok(tiles),
            CompleteHand::SevenPairs(pairs) => seven_pairs_ok(pairs),
            CompleteHand::Standard(groups, pair) => standard_ok(groups, pair),
        }
    }
}

/// Returns how many of fourteen tiles are the tile `t`.
pub fn count_of(tiles: &[Tile; 14], t: Tile) -> (r: usize)
    ensures
        r == occurrences(tiles@, t),
        r <= 14,
{
    let mut count: usize = 0;
    let mut i: usize = 0;
    while i < 14
        invariant
            i <= 14,
            count <= i,
            count == occurrences(tiles@.take(i as int), t),
        decreases 14 - i,
    {
        proof {
            assert(tiles@.take(i + 1).drop_last() =~= tiles@.take(i as int));
        }
        if tiles[i] == t {
            count += 1;
        }
        i += 1;
    }
    proof {
        assert(tiles@.take(14) =~= tiles@);
    }
    count
}

/// Returns whether fourteen tiles are thirteen orphans.
fn kokushi_ok(tiles: &[Tile; 14]) -> (r: bool)
    ensures
        r == is_kokushi(*tiles),
{
    let mut i: usize = 0;
    while i < 14
        invariant
            i <= 14,
            forall|j: int| 0 <= j < i ==> (#[trigger] tiles[j]).wf() && is_orphan(tiles[j]),
        decreases 14 - i,
    {
        let t: Tile = tiles[i];
        let terminal: bool = t.is_terminal();
        if !terminal && !t.is_honour() {
            return false;
        }
        let _ = t.val();
        i += 1;
    }
    let kinds: Vec<Tile> = Tile::all();
    let mut pair: Option<Tile> = None;
    let mut k: usize = 0;
    while k < 34
        invariant
            k <= 34,
            Tile::is_enumeration(kinds@),
            match pair {
                None => forall|j: int|
                    0 <= j < k && is_orphan(#[trigger] kinds@[j]) ==> occurrences(tiles@, kinds@[j])
                        == 1,
                Some(d) => {
                    &&& d.wf()
                    &&& is_orphan(d)
                    &&& d.spec_rank() < k
                    &&& occurrences(tiles@, d) == 2
                    &&& forall|j: int|
                        0 <= j < k && is_orphan(#[trigger] kinds@[j]) && kinds@[j] != d
                            ==> occurrences(tiles@, kinds@[j]) == 1
                },
            },
        decreases 34 - k,
    {
        let t: Tile = kinds[k];
        let terminal: bool = t.is_terminal();
        if terminal || t.is_honour() {
            let c: usize = count_of(tiles, t);
            if c == 2 && pair.is_none() {
                pair = Some(t);
            } else if c != 1 {
                proof {
                    if is_kokushi(*tiles) {
                        let d = choose|d: Tile| #[trigger] is_kokushi_pair(*tiles, d);
                        if d == t && pair is Some {
                            assert(occurrences(tiles@, pair->0) == 1);
                        } else if d != t {
                            assert(occurrences(tiles@, t) == 1);
                        }
                    }
                }
                return false;
            }
        }
        k += 1;
    }
    match pair {
        Some(d) => {
            proof {
                assert forall|t: Tile| t.wf() && is_orphan(t) && t != d implies #[trigger] occurrences(
                    tiles@,
                    t,
                ) == 1 by {
                    Tile::lemma_enumeration_complete(kinds@, t);
                    assert(kinds@[t.spec_rank()] == t);
                }
                assert(is_kokushi_pair(*tiles, d));
            }
            true
        },
        None => {
            proof {
                if is_kokushi(*tiles) {
                    let d = choose|d: Tile| #[trigger] is_kokushi_pair(*tiles, d);
                    Tile::lemma_enumeration_complete(kinds@, d);
                    assert(kinds@[d.spec_rank()] == d);
                }
            }
            false
        },
    }
}

/// Returns whether seven pairs of tiles are seven pairs of different kinds.
fn seven_pairs_ok(pairs: &[[Tile; 2]; 7]) -> (r: bool)
    ensures
        r == is_seven_pairs(*pairs),
{
    let mut i: usize = 0;
    while i < 7
        invariant
            i <= 7,
            forall|a: int| 0 <= a < i ==> (#[trigger] pairs[a])[0].wf() && pairs[a][0] == pairs[a][1],
            forall|a: int, b: int|
                0 <= a < b < i ==> (#[trigger] pairs[a])[0] != (#[trigger] pairs[b])[0],
        decreases 7 - i,
    {
        let t: Tile = pairs[i][0];
        let _ = t.val();
        if !(t == pairs[i][1]) {
            return false;
        }
        let mut j: usize = 0;
        while j < i
            invariant
                j <= i,
                i < 7,
                t == pairs[i as int][0],
                forall|a: int| 0 <= a < j ==> (#[trigger] pairs[a])[0] != t,
            decreases i - j,
        {
            if pairs[j][0] == t {
                return false;
            }
            j += 1;
        }
        i += 1;
    }
    true
}

/// Returns whether four groups and a pair are a standard hand.
fn standard_ok(groups: &[Group; 4], pair: &[Tile; 2]) -> (r: bool)
    ensures
        r == is_standard(*groups, *pair),
{
    let _ = pair[0].val();
    let mut winners: usize = 0;
    let mut i: usize = 0;
    while i < 4
        invariant
            i <= 4,
            winners <= i,
            forall|a: int| 0 <= a < i ==> (#[trigger] groups[a])@.wf(),
            winners == 0 ==> forall|a: int| 0 <= a < i ==> !(#[trigger] groups[a])@.agari,
            winners == 1 ==> exists|w: int|
                0 <= w < i && (#[trigger] groups[w])@.agari && forall|a: int|
                    0 <= a < i && a != w ==> !(#[trigger] groups[a])@.agari,
            winners >= 2 ==> exists|w: int, x: int|
                0 <= w < x < i && (#[trigger] groups[w])@.agari && (#[trigger] groups[x])@.agari,
        decreases 4 - i,
    {
        let g: &Group = &groups[i];
        proof {
            use_type_invariant(g);
        }
        if g.has_agari() {
            winners += 1;
        }
        i += 1;
    }
    pair[0] == pair[1] && winners <= 1
}

/// Returns whether one of four groups is open.
fn any_open(groups: &[Group; 4]) -> (r: bool)
    ensures
        r == exists|i: int| 0 <= i < 4 && (#[trigger] groups[i])@.is_open(),
{
    let mut i: usize = 0;
    while i < 4
        invariant
            i <= 4,
            forall|j: int| 0 <= j < i ==> !(#[trigger] groups[j])@.is_open(),
        decreases 4 - i,
    {
        if groups[i].is_open() {
            proof {
                assert(groups[i as int]@.is_open());
            }
            return true;
        }
        i += 1;
    }
    false
}

} // verus!
