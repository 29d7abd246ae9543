//! Tiles: suits, winds, dragons, tile values, and the relations between them.

use std::cmp::Ordering;
use vstd::prelude::*;
use vstd::std_specs::cmp::PartialOrdSpec;

verus! {

/// The three suits of numbered tiles.
#[derive(Debug, Copy, Clone, Hash, PartialEq, Eq, PartialOrd, Ord, Structural)]
#[allow(missing_docs)]
pub enum Suit {
    Manzu,
    Souzu,
    Pinzu,
}

impl Suit {
    /// Position of the suit in the canonical order.
    pub open spec fn ordinal(self) -> int {
        match self {
            Suit::Manzu => 0,
            Suit::Souzu => 1,
            Suit::Pinzu => 2,
        }
    }
}

/// The four cardinal directions, used for seating and for wind tiles.
#[derive(Debug, Copy, Clone, Hash, PartialEq, Eq, PartialOrd, Ord, Structural)]
#[allow(missing_docs)]
pub enum Direction {
    East,
    South,
    West,
    North,
}

impl Direction {
    /// Position of the direction in the canonical order.
    pub open spec fn ordinal(self) -> int {
        match self {
            Direction::East => 0,
            Direction::South => 1,
            Direction::West => 2,
            Direction::North => 3,
        }
    }

    /// The next direction around the table: East, South, West, North, East.
    pub open spec fn spec_next(self) -> Direction {
        match self {
            Direction::East => Direction::South,
            Direction::South => Direction::West,
            Direction::West => Direction::North,
            Direction::North => Direction::East,
        }
    }

    /// Get the next direction around the table, looping around. The winds follow the
    /// traditional ordering, even though counterclockwise play mirrors them from the
    /// cardinal directions.
    #[verifier::when_used_as_spec(spec_next)]
    pub fn next(self) -> (r: Direction)
        ensures
            r == self.spec_next(),
    {
        match self {
            Direction::East => Direction::South,
            Direction::South => Direction::West,
            Direction::West => Direction::North,
            Direction::North => Direction::East,
        }
    }

    /// The winds form one cycle of length four: the four successive images of a
    /// direction are pairwise distinct, and the fourth step returns to the start.
    pub proof fn lemma_next_cycle(d: Direction)
        ensures
            d.next().next().next().next() == d,
            d.next() != d,
            d.next().next() != d,
            d.next().next().next() != d,
            d.next().ordinal() == (d.ordinal() + 1) % 4,
    {
    }
}

/// The three colours of dragon tiles.
#[derive(Debug, Copy, Clone, Hash, PartialEq, Eq, PartialOrd, Ord, Structural)]
#[allow(missing_docs)]
pub enum Dragon {
    White,
    Green,
    Red,
}

impl Dragon {
    /// Position of the dragon in the canonical order.
    pub open spec fn ordinal(self) -> int {
        match self {
            Dragon::White => 0,
            Dragon::Green => 1,
            Dragon::Red => 2,
        }
    }

    /// The next dragon in order: White, Green, Red, White.
    pub open spec fn spec_next(self) -> Dragon {
        match self {
            Dragon::White => Dragon::Green,
            Dragon::Green => Dragon::Red,
            Dragon::Red => Dragon::White,
        }
    }

    /// Get the next dragon tile in order, looping around. This ordering is mostly used
    /// only for dora indication.
    #[verifier::when_used_as_spec(spec_next)]
    pub fn next(self) -> (r: Dragon)
        ensures
            r == self.spec_next(),
    {
        match self {
            Dragon::White => Dragon::Green,
            Dragon::Green => Dragon::Red,
            Dragon::Red => Dragon::White,
        }
    }

    /// The dragons form one cycle of length three: the three successive images of a
    /// dragon are pairwise distinct, and the third step returns to the start.
    pub proof fn lemma_next_cycle(d: Dragon)
        ensures
            d.next().next().next() == d,
            d.next() != d,
            d.next().next() != d,
            d.next().ordinal() == (d.ordinal() + 1) % 3,
    {
    }
}

/// The value of a suited tile. It is a separate type so that a tile always
/// corresponds to a real tile value: every `Val` that executable code holds is
/// between 1 and 9.
#[derive(Debug, Copy, Clone, Hash, PartialEq, Eq, PartialOrd, Ord, Structural)]
pub struct Val(u8);

impl View for Val {
    type V = int;

    closed spec fn view(&self) -> int {
        self.0 as int
    }
}

impl Val {
    /// A value is well formed when it lies between 1 and 9.
    #[verifier::type_invariant]
    pub open spec fn wf(self) -> bool {
        1 <= self@ <= 9
    }

    /// The value that stands for the number `n`.
    pub closed spec fn of(n: int) -> Val {
        Val(n as u8)
    }

    /// `of` is the inverse of the view on the numbers that a `u8` holds, and so
    /// yields a well-formed value for each of 1 to 9.
    pub proof fn lemma_of(n: int)
        requires
            0 <= n <= 255,
        ensures
            Val::of(n)@ == n,
            1 <= n <= 9 ==> Val::of(n).wf(),
    {
    }

    /// Two values with the same number are the same value.
    pub proof fn lemma_view_injective(a: Val, b: Val)
        requires
            a@ == b@,
        ensures
            a == b,
    {
    }

    /// Construct a value. The argument must be between 1 and 9, inclusive.
    pub fn new(n: u8) -> (v: Val)
        requires
            1 <= n <= 9,
        ensures
            v@ == n,
            v == Val::of(n as int),
            v.wf(),
    {
        Val(n)
    }

    /// Construct a value from any number: `None` unless it is between 1 and 9.
    pub fn try_new(n: u8) -> (r: Option<Val>)
        ensures
            r is Some <==> 1 <= n <= 9,
            r is Some ==> r->0 == Val::of(n as int) && r->0@ == n && r->0.wf(),
    {
        if 1 <= n && n <= 9 {
            Some(Val(n))
        } else {
            None
        }
    }

    /// Returns the numeric value.
    pub fn val(self) -> (n: u8)
        ensures
            n == self@,
            1 <= n <= 9,
    {
        proof {
            use_type_invariant(&self);
        }
        self.0
    }
}

impl From<Val> for u8 {
    fn from(v: Val) -> (n: u8) {
        v.val()
    }
}

impl vstd::std_specs::convert::FromSpecImpl<Val> for u8 {
    open spec fn obeys_from_spec() -> bool {
        true
    }

    open spec fn from_spec(v: Val) -> u8 {
        v@ as u8
    }
}

/// A single mahjong tile. This accounts only for tile values, not for additional
/// properties that a tile may have, such as being red dora.
#[derive(Debug, Copy, Clone, Hash, PartialEq, Eq, Ord, Structural)]
#[allow(missing_docs)]
pub enum Tile {
    Suited(Suit, Val),
    Wind(Direction),
    Dragon(Dragon),
}

impl PartialOrd for Tile {
    /// Tiles are ordered as the canonical order of the kinds has them: by suit or
    /// kind, then by value.
    fn partial_cmp(&self, other: &Tile) -> (r: Option<Ordering>) {
        let a: u8 = self.rank();
        let b: u8 = other.rank();
        if a < b {
            Some(Ordering::Less)
        } else if a == b {
            Some(Ordering::Equal)
        } else {
            Some(Ordering::Greater)
        }
    }
}

impl vstd::std_specs::cmp::PartialOrdSpecImpl for Tile {
    open spec fn obeys_partial_cmp_spec() -> bool {
        true
    }

    open spec fn partial_cmp_spec(&self, other: &Tile) -> Option<Ordering> {
        if self.spec_rank() < other.spec_rank() {
            Some(Ordering::Less)
        } else if self.spec_rank() == other.spec_rank() {
            Some(Ordering::Equal)
        } else {
            Some(Ordering::Greater)
        }
    }
}

impl Tile {
    /// A tile is well formed when its value, if it has one, is.
    pub open spec fn wf(self) -> bool {
        match self {
            Tile::Suited(_, v) => v.wf(),
            _ => true,
        }
    }

    /// The suit of a suited tile.
    pub open spec fn suit(self) -> Option<Suit> {
        match self {
            Tile::Suited(s, _) => Some(s),
            _ => None,
        }
    }

    /// The number on a suited tile, and 0 for an honour tile.
    pub open spec fn number(self) -> int {
        match self {
            Tile::Suited(_, v) => v@,
            _ => 0,
        }
    }

    /// Position of the tile in the canonical order of the 34 kinds: Manzu 1 to 9,
    /// Souzu 1 to 9, Pinzu 1 to 9, the winds from East to North, then the White,
    /// Green and Red dragons.
    pub open spec fn spec_rank(self) -> int {
        match self {
            Tile::Suited(s, v) => 9 * s.ordinal() + v@ - 1,
            Tile::Wind(w) => 27 + w.ordinal(),
            Tile::Dragon(d) => 31 + d.ordinal(),
        }
    }

    /// The tile that `self` indicates as dora.
    pub open spec fn spec_indicated_dora(self) -> Tile {
        match self {
            Tile::Suited(s, v) => Tile::Suited(
                s,
                Val::of(
                    if v@ == 9 {
                        1
                    } else {
                        v@ + 1
                    },
                ),
            ),
            Tile::Wind(w) => Tile::Wind(w.spec_next()),
            Tile::Dragon(d) => Tile::Dragon(d.spec_next()),
        }
    }

    /// The value of a suited tile.
    pub open spec fn spec_val(self) -> Option<Val> {
        match self {
            Tile::Suited(_, v) => Some(v),
            _ => None,
        }
    }

    /// The next tile in a run: none after a 9, and none for an honour tile.
    pub open spec fn spec_following(self) -> Option<Tile> {
        match self {
            Tile::Suited(_, v) => if v@ == 9 {
                None
            } else {
                Some(self.spec_indicated_dora())
            },
            _ => None,
        }
    }

    /// Whether `self` is the tile that comes after `t` in a run.
    pub open spec fn spec_follows(self, t: Tile) -> bool {
        t.spec_following() == Some(self)
    }

    /// Dragons always count; a wind counts when it is the round's or the seat's.
    pub open spec fn spec_is_yakuhai(self, round: Direction, seat: Direction) -> bool {
        match self {
            Tile::Dragon(_) => true,
            Tile::Wind(w) => w == round || w == seat,
            _ => false,
        }
    }

    /// The green tiles: the green dragon, and Souzu 2, 3, 4, 6 and 8.
    pub open spec fn spec_is_green(self) -> bool {
        match self {
            Tile::Dragon(d) => d == Dragon::Green,
            Tile::Suited(s, v) => s == Suit::Souzu && (v@ == 2 || v@ == 3 || v@ == 4 || v@ == 6
                || v@ == 8),
            _ => false,
        }
    }

    /// The honour tiles: winds and dragons.
    pub open spec fn spec_is_honour(self) -> bool {
        self is Wind || self is Dragon
    }

    /// The terminal tiles: a suited 1 or 9.
    pub open spec fn spec_is_terminal(self) -> bool {
        match self {
            Tile::Suited(_, v) => v@ == 1 || v@ == 9,
            _ => false,
        }
    }

    /// The tile after `self` in the canonical order, if `self` is not the last.
    pub open spec fn spec_next_kind(self) -> Option<Tile> {
        match self {
            Tile::Suited(Suit::Manzu, v) if v@ == 9 => Some(Tile::Suited(Suit::Souzu, Val::of(1))),
            Tile::Suited(Suit::Souzu, v) if v@ == 9 => Some(Tile::Suited(Suit::Pinzu, Val::of(1))),
            Tile::Suited(Suit::Pinzu, v) if v@ == 9 => Some(Tile::Wind(Direction::East)),
            Tile::Wind(Direction::North) => Some(Tile::Dragon(Dragon::White)),
            Tile::Dragon(Dragon::Red) => None,
            _ => Some(self.spec_indicated_dora()),
        }
    }

    /// Whether `s` lists the 34 tile kinds in the canonical order: its entry at
    /// each position is the well-formed tile of that rank.
    pub open spec fn is_enumeration(s: Seq<Tile>) -> bool {
        &&& s.len() == 34
        &&& forall|i: int| 0 <= i < 34 ==> (#[trigger] s[i]).wf() && s[i].spec_rank() == i
    }

    /// Returns the position of the tile in the canonical order of the 34 kinds. A
    /// tile that executable code holds is always well formed, and a caller learns
    /// so here.
    pub fn rank(self) -> (r: u8)
        ensures
            r == self.spec_rank(),
            r < 34,
            self.wf(),
    {
        match self {
            Tile::Suited(Suit::Manzu, v) => v.val() - 1,
            Tile::Suited(Suit::Souzu, v) => v.val() + 8,
            Tile::Suited(Suit::Pinzu, v) => v.val() + 17,
            Tile::Wind(Direction::East) => 27,
            Tile::Wind(Direction::South) => 28,
            Tile::Wind(Direction::West) => 29,
            Tile::Wind(Direction::North) => 30,
            Tile::Dragon(Dragon::White) => 31,
            Tile::Dragon(Dragon::Green) => 32,
            Tile::Dragon(Dragon::Red) => 33,
        }
    }

    /// Returns the tile that this tile indicates as dora. That is, if `self` is a dora
    /// indicator, `indicated_dora` is the dora tile.
    #[verifier::when_used_as_spec(spec_indicated_dora)]
    pub fn indicated_dora(self) -> (r: Tile)
        ensures
            r == self.spec_indicated_dora(),
            r.wf(),
    {
        match self {
            Tile::Suited(s, v) => {
                let n: u8 = v.val();
                if n == 9 {
                    Tile::Suited(s, Val(1))
                } else {
                    Tile::Suited(s, Val(n + 1))
                }
            },
            Tile::Wind(w) => Tile::Wind(w.next()),
            Tile::Dragon(d) => Tile::Dragon(d.next()),
        }
    }

    /// Returns the value of a suited tile. A tile that executable code holds is
    /// always well formed, and a caller learns so here.
    #[verifier::when_used_as_spec(spec_val)]
    pub fn val(self) -> (r: Option<Val>)
        ensures
            r == self.spec_val(),
            self.wf(),
    {
        match self {
            Tile::Suited(_, v) => {
                proof {
                    use_type_invariant(&v);
                }
                Some(v)
            },
            _ => None,
        }
    }

    /// Returns `true` if `self` follows `t` in sequence.
    #[verifier::when_used_as_spec(spec_follows)]
    pub fn follows(self, t: Tile) -> (r: bool)
        ensures
            r == self.spec_follows(t),
    {
        match t.following() {
            Some(n) => n == self,
            None => false,
        }
    }

    /// Returns the next tile in sequence. Sequence, in this case, refers only to runs,
    /// not to dora.
    #[verifier::when_used_as_spec(spec_following)]
    pub fn following(self) -> (r: Option<Tile>)
        ensures
            r == self.spec_following(),
            r is Some ==> r->0.wf(),
    {
        match self {
            Tile::Suited(_, v) => {
                if v.val() == 9 {
                    None
                } else {
                    Some(self.indicated_dora())
                }
            },
            _ => None,
        }
    }

    /// Returns `true` if this tile is yakuhai, given the relevant round and seat winds.
    #[verifier::when_used_as_spec(spec_is_yakuhai)]
    pub fn is_yakuhai(self, round: Direction, seat: Direction) -> (r: bool)
        ensures
            r == self.spec_is_yakuhai(round, seat),
    {
        match self {
            Tile::Dragon(_) => true,
            Tile::Wind(w) => w == round || w == seat,
            _ => false,
        }
    }

    /// Returns `true` if this tile is green.
    #[verifier::when_used_as_spec(spec_is_green)]
    pub fn is_green(self) -> (r: bool)
        ensures
            r == self.spec_is_green(),
    {
        match self {
            Tile::Dragon(Dragon::Green) => true,
            Tile::Suited(Suit::Souzu, v) => {
                let n: u8 = v.val();
                n == 2 || n == 3 || n == 4 || n == 6 || n == 8
            },
            _ => false,
        }
    }

    /// Returns `true` if this is an honour tile: a wind or a dragon.
    #[verifier::when_used_as_spec(spec_is_honour)]
    pub fn is_honour(self) -> (r: bool)
        ensures
            r == self.spec_is_honour(),
    {
        match self {
            Tile::Dragon(_) | Tile::Wind(_) => true,
            _ => false,
        }
    }

    /// Returns `true` if this is a terminal tile: a suited 1 or 9.
    #[verifier::when_used_as_spec(spec_is_terminal)]
    pub fn is_terminal(self) -> (r: bool)
        ensures
            r == self.spec_is_terminal(),
    {
        match self {
            Tile::Suited(_, v) => {
                let n: u8 = v.val();
                n == 1 || n == 9
            },
            _ => false,
        }
    }

    /// Returns the tile after `self` in the canonical order, or `None` for the last
    /// kind, the red dragon.
    #[verifier::when_used_as_spec(spec_next_kind)]
    pub fn next_kind(self) -> (r: Option<Tile>)
        ensures
            r == self.spec_next_kind(),
            r is None <==> self == Tile::Dragon(Dragon::Red),
            r is Some ==> r->0.wf(),
            self.wf() && r is Some ==> r->0.spec_rank() == self.spec_rank() + 1,
    {
        match self {
            Tile::Suited(s, v) => {
                if v.val() == 9 {
                    match s {
                        Suit::Manzu => Some(Tile::Suited(Suit::Souzu, Val(1))),
                        Suit::Souzu => Some(Tile::Suited(Suit::Pinzu, Val(1))),
                        Suit::Pinzu => Some(Tile::Wind(Direction::East)),
                    }
                } else {
                    Some(self.indicated_dora())
                }
            },
            Tile::Wind(Direction::North) => Some(Tile::Dragon(Dragon::White)),
            Tile::Dragon(Dragon::Red) => None,
            _ => Some(self.indicated_dora()),
        }
    }

    /// Returns all the different tiles, in the canonical order. Every call walks the
    /// kinds afresh, from the Manzu 1 to the red dragon.
    pub fn all() -> (r: Vec<Tile>)
        ensures
            Tile::is_enumeration(r@),
    {
        let mut out: Vec<Tile> = Vec::new();
        let mut cur: Option<Tile> = Some(Tile::Suited(Suit::Manzu, Val(1)));
        while cur.is_some()
            invariant
                out.len() <= 34,
                forall|i: int| 0 <= i < out.len() ==> (#[trigger] out@[i]).wf() && out@[i].spec_rank() == i,
                match cur {
                    Some(t) => t.wf() && t.spec_rank() == out.len(),
                    None => out.len() == 34,
                },
            decreases 34 - out.len(),
        {
            let t: Tile = cur.unwrap();
            out.push(t);
            cur = t.next_kind();
        }
        out
    }

    /// The dora successor of a suited tile stays in its suit; it carries the next
    /// number up to 9, and the 9 indicates the 1.
    pub proof fn lemma_dora_suited(s: Suit, v: Val)
        requires
            v.wf(),
        ensures
            Tile::Suited(s, v).indicated_dora().wf(),
            Tile::Suited(s, v).indicated_dora().suit() == Some(s),
            v@ < 9 ==> Tile::Suited(s, v).indicated_dora().number() == v@ + 1,
            v@ == 9 ==> Tile::Suited(s, v).indicated_dora().number() == 1,
    {
    }

    /// Among the winds the dora successor runs through all four and is back at the
    /// start after four steps.
    pub proof fn lemma_dora_wind_cycle(w: Direction)
        ensures
            Tile::Wind(w).indicated_dora() == Tile::Wind(w.next()),
            Tile::Wind(w).indicated_dora().indicated_dora().indicated_dora().indicated_dora()
                == Tile::Wind(w),
            Tile::Wind(w).indicated_dora() != Tile::Wind(w),
            Tile::Wind(w).indicated_dora().indicated_dora() != Tile::Wind(w),
            Tile::Wind(w).indicated_dora().indicated_dora().indicated_dora() != Tile::Wind(w),
    {
    }

    /// Among the dragons the dora successor runs through all three and is back at
    /// the start after three steps.
    pub proof fn lemma_dora_dragon_cycle(d: Dragon)
        ensures
            Tile::Dragon(d).indicated_dora() == Tile::Dragon(d.next()),
            Tile::Dragon(d).indicated_dora().indicated_dora().indicated_dora() == Tile::Dragon(d),
            Tile::Dragon(d).indicated_dora() != Tile::Dragon(d),
            Tile::Dragon(d).indicated_dora().indicated_dora() != Tile::Dragon(d),
    {
    }

    /// Two well-formed tiles of the same rank are the same tile.
    pub proof fn lemma_rank_injective(a: Tile, b: Tile)
        requires
            a.wf(),
            b.wf(),
            a.spec_rank() == b.spec_rank(),
        ensures
            a == b,
    {
    }

    /// The order of the tiles is total on well-formed tiles: two of them compare as
    /// equal only when they are the same tile, one comes before the other exactly
    /// when the other comes after it, and coming before is transitive.
    pub proof fn lemma_order_total(a: Tile, b: Tile, c: Tile)
        requires
            a.wf(),
            b.wf(),
            c.wf(),
        ensures
            a.partial_cmp_spec(&b) == Some(Ordering::Equal) <==> a == b,
            a.partial_cmp_spec(&b) == Some(Ordering::Less) <==> b.partial_cmp_spec(&a) == Some(
                Ordering::Greater,
            ),
            a.partial_cmp_spec(&b) == Some(Ordering::Less) && b.partial_cmp_spec(&c) == Some(
                Ordering::Less,
            ) ==> a.partial_cmp_spec(&c) == Some(Ordering::Less),
    {
        if a.spec_rank() == b.spec_rank() {
            Tile::lemma_rank_injective(a, b);
        }
    }

    /// An enumeration of the tile kinds holds no tile twice and ascends strictly in
    /// the canonical order.
    pub proof fn lemma_enumeration_distinct(s: Seq<Tile>)
        requires
            Tile::is_enumeration(s),
        ensures
            forall|i: int, j: int| 0 <= i < j < 34 ==> s[i] != s[j] && s[i].spec_rank() < s[j].spec_rank(),
    {
    }

    /// Two enumerations of the tile kinds are equal, entry by entry.
    pub proof fn lemma_enumeration_unique(a: Seq<Tile>, b: Seq<Tile>)
        requires
            Tile::is_enumeration(a),
            Tile::is_enumeration(b),
        ensures
            a == b,
    {
        assert forall|i: int| 0 <= i < 34 implies a[i] == b[i] by {
            Tile::lemma_rank_injective(a[i], b[i]);
        }
        assert(a =~= b);
    }

    /// Every well-formed tile stands in an enumeration of the kinds, at its rank.
    pub proof fn lemma_enumeration_complete(s: Seq<Tile>, t: Tile)
        requires
            Tile::is_enumeration(s),
            t.wf(),
        ensures
            0 <= t.spec_rank() < 34,
            s[t.spec_rank()] == t,
    {
        Tile::lemma_rank_injective(s[t.spec_rank()], t);
    }
}

} // verus!
