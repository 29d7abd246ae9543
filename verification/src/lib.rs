//! Rules-evaluation core for riichi mahjong: the tile algebra, melds and
//! their wait shapes, the shapes of a finished hand, and the yaku that a
//! finished hand satisfies.

pub mod hand;
pub mod tile;
