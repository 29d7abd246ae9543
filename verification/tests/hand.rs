use riichi::hand::{CompleteHand, Group, GroupType, Location, Opponent, Wait};
use riichi::tile::{Direction, Dragon, Suit, Tile, Val};

fn m(n: u8) -> Tile {
    Tile::Suited(Suit::Manzu, Val::new(n))
}

fn p(n: u8) -> Tile {
    Tile::Suited(Suit::Pinzu, Val::new(n))
}

fn closed(tiles: Vec<Tile>, agari: bool) -> Group {
    Group::new(tiles, None, false, agari).unwrap()
}

#[test]
fn location_is_drawn() {
    assert!(Location::LiveWall.is_drawn());
    assert!(Location::DeadWall.is_drawn());
    assert!(!Location::Discard(Opponent::Left).is_drawn());
    assert!(!Location::Kan(Opponent::Right).is_drawn());
}

#[test]
fn location_opponent() {
    assert_eq!(Location::LiveWall.opponent(), None);
    assert_eq!(Location::DeadWall.opponent(), None);
    assert_eq!(Location::Discard(Opponent::Across).opponent(), Some(Opponent::Across));
    assert_eq!(Location::Kan(Opponent::Left).opponent(), Some(Opponent::Left));
}

#[test]
fn group_new_accepts_sets_and_runs() {
    assert!(Group::new(vec![m(1), m(1), m(1)], None, false, false).is_some());
    assert!(Group::new(vec![m(1), m(1), m(1), m(1)], None, false, false).is_some());
    assert!(Group::new(vec![m(1), m(2), m(3)], None, false, false).is_some());
    assert!(Group::new(vec![m(8), m(9), m(7)], None, false, true).is_some());
    let east = Tile::Wind(Direction::East);
    assert!(Group::new(vec![east, east, east], Some(Opponent::Left), false, false).is_some());
    assert!(Group::new(vec![east, east, east, east], Some(Opponent::Left), true, false).is_some());
}

#[test]
fn group_new_refuses_what_is_no_group() {
    assert!(Group::new(vec![], None, false, false).is_none());
    assert!(Group::new(vec![m(1), m(1)], None, false, false).is_none());
    assert!(Group::new(vec![m(1), m(1), m(1), m(1), m(1)], None, false, false).is_none());
    assert!(Group::new(vec![m(1), m(1), m(2)], None, false, false).is_none());
    assert!(Group::new(vec![m(1), m(2), m(4)], None, false, false).is_none());
    assert!(Group::new(vec![m(1), m(2), p(3)], None, false, false).is_none());
    assert!(Group::new(vec![m(8), m(9), m(1)], None, false, false).is_none());
    assert!(Group::new(vec![m(1), m(2), m(3), m(4)], None, false, false).is_none());
    assert!(Group::new(vec![m(1), m(1), m(1), m(2)], None, false, false).is_none());
    let e = Tile::Wind(Direction::East);
    let s = Tile::Wind(Direction::South);
    let w = Tile::Wind(Direction::West);
    assert!(Group::new(vec![e, s, w], None, false, false).is_none());
    let white = Tile::Dragon(Dragon::White);
    assert!(Group::new(vec![white, white, white], Some(Opponent::Left), true, false).is_none());
    assert!(Group::new(vec![white, white, white, white], None, true, false).is_none());
    assert!(Group::new(vec![white, white, white, white], Some(Opponent::Left), true, true).is_none());
}

#[test]
fn ty_of_groups() {
    assert_eq!(closed(vec![m(5), m(5), m(5), m(5)], false).ty(), GroupType::Quad);
    assert_eq!(closed(vec![m(5), m(5), m(5)], false).ty(), GroupType::Triplet);
    assert_eq!(closed(vec![m(5), m(6), m(7)], false).ty(), GroupType::Sequence);
    assert_eq!(closed(vec![m(6), m(7), m(5)], true).ty(), GroupType::Sequence);
}

#[test]
fn first_tile_of_groups() {
    assert_eq!(closed(vec![p(5), p(5), p(5), p(5)], false).first_tile(), p(5));
    assert_eq!(closed(vec![p(9), p(9), p(9)], false).first_tile(), p(9));
    assert_eq!(closed(vec![p(5), p(6), p(7)], false).first_tile(), p(5));
    assert_eq!(closed(vec![p(6), p(7), p(5)], true).first_tile(), p(5));
    assert_eq!(closed(vec![p(7), p(5), p(6)], true).first_tile(), p(5));
}

#[test]
fn wait_is_none_without_the_winning_tile() {
    assert_eq!(closed(vec![m(1), m(2), m(3)], false).wait(), None);
    assert_eq!(closed(vec![m(1), m(1), m(1)], false).wait(), None);
    assert_eq!(closed(vec![m(1), m(1), m(1), m(1)], false).wait(), None);
}

#[test]
fn wait_of_triplet_and_quad_is_shanpon() {
    assert_eq!(closed(vec![m(1), m(1), m(1)], true).wait(), Some(Wait::Shanpon));
    assert_eq!(closed(vec![m(4), m(4), m(4), m(4)], true).wait(), Some(Wait::Shanpon));
    let red = Tile::Dragon(Dragon::Red);
    let g = Group::new(vec![red, red, red], Some(Opponent::Right), false, true).unwrap();
    assert_eq!(g.wait(), Some(Wait::Shanpon));
}

#[test]
fn wait_of_sequence_won_on_highest_is_kanchan() {
    assert_eq!(closed(vec![m(1), m(2), m(3)], true).wait(), Some(Wait::Kanchan));
    assert_eq!(closed(vec![m(8), m(7), m(9)], true).wait(), Some(Wait::Kanchan));
    assert_eq!(closed(vec![p(5), p(6), p(7)], true).wait(), Some(Wait::Kanchan));
}

#[test]
fn wait_of_sequence_won_on_middle_seven_is_penchan() {
    assert_eq!(closed(vec![m(6), m(8), m(7)], true).wait(), Some(Wait::Penchan));
    assert_eq!(closed(vec![p(8), p(6), p(7)], true).wait(), Some(Wait::Penchan));
}

#[test]
fn wait_of_other_sequences_is_ryanmen() {
    assert_eq!(closed(vec![m(8), m(9), m(7)], true).wait(), Some(Wait::Ryanmen));
    assert_eq!(closed(vec![m(2), m(3), m(1)], true).wait(), Some(Wait::Ryanmen));
    assert_eq!(closed(vec![m(4), m(6), m(5)], true).wait(), Some(Wait::Ryanmen));
    assert_eq!(closed(vec![m(1), m(3), m(2)], true).wait(), Some(Wait::Ryanmen));
    assert_eq!(closed(vec![m(4), m(5), m(3)], true).wait(), Some(Wait::Ryanmen));
}

#[test]
fn group_flags_and_tiles() {
    let g = Group::new(vec![m(2), m(3), m(1)], Some(Opponent::Left), false, true).unwrap();
    assert!(g.is_open());
    assert!(g.has_agari());
    assert_eq!(g.tiles(), &[m(2), m(3), m(1)][..]);
    let h = closed(vec![m(2), m(2), m(2)], false);
    assert!(!h.is_open());
    assert!(!h.has_agari());
    assert_eq!(h.tiles().len(), 3);
}

#[test]
fn group_clone_is_equal() {
    let g = Group::new(vec![m(2), m(3), m(1)], Some(Opponent::Left), false, true).unwrap();
    let h = g.clone();
    assert_eq!(g, h);
    assert_eq!(h.tiles(), g.tiles());
    assert_eq!(h.wait(), g.wait());
}

#[test]
fn complete_hand_is_open_when_a_group_is() {
    let pair = [p(9), p(9)];
    let closed_hand = CompleteHand::Standard(
        [
            closed(vec![m(1), m(2), m(3)], false),
            closed(vec![m(4), m(5), m(6)], false),
            closed(vec![m(7), m(8), m(9)], false),
            closed(vec![p(1), p(1), p(1)], true),
        ],
        pair,
    );
    assert!(!closed_hand.is_open());
    let open_hand = CompleteHand::Standard(
        [
            closed(vec![m(1), m(2), m(3)], false),
            closed(vec![m(4), m(5), m(6)], false),
            closed(vec![m(7), m(8), m(9)], true),
            Group::new(vec![p(1), p(1), p(1)], Some(Opponent::Across), false, false).unwrap(),
        ],
        pair,
    );
    assert!(open_hand.is_open());
    assert!(!CompleteHand::SevenPairs([[m(1), m(1)]; 7]).is_open());
    assert!(!CompleteHand::Kokushi([m(1); 14]).is_open());
}

fn orphans_with(extra: Tile) -> [Tile; 14] {
    [
        m(1),
        m(9),
        Tile::Suited(Suit::Souzu, Val::new(1)),
        Tile::Suited(Suit::Souzu, Val::new(9)),
        p(1),
        p(9),
        Tile::Wind(Direction::East),
        Tile::Wind(Direction::South),
        Tile::Wind(Direction::West),
        Tile::Wind(Direction::North),
        Tile::Dragon(Dragon::White),
        Tile::Dragon(Dragon::Green),
        Tile::Dragon(Dragon::Red),
        extra,
    ]
}

#[test]
fn well_formed_kokushi() {
    assert!(CompleteHand::Kokushi(orphans_with(m(1))).is_well_formed());
    assert!(CompleteHand::Kokushi(orphans_with(Tile::Dragon(Dragon::Red))).is_well_formed());
    let mut shuffled = orphans_with(p(9));
    shuffled.reverse();
    assert!(CompleteHand::Kokushi(shuffled).is_well_formed());
}

#[test]
fn malformed_kokushi() {
    assert!(!CompleteHand::Kokushi(orphans_with(m(5))).is_well_formed());
    assert!(!CompleteHand::Kokushi([m(1); 14]).is_well_formed());
    let mut missing = orphans_with(m(1));
    missing[12] = Tile::Dragon(Dragon::Green);
    assert!(!CompleteHand::Kokushi(missing).is_well_formed());
}

#[test]
fn well_formed_and_malformed_seven_pairs() {
    let pairs = [
        [m(1), m(1)],
        [m(2), m(2)],
        [m(3), m(3)],
        [p(4), p(4)],
        [p(5), p(5)],
        [Tile::Wind(Direction::East), Tile::Wind(Direction::East)],
        [Tile::Dragon(Dragon::Red), Tile::Dragon(Dragon::Red)],
    ];
    assert!(CompleteHand::SevenPairs(pairs).is_well_formed());
    let mut twice = pairs;
    twice[6] = [m(1), m(1)];
    assert!(!CompleteHand::SevenPairs(twice).is_well_formed());
    let mut unpaired = pairs;
    unpaired[3] = [p(4), p(6)];
    assert!(!CompleteHand::SevenPairs(unpaired).is_well_formed());
}

#[test]
fn well_formed_and_malformed_standard() {
    let groups = |first: bool, second: bool| {
        [
            closed(vec![m(1), m(2), m(3)], first),
            closed(vec![m(4), m(5), m(6)], second),
            closed(vec![m(7), m(8), m(9)], false),
            closed(vec![p(1), p(1), p(1)], false),
        ]
    };
    assert!(CompleteHand::Standard(groups(false, false), [p(9), p(9)]).is_well_formed());
    assert!(CompleteHand::Standard(groups(true, false), [p(9), p(9)]).is_well_formed());
    assert!(CompleteHand::Standard(groups(false, true), [p(9), p(9)]).is_well_formed());
    assert!(!CompleteHand::Standard(groups(true, true), [p(9), p(9)]).is_well_formed());
    assert!(!CompleteHand::Standard(groups(true, false), [p(9), p(8)]).is_well_formed());
}

#[test]
fn count_of_counts_equal_tiles() {
    let tiles = orphans_with(m(9));
    assert_eq!(riichi::hand::count_of(&tiles, m(9)), 2);
    assert_eq!(riichi::hand::count_of(&tiles, m(1)), 1);
    assert_eq!(riichi::hand::count_of(&tiles, m(5)), 0);
    assert_eq!(riichi::hand::count_of(&[p(3); 14], p(3)), 14);
}

#[test]
fn kokushi_with_a_kind_three_times_is_malformed() {
    let mut tiles = orphans_with(m(1));
    tiles[1] = m(1);
    assert!(!CompleteHand::Kokushi(tiles).is_well_formed());
}
