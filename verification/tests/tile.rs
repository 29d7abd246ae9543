use riichi::tile::{Direction, Dragon, Suit, Tile, Val};

fn suited(s: Suit, n: u8) -> Tile {
    Tile::Suited(s, Val::new(n))
}

fn expected_kinds() -> Vec<Tile> {
    let mut out = Vec::new();
    for s in [Suit::Manzu, Suit::Souzu, Suit::Pinzu] {
        for n in 1..=9u8 {
            out.push(suited(s, n));
        }
    }
    for d in [Direction::East, Direction::South, Direction::West, Direction::North] {
        out.push(Tile::Wind(d));
    }
    for d in [Dragon::White, Dragon::Green, Dragon::Red] {
        out.push(Tile::Dragon(d));
    }
    out
}

#[test]
fn val_round_trip() {
    for n in 1..=9u8 {
        assert_eq!(Val::new(n).val(), n);
        assert_eq!(u8::from(Val::new(n)), n);
        assert_eq!(Val::try_new(n), Some(Val::new(n)));
    }
}

#[test]
fn val_out_of_range_is_refused() {
    assert_eq!(Val::try_new(0), None);
    assert_eq!(Val::try_new(10), None);
    assert_eq!(Val::try_new(255), None);
}

#[test]
fn direction_next_cycles() {
    assert_eq!(Direction::East.next(), Direction::South);
    assert_eq!(Direction::South.next(), Direction::West);
    assert_eq!(Direction::West.next(), Direction::North);
    assert_eq!(Direction::North.next(), Direction::East);
}

#[test]
fn dragon_next_cycles() {
    assert_eq!(Dragon::White.next(), Dragon::Green);
    assert_eq!(Dragon::Green.next(), Dragon::Red);
    assert_eq!(Dragon::Red.next(), Dragon::White);
}

#[test]
fn dora_of_suited_tiles() {
    for s in [Suit::Manzu, Suit::Souzu, Suit::Pinzu] {
        for n in 1..=8u8 {
            assert_eq!(suited(s, n).indicated_dora(), suited(s, n + 1));
        }
        assert_eq!(suited(s, 9).indicated_dora(), suited(s, 1));
    }
}

#[test]
fn dora_of_winds_returns_after_four() {
    for d in [Direction::East, Direction::South, Direction::West, Direction::North] {
        let start = Tile::Wind(d);
        let one = start.indicated_dora();
        let two = one.indicated_dora();
        let three = two.indicated_dora();
        assert_eq!(one, Tile::Wind(d.next()));
        assert_ne!(one, start);
        assert_ne!(two, start);
        assert_ne!(three, start);
        assert_eq!(three.indicated_dora(), start);
    }
}

#[test]
fn dora_of_dragons_returns_after_three() {
    for d in [Dragon::White, Dragon::Green, Dragon::Red] {
        let start = Tile::Dragon(d);
        let one = start.indicated_dora();
        let two = one.indicated_dora();
        assert_eq!(one, Tile::Dragon(d.next()));
        assert_ne!(one, start);
        assert_ne!(two, start);
        assert_eq!(two.indicated_dora(), start);
    }
}

#[test]
fn val_of_tiles() {
    assert_eq!(suited(Suit::Pinzu, 4).val(), Some(Val::new(4)));
    assert_eq!(Tile::Wind(Direction::West).val(), None);
    assert_eq!(Tile::Dragon(Dragon::Red).val(), None);
}

#[test]
fn following_stops_at_nine_and_at_honours() {
    assert_eq!(suited(Suit::Manzu, 3).following(), Some(suited(Suit::Manzu, 4)));
    assert_eq!(suited(Suit::Souzu, 8).following(), Some(suited(Suit::Souzu, 9)));
    assert_eq!(suited(Suit::Souzu, 9).following(), None);
    assert_eq!(Tile::Wind(Direction::East).following(), None);
    assert_eq!(Tile::Dragon(Dragon::White).following(), None);
}

#[test]
fn follows_is_following_read_backwards() {
    assert!(suited(Suit::Manzu, 4).follows(suited(Suit::Manzu, 3)));
    assert!(!suited(Suit::Manzu, 3).follows(suited(Suit::Manzu, 4)));
    assert!(!suited(Suit::Souzu, 4).follows(suited(Suit::Manzu, 3)));
    assert!(!suited(Suit::Manzu, 1).follows(suited(Suit::Manzu, 9)));
    assert!(!Tile::Wind(Direction::South).follows(Tile::Wind(Direction::East)));
    assert!(!Tile::Dragon(Dragon::Green).follows(Tile::Dragon(Dragon::White)));
}

#[test]
fn yakuhai_tiles() {
    let e = Direction::East;
    let s = Direction::South;
    let w = Direction::West;
    assert!(Tile::Dragon(Dragon::White).is_yakuhai(e, s));
    assert!(Tile::Dragon(Dragon::Red).is_yakuhai(w, w));
    assert!(Tile::Wind(e).is_yakuhai(e, s));
    assert!(Tile::Wind(s).is_yakuhai(e, s));
    assert!(!Tile::Wind(w).is_yakuhai(e, s));
    assert!(!Tile::Wind(Direction::North).is_yakuhai(e, s));
    assert!(!suited(Suit::Manzu, 1).is_yakuhai(e, s));
}

#[test]
fn green_tiles() {
    let green: Vec<Tile> = Tile::all().into_iter().filter(|t| t.is_green()).collect();
    assert_eq!(
        green,
        vec![
            suited(Suit::Souzu, 2),
            suited(Suit::Souzu, 3),
            suited(Suit::Souzu, 4),
            suited(Suit::Souzu, 6),
            suited(Suit::Souzu, 8),
            Tile::Dragon(Dragon::Green),
        ]
    );
}

#[test]
fn honour_tiles() {
    let honours: Vec<Tile> = Tile::all().into_iter().filter(|t| t.is_honour()).collect();
    assert_eq!(honours, expected_kinds()[27..].to_vec());
}

#[test]
fn terminal_tiles() {
    let terminals: Vec<Tile> = Tile::all().into_iter().filter(|t| t.is_terminal()).collect();
    assert_eq!(
        terminals,
        vec![
            suited(Suit::Manzu, 1),
            suited(Suit::Manzu, 9),
            suited(Suit::Souzu, 1),
            suited(Suit::Souzu, 9),
            suited(Suit::Pinzu, 1),
            suited(Suit::Pinzu, 9),
        ]
    );
}

#[test]
fn all_lists_the_34_kinds_in_order() {
    let all = Tile::all();
    assert_eq!(all.len(), 34);
    assert_eq!(all, expected_kinds());
}

#[test]
fn all_has_no_repeats_and_ascends() {
    let all = Tile::all();
    for i in 0..all.len() {
        for j in (i + 1)..all.len() {
            assert_ne!(all[i], all[j]);
            assert!(all[i] < all[j]);
        }
    }
}

#[test]
fn all_is_restartable() {
    let first = Tile::all();
    let second = Tile::all();
    assert_eq!(first.len(), second.len());
    for i in 0..first.len() {
        assert_eq!(first[i], second[i]);
    }
}

#[test]
fn rank_is_the_position_in_all() {
    let all = Tile::all();
    for (i, t) in all.iter().enumerate() {
        assert_eq!(t.rank() as usize, i);
    }
    assert_eq!(suited(Suit::Souzu, 5).rank(), 13);
    assert_eq!(Tile::Wind(Direction::North).rank(), 30);
    assert_eq!(Tile::Dragon(Dragon::Red).rank(), 33);
}

#[test]
fn next_kind_walks_the_canonical_order() {
    let all = Tile::all();
    for i in 0..33 {
        assert_eq!(all[i].next_kind(), Some(all[i + 1]));
    }
    assert_eq!(all[33].next_kind(), None);
    assert_eq!(suited(Suit::Souzu, 9).next_kind(), Some(suited(Suit::Pinzu, 1)));
    assert_eq!(suited(Suit::Pinzu, 9).next_kind(), Some(Tile::Wind(Direction::East)));
}

#[test]
fn order_of_tiles_is_the_order_of_their_ranks() {
    let all = Tile::all();
    for i in 0..all.len() {
        for j in 0..all.len() {
            assert_eq!(all[i].cmp(&all[j]), i.cmp(&j));
            assert_eq!(all[i].partial_cmp(&all[j]), Some(i.cmp(&j)));
            assert_eq!(all[i] <= all[j], i <= j);
        }
    }
}

#[test]
fn sorting_tiles_restores_the_canonical_order() {
    let mut tiles = Tile::all();
    tiles.reverse();
    tiles.sort();
    assert_eq!(tiles, expected_kinds());
}
