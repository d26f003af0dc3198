use scoundrel::card::{weight, Card, Rank, Suit};
use scoundrel::deck::{build_dungeon, fold_in};
use scoundrel::game::{monster_weight_total, Error, Game, GameResult, Outcome, MAX_HEALTH};

fn card(rank: Rank, suit: Suit) -> Card {
    Card::new(rank, suit)
}

fn count(cards: &[Card], c: &Card) -> usize {
    cards.iter().filter(|x| *x == c).count()
}

#[test]
fn test_setup() {
    let game = Game::setup();
    assert_eq!(game.dungeon.len(), 44);
}

#[test]
fn setup_holds_the_fixed_composition() {
    let game = Game::setup();
    let base = build_dungeon();
    assert_eq!(base.len(), 44);
    for c in &base {
        assert_eq!(count(&game.dungeon, c), 1);
        assert_eq!(count(&base, c), 1);
    }
    let monsters = game.dungeon.iter().filter(|c| c.is_monster()).count();
    assert_eq!(monsters, 26);
    let numeric_red = game
        .dungeon
        .iter()
        .filter(|c| !c.is_monster() && weight(c) <= 10)
        .count();
    assert_eq!(numeric_red, 18);
    assert_eq!(game.health, MAX_HEALTH);
    assert!(game.room.is_empty());
    assert_eq!(game.weapon, None);
}

#[test]
fn setup_shuffles_the_dungeon() {
    let base = build_dungeon();
    let shuffled = (0..3).any(|_| Game::setup().dungeon != base);
    assert!(shuffled);
}

#[test]
fn fold_in_appends_each_suit_with_each_rank() {
    let mut cards = vec![card(Rank::Ace, Suit::Hearts)];
    fold_in(&mut cards, &[Suit::Spades, Suit::Clubs], &[Rank::Two, Rank::King]);
    assert_eq!(
        cards,
        vec![
            card(Rank::Ace, Suit::Hearts),
            card(Rank::Two, Suit::Spades),
            card(Rank::King, Suit::Spades),
            card(Rank::Two, Suit::Clubs),
            card(Rank::King, Suit::Clubs),
        ]
    );
}

#[test]
fn weights_of_ranks() {
    let expected = [
        (Rank::Two, 2),
        (Rank::Three, 3),
        (Rank::Four, 4),
        (Rank::Five, 5),
        (Rank::Six, 6),
        (Rank::Seven, 7),
        (Rank::Eight, 8),
        (Rank::Nine, 9),
        (Rank::Ten, 10),
        (Rank::Jack, 11),
        (Rank::Queen, 12),
        (Rank::King, 13),
        (Rank::Ace, 14),
    ];
    for (rank, w) in expected {
        assert_eq!(weight(&card(rank, Suit::Clubs)), w);
    }
}

#[test]
fn health_stays_in_range() {
    let mut game = Game::new(Vec::new());
    game.heal(255);
    assert_eq!(game.health, 20);
    game.fight(255, true);
    assert_eq!(game.health, 0);
    game.heal(7);
    assert_eq!(game.health, 7);
    game.equip(2);
    game.fight(14, true);
    assert_eq!(game.health, 0);
}

#[test]
fn weapon_degrades_until_reequipped() {
    let mut game = Game::new(Vec::new());
    game.equip(5);
    assert!(game.weapon_usable(14));
    game.fight(9, true);
    assert_eq!(game.weakest_killed, Some(9));
    assert!(!game.weapon_usable(9));
    assert!(!game.weapon_usable(12));
    assert!(game.weapon_usable(8));
    game.heal(3);
    game.fight(13, true);
    assert_eq!(game.weakest_killed, Some(9));
    game.equip(3);
    assert!(game.weapon_usable(12));
}

#[test]
fn declined_weapon_keeps_marker() {
    let mut game = Game::new(Vec::new());
    game.equip(5);
    game.fight(7, false);
    assert_eq!(game.health, 13);
    assert_eq!(game.weakest_killed, None);
}

#[test]
fn equip_clears_marker() {
    let mut game = Game::new(Vec::new());
    game.equip(8);
    game.fight(6, true);
    assert_eq!(game.weakest_killed, Some(6));
    game.equip(4);
    assert_eq!(game.weapon, Some(4));
    assert_eq!(game.weakest_killed, None);
}

fn dungeon_of(n: usize) -> Vec<Card> {
    let ranks = [Rank::Two, Rank::Three, Rank::Four, Rank::Five, Rank::Six, Rank::Seven];
    (0..n).map(|i| card(ranks[i % 6], Suit::Spades)).collect()
}

#[test]
fn enter_fills_room_to_four() {
    let mut game = Game::new(dungeon_of(6));
    assert_eq!(game.enter(), Ok(()));
    assert_eq!(game.room, dungeon_of(4));
    assert_eq!(game.dungeon.len(), 2);
}

#[test]
fn enter_with_held_over_card() {
    let mut game = Game::new(dungeon_of(10));
    game.enter().unwrap();
    game.resolve(0, false);
    game.resolve(0, false);
    game.resolve(0, false);
    assert_eq!(game.room.len(), 1);
    assert_eq!(game.enter(), Ok(()));
    assert_eq!(game.room.len(), 4);
    assert_eq!(game.dungeon.len(), 3);
}

#[test]
fn enter_drains_a_short_dungeon() {
    let mut game = Game::new(dungeon_of(2));
    assert_eq!(game.enter(), Ok(()));
    assert_eq!(game.room.len(), 2);
    assert!(game.dungeon.is_empty());
}

#[test]
fn enter_refuses_unfinished_room() {
    let mut game = Game::new(dungeon_of(8));
    game.enter().unwrap();
    assert_eq!(game.enter(), Err(Error::RoomUnfinished));
    assert_eq!(game.room.len(), 4);
    assert_eq!(game.dungeon.len(), 4);
}

#[test]
fn enter_refuses_empty_dungeon() {
    let mut game = Game::new(Vec::new());
    assert_eq!(game.enter(), Err(Error::DungeonFinished));
}

#[test]
fn avoid_twice_is_refused() {
    let mut game = Game::new(dungeon_of(8));
    game.enter().unwrap();
    let room = game.room.clone();
    assert!(game.can_avoid());
    assert!(game.avoid());
    assert!(game.room.is_empty());
    assert_eq!(&game.dungeon[4..], &room[..]);
    assert!(!game.can_avoid());
    game.enter().unwrap();
    assert!(!game.avoid());
    assert_eq!(game.room.len(), 4);
    game.resolve(0, false);
    assert!(game.can_avoid());
}

#[test]
fn scenario_fight_without_weapon() {
    let mut game = Game::new(Vec::new());
    game.apply_card(&card(Rank::Ten, Suit::Spades), true);
    assert_eq!(game.health, 10);
}

#[test]
fn scenario_weapon_blocks_weaker_monster() {
    let mut game = Game::new(Vec::new());
    game.health = 5;
    game.apply_card(&card(Rank::Six, Suit::Diamonds), false);
    assert_eq!(game.weakest_killed, None);
    game.apply_card(&card(Rank::Four, Suit::Clubs), true);
    assert_eq!(game.health, 5);
    assert_eq!(game.weakest_killed, Some(4));
}

#[test]
fn scenario_weapon_refuses_equal_monster() {
    let mut game = Game::new(Vec::new());
    game.health = 5;
    game.apply_card(&card(Rank::Six, Suit::Diamonds), false);
    game.apply_card(&card(Rank::Four, Suit::Clubs), true);
    assert!(!game.weapon_usable(4));
    game.apply_card(&card(Rank::Four, Suit::Spades), true);
    assert_eq!(game.health, 1);
    assert_eq!(game.weakest_killed, Some(4));
}

#[test]
fn scenario_potion_heals() {
    let mut game = Game::new(Vec::new());
    game.health = 3;
    game.apply_card(&card(Rank::Seven, Suit::Hearts), false);
    assert_eq!(game.health, 10);
}

#[test]
fn scenario_last_potion_wins() {
    let mut game = Game::new(Vec::new());
    game.health = 6;
    game.room.push(card(Rank::Nine, Suit::Hearts));
    assert!(game.room_in_play());
    let result = game.resolve(0, false);
    assert_eq!(game.health, 15);
    assert_eq!(result, Some(GameResult { outcome: Outcome::Won, score: 24 }));
}

#[test]
fn last_monster_wins_without_bonus() {
    let mut game = Game::new(Vec::new());
    game.room.push(card(Rank::Three, Suit::Clubs));
    let result = game.resolve(0, false);
    assert_eq!(result, Some(GameResult { outcome: Outcome::Won, score: 17 }));
}

#[test]
fn scenario_death_scores_dungeon_monsters() {
    let dungeon = vec![
        card(Rank::Ace, Suit::Spades),
        card(Rank::Two, Suit::Clubs),
        card(Rank::Ten, Suit::Hearts),
        card(Rank::Four, Suit::Spades),
        card(Rank::Five, Suit::Diamonds),
        card(Rank::Six, Suit::Clubs),
        card(Rank::Four, Suit::Clubs),
    ];
    assert_eq!(monster_weight_total(&dungeon), 30);
    let mut game = Game::new(dungeon);
    game.health = 3;
    game.room.push(card(Rank::Queen, Suit::Spades));
    game.room.push(card(Rank::King, Suit::Clubs));
    let result = game.resolve(1, true);
    assert_eq!(game.health, 0);
    assert_eq!(result, Some(GameResult { outcome: Outcome::Lost, score: -30 }));
}

#[test]
fn resolve_continues_mid_room() {
    let mut game = Game::new(dungeon_of(6));
    game.enter().unwrap();
    assert!(game.room_in_play());
    assert_eq!(game.resolve(2, false), None);
    assert_eq!(game.room.len(), 3);
    assert_eq!(game.health, 16);
}
