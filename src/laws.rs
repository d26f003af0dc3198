use vstd::prelude::*;

use crate::card::{is_monster, is_numeric, Card, Rank, Suit};
use crate::deck::{
    all_ranks, full_dungeon, lemma_reordering_keeps_cards, numbered_ranks, product, reorders, suit_row,
};
use crate::game::{GameView, DECK_SIZE, MAX_HEALTH, ROOM_SIZE};

verus! {

/// The state after resolving `cards` in order against the player, the i-th
/// with the i-th weapon decision.
pub open spec fn played_all(v: GameView, cards: Seq<Card>, choices: Seq<bool>) -> GameView
    decreases cards.len(),
{
    if cards.len() == 0 {
        v
    } else {
        played_all(v.applied(cards[0], choices[0]), cards.skip(1), choices.skip(1))
    }
}

/// Position of a rank in the full rank order, Ace first.
pub open spec fn rank_pos(r: Rank) -> int {
    match r {
        Rank::Ace => 0,
        Rank::King => 1,
        Rank::Queen => 2,
        Rank::Jack => 3,
        Rank::Ten => 4,
        Rank::Nine => 5,
        Rank::Eight => 6,
        Rank::Seven => 7,
        Rank::Six => 8,
        Rank::Five => 9,
        Rank::Four => 10,
        Rank::Three => 11,
        Rank::Two => 12,
    }
}

/// Where a card stands in the unshuffled dungeon.
pub open spec fn dungeon_pos(c: Card) -> int {
    match c.suit {
        Suit::Spades => rank_pos(c.rank),
        Suit::Clubs => 13 + rank_pos(c.rank),
        Suit::Hearts => 26 + rank_pos(c.rank) - 4,
        Suit::Diamonds => 35 + rank_pos(c.rank) - 4,
    }
}

proof fn lemma_full_dungeon_rows()
    ensures
        full_dungeon() == suit_row(Suit::Spades, all_ranks()) + suit_row(Suit::Clubs, all_ranks())
            + suit_row(Suit::Hearts, numbered_ranks()) + suit_row(Suit::Diamonds, numbered_ranks()),
{
    reveal_with_fuel(product, 3);
    assert(seq![Suit::Spades, Suit::Clubs].drop_last() =~= seq![Suit::Spades]);
    assert(seq![Suit::Spades].drop_last() =~= Seq::<Suit>::empty());
    assert(seq![Suit::Hearts, Suit::Diamonds].drop_last() =~= seq![Suit::Hearts]);
    assert(seq![Suit::Hearts].drop_last() =~= Seq::<Suit>::empty());
}

/// The dungeon holds 44 distinct cards: every rank of Spades and Clubs
/// (the 26 monsters, first) and the numeric ranks of Hearts and Diamonds (the
/// 18 after them). Any shuffle of it keeps exactly these cards.
pub proof fn lemma_dungeon_composition()
    ensures
        full_dungeon().len() == DECK_SIZE,
        full_dungeon().no_duplicates(),
        forall|c: Card| full_dungeon().contains(c) <==> (is_monster(c.suit) || is_numeric(c.rank)),
        forall|i: int| 0 <= i < 26 ==> is_monster(#[trigger] full_dungeon()[i].suit),
        forall|i: int|
            26 <= i < 44 ==> !is_monster(#[trigger] full_dungeon()[i].suit) && is_numeric(
                full_dungeon()[i].rank,
            ),
{
    lemma_full_dungeon_rows();
    let a = all_ranks();
    let n = numbered_ranks();
    assert(a[0] == Rank::Ace && a[1] == Rank::King && a[2] == Rank::Queen && a[3] == Rank::Jack);
    assert(a[4] == Rank::Ten && a[5] == Rank::Nine && a[6] == Rank::Eight && a[7] == Rank::Seven);
    assert(a[8] == Rank::Six && a[9] == Rank::Five && a[10] == Rank::Four && a[11] == Rank::Three);
    assert(a[12] == Rank::Two);
    assert(n[0] == Rank::Ten && n[1] == Rank::Nine && n[2] == Rank::Eight && n[3] == Rank::Seven);
    assert(n[4] == Rank::Six && n[5] == Rank::Five && n[6] == Rank::Four && n[7] == Rank::Three);
    assert(n[8] == Rank::Two);
    let f = full_dungeon();
    assert forall|i: int| 0 <= i < 44 implies dungeon_pos(#[trigger] f[i]) == i && (
    is_monster(f[i].suit) || is_numeric(f[i].rank)) && (i < 26 <==> is_monster(f[i].suit)) && (
    i >= 26 ==> is_numeric(f[i].rank)) by {
        if i < 13 {
            assert(f[i] == Card { rank: a[i], suit: Suit::Spades });
        } else if i < 26 {
            assert(f[i] == Card { rank: a[i - 13], suit: Suit::Clubs });
        } else if i < 35 {
            assert(f[i] == Card { rank: n[i - 26], suit: Suit::Hearts });
        } else {
            assert(f[i] == Card { rank: n[i - 35], suit: Suit::Diamonds });
        }
    }
    assert forall|c: Card| (is_monster(c.suit) || is_numeric(c.rank)) implies f.contains(c) by {
        let p = dungeon_pos(c);
        match c.suit {
            Suit::Spades => assert(f[p] == Card { rank: a[p], suit: Suit::Spades }),
            Suit::Clubs => assert(f[p] == Card { rank: a[p - 13], suit: Suit::Clubs }),
            Suit::Hearts => assert(f[p] == Card { rank: n[p - 26], suit: Suit::Hearts }),
            Suit::Diamonds => assert(f[p] == Card { rank: n[p - 35], suit: Suit::Diamonds }),
        }
        assert(f[p] == c);
    }
}

/// Whatever order the shuffle picks, the dungeon holds 44 distinct cards:
/// every rank of Spades and Clubs and the numeric ranks of Hearts and
/// Diamonds, and nothing else.
pub proof fn lemma_shuffled_dungeon(d: Seq<Card>)
    requires
        reorders(d, full_dungeon()),
    ensures
        d.len() == DECK_SIZE,
        d.no_duplicates(),
        forall|c: Card| d.contains(c) <==> (is_monster(c.suit) || is_numeric(c.rank)),
{
    lemma_dungeon_composition();
    lemma_reordering_keeps_cards(d, full_dungeon());
}

/// Health stays within zero and its maximum whatever cards are resolved and
/// whatever the weapon decisions.
pub proof fn lemma_health_bounded(v: GameView, cards: Seq<Card>, choices: Seq<bool>)
    requires
        v.health <= MAX_HEALTH,
    ensures
        0 <= played_all(v, cards, choices).health <= MAX_HEALTH,
    decreases cards.len(),
{
    if cards.len() > 0 {
        lemma_health_bounded(v.applied(cards[0], choices[0]), cards.skip(1), choices.skip(1));
    }
}

proof fn lemma_kill_marker_kept(v: GameView, w: u8, cards: Seq<Card>, choices: Seq<bool>)
    requires
        v.weapon.is_some(),
        v.weakest_killed.is_some(),
        v.weakest_killed.unwrap() <= w,
        forall|i: int| 0 <= i < cards.len() ==> cards[i].suit != Suit::Diamonds,
    ensures
        played_all(v, cards, choices).weapon.is_some(),
        played_all(v, cards, choices).weakest_killed.is_some(),
        played_all(v, cards, choices).weakest_killed.unwrap() <= w,
    decreases cards.len(),
{
    if cards.len() > 0 {
        assert(cards[0].suit != Suit::Diamonds);
        lemma_kill_marker_kept(v.applied(cards[0], choices[0]), w, cards.skip(1), choices.skip(1));
    }
}

/// Once the weapon has killed a monster of weight `w`, it cannot be used
/// against a monster of weight `w` or more until another weapon is equipped,
/// whatever else is resolved meanwhile.
pub proof fn lemma_weapon_degrades(
    v: GameView,
    w: u8,
    cards: Seq<Card>,
    choices: Seq<bool>,
    m: u8,
)
    requires
        v.weapon_usable(w),
        forall|i: int| 0 <= i < cards.len() ==> cards[i].suit != Suit::Diamonds,
        m >= w,
    ensures
        !played_all(v.fought(w, true), cards, choices).weapon_usable(m),
{
    lemma_kill_marker_kept(v.fought(w, true), w, cards, choices);
}

/// Equipping a weapon forgets what the previous one killed.
pub proof fn lemma_equip_clears_marker(v: GameView, weapon: u8)
    ensures
        v.equipped(weapon).weakest_killed.is_none(),
        v.equipped(weapon).weapon_usable(0),
{
}

/// Right after entering, the room holds four cards, or fewer only when the
/// dungeon held fewer than the room was missing; then it has all of them.
pub proof fn lemma_room_size_after_enter(v: GameView)
    requires
        v.wf(),
        v.entered() is Ok,
    ensures
        ({
            let after = v.entered()->Ok_0;
            &&& v.dungeon.len() + v.room.len() >= ROOM_SIZE ==> after.room.len() == ROOM_SIZE
            &&& v.dungeon.len() + v.room.len() < ROOM_SIZE ==> after.room.len() == v.room.len()
                + v.dungeon.len()
            &&& after.dungeon.len() + after.room.len() == v.dungeon.len() + v.room.len()
        }),
{
}

/// A room cannot be avoided twice in a row: after an avoidance the flag that
/// refuses the next one is set, and entering a room keeps it; only resolving
/// a card clears it.
pub proof fn lemma_no_double_avoid(v: GameView, index: int, use_weapon: bool)
    requires
        0 <= index < v.room.len(),
    ensures
        v.avoided().just_avoided_room,
        v.avoided().entered() is Ok ==> (v.avoided().entered()->Ok_0).just_avoided_room,
        !v.resolved(index, use_weapon).0.just_avoided_room,
{
}

} // verus!
