use vstd::prelude::*;

use crate::card::{Card, Rank, Suit};
use crate::game::{Game, GameView, DECK_SIZE, MAX_HEALTH};

verus! {

/// One card of `suit` for each of `ranks`, in order.
pub open spec fn suit_row(suit: Suit, ranks: Seq<Rank>) -> Seq<Card> {
    ranks.map_values(|r: Rank| Card { rank: r, suit: suit })
}

/// For each suit in order, one card of each rank.
pub open spec fn product(suits: Seq<Suit>, ranks: Seq<Rank>) -> Seq<Card>
    decreases suits.len(),
{
    if suits.len() == 0 {
        Seq::empty()
    } else {
        product(suits.drop_last(), ranks) + suit_row(suits.last(), ranks)
    }
}

/// All thirteen ranks, from Ace down.
pub open spec fn all_ranks() -> Seq<Rank> {
    seq![
        Rank::Ace, Rank::King, Rank::Queen, Rank::Jack, Rank::Ten, Rank::Nine, Rank::Eight,
        Rank::Seven, Rank::Six, Rank::Five, Rank::Four, Rank::Three, Rank::Two,
    ]
}

/// The numeric ranks, from ten down.
pub open spec fn numbered_ranks() -> Seq<Rank> {
    seq![
        Rank::Ten, Rank::Nine, Rank::Eight, Rank::Seven, Rank::Six, Rank::Five, Rank::Four,
        Rank::Three, Rank::Two,
    ]
}

/// The dungeon before shuffling: every rank of Spades and Clubs, then the
/// numeric ranks of Hearts and Diamonds.
pub open spec fn full_dungeon() -> Seq<Card> {
    product(seq![Suit::Spades, Suit::Clubs], all_ranks()) + product(
        seq![Suit::Hearts, Suit::Diamonds],
        numbered_ranks(),
    )
}

/// `order` lists each position below `n` exactly once.
pub open spec fn is_permutation(order: Seq<u32>, n: nat) -> bool {
    &&& order.len() == n
    &&& order.no_duplicates()
    &&& forall|i: int| 0 <= i < order.len() ==> order[i] < n
}

/// `d` holds the cards of `base`, each once, in some order.
pub open spec fn reorders(d: Seq<Card>, base: Seq<Card>) -> bool {
    exists|order: Seq<u32>|
        {
            &&& #[trigger] is_permutation(order, base.len())
            &&& d.len() == base.len()
            &&& forall|i: int| 0 <= i < d.len() ==> d[i] == base[order[i] as int]
        }
}

/// Appends one card of each of `ranks` for each of `suits`.
pub fn fold_in(cards: &mut Vec<Card>, suits: &[Suit], ranks: &[Rank])
    ensures
        final(cards)@ == old(cards)@ + product(suits@, ranks@),
{
    let ghost start = cards@;
    let mut i: usize = 0;
    while i < suits.len()
        invariant
            i <= suits@.len(),
            cards@ == start + product(suits@.take(i as int), ranks@),
        decreases suits@.len() - i,
    {
        let suit = suits[i];
        let ghost before = cards@;
        let mut j: usize = 0;
        while j < ranks.len()
            invariant
                j <= ranks@.len(),
                suit == suits@[i as int],
                cards@ == before + suit_row(suit, ranks@.take(j as int)),
            decreases ranks@.len() - j,
        {
            cards.push(Card::new(ranks[j], suit));
            assert(suit_row(suit, ranks@.take(j + 1)) =~= suit_row(suit, ranks@.take(j as int)).push(
                Card { rank: ranks@[j as int], suit },
            ));
            j = j + 1;
        }
        assert(ranks@.take(j as int) =~= ranks@);
        assert(suits@.take(i + 1).drop_last() =~= suits@.take(i as int));
        i = i + 1;
    }
    assert(suits@.take(i as int) =~= suits@);
}

/// Relies on cardpack's `Pile::shuffle`, which reorders the pile's cards with
/// rand's `SliceRandom::shuffle`. Card `i` of the pile carries `i` in its sort
/// weight, so the weights read back list each position below `n` once.
#[verifier::external_body]
fn shuffled_positions(n: u32) -> (r: Vec<u32>)
    ensures
        is_permutation(r@, n as nat),
{
    let cards = (0..n).map(|i| cardpack::Card { weight: i, ..cardpack::Card::default() });
    let pile = cardpack::Pile::from_vector(cards.collect());
    pile.shuffle().cards().iter().map(|c| c.weight).collect()
}

/// Builds the fixed dungeon composition, in its unshuffled order.
pub fn build_dungeon() -> (r: Vec<Card>)
    ensures
        r@ == full_dungeon(),
{
    let every_rank = vec![
        Rank::Ace, Rank::King, Rank::Queen, Rank::Jack, Rank::Ten, Rank::Nine, Rank::Eight,
        Rank::Seven, Rank::Six, Rank::Five, Rank::Four, Rank::Three, Rank::Two,
    ];
    let numbered = vec![
        Rank::Ten, Rank::Nine, Rank::Eight, Rank::Seven, Rank::Six, Rank::Five, Rank::Four,
        Rank::Three, Rank::Two,
    ];
    let black_suits = vec![Suit::Spades, Suit::Clubs];
    let red_suits = vec![Suit::Hearts, Suit::Diamonds];
    assert(every_rank@ =~= all_ranks());
    assert(numbered@ =~= numbered_ranks());
    assert(black_suits@ =~= seq![Suit::Spades, Suit::Clubs]);
    assert(red_suits@ =~= seq![Suit::Hearts, Suit::Diamonds]);
    let mut dungeon: Vec<Card> = Vec::new();
    fold_in(&mut dungeon, black_suits.as_slice(), every_rank.as_slice());
    fold_in(&mut dungeon, red_suits.as_slice(), numbered.as_slice());
    assert(dungeon@ =~= full_dungeon());
    dungeon
}

/// The cards of `base` at the positions listed in `order`.
pub fn arrange(base: &Vec<Card>, order: &Vec<u32>) -> (r: Vec<Card>)
    requires
        is_permutation(order@, base@.len()),
    ensures
        r@.len() == base@.len(),
        forall|i: int| 0 <= i < r@.len() ==> r@[i] == base@[order@[i] as int],
        reorders(r@, base@),
{
    let mut r: Vec<Card> = Vec::new();
    let mut i: usize = 0;
    while i < order.len()
        invariant
            is_permutation(order@, base@.len()),
            i <= order@.len(),
            r@.len() == i,
            forall|k: int| 0 <= k < i ==> r@[k] == base@[order@[k] as int],
        decreases order@.len() - i,
    {
        r.push(base[order[i] as usize]);
        i = i + 1;
    }
    assert(is_permutation(order@, base@.len()));
    r
}

/// A reordering of a sequence without repeated cards has no repeated card
/// either, and holds exactly the same cards.
pub proof fn lemma_reordering_keeps_cards(d: Seq<Card>, base: Seq<Card>)
    requires
        reorders(d, base),
        base.no_duplicates(),
    ensures
        d.len() == base.len(),
        d.no_duplicates(),
        forall|c: Card| d.contains(c) <==> base.contains(c),
{
    broadcast use vstd::set::group_set_axioms, vstd::seq_lib::seq_to_set_is_finite;

    let order = choose|order: Seq<u32>|
        {
            &&& #[trigger] is_permutation(order, base.len())
            &&& d.len() == base.len()
            &&& forall|i: int| 0 <= i < d.len() ==> d[i] == base[order[i] as int]
        };
    assert forall|i: int, j: int| 0 <= i < d.len() && 0 <= j < d.len() && i != j implies d[i]
        != d[j] by {
        assert(order[i] != order[j]);
    }
    assert forall|c: Card| d.contains(c) implies base.contains(c) by {
        let i = choose|i: int| 0 <= i < d.len() && d[i] == c;
        assert(base[order[i] as int] == c);
    }
    d.unique_seq_to_set();
    base.unique_seq_to_set();
    assert(d.to_set().subset_of(base.to_set()));
    vstd::set_lib::lemma_subset_equality(d.to_set(), base.to_set());
    assert forall|c: Card| base.contains(c) implies d.contains(c) by {
        assert(base.to_set().contains(c));
        assert(d.to_set().contains(c));
    }
}

proof fn lemma_full_dungeon_len()
    ensures
        full_dungeon().len() == DECK_SIZE,
{
    reveal_with_fuel(product, 3);
}

impl Game {
    /// A new game: the dungeon is the fixed composition in a random order,
    /// health is full, there is no weapon and the room is empty.
    pub fn setup() -> (r: Game)
        ensures
            r@.wf(),
            r@.dungeon.len() == DECK_SIZE,
            reorders(r@.dungeon, full_dungeon()),
            r@.room.len() == 0,
            r@.weapon.is_none(),
            r@.weakest_killed.is_none(),
            !r@.just_avoided_room,
            r@.health == MAX_HEALTH,
    {
        let dungeon = build_dungeon();
        proof {
            lemma_full_dungeon_len();
        }
        let order = shuffled_positions(44);
        let shuffled = arrange(&dungeon, &order);
        Game::new(shuffled)
    }
}

} // verus!
