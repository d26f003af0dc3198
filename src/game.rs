use vstd::prelude::*;

use crate::card::{card_weight, is_monster, weight, Card, Suit};

verus! {

/// Health never rises above this value.
pub const MAX_HEALTH: u8 = 20;

/// A freshly entered room holds this many cards when the dungeon can supply them.
pub const ROOM_SIZE: usize = 4;

/// Cards in the dungeon and the room together never exceed the size of the built dungeon.
pub const DECK_SIZE: usize = 44;

#[derive(Clone, Copy, Debug, PartialEq, Eq, Structural)]
pub enum Outcome {
    Won,
    Lost,
}

/// How a finished game ended, with its score.
#[derive(Clone, Copy, Debug, PartialEq, Eq, Structural)]
pub struct GameResult {
    pub outcome: Outcome,
    pub score: i32,
}

/// Misuse of the room discipline.
#[derive(Clone, Copy, Debug, PartialEq, Eq, Structural)]
pub enum Error {
    /// A room was entered while the dungeon had no card left to draw.
    DungeonFinished,
    /// A room was entered while the current one still held more than one card.
    RoomUnfinished,
}

/// The state of one game: the dungeon still to draw from, the room in play and
/// the player.
pub struct Game {
    pub dungeon: Vec<Card>,
    pub weapon: Option<u8>,
    pub weakest_killed: Option<u8>,
    pub just_avoided_room: bool,
    pub room: Vec<Card>,
    pub health: u8,
}

/// The mathematical model of a [`Game`].
pub struct GameView {
    pub dungeon: Seq<Card>,
    pub room: Seq<Card>,
    pub weapon: Option<u8>,
    pub weakest_killed: Option<u8>,
    pub just_avoided_room: bool,
    pub health: u8,
}

impl View for Game {
    type V = GameView;

    open spec fn view(&self) -> GameView {
        GameView {
            dungeon: self.dungeon@,
            room: self.room@,
            weapon: self.weapon,
            weakest_killed: self.weakest_killed,
            just_avoided_room: self.just_avoided_room,
            health: self.health,
        }
    }
}

pub open spec fn sat_sub(a: u8, b: u8) -> u8 {
    if a >= b {
        (a - b) as u8
    } else {
        0
    }
}

/// Sum of the weights of the monster cards in `s`.
pub open spec fn monster_total(s: Seq<Card>) -> int
    decreases s.len(),
{
    if s.len() == 0 {
        0
    } else {
        monster_total(s.drop_last()) + if is_monster(s.last().suit) {
            card_weight(s.last()) as int
        } else {
            0
        }
    }
}

impl GameView {
    pub open spec fn wf(self) -> bool {
        &&& self.health <= MAX_HEALTH
        &&& self.dungeon.len() + self.room.len() <= DECK_SIZE
    }

    /// The weapon may meet `monster` if it has killed nothing yet, or only
    /// heavier monsters.
    pub open spec fn weapon_usable(self, monster: u8) -> bool {
        &&& self.weapon.is_some()
        &&& (self.weakest_killed.is_none() || monster < self.weakest_killed.unwrap())
    }

    pub open spec fn equipped(self, weapon: u8) -> GameView {
        GameView { weapon: Some(weapon), weakest_killed: None, ..self }
    }

    pub open spec fn fought(self, monster: u8, use_weapon: bool) -> GameView {
        let used = use_weapon && self.weapon_usable(monster);
        let blocked = if used { self.weapon.unwrap() } else { 0 };
        GameView {
            health: sat_sub(self.health, sat_sub(monster, blocked)),
            weakest_killed: if used { Some(monster) } else { self.weakest_killed },
            ..self
        }
    }

    pub open spec fn healed(self, potion: u8) -> GameView {
        GameView {
            health: if self.health + potion >= MAX_HEALTH {
                MAX_HEALTH
            } else {
                (self.health + potion) as u8
            },
            ..self
        }
    }

    /// The effect of a card on the player, dispatched by suit.
    pub open spec fn applied(self, card: Card, use_weapon: bool) -> GameView {
        match card.suit {
            Suit::Diamonds => self.equipped(card_weight(card)),
            Suit::Hearts => self.healed(card_weight(card)),
            _ => self.fought(card_weight(card), use_weapon),
        }
    }

    /// How many cards entering a room draws from the dungeon.
    pub open spec fn draw_count(self) -> int {
        let wanted = ROOM_SIZE - self.room.len();
        if self.dungeon.len() < wanted {
            self.dungeon.len() as int
        } else {
            wanted
        }
    }

    pub open spec fn entered(self) -> Result<GameView, Error> {
        if self.room.len() > 1 {
            Err(Error::RoomUnfinished)
        } else if self.dungeon.len() == 0 {
            Err(Error::DungeonFinished)
        } else {
            let n = self.draw_count();
            Ok(
                GameView {
                    room: self.room + self.dungeon.take(n),
                    dungeon: self.dungeon.skip(n),
                    ..self
                },
            )
        }
    }

    /// The room goes back under the dungeon, and the next room must be played.
    pub open spec fn avoided(self) -> GameView {
        GameView {
            dungeon: self.dungeon + self.room,
            room: Seq::empty(),
            just_avoided_room: true,
            ..self
        }
    }

    pub open spec fn loss_score(self) -> int {
        -monster_total(self.dungeon)
    }

    /// The final health, plus the last card's weight when that card was a potion.
    pub open spec fn win_score(self, last: Card) -> int {
        self.health + if last.suit == Suit::Hearts {
            card_weight(last) as int
        } else {
            0
        }
    }

    /// The state after resolving the room card at `index`, and the result when
    /// that ends the game.
    pub open spec fn resolved(self, index: int, use_weapon: bool) -> (GameView, Option<GameResult>) {
        let card = self.room[index];
        let played = GameView { just_avoided_room: false, ..self.applied(card, use_weapon) };
        if played.health == 0 {
            (played, Some(GameResult { outcome: Outcome::Lost, score: played.loss_score() as i32 }))
        } else {
            let after = GameView { room: played.room.remove(index), ..played };
            if after.dungeon.len() == 0 && after.room.len() == 0 {
                (after, Some(GameResult { outcome: Outcome::Won, score: after.win_score(card) as i32 }))
            } else {
                (after, None)
            }
        }
    }
}

/// Sum of monster weights over a prefix, bounded by the heaviest rank.
proof fn lemma_monster_total_bound(s: Seq<Card>)
    ensures
        0 <= monster_total(s) <= 14 * s.len(),
    decreases s.len(),
{
    if s.len() > 0 {
        lemma_monster_total_bound(s.drop_last());
    }
}

/// Sum of the weights of the monster cards in `cards`.
pub fn monster_weight_total(cards: &Vec<Card>) -> (r: u32)
    requires
        cards@.len() <= DECK_SIZE,
    ensures
        r as int == monster_total(cards@),
        r <= 14 * cards@.len(),
{
    let mut total: u32 = 0;
    let mut i: usize = 0;
    while i < cards.len()
        invariant
            i <= cards@.len() <= DECK_SIZE,
            total as int == monster_total(cards@.take(i as int)),
        decreases cards@.len() - i,
    {
        let c = cards[i];
        proof {
            assert(cards@.take(i + 1).drop_last() =~= cards@.take(i as int));
            lemma_monster_total_bound(cards@.take(i as int));
        }
        if c.is_monster() {
            total = total + weight(&c) as u32;
        }
        i = i + 1;
    }
    assert(cards@.take(i as int) =~= cards@);
    proof {
        lemma_monster_total_bound(cards@);
    }
    total
}

impl Game {
    /// A game over the given dungeon, with full health, no weapon and an empty room.
    pub fn new(dungeon: Vec<Card>) -> (r: Game)
        requires
            dungeon@.len() <= DECK_SIZE,
        ensures
            r@.wf(),
            r@.dungeon == dungeon@,
            r@.room.len() == 0,
            r@.weapon.is_none(),
            r@.weakest_killed.is_none(),
            !r@.just_avoided_room,
            r@.health == MAX_HEALTH,
    {
        Game {
            dungeon,
            weapon: None,
            weakest_killed: None,
            just_avoided_room: false,
            room: Vec::new(),
            health: MAX_HEALTH,
        }
    }

    pub fn weapon_usable(&self, monster: u8) -> (r: bool)
        ensures
            r == self@.weapon_usable(monster),
    {
        match (self.weapon, self.weakest_killed) {
            (None, _) => false,
            (Some(_), None) => true,
            (Some(_), Some(prev)) => monster < prev,
        }
    }

    /// Takes up a new weapon, which has killed nothing yet.
    pub fn equip(&mut self, weapon: u8)
        ensures
            final(self)@ == old(self)@.equipped(weapon),
            final(self)@.weapon == Some(weapon),
            final(self)@.weakest_killed.is_none(),
    {
        self.weapon = Some(weapon);
        self.weakest_killed = None;
    }

    /// Meets a monster; the weapon takes part when `use_weapon` and it is
    /// still usable against this monster.
    pub fn fight(&mut self, monster: u8, use_weapon: bool)
        ensures
            final(self)@ == old(self)@.fought(monster, use_weapon),
    {
        let blocked: u8 = match self.weapon {
            Some(weapon) => {
                if use_weapon && self.weapon_usable(monster) {
                    self.weakest_killed = Some(monster);
                    weapon
                } else {
                    0
                }
            },
            None => 0,
        };
        let damage = monster.saturating_sub(blocked);
        self.health = self.health.saturating_sub(damage);
    }

    /// Drinks a potion; health stops at its maximum.
    pub fn heal(&mut self, potion: u8)
        requires
            old(self).health <= MAX_HEALTH,
        ensures
            final(self)@ == old(self)@.healed(potion),
    {
        if potion >= MAX_HEALTH - self.health {
            self.health = MAX_HEALTH;
        } else {
            self.health = self.health + potion;
        }
    }

    pub fn apply_card(&mut self, card: &Card, use_weapon: bool)
        requires
            old(self).health <= MAX_HEALTH,
        ensures
            final(self)@ == old(self)@.applied(*card, use_weapon),
    {
        match card.suit {
            Suit::Diamonds => self.equip(weight(card)),
            Suit::Hearts => self.heal(weight(card)),
            Suit::Spades | Suit::Clubs => self.fight(weight(card), use_weapon),
        }
    }

    /// Fills the room from the front of the dungeon.
    pub fn enter(&mut self) -> (r: Result<(), Error>)
        requires
            old(self)@.wf(),
        ensures
            final(self)@.wf(),
            match old(self)@.entered() {
                Ok(v) => r is Ok && final(self)@ == v,
                Err(e) => r == Err::<(), Error>(e) && final(self)@ == old(self)@,
            },
    {
        if self.room.len() > 1 {
            return Err(Error::RoomUnfinished);
        }
        if self.dungeon.len() == 0 {
            return Err(Error::DungeonFinished);
        }
        let wanted = ROOM_SIZE - self.room.len();
        let n: usize = if self.dungeon.len() < wanted { self.dungeon.len() } else { wanted };
        let ghost start = self@;
        let mut k: usize = 0;
        while k < n
            invariant
                n == start.draw_count(),
                k <= n <= start.dungeon.len(),
                self.room@ == start.room + start.dungeon.take(k as int),
                self.dungeon@ == start.dungeon.skip(k as int),
                self.weapon == start.weapon,
                self.weakest_killed == start.weakest_killed,
                self.just_avoided_room == start.just_avoided_room,
                self.health == start.health,
            decreases n - k,
        {
            let c = self.dungeon.remove(0);
            self.room.push(c);
            proof {
                assert(start.dungeon.take(k + 1) =~= start.dungeon.take(k as int).push(c));
                assert(start.dungeon.skip(k + 1) =~= start.dungeon.skip(k as int).remove(0));
            }
            k = k + 1;
        }
        assert(start.entered() == Ok::<GameView, Error>(self@));
        Ok(())
    }

    /// Whether the current room may be avoided.
    pub fn can_avoid(&self) -> (r: bool)
        ensures
            r == !self@.just_avoided_room,
    {
        !self.just_avoided_room
    }

    /// Pushes the whole room back under the dungeon, unless the previous room
    /// was avoided too; then nothing changes and `false` is returned.
    pub fn avoid(&mut self) -> (r: bool)
        requires
            old(self)@.wf(),
        ensures
            r == !old(self)@.just_avoided_room,
            final(self)@ == if r { old(self)@.avoided() } else { old(self)@ },
            final(self)@.wf(),
    {
        if self.just_avoided_room {
            return false;
        }
        let ghost start = self@;
        let mut i: usize = 0;
        while i < self.room.len()
            invariant
                self.room@ == start.room,
                i <= self.room@.len(),
                self.dungeon@ == start.dungeon + start.room.take(i as int),
                self.weapon == start.weapon,
                self.weakest_killed == start.weakest_killed,
                self.just_avoided_room == start.just_avoided_room,
                self.health == start.health,
            decreases self.room@.len() - i,
        {
            let c = self.room[i];
            self.dungeon.push(c);
            proof {
                assert(start.room.take(i + 1) =~= start.room.take(i as int).push(c));
            }
            i = i + 1;
        }
        assert(start.room.take(i as int) =~= start.room);
        self.room = Vec::new();
        self.just_avoided_room = true;
        assert(self@.room =~= Seq::<Card>::empty());
        true
    }

    /// Whether cards of the current room are still to be resolved before
    /// entering the next one: more than one card is left, or the dungeon is
    /// spent and the room is not.
    pub fn room_in_play(&self) -> (r: bool)
        ensures
            r == (self@.room.len() > 1 || (self@.dungeon.len() == 0 && self@.room.len() > 0)),
    {
        self.room.len() > 1 || (self.dungeon.len() == 0 && self.room.len() > 0)
    }

    /// Resolves the room card at `index`. Returns the result when the game
    /// ends: lost as soon as health reaches zero, won when the dungeon and the
    /// room are both empty afterwards.
    pub fn resolve(&mut self, index: usize, use_weapon: bool) -> (r: Option<GameResult>)
        requires
            old(self)@.wf(),
            index < old(self)@.room.len(),
        ensures
            final(self)@.wf(),
            (final(self)@, r) == old(self)@.resolved(index as int, use_weapon),
    {
        let card = self.room[index];
        self.apply_card(&card, use_weapon);
        self.just_avoided_room = false;
        if self.health == 0 {
            let total = monster_weight_total(&self.dungeon);
            return Some(GameResult { outcome: Outcome::Lost, score: -(total as i32) });
        }
        self.room.remove(index);
        if self.dungeon.len() == 0 && self.room.len() == 0 {
            let bonus: u8 = match card.suit {
                Suit::Hearts => weight(&card),
                _ => 0,
            };
            return Some(GameResult { outcome: Outcome::Won, score: (self.health as i32) + (bonus as i32) });
        }
        None
    }
}

} // verus!
