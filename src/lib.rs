//! Rules engine for a single-player dungeon-crawl card game played with a
//! standard deck: dungeon construction, room entry and avoidance, card
//! resolution and scoring.

pub mod card;
pub mod game;
pub mod deck;
pub mod laws;
