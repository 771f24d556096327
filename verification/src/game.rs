//! Schemas of the game collection.
//!
//! The game collection follows the same pattern as the user collection: a
//! persisted document with a store-assigned identifier, a creation input
//! without one, and a partial-update input with every field optional. Its
//! routes are creation, listing and the per-genre report. The price is kept
//! in minor currency units, as an integer, so the report's sums stay exact;
//! the serving edge scales it to and from the store's numeric field.

use vstd::prelude::*;
use crate::object_id::ObjectId;

verus! {

/// Mathematical view of a game document.
pub ghost struct GameView {
    pub id: Option<ObjectId>,
    pub title: Seq<char>,
    pub genre: Seq<char>,
    pub price_minor: int,
    pub release_year: int,
    pub publisher: Seq<char>,
}

/// A persisted game document.
pub struct GameSchema {
    pub id: Option<ObjectId>,
    pub title: String,
    pub genre: String,
    pub price_minor: i64,
    pub release_year: i32,
    pub publisher: String,
}

impl View for GameSchema {
    type V = GameView;

    open spec fn view(&self) -> GameView {
        GameView {
            id: self.id,
            title: self.title@,
            genre: self.genre@,
            price_minor: self.price_minor as int,
            release_year: self.release_year as int,
            publisher: self.publisher@,
        }
    }
}

impl Clone for GameSchema {
    fn clone(&self) -> (r: Self)
        ensures
            r@ == self@,
    {
        GameSchema {
            id: self.id,
            title: self.title.clone(),
            genre: self.genre.clone(),
            price_minor: self.price_minor,
            release_year: self.release_year,
            publisher: self.publisher.clone(),
        }
    }
}

/// Creation input: every field required, no identifier.
pub struct CreateGameSchema {
    pub title: String,
    pub genre: String,
    pub price_minor: i64,
    pub release_year: i32,
    pub publisher: String,
}

/// Partial-update input: an absent field leaves the stored value unchanged.
pub struct UpdateGameSchema {
    pub title: Option<String>,
    pub genre: Option<String>,
    pub price_minor: Option<i64>,
    pub release_year: Option<i32>,
    pub publisher: Option<String>,
}

/// The document a creation request hands to the store: the input's fields
/// with the identifier unset.
pub fn create_game_document(input: CreateGameSchema) -> (r: GameSchema)
    ensures
        r@.id is None,
        r@.title == input.title@,
        r@.genre == input.genre@,
        r@.price_minor == input.price_minor as int,
        r@.release_year == input.release_year as int,
        r@.publisher == input.publisher@,
{
    GameSchema {
        id: None,
        title: input.title,
        genre: input.genre,
        price_minor: input.price_minor,
        release_year: input.release_year,
        publisher: input.publisher,
    }
}

/// The views of a sequence of game documents.
pub open spec fn game_views(s: Seq<GameSchema>) -> Seq<GameView> {
    s.map_values(|d: GameSchema| d@)
}

/// One entry of the per-genre report: the grouped genre, the number of
/// grouped games and the sum of their prices in minor units. The mean price
/// owed by the report is `price_sum / total_games`, computed at the serving
/// edge.
pub struct GameAggregateResult {
    pub genre: String,
    pub price_sum: i128,
    pub total_games: usize,
}

/// Mathematical view of one per-genre report entry.
pub ghost struct GameStatView {
    pub genre: Seq<char>,
    pub price_sum: int,
    pub total_games: int,
}

impl View for GameAggregateResult {
    type V = GameStatView;

    open spec fn view(&self) -> GameStatView {
        GameStatView {
            genre: self.genre@,
            price_sum: self.price_sum as int,
            total_games: self.total_games as int,
        }
    }
}

} // verus!
