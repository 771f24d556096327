//! A model of the game collection, and its route logic.
//!
//! The game variant serves three routes: creation, listing and the per-genre
//! report. Its collection model carries the operations those routes need,
//! with the store's documented semantics, as the user collection model does.

use vstd::prelude::*;
use crate::game::{
    create_game_document, game_views, CreateGameSchema, GameAggregateResult, GameSchema, GameView,
};
use crate::object_id::ObjectId;
use crate::response::STATUS_INTERNAL_ERROR;
use crate::stats::{game_genre_stats, game_rows, game_stat_views, valid_report};

verus! {

/// Some document of the collection carries the identifier.
pub open spec fn game_has_id(docs: Seq<GameView>, id: ObjectId) -> bool {
    exists|i: int| 0 <= i < docs.len() && (#[trigger] docs[i]).id == Some(id)
}

/// The document a creation request stores, once the store has assigned `id`:
/// the input's fields, unchanged, under that identifier.
pub open spec fn created_game_view(input: CreateGameSchema, id: ObjectId) -> GameView {
    GameView {
        id: Some(id),
        title: input.title@,
        genre: input.genre@,
        price_minor: input.price_minor as int,
        release_year: input.release_year as int,
        publisher: input.publisher@,
    }
}

/// One collection of game documents, in insertion order.
pub struct GameCollection {
    pub docs: Vec<GameSchema>,
}

impl View for GameCollection {
    type V = Seq<GameView>;

    open spec fn view(&self) -> Seq<GameView> {
        game_views(self.docs@)
    }
}

fn game_id_matches(doc: &GameSchema, id: &ObjectId) -> (r: bool)
    ensures
        r == (doc@.id == Some(*id)),
{
    match &doc.id {
        Some(d) => d.value == id.value,
        None => false,
    }
}

/// After a creation under a fresh identifier, the only document carrying it
/// is the created one: its fields are the input's, its identifier the
/// assigned one.
pub proof fn lemma_create_then_get_game(docs: Seq<GameView>, input: CreateGameSchema, id: ObjectId)
    requires
        !game_has_id(docs, id),
    ensures
        game_has_id(docs.push(created_game_view(input, id)), id),
        forall|i: int|
            0 <= i < docs.push(created_game_view(input, id)).len() && (#[trigger] docs.push(
                created_game_view(input, id),
            )[i]).id == Some(id) ==> docs.push(created_game_view(input, id))[i]
                == created_game_view(input, id),
{
    let after = docs.push(created_game_view(input, id));
    assert(after[docs.len() as int] == created_game_view(input, id));
    assert forall|i: int|
        0 <= i < after.len() && (#[trigger] after[i]).id == Some(id) implies after[i]
        == created_game_view(input, id) by {
        if i < docs.len() {
            assert(docs[i].id == Some(id));
        }
    };
}

impl GameCollection {
    /// An empty collection.
    pub fn new() -> (c: GameCollection)
        ensures
            c@ == Seq::<GameView>::empty(),
    {
        let c = GameCollection { docs: Vec::new() };
        proof {
            assert(c@ =~= Seq::<GameView>::empty());
        }
        c
    }

    /// Store one document, last in the store-native order.
    pub fn insert(&mut self, doc: GameSchema)
        ensures
            final(self)@ == old(self)@.push(doc@),
    {
        self.docs.push(doc);
        proof {
            assert(self@ =~= old(self)@.push(self.docs@.last()@));
        }
    }

    /// Fetch the document carrying an identifier, if any: `None` exactly when
    /// no stored document carries it.
    pub fn find_by_id(&self, id: &ObjectId) -> (r: Option<GameSchema>)
        ensures
            match r {
                Some(g) => g@.id == Some(*id) && exists|i: int|
                    0 <= i < self@.len() && #[trigger] self@[i] == g@,
                None => !game_has_id(self@, *id),
            },
    {
        let mut i: usize = 0;
        while i < self.docs.len()
            invariant
                i <= self.docs.len(),
                forall|j: int| 0 <= j < i ==> (#[trigger] self@[j]).id != Some(*id),
            decreases self.docs.len() - i,
        {
            if game_id_matches(&self.docs[i], id) {
                let g = self.docs[i].clone();
                proof {
                    assert(self@[i as int] == g@);
                }
                return Some(g);
            }
            i += 1;
        }
        None
    }

    /// Every stored document, in the store-native order.
    pub fn all_docs(&self) -> (r: Vec<GameSchema>)
        ensures
            game_views(r@) == self@,
    {
        let mut r: Vec<GameSchema> = Vec::new();
        let mut i: usize = 0;
        while i < self.docs.len()
            invariant
                i <= self.docs.len(),
                r@.len() == i,
                forall|j: int| 0 <= j < i ==> #[trigger] game_views(r@)[j] == self@[j],
            decreases self.docs.len() - i,
        {
            let ghost prev = r@;
            r.push(self.docs[i].clone());
            proof {
                assert forall|j: int| 0 <= j <= i implies #[trigger] game_views(r@)[j]
                    == self@[j] by {
                    if j < i {
                        assert(game_views(prev)[j] == self@[j]);
                        assert(r@[j] == prev[j]);
                    } else {
                        assert(r@[j]@ == self.docs@[i as int]@);
                    }
                }
            }
            i += 1;
        }
        proof {
            assert(game_views(r@) =~= self@);
        }
        r
    }
}

/// Create a game: the store assigns `new_id`, the document is stored last
/// with the input's fields under that identifier, and the re-read returns
/// exactly that document.
pub fn handle_create_game(col: &mut GameCollection, input: CreateGameSchema, new_id: ObjectId) -> (r:
    Result<GameSchema, u16>)
    requires
        !game_has_id(old(col)@, new_id),
    ensures
        final(col)@ == old(col)@.push(created_game_view(input, new_id)),
        r matches Ok(g) && g@ == created_game_view(input, new_id),
{
    let ghost input_snapshot = input;
    let mut doc = create_game_document(input);
    doc.id = Some(new_id);
    proof {
        assert(doc@ == created_game_view(input_snapshot, new_id));
        lemma_create_then_get_game(col@, input_snapshot, new_id);
    }
    col.insert(doc);
    match col.find_by_id(&new_id) {
        Some(g) => Ok(g),
        None => Err(STATUS_INTERNAL_ERROR),
    }
}

/// List the whole collection in store-native order: always a success, and an
/// empty collection is an empty array, never an error.
pub fn handle_list_games(col: &GameCollection) -> (r: Result<Vec<GameSchema>, u16>)
    ensures
        r matches Ok(v) && game_views(v@) == col@,
        col@.len() == 0 ==> (r matches Ok(v) && v@.len() == 0),
{
    Ok(col.all_docs())
}

/// Report the games grouped by genre, each group with its game count and
/// price sum, ordered by count descending: always a success on the
/// collection model, internal-error being owed only to a failed store
/// operation.
pub fn handle_genre_stats(col: &GameCollection) -> (r: Result<Vec<GameAggregateResult>, u16>)
    ensures
        r matches Ok(v) && valid_report(game_rows(col@), game_stat_views(v@)),
{
    Ok(game_genre_stats(&col.docs))
}

} // verus!
