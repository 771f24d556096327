//! A model of the user collection.
//!
//! The route handlers issue single-document reads and writes against the
//! document store; this module states those operations' documented semantics
//! over an in-memory collection, so the handler logic can be verified against
//! them. Documents are kept in insertion order, which is the store-native
//! order a listing returns. The store assigns identifiers uniquely, so at
//! most one document ever matches an identifier; the write operations here
//! act on every match.

use vstd::prelude::*;
use crate::object_id::ObjectId;
use crate::schema::{apply_update, apply_update_view, UpdateUserSchema, UpdateUserView, UserSchema, UserView};

verus! {

/// The views of a sequence of documents.
pub open spec fn views_of(s: Seq<UserSchema>) -> Seq<UserView> {
    s.map_values(|d: UserSchema| d@)
}

/// Some document of the collection carries the identifier.
pub open spec fn has_id(docs: Seq<UserView>, id: ObjectId) -> bool {
    exists|i: int| 0 <= i < docs.len() && (#[trigger] docs[i]).id == Some(id)
}

/// What the collection's documents become under a partial update by
/// identifier: matching documents are rewritten in place, the rest and the
/// order are untouched.
pub open spec fn update_all(docs: Seq<UserView>, id: ObjectId, p: UpdateUserView) -> Seq<UserView> {
    docs.map_values(
        |u: UserView|
            if u.id == Some(id) {
                apply_update_view(u, p)
            } else {
                u
            },
    )
}

/// A fetch after a deletion misses: no document under the deleted identifier
/// survives the deletion.
pub proof fn lemma_deleted_id_not_found(docs: Seq<UserView>, id: ObjectId)
    ensures
        !has_id(docs.filter(|u: UserView| u.id != Some(id)), id),
{
    broadcast use vstd::seq_lib::group_filter_ensures;

    let pred = |u: UserView| u.id != Some(id);
    assert forall|j: int| 0 <= j < docs.filter(pred).len() implies (#[trigger] docs.filter(
        pred,
    )[j]).id != Some(id) by {
        assert(pred(docs.filter(pred)[j]));
    };
}

/// One collection of user documents, in insertion order.
pub struct Collection {
    pub docs: Vec<UserSchema>,
}

impl View for Collection {
    type V = Seq<UserView>;

    open spec fn view(&self) -> Seq<UserView> {
        views_of(self.docs@)
    }
}

proof fn lemma_filter_push(s: Seq<UserView>, x: UserView, pred: spec_fn(UserView) -> bool)
    ensures
        s.push(x).filter(pred) == (if pred(x) {
            s.filter(pred).push(x)
        } else {
            s.filter(pred)
        }),
{
    reveal(Seq::filter);
    assert(s.push(x).drop_last() =~= s);
}

fn id_matches(doc: &UserSchema, id: &ObjectId) -> (r: bool)
    ensures
        r == (doc@.id == Some(*id)),
{
    match &doc.id {
        Some(d) => d.value == id.value,
        None => false,
    }
}

impl Collection {
    /// An empty collection.
    pub fn new() -> (c: Collection)
        ensures
            c@ == Seq::<UserView>::empty(),
    {
        let c = Collection { docs: Vec::new() };
        proof {
            assert(c@ =~= Seq::<UserView>::empty());
        }
        c
    }

    /// Store one document. The new document comes last in the store-native
    /// order; everything already stored is untouched.
    pub fn insert(&mut self, doc: UserSchema)
        ensures
            final(self)@ == old(self)@.push(doc@),
    {
        self.docs.push(doc);
        proof {
            assert(self@ =~= old(self)@.push(self.docs@.last()@));
        }
    }

    /// Fetch the document carrying an identifier, if any: `None` exactly when
    /// no stored document carries it.
    pub fn find_by_id(&self, id: &ObjectId) -> (r: Option<UserSchema>)
        ensures
            match r {
                Some(u) => u@.id == Some(*id) && exists|i: int|
                    0 <= i < self@.len() && #[trigger] self@[i] == u@,
                None => !has_id(self@, *id),
            },
    {
        let mut i: usize = 0;
        while i < self.docs.len()
            invariant
                i <= self.docs.len(),
                forall|j: int| 0 <= j < i ==> (#[trigger] self@[j]).id != Some(*id),
            decreases self.docs.len() - i,
        {
            if id_matches(&self.docs[i], id) {
                let u = self.docs[i].clone();
                proof {
                    assert(self@[i as int] == u@);
                }
                return Some(u);
            }
            i += 1;
        }
        None
    }

    /// Apply a partial update to every document carrying the identifier (at
    /// most one, as the store assigns identifiers uniquely); every other
    /// document, and the order, are untouched.
    pub fn update_by_id(&mut self, id: &ObjectId, upd: &UpdateUserSchema)
        ensures
            final(self)@ == update_all(old(self)@, *id, upd@),
    {
        let ghost orig = self@;
        let mut out: Vec<UserSchema> = Vec::new();
        let mut i: usize = 0;
        while i < self.docs.len()
            invariant
                i <= self.docs.len(),
                self@ == orig,
                out@.len() == i,
                forall|j: int|
                    0 <= j < i ==> #[trigger] views_of(out@)[j] == (if orig[j].id == Some(*id) {
                        apply_update_view(orig[j], upd@)
                    } else {
                        orig[j]
                    }),
            decreases self.docs.len() - i,
        {
            let d = &self.docs[i];
            let ghost prev = out@;
            if id_matches(d, id) {
                out.push(apply_update(d, upd));
            } else {
                out.push(d.clone());
            }
            proof {
                assert forall|j: int|
                    0 <= j <= i implies #[trigger] views_of(out@)[j] == (if orig[j].id == Some(
                    *id,
                ) {
                    apply_update_view(orig[j], upd@)
                } else {
                    orig[j]
                }) by {
                    if j < i {
                        assert(views_of(prev)[j] == (if orig[j].id == Some(*id) {
                            apply_update_view(orig[j], upd@)
                        } else {
                            orig[j]
                        }));
                        assert(out@[j] == prev[j]);
                    } else {
                        assert(out@[j] == out@.last());
                        assert(orig[j] == self.docs@[i as int]@);
                    }
                }
            }
            i += 1;
        }
        self.docs = out;
        proof {
            assert(self@ =~= update_all(orig, *id, upd@));
        }
    }

    /// Remove every document carrying the identifier (at most one, as the
    /// store assigns identifiers uniquely), keeping the rest in order, and
    /// report whether anything matched: the count is zero exactly when no
    /// stored document carried the identifier.
    pub fn delete_by_id(&mut self, id: &ObjectId) -> (n: u64)
        ensures
            final(self)@ == old(self)@.filter(|u: UserView| u.id != Some(*id)),
            !has_id(final(self)@, *id),
            (n == 0) <==> !has_id(old(self)@, *id),
    {
        broadcast use vstd::seq_lib::group_filter_ensures;

        let ghost orig = self@;
        let ghost pred = |u: UserView| u.id != Some(*id);
        let mut out: Vec<UserSchema> = Vec::new();
        let mut n: u64 = 0;
        let mut i: usize = 0;
        while i < self.docs.len()
            invariant
                i <= self.docs.len(),
                self@ == orig,
                n <= i,
                pred == (|u: UserView| u.id != Some(*id)),
                views_of(out@) == orig.subrange(0, i as int).filter(pred),
                (n == 0) <==> (forall|j: int| 0 <= j < i ==> (#[trigger] orig[j]).id != Some(*id)),
            decreases self.docs.len() - i,
        {
            let ghost prefix = orig.subrange(0, i as int);
            let ghost next = orig.subrange(0, i + 1);
            proof {
                assert(next =~= prefix.push(orig[i as int]));
                lemma_filter_push(prefix, orig[i as int], pred);
            }
            let d = &self.docs[i];
            if id_matches(d, id) {
                n = n + 1;
                proof {
                    assert(next.filter(pred) == prefix.filter(pred));
                }
            } else {
                out.push(d.clone());
                proof {
                    assert(next.filter(pred) == prefix.filter(pred).push(orig[i as int]));
                    assert(views_of(out@) =~= next.filter(pred));
                }
            }
            i += 1;
        }
        proof {
            assert(orig.subrange(0, orig.len() as int) =~= orig);
            lemma_deleted_id_not_found(orig, *id);
        }
        self.docs = out;
        n
    }

    /// Every stored document, in the store-native order.
    pub fn all_docs(&self) -> (r: Vec<UserSchema>)
        ensures
            views_of(r@) == self@,
    {
        let mut r: Vec<UserSchema> = Vec::new();
        let mut i: usize = 0;
        while i < self.docs.len()
            invariant
                i <= self.docs.len(),
                r@.len() == i,
                forall|j: int| 0 <= j < i ==> #[trigger] views_of(r@)[j] == self@[j],
            decreases self.docs.len() - i,
        {
            let ghost prev = r@;
            r.push(self.docs[i].clone());
            proof {
                assert forall|j: int| 0 <= j <= i implies #[trigger] views_of(r@)[j] == self@[j] by {
                    if j < i {
                        assert(views_of(prev)[j] == self@[j]);
                        assert(r@[j] == prev[j]);
                    } else {
                        assert(r@[j]@ == self.docs@[i as int]@);
                    }
                }
            }
            i += 1;
        }
        proof {
            assert(views_of(r@) =~= self@);
        }
        r
    }
}

} // verus!
