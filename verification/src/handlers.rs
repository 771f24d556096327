//! Route handler logic over the collection model.
//!
//! One function per endpoint, each composing identifier validation, the
//! collection operations and the status mapping exactly as the service does:
//! a malformed identifier short-circuits to bad-request before the
//! collection is touched, a miss is not-found, and create and update re-read
//! the written document and return it.

use vstd::prelude::*;
use crate::object_id::{oid_of, valid_object_id_hex, ObjectId};
use crate::response::{
    parse_id_or_bad_request, STATUS_BAD_REQUEST, STATUS_INTERNAL_ERROR, STATUS_NOT_FOUND,
    STATUS_NO_CONTENT,
};
use crate::schema::{
    apply_update_view, created_user_view, create_user_document, CreateUserSchema, CreateUserView,
    UpdateUserSchema, UserSchema, UserView,
};
use crate::store::{has_id, update_all, views_of, Collection};

verus! {

/// After a creation under a fresh identifier, that identifier is present,
/// and the only document carrying it is the created one: its fields are the
/// input's, its identifier the assigned one.
pub proof fn lemma_create_then_get(docs: Seq<UserView>, input: CreateUserView, id: ObjectId)
    requires
        !has_id(docs, id),
    ensures
        has_id(docs.push(created_user_view(input, id)), id),
        forall|i: int|
            0 <= i < docs.push(created_user_view(input, id)).len() && (#[trigger] docs.push(
                created_user_view(input, id),
            )[i]).id == Some(id) ==> docs.push(created_user_view(input, id))[i]
                == created_user_view(input, id),
{
    let after = docs.push(created_user_view(input, id));
    assert(after[docs.len() as int] == created_user_view(input, id));
    assert forall|i: int|
        0 <= i < after.len() && (#[trigger] after[i]).id == Some(id) implies after[i]
        == created_user_view(input, id) by {
        if i < docs.len() {
            assert(docs[i].id == Some(id));
        }
    };
}

/// An update leaves every identifier in place: the collection holds an
/// identifier after the update exactly when it held it before.
pub proof fn lemma_update_keeps_ids(docs: Seq<UserView>, id: ObjectId, p: crate::schema::UpdateUserView, probe: ObjectId)
    ensures
        has_id(update_all(docs, id, p), probe) <==> has_id(docs, probe),
{
    let after = update_all(docs, id, p);
    assert forall|i: int| 0 <= i < docs.len() implies (#[trigger] after[i]).id == docs[i].id by {};
    assert(has_id(after, probe) ==> has_id(docs, probe)) by {
        if has_id(after, probe) {
            let i = choose|i: int| 0 <= i < after.len() && (#[trigger] after[i]).id == Some(probe);
            assert(docs[i].id == Some(probe));
        }
    };
    assert(has_id(docs, probe) ==> has_id(after, probe)) by {
        if has_id(docs, probe) {
            let i = choose|i: int| 0 <= i < docs.len() && (#[trigger] docs[i]).id == Some(probe);
            assert(after[i].id == Some(probe));
        }
    };
}

/// An update with no field present rewrites nothing: the collection is
/// unchanged, whatever identifier it addressed.
pub proof fn lemma_empty_update_leaves_collection(
    docs: Seq<UserView>,
    id: ObjectId,
    p: crate::schema::UpdateUserView,
)
    requires
        p.name is None,
        p.email is None,
        p.age is None,
        p.city is None,
    ensures
        update_all(docs, id, p) == docs,
{
    assert forall|i: int| 0 <= i < docs.len() implies #[trigger] update_all(docs, id, p)[i]
        == docs[i] by {
        crate::schema::lemma_empty_update_is_noop(docs[i], p);
    };
    assert(update_all(docs, id, p) =~= docs);
}

/// Create a document: the store assigns `new_id`, the document is stored
/// last with the input's fields under that identifier, and the re-read
/// returns exactly that document.
pub fn handle_create_user(col: &mut Collection, input: CreateUserSchema, new_id: ObjectId) -> (r:
    Result<UserSchema, u16>)
    requires
        !has_id(old(col)@, new_id),
    ensures
        final(col)@ == old(col)@.push(created_user_view(input@, new_id)),
        r matches Ok(u) && u@ == created_user_view(input@, new_id),
{
    let ghost input_view = input@;
    let mut doc = create_user_document(input);
    doc.id = Some(new_id);
    proof {
        assert(doc@ == created_user_view(input_view, new_id));
        lemma_create_then_get(col@, input_view, new_id);
    }
    col.insert(doc);
    match col.find_by_id(&new_id) {
        Some(u) => Ok(u),
        None => Err(STATUS_INTERNAL_ERROR),
    }
}

/// Fetch a document by its path parameter: bad-request on a malformed
/// identifier with the collection never consulted, not-found when no
/// document carries the identifier, otherwise the document.
pub fn handle_get_user(col: &Collection, raw_id: &[u8]) -> (r: Result<UserSchema, u16>)
    ensures
        match r {
            Ok(u) => valid_object_id_hex(raw_id@) && u@.id == Some(oid_of(raw_id@)) && exists|i: int|
                0 <= i < col@.len() && #[trigger] col@[i] == u@,
            Err(code) => (code == STATUS_BAD_REQUEST && !valid_object_id_hex(raw_id@)) || (code
                == STATUS_NOT_FOUND && valid_object_id_hex(raw_id@) && !has_id(
                col@,
                oid_of(raw_id@),
            )),
        },
{
    let id = match parse_id_or_bad_request(raw_id) {
        Ok(id) => id,
        Err(code) => {
            return Err(code);
        },
    };
    match col.find_by_id(&id) {
        Some(u) => Ok(u),
        None => Err(STATUS_NOT_FOUND),
    }
}

/// Update a document by its path parameter: bad-request on a malformed
/// identifier with the collection never touched; otherwise the present
/// fields of the matching document are replaced and the re-read document is
/// returned, or not-found when no document carries the identifier.
pub fn handle_update_user(col: &mut Collection, raw_id: &[u8], upd: &UpdateUserSchema) -> (r:
    Result<UserSchema, u16>)
    ensures
        !valid_object_id_hex(raw_id@) ==> final(col)@ == old(col)@ && r == Err::<
            UserSchema,
            u16,
        >(STATUS_BAD_REQUEST),
        valid_object_id_hex(raw_id@) ==> final(col)@ == update_all(
            old(col)@,
            oid_of(raw_id@),
            upd@,
        ),
        valid_object_id_hex(raw_id@) ==> match r {
            Ok(u) => exists|i: int|
                0 <= i < old(col)@.len() && (#[trigger] old(col)@[i]).id == Some(oid_of(raw_id@))
                    && u@ == apply_update_view(old(col)@[i], upd@),
            Err(code) => code == STATUS_NOT_FOUND && !has_id(old(col)@, oid_of(raw_id@)),
        },
{
    let id = match parse_id_or_bad_request(raw_id) {
        Ok(id) => id,
        Err(code) => {
            return Err(code);
        },
    };
    let ghost orig = col@;
    col.update_by_id(&id, upd);
    proof {
        lemma_update_keeps_ids(orig, id, upd@, id);
    }
    match col.find_by_id(&id) {
        Some(u) => {
            proof {
                let i = choose|i: int| 0 <= i < col@.len() && #[trigger] col@[i] == u@;
                assert(col@[i] == update_all(orig, id, upd@)[i]);
                assert(orig[i].id == Some(id)) by {
                    if orig[i].id != Some(id) {
                        assert(col@[i] == orig[i]);
                    }
                }
            }
            Ok(u)
        },
        None => Err(STATUS_NOT_FOUND),
    }
}

/// Delete a document by its path parameter: bad-request on a malformed
/// identifier with the collection never touched; otherwise the matching
/// document is removed, with no-content when something matched and
/// not-found when nothing did.
pub fn handle_delete_user(col: &mut Collection, raw_id: &[u8]) -> (r: Result<u16, u16>)
    ensures
        !valid_object_id_hex(raw_id@) ==> final(col)@ == old(col)@ && r == Err::<u16, u16>(
            STATUS_BAD_REQUEST,
        ),
        valid_object_id_hex(raw_id@) ==> final(col)@ == old(col)@.filter(
            |u: UserView| u.id != Some(oid_of(raw_id@)),
        ) && !has_id(final(col)@, oid_of(raw_id@)),
        valid_object_id_hex(raw_id@) ==> match r {
            Ok(code) => code == STATUS_NO_CONTENT && has_id(old(col)@, oid_of(raw_id@)),
            Err(code) => code == STATUS_NOT_FOUND && !has_id(old(col)@, oid_of(raw_id@)),
        },
{
    let id = match parse_id_or_bad_request(raw_id) {
        Ok(id) => id,
        Err(code) => {
            return Err(code);
        },
    };
    let n = col.delete_by_id(&id);
    if n == 0 {
        Err(STATUS_NOT_FOUND)
    } else {
        Ok(STATUS_NO_CONTENT)
    }
}

/// Report the users grouped by city, each group with its user count and age
/// sum, ordered by count descending: always a success on the collection
/// model, internal-error being owed only to a failed store operation.
pub fn handle_city_stats(col: &Collection) -> (r: Result<
    Vec<crate::schema::UserAggregateResult>,
    u16,
>)
    ensures
        r matches Ok(v) && crate::stats::valid_report(
            crate::stats::user_rows(col@),
            crate::stats::user_stat_views(v@),
        ),
{
    Ok(crate::stats::user_city_stats(&col.docs))
}

/// List the whole collection in store-native order: always a success, and an
/// empty collection is an empty array, never an error.
pub fn handle_list_users(col: &Collection) -> (r: Result<Vec<UserSchema>, u16>)
    ensures
        r matches Ok(v) && views_of(v@) == col@,
        col@.len() == 0 ==> (r matches Ok(v) && v@.len() == 0),
{
    Ok(col.all_docs())
}

} // verus!
