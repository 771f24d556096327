//! Schemas of the user collection.
//!
//! A persisted document carries a store-assigned identifier and four scalar
//! fields. Creation input has the fields and no identifier; update input has
//! every field optional, where an absent field means "leave unchanged". The
//! partial-update semantics of the store's `$set`-style operation is modelled
//! by [`apply_update_view`], and the update document sent to the store
//! contains exactly the present fields, in declaration order.

use vstd::prelude::*;
use crate::object_id::ObjectId;

verus! {

/// Mathematical view of a user document.
pub ghost struct UserView {
    pub id: Option<ObjectId>,
    pub name: Seq<char>,
    pub email: Seq<char>,
    pub age: int,
    pub city: Seq<char>,
}

/// Mathematical view of a creation input.
pub ghost struct CreateUserView {
    pub name: Seq<char>,
    pub email: Seq<char>,
    pub age: int,
    pub city: Seq<char>,
}

/// Mathematical view of a partial-update input.
pub ghost struct UpdateUserView {
    pub name: Option<Seq<char>>,
    pub email: Option<Seq<char>>,
    pub age: Option<int>,
    pub city: Option<Seq<char>>,
}

/// A persisted user document. The identifier is `None` only on the value
/// handed to the store for insertion; every stored document carries one.
pub struct UserSchema {
    pub id: Option<ObjectId>,
    pub name: String,
    pub email: String,
    pub age: i32,
    pub city: String,
}

impl View for UserSchema {
    type V = UserView;

    open spec fn view(&self) -> UserView {
        UserView {
            id: self.id,
            name: self.name@,
            email: self.email@,
            age: self.age as int,
            city: self.city@,
        }
    }
}

impl Clone for UserSchema {
    fn clone(&self) -> (r: Self)
        ensures
            r@ == self@,
    {
        UserSchema {
            id: self.id,
            name: self.name.clone(),
            email: self.email.clone(),
            age: self.age,
            city: self.city.clone(),
        }
    }
}

/// Creation input: every field required, no identifier.
pub struct CreateUserSchema {
    pub name: String,
    pub email: String,
    pub age: i32,
    pub city: String,
}

impl View for CreateUserSchema {
    type V = CreateUserView;

    open spec fn view(&self) -> CreateUserView {
        CreateUserView { name: self.name@, email: self.email@, age: self.age as int, city: self.city@ }
    }
}

/// Partial-update input: an absent field leaves the stored value unchanged.
pub struct UpdateUserSchema {
    pub name: Option<String>,
    pub email: Option<String>,
    pub age: Option<i32>,
    pub city: Option<String>,
}

impl View for UpdateUserSchema {
    type V = UpdateUserView;

    open spec fn view(&self) -> UpdateUserView {
        UpdateUserView {
            name: match self.name {
                Some(s) => Some(s@),
                None => None,
            },
            email: match self.email {
                Some(s) => Some(s@),
                None => None,
            },
            age: match self.age {
                Some(a) => Some(a as int),
                None => None,
            },
            city: match self.city {
                Some(s) => Some(s@),
                None => None,
            },
        }
    }
}

/// One entry of the per-city report: the grouped city, the number of grouped
/// users and the sum of their ages. The mean age owed by the report is
/// `age_sum / total_users`, computed at the serving edge, since it need not
/// be integral.
pub struct UserAggregateResult {
    pub city: String,
    pub age_sum: i128,
    pub total_users: usize,
}

/// Mathematical view of one per-city report entry.
pub ghost struct UserStatView {
    pub city: Seq<char>,
    pub age_sum: int,
    pub total_users: int,
}

impl View for UserAggregateResult {
    type V = UserStatView;

    open spec fn view(&self) -> UserStatView {
        UserStatView {
            city: self.city@,
            age_sum: self.age_sum as int,
            total_users: self.total_users as int,
        }
    }
}

/// The document a creation request stores, once the store has assigned `id`:
/// the input's fields, unchanged, under that identifier.
pub open spec fn created_user_view(input: CreateUserView, id: ObjectId) -> UserView {
    UserView { id: Some(id), name: input.name, email: input.email, age: input.age, city: input.city }
}

/// The document a creation request hands to the store: the input's fields
/// with the identifier unset.
pub fn create_user_document(input: CreateUserSchema) -> (r: UserSchema)
    ensures
        r@.id is None,
        r@.name == input@.name,
        r@.email == input@.email,
        r@.age == input@.age,
        r@.city == input@.city,
{
    UserSchema { id: None, name: input.name, email: input.email, age: input.age, city: input.city }
}

/// What a partial update makes of a stored document: present fields are
/// replaced, absent fields and the identifier are untouched.
pub open spec fn apply_update_view(u: UserView, p: UpdateUserView) -> UserView {
    UserView {
        id: u.id,
        name: match p.name {
            Some(n) => n,
            None => u.name,
        },
        email: match p.email {
            Some(e) => e,
            None => u.email,
        },
        age: match p.age {
            Some(a) => a,
            None => u.age,
        },
        city: match p.city {
            Some(c) => c,
            None => u.city,
        },
    }
}

/// Apply a partial update to a document, as the store's field-set operation
/// does.
pub fn apply_update(doc: &UserSchema, upd: &UpdateUserSchema) -> (r: UserSchema)
    ensures
        r@ == apply_update_view(doc@, upd@),
{
    UserSchema {
        id: doc.id,
        name: match &upd.name {
            Some(n) => n.clone(),
            None => doc.name.clone(),
        },
        email: match &upd.email {
            Some(e) => e.clone(),
            None => doc.email.clone(),
        },
        age: match upd.age {
            Some(a) => a,
            None => doc.age,
        },
        city: match &upd.city {
            Some(c) => c.clone(),
            None => doc.city.clone(),
        },
    }
}

/// One field of the update document sent to the store.
pub enum UserField {
    Name(String),
    Email(String),
    Age(i32),
    City(String),
}

/// Mathematical view of one update-document field.
pub ghost enum UserFieldView {
    Name(Seq<char>),
    Email(Seq<char>),
    Age(int),
    City(Seq<char>),
}

impl View for UserField {
    type V = UserFieldView;

    open spec fn view(&self) -> UserFieldView {
        match self {
            UserField::Name(s) => UserFieldView::Name(s@),
            UserField::Email(s) => UserFieldView::Email(s@),
            UserField::Age(a) => UserFieldView::Age(*a as int),
            UserField::City(s) => UserFieldView::City(s@),
        }
    }
}

/// The views of a field list.
pub open spec fn field_views(s: Seq<UserField>) -> Seq<UserFieldView> {
    s.map_values(|f: UserField| f@)
}

/// The update document owed to a partial-update input: exactly the present
/// fields, in declaration order. Field presence, not value, decides
/// inclusion, so an input with no field present yields the empty document.
pub open spec fn update_doc_view(p: UpdateUserView) -> Seq<UserFieldView> {
    (match p.name {
        Some(n) => seq![UserFieldView::Name(n)],
        None => seq![],
    }) + (match p.email {
        Some(e) => seq![UserFieldView::Email(e)],
        None => seq![],
    }) + (match p.age {
        Some(a) => seq![UserFieldView::Age(a)],
        None => seq![],
    }) + (match p.city {
        Some(c) => seq![UserFieldView::City(c)],
        None => seq![],
    })
}

/// Build the update document for a partial-update input.
pub fn user_update_fields(upd: &UpdateUserSchema) -> (r: Vec<UserField>)
    ensures
        field_views(r@) == update_doc_view(upd@),
{
    let mut r: Vec<UserField> = Vec::new();
    match &upd.name {
        Some(n) => r.push(UserField::Name(n.clone())),
        None => (),
    }
    match &upd.email {
        Some(e) => r.push(UserField::Email(e.clone())),
        None => (),
    }
    match upd.age {
        Some(a) => r.push(UserField::Age(a)),
        None => (),
    }
    match &upd.city {
        Some(c) => r.push(UserField::City(c.clone())),
        None => (),
    }
    proof {
        assert(field_views(r@) =~= update_doc_view(upd@));
    }
    r
}

/// An update with no field present leaves the document unchanged.
pub proof fn lemma_empty_update_is_noop(u: UserView, p: UpdateUserView)
    requires
        p.name is None,
        p.email is None,
        p.age is None,
        p.city is None,
    ensures
        apply_update_view(u, p) == u,
        update_doc_view(p) == Seq::<UserFieldView>::empty(),
{
    assert(update_doc_view(p) =~= Seq::<UserFieldView>::empty());
}

/// A partial update never touches the identifier, replaces exactly the
/// present fields, and leaves every absent field unchanged.
pub proof fn lemma_update_touches_only_present_fields(u: UserView, p: UpdateUserView)
    ensures
        apply_update_view(u, p).id == u.id,
        p.name is None ==> apply_update_view(u, p).name == u.name,
        p.email is None ==> apply_update_view(u, p).email == u.email,
        p.age is None ==> apply_update_view(u, p).age == u.age,
        p.city is None ==> apply_update_view(u, p).city == u.city,
        p.name matches Some(n) ==> apply_update_view(u, p).name == n,
        p.email matches Some(e) ==> apply_update_view(u, p).email == e,
        p.age matches Some(a) ==> apply_update_view(u, p).age == a,
        p.city matches Some(c) ==> apply_update_view(u, p).city == c,
{
}

} // verus!
