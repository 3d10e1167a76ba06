//! Whose data a request is about.

use vstd::prelude::*;
use crate::error::Error;
use crate::ident::{uuid_text, Id};

verus! {

/// The field by which a query is narrowed to its scope.
#[derive(Debug, Clone, Copy, PartialEq, Eq, Structural)]
pub enum ScopeKey {
    Organization,
    Project,
    Collection,
}

impl ScopeKey {
    /// The name of the field in the semantic layer.
    pub open spec fn name(self) -> Seq<char> {
        match self {
            ScopeKey::Organization => "organization_id"@,
            ScopeKey::Project => "project_id"@,
            ScopeKey::Collection => "collection_id"@,
        }
    }

    /// The name of the field in the semantic layer.
    pub fn as_str(&self) -> (r: &'static str)
        ensures
            r@ == self.name(),
    {
        match self {
            ScopeKey::Organization => "organization_id",
            ScopeKey::Project => "project_id",
            ScopeKey::Collection => "collection_id",
        }
    }
}

/// A resolved scope: the identifier, written out, and the field it is
/// compared with.
#[derive(Debug, PartialEq, Eq)]
pub struct Scope {
    pub id: String,
    pub key: ScopeKey,
}

/// What a `Scope` holds.
pub struct ScopeView {
    pub id: Seq<char>,
    pub key: ScopeKey,
}

impl View for Scope {
    type V = ScopeView;

    open spec fn view(&self) -> ScopeView {
        ScopeView { id: self.id@, key: self.key }
    }
}

/// The one identifier that is given, with its field; `None` where none or
/// more than one is given.
pub open spec fn scope_of(
    organization_id: Option<Id>,
    project_id: Option<Id>,
    collection_id: Option<Id>,
) -> Option<(Id, ScopeKey)> {
    match (organization_id, project_id, collection_id) {
        (Some(id), None, None) => Some((id, ScopeKey::Organization)),
        (None, Some(id), None) => Some((id, ScopeKey::Project)),
        (None, None, Some(id)) => Some((id, ScopeKey::Collection)),
        _ => None,
    }
}

/// Resolves the scope of a request. Exactly one of the three identifiers
/// must be given; every other combination is an `InvalidScope`.
pub fn parse_id_and_root(
    organization_id: Option<Id>,
    project_id: Option<Id>,
    collection_id: Option<Id>,
) -> (r: Result<Scope, Error>)
    ensures
        match scope_of(organization_id, project_id, collection_id) {
            Some((id, key)) => r is Ok && r->Ok_0@ == (ScopeView { id: uuid_text(id.bits), key }),
            None => r == Err::<Scope, Error>(Error::InvalidScope),
        },
{
    match (organization_id, project_id, collection_id) {
        (Some(id), None, None) => Ok(Scope { id: id.to_text(), key: ScopeKey::Organization }),
        (None, Some(id), None) => Ok(Scope { id: id.to_text(), key: ScopeKey::Project }),
        (None, None, Some(id)) => Ok(Scope { id: id.to_text(), key: ScopeKey::Collection }),
        _ => Err(Error::InvalidScope),
    }
}

/// A request has a scope exactly when one of the three identifiers is given
/// and the other two are not.
pub proof fn lemma_scope_exactly_one(
    organization_id: Option<Id>,
    project_id: Option<Id>,
    collection_id: Option<Id>,
)
    ensures
        scope_of(organization_id, project_id, collection_id) is Some <==> (if organization_id is Some {
            1int
        } else {
            0int
        }) + (if project_id is Some {
            1int
        } else {
            0int
        }) + (if collection_id is Some {
            1int
        } else {
            0int
        }) == 1,
{
}

} // verus!
