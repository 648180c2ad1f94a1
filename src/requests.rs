use vstd::prelude::*;

use crate::relations::{Permission, Relation, ResourceType, SubjectType};

verus! {

/// A malformed request, told apart from a denial.
#[derive(Debug, Clone, Copy, PartialEq, Eq, Structural)]
pub enum InvalidInput {
    ResourceType,
    Relation,
    SubjectType,
    Permission,
    /// An empty resource or subject identifier.
    MissingIds,
}

impl InvalidInput {
    pub open spec fn text(self) -> Seq<char> {
        match self {
            InvalidInput::ResourceType => "invalid resource_type"@,
            InvalidInput::Relation => "invalid relation"@,
            InvalidInput::SubjectType => "invalid subject_type"@,
            InvalidInput::Permission => "invalid permission"@,
            InvalidInput::MissingIds => "resource_id and subject_id are required"@,
        }
    }

    /// The caller-facing message.
    pub fn message(&self) -> (r: &'static str)
        ensures
            r@ == self.text(),
    {
        match self {
            InvalidInput::ResourceType => "invalid resource_type",
            InvalidInput::Relation => "invalid relation",
            InvalidInput::SubjectType => "invalid subject_type",
            InvalidInput::Permission => "invalid permission",
            InvalidInput::MissingIds => "resource_id and subject_id are required",
        }
    }
}

/// The outcome of reading a grant request: the first field that does not
/// decode, in the order resource type, relation, subject type, then empty
/// identifiers; else the decoded values.
pub open spec fn grant_outcome(
    resource_type: i32,
    relation: i32,
    subject_type: i32,
    resource_id: Seq<char>,
    subject_id: Seq<char>,
) -> Result<(ResourceType, Relation, SubjectType), InvalidInput> {
    match (
        ResourceType::from_code(resource_type),
        Relation::from_code(relation),
        SubjectType::from_code(subject_type),
    ) {
        (None, _, _) => Err(InvalidInput::ResourceType),
        (Some(_), None, _) => Err(InvalidInput::Relation),
        (Some(_), Some(_), None) => Err(InvalidInput::SubjectType),
        (Some(t), Some(r), Some(s)) => if resource_id.len() == 0 || subject_id.len() == 0 {
            Err(InvalidInput::MissingIds)
        } else {
            Ok((t, r, s))
        },
    }
}

/// Decodes the wire codes of a grant request and checks its identifiers.
pub fn validate_grant(
    resource_type: i32,
    relation: i32,
    subject_type: i32,
    resource_id: &str,
    subject_id: &str,
) -> (r: Result<(ResourceType, Relation, SubjectType), InvalidInput>)
    ensures
        r == grant_outcome(resource_type, relation, subject_type, resource_id@, subject_id@),
{
    let t = match ResourceType::from_proto(resource_type) {
        Some(t) => t,
        None => {
            return Err(InvalidInput::ResourceType);
        },
    };
    let rel = match Relation::from_proto(relation) {
        Some(r) => r,
        None => {
            return Err(InvalidInput::Relation);
        },
    };
    let s = match SubjectType::from_proto(subject_type) {
        Some(s) => s,
        None => {
            return Err(InvalidInput::SubjectType);
        },
    };
    if resource_id.unicode_len() == 0 || subject_id.unicode_len() == 0 {
        return Err(InvalidInput::MissingIds);
    }
    Ok((t, rel, s))
}

/// Decodes the wire codes of a revoke request. An absent or unknown relation
/// code revokes every relation the subject holds on the resource.
pub fn validate_revoke(resource_type: i32, relation: Option<i32>, subject_type: i32) -> (r: Result<
    (ResourceType, Option<Relation>, SubjectType),
    InvalidInput,
>)
    ensures
        ResourceType::from_code(resource_type) is None ==> r == Err::<
            (ResourceType, Option<Relation>, SubjectType),
            InvalidInput,
        >(InvalidInput::ResourceType),
        ResourceType::from_code(resource_type) is Some && SubjectType::from_code(subject_type) is None
            ==> r == Err::<(ResourceType, Option<Relation>, SubjectType), InvalidInput>(
            InvalidInput::SubjectType,
        ),
        r matches Ok((t, rel, s)) ==> {
            &&& Some(t) == ResourceType::from_code(resource_type)
            &&& Some(s) == SubjectType::from_code(subject_type)
            &&& rel == match relation {
                Some(v) => Relation::from_code(v),
                None => None,
            }
        },
        ResourceType::from_code(resource_type) is Some && SubjectType::from_code(subject_type) is Some
            ==> r is Ok,
{
    let t = match ResourceType::from_proto(resource_type) {
        Some(t) => t,
        None => {
            return Err(InvalidInput::ResourceType);
        },
    };
    let s = match SubjectType::from_proto(subject_type) {
        Some(s) => s,
        None => {
            return Err(InvalidInput::SubjectType);
        },
    };
    let rel = match relation {
        Some(v) => Relation::from_proto(v),
        None => None,
    };
    Ok((t, rel, s))
}

/// Decodes the wire codes of an access check: resource type first, then permission.
pub fn validate_check(resource_type: i32, permission: i32) -> (r: Result<(ResourceType, Permission), InvalidInput>)
    ensures
        ResourceType::from_code(resource_type) is None ==> r == Err::<(ResourceType, Permission), InvalidInput>(
            InvalidInput::ResourceType,
        ),
        ResourceType::from_code(resource_type) is Some && Permission::from_code(permission) is None ==> r
            == Err::<(ResourceType, Permission), InvalidInput>(InvalidInput::Permission),
        r matches Ok((t, p)) ==> Some(t) == ResourceType::from_code(resource_type) && Some(p)
            == Permission::from_code(permission),
        ResourceType::from_code(resource_type) is Some && Permission::from_code(permission) is Some ==> r is Ok,
{
    let t = match ResourceType::from_proto(resource_type) {
        Some(t) => t,
        None => {
            return Err(InvalidInput::ResourceType);
        },
    };
    match Permission::from_proto(permission) {
        Some(p) => Ok((t, p)),
        None => Err(InvalidInput::Permission),
    }
}

/// The page and page size of a listing: page 1 at least (1 when absent),
/// at most 100 entries per page (20 when absent).
pub fn page_window(page: Option<u32>, page_size: Option<u32>) -> (r: (u32, u32))
    ensures
        r.0 == match page {
            Some(p) => if p >= 1 {
                p
            } else {
                1
            },
            None => 1,
        },
        r.1 == match page_size {
            Some(s) => if s <= 100 {
                s
            } else {
                100
            },
            None => 20,
        },
{
    let p = match page {
        Some(p) => if p >= 1 {
            p
        } else {
            1
        },
        None => 1,
    };
    let s = match page_size {
        Some(s) => if s <= 100 {
            s
        } else {
            100
        },
        None => 20,
    };
    (p, s)
}

} // verus!
