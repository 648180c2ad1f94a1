use vstd::prelude::*;

use crate::text::same_text;

verus! {

/// The named relation a subject holds on a resource.
#[derive(Debug, Clone, Copy, PartialEq, Eq, Hash, Structural)]
pub enum Relation {
    Owner,
    Editor,
    Viewer,
    Sharer,
}

/// An atomic action on a resource.
#[derive(Debug, Clone, Copy, PartialEq, Eq, Hash, Structural)]
pub enum Permission {
    Read,
    Write,
    Delete,
    Share,
}

impl Relation {
    /// Stored text of the relation.
    pub open spec fn text(self) -> Seq<char> {
        match self {
            Relation::Owner => "RELATION_OWNER"@,
            Relation::Editor => "RELATION_EDITOR"@,
            Relation::Viewer => "RELATION_VIEWER"@,
            Relation::Sharer => "RELATION_SHARER"@,
        }
    }

    /// The relation whose stored text is `s`, if any.
    pub open spec fn from_text(s: Seq<char>) -> Option<Relation> {
        if s == "RELATION_OWNER"@ {
            Some(Relation::Owner)
        } else if s == "RELATION_EDITOR"@ {
            Some(Relation::Editor)
        } else if s == "RELATION_VIEWER"@ {
            Some(Relation::Viewer)
        } else if s == "RELATION_SHARER"@ {
            Some(Relation::Sharer)
        } else {
            None
        }
    }

    /// Wire code of the relation.
    pub open spec fn code(self) -> i32 {
        match self {
            Relation::Owner => 1,
            Relation::Editor => 2,
            Relation::Viewer => 3,
            Relation::Sharer => 4,
        }
    }

    /// The relation with wire code `v`, if any.
    pub open spec fn from_code(v: i32) -> Option<Relation> {
        if v == 1 {
            Some(Relation::Owner)
        } else if v == 2 {
            Some(Relation::Editor)
        } else if v == 3 {
            Some(Relation::Viewer)
        } else if v == 4 {
            Some(Relation::Sharer)
        } else {
            None
        }
    }

    /// Rank used to order relations for display: Owner > Editor > Sharer > Viewer.
    pub open spec fn level(self) -> u8 {
        match self {
            Relation::Owner => 4,
            Relation::Editor => 3,
            Relation::Sharer => 2,
            Relation::Viewer => 1,
        }
    }

    /// The fixed grant table: which permissions each relation carries.
    pub open spec fn permits(self, p: Permission) -> bool {
        match self {
            Relation::Owner => true,
            Relation::Editor => p == Permission::Read || p == Permission::Write,
            Relation::Sharer => p == Permission::Read || p == Permission::Share,
            Relation::Viewer => p == Permission::Read,
        }
    }

    pub fn as_str(&self) -> (r: &'static str)
        ensures
            r@ == self.text(),
    {
        match self {
            Relation::Owner => "RELATION_OWNER",
            Relation::Editor => "RELATION_EDITOR",
            Relation::Viewer => "RELATION_VIEWER",
            Relation::Sharer => "RELATION_SHARER",
        }
    }

    pub fn from_str(s: &str) -> (r: Option<Self>)
        ensures
            r == Relation::from_text(s@),
    {
        if same_text(s, "RELATION_OWNER") {
            Some(Relation::Owner)
        } else if same_text(s, "RELATION_EDITOR") {
            Some(Relation::Editor)
        } else if same_text(s, "RELATION_VIEWER") {
            Some(Relation::Viewer)
        } else if same_text(s, "RELATION_SHARER") {
            Some(Relation::Sharer)
        } else {
            None
        }
    }

    pub fn from_proto(v: i32) -> (r: Option<Self>)
        ensures
            r == Relation::from_code(v),
    {
        match v {
            1 => Some(Relation::Owner),
            2 => Some(Relation::Editor),
            3 => Some(Relation::Viewer),
            4 => Some(Relation::Sharer),
            _ => None,
        }
    }

    pub fn to_proto(self) -> (r: i32)
        ensures
            r == self.code(),
    {
        match self {
            Relation::Owner => 1,
            Relation::Editor => 2,
            Relation::Viewer => 3,
            Relation::Sharer => 4,
        }
    }

    /// Hierarchy level (higher ranks first when displaying relations).
    pub fn hierarchy_level(self) -> (r: u8)
        ensures
            r == self.level(),
    {
        match self {
            Relation::Owner => 4,
            Relation::Editor => 3,
            Relation::Sharer => 2,
            Relation::Viewer => 1,
        }
    }

    /// Whether this relation ranks at or above `other` in the hierarchy.
    pub fn is_at_least(self, other: Relation) -> (r: bool)
        ensures
            r == (self.level() >= other.level()),
    {
        self.hierarchy_level() >= other.hierarchy_level()
    }

    /// All permissions this relation grants, in Read, Write, Delete, Share order.
    pub fn granted_permissions(self) -> (r: &'static [Permission])
        ensures
            forall|p: Permission| r@.contains(p) <==> self.permits(p),
            forall|i: int, j: int| 0 <= i < j < r@.len() ==> r@[i].code() < r@[j].code(),
    {
        match self {
            Relation::Owner => &[Permission::Read, Permission::Write, Permission::Delete, Permission::Share],
            Relation::Editor => &[Permission::Read, Permission::Write],
            Relation::Viewer => &[Permission::Read],
            Relation::Sharer => &[Permission::Read, Permission::Share],
        }
    }

    /// Whether this relation grants `perm`.
    pub fn grants(self, perm: Permission) -> (r: bool)
        ensures
            r == self.permits(perm),
    {
        let granted = self.granted_permissions();
        let mut i: usize = 0;
        while i < granted.len()
            invariant
                forall|p: Permission| granted@.contains(p) <==> self.permits(p),
                forall|j: int| 0 <= j < i ==> granted@[j] != perm,
            decreases granted.len() - i,
        {
            if granted[i] == perm {
                return true;
            }
            i += 1;
        }
        assert(!granted@.contains(perm));
        false
    }
}

impl Permission {
    /// Wire code of the permission.
    pub open spec fn code(self) -> i32 {
        match self {
            Permission::Read => 1,
            Permission::Write => 2,
            Permission::Delete => 3,
            Permission::Share => 4,
        }
    }

    /// The permission with wire code `v`, if any.
    pub open spec fn from_code(v: i32) -> Option<Permission> {
        if v == 1 {
            Some(Permission::Read)
        } else if v == 2 {
            Some(Permission::Write)
        } else if v == 3 {
            Some(Permission::Delete)
        } else if v == 4 {
            Some(Permission::Share)
        } else {
            None
        }
    }

    /// Every permission, in the order in which effective permissions are reported.
    pub open spec fn all() -> Seq<Permission> {
        seq![Permission::Read, Permission::Write, Permission::Delete, Permission::Share]
    }

    pub fn from_proto(v: i32) -> (r: Option<Self>)
        ensures
            r == Permission::from_code(v),
    {
        match v {
            1 => Some(Permission::Read),
            2 => Some(Permission::Write),
            3 => Some(Permission::Delete),
            4 => Some(Permission::Share),
            _ => None,
        }
    }

    pub fn to_proto(self) -> (r: i32)
        ensures
            r == self.code(),
    {
        match self {
            Permission::Read => 1,
            Permission::Write => 2,
            Permission::Delete => 3,
            Permission::Share => 4,
        }
    }
}

/// Kinds of resource that can be protected.
#[derive(Debug, Clone, Copy, PartialEq, Eq, Hash, Structural)]
pub enum ResourceType {
    Bookmark,
}

impl ResourceType {
    /// Stored text of the resource type.
    pub open spec fn text(self) -> Seq<char> {
        match self {
            ResourceType::Bookmark => "RESOURCE_TYPE_BOOKMARK"@,
        }
    }

    /// The resource type whose stored text is `s`, if any.
    pub open spec fn from_text(s: Seq<char>) -> Option<ResourceType> {
        if s == "RESOURCE_TYPE_BOOKMARK"@ {
            Some(ResourceType::Bookmark)
        } else {
            None
        }
    }

    /// Wire code of the resource type.
    pub open spec fn code(self) -> i32 {
        match self {
            ResourceType::Bookmark => 1,
        }
    }

    /// The resource type with wire code `v`, if any.
    pub open spec fn from_code(v: i32) -> Option<ResourceType> {
        if v == 1 {
            Some(ResourceType::Bookmark)
        } else {
            None
        }
    }

    pub fn as_str(&self) -> (r: &'static str)
        ensures
            r@ == self.text(),
    {
        match self {
            ResourceType::Bookmark => "RESOURCE_TYPE_BOOKMARK",
        }
    }

    pub fn from_str(s: &str) -> (r: Option<Self>)
        ensures
            r == ResourceType::from_text(s@),
    {
        if same_text(s, "RESOURCE_TYPE_BOOKMARK") {
            Some(ResourceType::Bookmark)
        } else {
            None
        }
    }

    pub fn from_proto(v: i32) -> (r: Option<Self>)
        ensures
            r == ResourceType::from_code(v),
    {
        match v {
            1 => Some(ResourceType::Bookmark),
            _ => None,
        }
    }

    pub fn to_proto(self) -> (r: i32)
        ensures
            r == self.code(),
    {
        match self {
            ResourceType::Bookmark => 1,
        }
    }
}

/// Kinds of subject that can hold a grant.
#[derive(Debug, Clone, Copy, PartialEq, Eq, Hash, Structural)]
pub enum SubjectType {
    User,
    Role,
    /// Tenant-wide grant; its subject identifier is `"all"`.
    Tenant,
}

impl SubjectType {
    /// Stored text of the subject type.
    pub open spec fn text(self) -> Seq<char> {
        match self {
            SubjectType::User => "SUBJECT_TYPE_USER"@,
            SubjectType::Role => "SUBJECT_TYPE_ROLE"@,
            SubjectType::Tenant => "SUBJECT_TYPE_TENANT"@,
        }
    }

    /// The subject type whose stored text is `s`, if any.
    pub open spec fn from_text(s: Seq<char>) -> Option<SubjectType> {
        if s == "SUBJECT_TYPE_USER"@ {
            Some(SubjectType::User)
        } else if s == "SUBJECT_TYPE_ROLE"@ {
            Some(SubjectType::Role)
        } else if s == "SUBJECT_TYPE_TENANT"@ {
            Some(SubjectType::Tenant)
        } else {
            None
        }
    }

    /// Wire code of the subject type.
    pub open spec fn code(self) -> i32 {
        match self {
            SubjectType::User => 1,
            SubjectType::Role => 2,
            SubjectType::Tenant => 3,
        }
    }

    /// The subject type with wire code `v`, if any.
    pub open spec fn from_code(v: i32) -> Option<SubjectType> {
        if v == 1 {
            Some(SubjectType::User)
        } else if v == 2 {
            Some(SubjectType::Role)
        } else if v == 3 {
            Some(SubjectType::Tenant)
        } else {
            None
        }
    }

    pub fn as_str(&self) -> (r: &'static str)
        ensures
            r@ == self.text(),
    {
        match self {
            SubjectType::User => "SUBJECT_TYPE_USER",
            SubjectType::Role => "SUBJECT_TYPE_ROLE",
            SubjectType::Tenant => "SUBJECT_TYPE_TENANT",
        }
    }

    pub fn from_str(s: &str) -> (r: Option<Self>)
        ensures
            r == SubjectType::from_text(s@),
    {
        if same_text(s, "SUBJECT_TYPE_USER") {
            Some(SubjectType::User)
        } else if same_text(s, "SUBJECT_TYPE_ROLE") {
            Some(SubjectType::Role)
        } else if same_text(s, "SUBJECT_TYPE_TENANT") {
            Some(SubjectType::Tenant)
        } else {
            None
        }
    }

    pub fn from_proto(v: i32) -> (r: Option<Self>)
        ensures
            r == SubjectType::from_code(v),
    {
        match v {
            1 => Some(SubjectType::User),
            2 => Some(SubjectType::Role),
            3 => Some(SubjectType::Tenant),
            _ => None,
        }
    }

    pub fn to_proto(self) -> (r: i32)
        ensures
            r == self.code(),
    {
        match self {
            SubjectType::User => 1,
            SubjectType::Role => 2,
            SubjectType::Tenant => 3,
        }
    }
}

/// The relation of highest hierarchy level in `relations`, or `None` when it is empty.
pub fn get_highest_relation(relations: &[Relation]) -> (r: Option<Relation>)
    ensures
        r is None <==> relations@.len() == 0,
        r matches Some(top) ==> relations@.contains(top) && forall|i: int|
            0 <= i < relations@.len() ==> top.level() >= #[trigger] relations@[i].level(),
{
    let mut best: Option<Relation> = None;
    let mut i: usize = 0;
    while i < relations.len()
        invariant
            i <= relations@.len(),
            best is None <==> i == 0,
            best matches Some(top) ==> exists|j: int| 0 <= j < i && relations@[j] == top,
            best matches Some(top) ==> forall|j: int|
                0 <= j < i ==> top.level() >= #[trigger] relations@[j].level(),
        decreases relations.len() - i,
    {
        let candidate = relations[i];
        best = match best {
            Some(top) if candidate.hierarchy_level() < top.hierarchy_level() => Some(top),
            _ => Some(candidate),
        };
        i += 1;
    }
    best
}

/// Each relation grants exactly the permissions of its row in the grant table.
pub proof fn lemma_grant_table()
    ensures
        forall|p: Permission| Relation::Owner.permits(p),
        Relation::Editor.permits(Permission::Read) && Relation::Editor.permits(Permission::Write),
        !Relation::Editor.permits(Permission::Delete) && !Relation::Editor.permits(Permission::Share),
        Relation::Sharer.permits(Permission::Read) && Relation::Sharer.permits(Permission::Share),
        !Relation::Sharer.permits(Permission::Write) && !Relation::Sharer.permits(Permission::Delete),
        Relation::Viewer.permits(Permission::Read),
        forall|p: Permission| p != Permission::Read ==> !Relation::Viewer.permits(p),
{
}

/// Owner ranks at or above every relation; Viewer ranks at or above Viewer alone.
pub proof fn lemma_hierarchy_extremes(x: Relation)
    ensures
        Relation::Owner.level() >= x.level(),
        Relation::Viewer.level() >= x.level() <==> x == Relation::Viewer,
{
}

/// Every relation survives encoding to its wire code and to its stored text.
pub proof fn lemma_relation_round_trip(r: Relation)
    ensures
        Relation::from_code(r.code()) == Some(r),
        Relation::from_text(r.text()) == Some(r),
{
    reveal_strlit("RELATION_OWNER");
    reveal_strlit("RELATION_EDITOR");
    reveal_strlit("RELATION_VIEWER");
    reveal_strlit("RELATION_SHARER");
    // The texts differ at the first letter after the common prefix.
    assert("RELATION_OWNER"@[9] != "RELATION_EDITOR"@[9]);
    assert("RELATION_OWNER"@[9] != "RELATION_VIEWER"@[9]);
    assert("RELATION_OWNER"@[9] != "RELATION_SHARER"@[9]);
    assert("RELATION_EDITOR"@[9] != "RELATION_VIEWER"@[9]);
    assert("RELATION_EDITOR"@[9] != "RELATION_SHARER"@[9]);
    assert("RELATION_VIEWER"@[9] != "RELATION_SHARER"@[9]);
}

/// Every permission survives encoding to its wire code.
pub proof fn lemma_permission_round_trip(p: Permission)
    ensures
        Permission::from_code(p.code()) == Some(p),
{
}

/// Every resource type survives encoding to its wire code and to its stored text.
pub proof fn lemma_resource_type_round_trip(t: ResourceType)
    ensures
        ResourceType::from_code(t.code()) == Some(t),
        ResourceType::from_text(t.text()) == Some(t),
{
}

/// Every subject type survives encoding to its wire code and to its stored text.
pub proof fn lemma_subject_type_round_trip(t: SubjectType)
    ensures
        SubjectType::from_code(t.code()) == Some(t),
        SubjectType::from_text(t.text()) == Some(t),
{
    reveal_strlit("SUBJECT_TYPE_USER");
    reveal_strlit("SUBJECT_TYPE_ROLE");
    reveal_strlit("SUBJECT_TYPE_TENANT");
    assert("SUBJECT_TYPE_USER"@[13] != "SUBJECT_TYPE_ROLE"@[13]);
    assert("SUBJECT_TYPE_USER"@[13] != "SUBJECT_TYPE_TENANT"@[13]);
    assert("SUBJECT_TYPE_ROLE"@[13] != "SUBJECT_TYPE_TENANT"@[13]);
}

/// Codes outside the assigned ranges decode to nothing.
pub proof fn lemma_unassigned_codes(v: i32)
    ensures
        !(1 <= v <= 4) ==> Relation::from_code(v) is None && Permission::from_code(v) is None,
        !(1 <= v <= 3) ==> SubjectType::from_code(v) is None,
        v != 1 ==> ResourceType::from_code(v) is None,
{
}

} // verus!
