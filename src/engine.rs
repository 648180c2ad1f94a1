use vstd::prelude::*;

use crate::relations::{lemma_relation_round_trip, Permission, Relation, ResourceType, SubjectType};
use crate::store::{PermissionRow, StoreError};
use crate::time::Timestamp;

verus! {

/// What a single check asks: may the user perform `permission` on the resource?
#[derive(Debug)]
pub struct CheckContext {
    pub tenant_id: i32,
    pub user_id: String,
    pub resource_type: ResourceType,
    pub resource_id: String,
    pub permission: Permission,
}

impl CheckContext {
    pub fn new(
        tenant_id: i32,
        user_id: &str,
        resource_type: ResourceType,
        resource_id: &str,
        permission: Permission,
    ) -> (r: CheckContext)
        ensures
            r.tenant_id == tenant_id,
            r.user_id@ == user_id@,
            r.resource_type == resource_type,
            r.resource_id@ == resource_id@,
            r.permission == permission,
    {
        CheckContext {
            tenant_id,
            user_id: user_id.to_string(),
            resource_type,
            resource_id: resource_id.to_string(),
            permission,
        }
    }
}

/// The outcome of a check: the decision, the relation that allowed it, and a reason.
#[derive(Debug)]
pub struct CheckResult {
    pub allowed: bool,
    pub relation: Option<Relation>,
    pub reason: String,
}

/// The abstract outcome of a check.
pub enum Decision {
    /// Allowed through a grant of this relation.
    Allow(Relation),
    /// Denied because the user's own grant has expired.
    Expired,
    /// Denied because no consulted grant carries the permission.
    NotFound,
}

impl CheckResult {
    /// This result reports decision `d`, with its reason text.
    pub open spec fn denotes(&self, d: Decision) -> bool {
        match d {
            Decision::Allow(rel) => {
                &&& self.allowed
                &&& self.relation == Some(rel)
                &&& self.reason@ == "direct permission"@
            },
            Decision::Expired => {
                &&& !self.allowed
                &&& self.relation is None
                &&& self.reason@ == "permission expired"@
            },
            Decision::NotFound => {
                &&& !self.allowed
                &&& self.relation is None
                &&& self.reason@ == "no permission found"@
            },
        }
    }
}

/// What one point lookup contributes to a check.
#[derive(Debug, Clone, Copy, PartialEq, Eq, Structural)]
pub enum Verdict {
    /// The grant found carries the permission: allow at once.
    Grant(Relation),
    /// The user's own grant has expired: deny at once.
    Expired,
    /// Nothing decisive here: go on with the next subject.
    Pass,
}

/// The verdict of one lookup answer for `perm` at instant `now`.
///
/// `first` marks the lookup of the user's own grant, the only one whose
/// expiry ends the check. A failed lookup counts as no grant found, and so
/// does a grant whose relation text is unknown.
pub open spec fn lookup_verdict(
    first: bool,
    perm: Permission,
    answer: Result<Option<PermissionRow>, StoreError>,
    now: Timestamp,
) -> Verdict {
    match answer {
        Ok(Some(row)) => {
            if row.expired_at(now) {
                if first {
                    Verdict::Expired
                } else {
                    Verdict::Pass
                }
            } else {
                match Relation::from_text(row.relation@) {
                    Some(rel) => if rel.permits(perm) {
                        Verdict::Grant(rel)
                    } else {
                        Verdict::Pass
                    },
                    None => Verdict::Pass,
                }
            }
        },
        _ => Verdict::Pass,
    }
}

/// The decision reached from the `k`-th answer on: the first decisive verdict wins.
pub open spec fn decision_from(
    perm: Permission,
    now: Timestamp,
    answers: Seq<Result<Option<PermissionRow>, StoreError>>,
    k: nat,
) -> Decision
    decreases answers.len() - k,
{
    if k >= answers.len() {
        Decision::NotFound
    } else {
        match lookup_verdict(k == 0, perm, answers[k as int], now) {
            Verdict::Grant(rel) => Decision::Allow(rel),
            Verdict::Expired => Decision::Expired,
            Verdict::Pass => decision_from(perm, now, answers, k + 1),
        }
    }
}

/// The decision of a check for `perm` at `now`, given the answers of its lookups in order.
pub open spec fn check_decision(
    perm: Permission,
    now: Timestamp,
    answers: Seq<Result<Option<PermissionRow>, StoreError>>,
) -> Decision {
    decision_from(perm, now, answers, 0)
}

/// The `k`-th subject consulted for a user holding `role_ids`: the user, then
/// each role in order, then the tenant-wide subject `"all"`.
pub open spec fn subject_at(user_id: Seq<char>, role_ids: Seq<String>, k: int) -> (SubjectType, Seq<char>) {
    if k == 0 {
        (SubjectType::User, user_id)
    } else if k <= role_ids.len() {
        (SubjectType::Role, role_ids[k - 1]@)
    } else {
        (SubjectType::Tenant, "all"@)
    }
}

/// Answers that are all non-decisive leave the decision to the answers after them.
pub proof fn lemma_decision_skips_passes(
    perm: Permission,
    now: Timestamp,
    answers: Seq<Result<Option<PermissionRow>, StoreError>>,
    j: nat,
    k: nat,
)
    requires
        j <= k <= answers.len(),
        forall|i: int| j <= i < k ==> lookup_verdict(i == 0, perm, answers[i], now) is Pass,
    ensures
        decision_from(perm, now, answers, j) == decision_from(perm, now, answers, k),
    decreases k - j,
{
    if j < k {
        assert(lookup_verdict(j == 0, perm, answers[j as int], now) is Pass);
        lemma_decision_skips_passes(perm, now, answers, j + 1, k);
    }
}

/// A point lookup to make in the store: the grant, if any, that the subject
/// holds on the resource.
pub struct PointLookup {
    pub tenant_id: i32,
    pub resource_type: ResourceType,
    pub resource_id: String,
    pub subject_type: SubjectType,
    pub subject_id: String,
}

impl PointLookup {
    /// This lookup asks for `subject`'s grant on the resource of `ctx`.
    pub open spec fn asks(&self, ctx: CheckContext, subject: (SubjectType, Seq<char>)) -> bool {
        &&& self.tenant_id == ctx.tenant_id
        &&& self.resource_type == ctx.resource_type
        &&& self.resource_id@ == ctx.resource_id@
        &&& self.subject_type == subject.0
        &&& self.subject_id@ == subject.1
    }
}

/// The verdict of one lookup answer, computed.
pub fn judge_lookup(
    first: bool,
    perm: Permission,
    answer: &Result<Option<PermissionRow>, StoreError>,
    now: &Timestamp,
) -> (v: Verdict)
    ensures
        v == lookup_verdict(first, perm, *answer, *now),
{
    match answer {
        Ok(Some(row)) => {
            if row.is_expired_at(now) {
                if first {
                    Verdict::Expired
                } else {
                    Verdict::Pass
                }
            } else {
                match Relation::from_str(row.relation.as_str()) {
                    Some(rel) => if rel.grants(perm) {
                        Verdict::Grant(rel)
                    } else {
                        Verdict::Pass
                    },
                    None => Verdict::Pass,
                }
            }
        },
        _ => Verdict::Pass,
    }
}

/// A check in progress: it has received the answers to its first lookups,
/// none of them decisive, and waits for the answer to the next one.
pub struct CheckRun {
    ctx: CheckContext,
    role_ids: Vec<String>,
    pending: usize,
    now: Timestamp,
    answers: Ghost<Seq<Result<Option<PermissionRow>, StoreError>>>,
}

/// The next move of a check: make a lookup and resume, or the final result.
pub enum CheckStep {
    Lookup(CheckRun, PointLookup),
    Done(CheckResult),
}

impl CheckRun {
    pub closed spec fn context(self) -> CheckContext {
        self.ctx
    }

    pub closed spec fn roles(self) -> Seq<String> {
        self.role_ids@
    }

    pub closed spec fn clock(self) -> Timestamp {
        self.now
    }

    /// The answers received so far, in lookup order.
    pub closed spec fn answers(self) -> Seq<Result<Option<PermissionRow>, StoreError>> {
        self.answers@
    }

    /// The subject whose lookup is awaited.
    pub open spec fn awaited(self) -> (SubjectType, Seq<char>) {
        subject_at(self.context().user_id@, self.roles(), self.answers().len() as int)
    }

    /// The verdict of `answer` taken as the answer to the awaited lookup.
    pub open spec fn verdict_of(self, answer: Result<Option<PermissionRow>, StoreError>) -> Verdict {
        lookup_verdict(self.answers().len() == 0, self.context().permission, answer, self.clock())
    }

    /// The awaited lookup is the last one: the tenant-wide subject.
    pub open spec fn at_last_lookup(self) -> bool {
        self.answers().len() + 1 == self.roles().len() + 2
    }

    #[verifier::type_invariant]
    spec fn well_formed(self) -> bool {
        &&& self.pending as int == self.answers@.len()
        &&& self.pending < self.role_ids@.len() + 2
        &&& self.role_ids@.len() + 2 <= usize::MAX
        &&& forall|i: int|
            0 <= i < self.answers@.len() ==> lookup_verdict(i == 0, self.ctx.permission, self.answers@[i], self.now) is Pass
    }

    /// Starts a check at instant `now`; the first lookup is the user's own grant.
    pub fn start_at(ctx: CheckContext, role_ids: &[String], now: Timestamp) -> (r: (CheckRun, PointLookup))
        requires
            role_ids@.len() + 2 <= usize::MAX,
        ensures
            r.0.context() == ctx,
            r.0.roles() == role_ids@,
            r.0.clock() == now,
            r.0.answers() == Seq::<Result<Option<PermissionRow>, StoreError>>::empty(),
            r.1.asks(ctx, (SubjectType::User, ctx.user_id@)),
    {
        let mut roles: Vec<String> = Vec::new();
        let mut i: usize = 0;
        while i < role_ids.len()
            invariant
                i <= role_ids@.len(),
                roles@ == role_ids@.subrange(0, i as int),
            decreases role_ids.len() - i,
        {
            roles.push(role_ids[i].clone());
            i += 1;
        }
        proof {
            assert(role_ids@.subrange(0, role_ids@.len() as int) == role_ids@);
        }
        let lookup = PointLookup {
            tenant_id: ctx.tenant_id,
            resource_type: ctx.resource_type,
            resource_id: ctx.resource_id.clone(),
            subject_type: SubjectType::User,
            subject_id: ctx.user_id.clone(),
        };
        let run = CheckRun { ctx, role_ids: roles, pending: 0, now, answers: Ghost(Seq::empty()) };
        (run, lookup)
    }

    /// Takes the answer to the awaited lookup and moves on.
    ///
    /// A granting answer allows at once; an expired grant of the user's own
    /// denies at once; any other answer, a failed lookup included, passes to
    /// the next subject, and past the last one the check denies.
    pub fn resume(self, answer: Result<Option<PermissionRow>, StoreError>) -> (r: CheckStep)
        ensures
            r is Done <==> (self.verdict_of(answer) !is Pass || self.at_last_lookup()),
            r matches CheckStep::Done(res) ==> res.denotes(
                check_decision(self.context().permission, self.clock(), self.answers().push(answer)),
            ),
            r matches CheckStep::Done(res) ==> (match self.verdict_of(answer) {
                Verdict::Grant(rel) => res.denotes(Decision::Allow(rel)),
                Verdict::Expired => res.denotes(Decision::Expired),
                Verdict::Pass => res.denotes(Decision::NotFound),
            }),
            r matches CheckStep::Lookup(next, req) ==> {
                &&& next.context() == self.context()
                &&& next.roles() == self.roles()
                &&& next.clock() == self.clock()
                &&& next.answers() == self.answers().push(answer)
                &&& req.asks(self.context(), next.awaited())
            },
    {
        proof {
            use_type_invariant(&self);
        }
        let first = self.pending == 0;
        let verdict = judge_lookup(first, self.ctx.permission, &answer, &self.now);
        let ghost log = self.answers@.push(answer);
        proof {
            lemma_decision_skips_passes(self.ctx.permission, self.now, log, 0, self.pending as nat);
            assert(log[self.pending as int] == answer);
            assert(decision_from(self.ctx.permission, self.now, log, (self.pending + 1) as nat)
                == Decision::NotFound);
        }
        match verdict {
            Verdict::Grant(rel) => CheckStep::Done(
                CheckResult { allowed: true, relation: Some(rel), reason: "direct permission".to_string() },
            ),
            Verdict::Expired => CheckStep::Done(
                CheckResult { allowed: false, relation: None, reason: "permission expired".to_string() },
            ),
            Verdict::Pass => {
                if self.pending == self.role_ids.len() + 1 {
                    CheckStep::Done(
                        CheckResult {
                            allowed: false,
                            relation: None,
                            reason: "no permission found".to_string(),
                        },
                    )
                } else {
                    let k = self.pending + 1;
                    let (subject_type, subject_id) = if k <= self.role_ids.len() {
                        (SubjectType::Role, self.role_ids[k - 1].clone())
                    } else {
                        (SubjectType::Tenant, "all".to_string())
                    };
                    let lookup = PointLookup {
                        tenant_id: self.ctx.tenant_id,
                        resource_type: self.ctx.resource_type,
                        resource_id: self.ctx.resource_id.clone(),
                        subject_type,
                        subject_id,
                    };
                    let CheckRun { ctx, role_ids, pending, now, answers } = self;
                    let next = CheckRun { ctx, role_ids, pending: k, now, answers: Ghost(log) };
                    CheckStep::Lookup(next, lookup)
                }
            },
        }
    }
}

/// The texts of the strings in `v`, as a set.
pub open spec fn text_set(v: Seq<String>) -> Set<Seq<char>> {
    Set::new(|x: Seq<char>| exists|j: int| 0 <= j < v.len() && v[j]@ == x)
}

/// No two strings of `v` have the same text.
pub open spec fn distinct_texts(v: Seq<String>) -> bool {
    forall|i: int, j: int| 0 <= i < v.len() && 0 <= j < v.len() && i != j ==> v[i]@ != v[j]@
}

/// The texts that occur in any of the lists.
pub open spec fn union_of(lists: Seq<Seq<String>>) -> Set<Seq<char>> {
    Set::new(|x: Seq<char>| exists|i: int| 0 <= i < lists.len() && #[trigger] text_set(lists[i]).contains(x))
}

/// Adding one more list adds its texts to the union.
pub proof fn lemma_union_push(lists: Seq<Seq<String>>, ids: Seq<String>)
    ensures
        union_of(lists.push(ids)) == union_of(lists).union(text_set(ids)),
{
    let l2 = lists.push(ids);
    assert forall|x: Seq<char>| union_of(l2).contains(x) <==> union_of(lists).contains(x) || text_set(ids).contains(x) by {
        if union_of(l2).contains(x) {
            let i = choose|i: int| 0 <= i < l2.len() && #[trigger] text_set(l2[i]).contains(x);
            if i < lists.len() {
                assert(l2[i] == lists[i]);
            } else {
                assert(l2[i] == ids);
            }
        }
        if union_of(lists).contains(x) {
            let i = choose|i: int| 0 <= i < lists.len() && #[trigger] text_set(lists[i]).contains(x);
            assert(l2[i] == lists[i]);
        }
        if text_set(ids).contains(x) {
            assert(l2[lists.len() as int] == ids);
        }
    }
    assert(union_of(l2) =~= union_of(lists).union(text_set(ids)));
}

/// Whether some string of `v` has the text of `s`.
fn holds_text(v: &Vec<String>, s: &String) -> (r: bool)
    ensures
        r == text_set(v@).contains(s@),
{
    let mut i: usize = 0;
    while i < v.len()
        invariant
            i <= v@.len(),
            forall|j: int| 0 <= j < i ==> v@[j]@ != s@,
        decreases v.len() - i,
    {
        if v[i] == *s {
            return true;
        }
        i += 1;
    }
    false
}

/// Appends to `found` each string of `ids` whose text it does not hold yet.
fn absorb(found: &mut Vec<String>, ids: &Vec<String>)
    requires
        distinct_texts(old(found)@),
    ensures
        distinct_texts(final(found)@),
        text_set(final(found)@) == text_set(old(found)@).union(text_set(ids@)),
{
    let mut i: usize = 0;
    while i < ids.len()
        invariant
            i <= ids@.len(),
            distinct_texts(found@),
            text_set(found@) == text_set(old(found)@).union(text_set(ids@.subrange(0, i as int))),
        decreases ids.len() - i,
    {
        let id = &ids[i];
        let ghost before = found@;
        if !holds_text(found, id) {
            found.push(id.clone());
            proof {
                assert(found@ == before.push(*id));
                assert forall|x: Seq<char>| text_set(found@).contains(x) <==> text_set(before).contains(x) || x == id@ by {
                    if text_set(found@).contains(x) {
                        let j = choose|j: int| 0 <= j < found@.len() && found@[j]@ == x;
                        if j < before.len() {
                            assert(before[j]@ == x);
                        }
                    }
                    if text_set(before).contains(x) {
                        let j = choose|j: int| 0 <= j < before.len() && before[j]@ == x;
                        assert(found@[j]@ == x);
                    }
                    if x == id@ {
                        assert(found@[before.len() as int]@ == x);
                    }
                }
                assert(text_set(found@) =~= text_set(before).insert(id@));
            }
        } else {
            assert(text_set(found@) =~= text_set(before).insert(id@));
        }
        proof {
            let done = ids@.subrange(0, i as int);
            let done2 = ids@.subrange(0, i + 1);
            assert(done2 == done.push(*id));
            assert forall|x: Seq<char>| text_set(done2).contains(x) <==> text_set(done).contains(x) || x == id@ by {
                if text_set(done2).contains(x) {
                    let j = choose|j: int| 0 <= j < done2.len() && done2[j]@ == x;
                    if j < done.len() {
                        assert(done[j]@ == x);
                    }
                }
                if text_set(done).contains(x) {
                    let j = choose|j: int| 0 <= j < done.len() && done[j]@ == x;
                    assert(done2[j]@ == x);
                }
                if x == id@ {
                    assert(done2[i as int]@ == x);
                }
            }
            assert(text_set(done2) =~= text_set(done).insert(id@));
            assert(text_set(found@) =~= text_set(old(found)@).union(text_set(done2)));
        }
        i += 1;
    }
    proof {
        assert(ids@.subrange(0, ids@.len() as int) == ids@);
    }
}

/// A store enumeration to make: the resources of `resource_type` on which the
/// subject holds any grant at all.
pub struct ResourceQuery {
    pub tenant_id: i32,
    pub subject_type: SubjectType,
    pub subject_id: String,
    pub resource_type: ResourceType,
}

impl ResourceQuery {
    /// This query enumerates `subject`'s resources of `resource_type` in the tenant.
    pub open spec fn asks(
        &self,
        tenant_id: i32,
        resource_type: ResourceType,
        subject: (SubjectType, Seq<char>),
    ) -> bool {
        &&& self.tenant_id == tenant_id
        &&& self.resource_type == resource_type
        &&& self.subject_type == subject.0
        &&& self.subject_id@ == subject.1
    }
}

/// A listing of accessible resources in progress: it has merged the
/// resources of its first subjects and waits for those of the next one.
pub struct ListRun {
    tenant_id: i32,
    user_id: String,
    resource_type: ResourceType,
    role_ids: Vec<String>,
    pending: usize,
    found: Vec<String>,
    gathered: Ghost<Seq<Seq<String>>>,
}

/// The next move of a listing: make a query and resume, or the final result.
pub enum ListStep {
    Query(ListRun, ResourceQuery),
    Done(Result<Vec<String>, StoreError>),
}

impl ListRun {
    pub closed spec fn tenant(self) -> i32 {
        self.tenant_id
    }

    pub closed spec fn user(self) -> Seq<char> {
        self.user_id@
    }

    pub closed spec fn kind(self) -> ResourceType {
        self.resource_type
    }

    pub closed spec fn roles(self) -> Seq<String> {
        self.role_ids@
    }

    /// The resource lists received so far, in query order.
    pub closed spec fn gathered(self) -> Seq<Seq<String>> {
        self.gathered@
    }

    /// The subject whose resources are awaited.
    pub open spec fn awaited(self) -> (SubjectType, Seq<char>) {
        subject_at(self.user(), self.roles(), self.gathered().len() as int)
    }

    /// The awaited query is the last one: the tenant-wide subject.
    pub open spec fn at_last_query(self) -> bool {
        self.gathered().len() + 1 == self.roles().len() + 2
    }

    #[verifier::type_invariant]
    spec fn well_formed(self) -> bool {
        &&& self.pending as int == self.gathered@.len()
        &&& self.pending < self.role_ids@.len() + 2
        &&& self.role_ids@.len() + 2 <= usize::MAX
        &&& distinct_texts(self.found@)
        &&& text_set(self.found@) == union_of(self.gathered@)
    }

    /// Starts listing the resources of `resource_type` that the user, any of
    /// `role_ids`, or the whole tenant holds a grant on; the user comes first.
    pub fn start(tenant_id: i32, user_id: &str, resource_type: ResourceType, role_ids: &[String]) -> (r: (
        ListRun,
        ResourceQuery,
    ))
        requires
            role_ids@.len() + 2 <= usize::MAX,
        ensures
            r.0.tenant() == tenant_id,
            r.0.user() == user_id@,
            r.0.kind() == resource_type,
            r.0.roles() == role_ids@,
            r.0.gathered() == Seq::<Seq<String>>::empty(),
            r.1.asks(tenant_id, resource_type, (SubjectType::User, user_id@)),
    {
        let mut roles: Vec<String> = Vec::new();
        let mut i: usize = 0;
        while i < role_ids.len()
            invariant
                i <= role_ids@.len(),
                roles@ == role_ids@.subrange(0, i as int),
            decreases role_ids.len() - i,
        {
            roles.push(role_ids[i].clone());
            i += 1;
        }
        proof {
            assert(role_ids@.subrange(0, role_ids@.len() as int) == role_ids@);
            assert(text_set(Seq::<String>::empty()) =~= union_of(Seq::<Seq<String>>::empty()));
        }
        let query = ResourceQuery {
            tenant_id,
            subject_type: SubjectType::User,
            subject_id: user_id.to_string(),
            resource_type,
        };
        let run = ListRun {
            tenant_id,
            user_id: user_id.to_string(),
            resource_type,
            role_ids: roles,
            pending: 0,
            found: Vec::new(),
            gathered: Ghost(Seq::empty()),
        };
        (run, query)
    }

    /// Takes the resources of the awaited subject and moves on.
    ///
    /// A failed query ends the listing with that error. Past the last subject
    /// the result holds each resource of any answer once.
    pub fn resume(self, answer: Result<Vec<String>, StoreError>) -> (r: ListStep)
        ensures
            answer is Err ==> r == ListStep::Done(Err(answer->Err_0)),
            answer is Ok ==> (r is Done <==> self.at_last_query()),
            answer is Ok && self.at_last_query() ==> r matches ListStep::Done(Ok(_)),
            r matches ListStep::Done(Ok(v)) ==> {
                &&& answer is Ok
                &&& text_set(v@) == union_of(self.gathered().push(answer->Ok_0@))
                &&& distinct_texts(v@)
            },
            r matches ListStep::Query(next, q) ==> {
                &&& answer is Ok
                &&& next.tenant() == self.tenant()
                &&& next.user() == self.user()
                &&& next.kind() == self.kind()
                &&& next.roles() == self.roles()
                &&& next.gathered() == self.gathered().push(answer->Ok_0@)
                &&& q.asks(self.tenant(), self.kind(), next.awaited())
            },
    {
        proof {
            use_type_invariant(&self);
        }
        let ids = match answer {
            Ok(ids) => ids,
            Err(e) => {
                return ListStep::Done(Err(e));
            },
        };
        let ListRun { tenant_id, user_id, resource_type, role_ids, pending, found, gathered } = self;
        let mut found = found;
        absorb(&mut found, &ids);
        let ghost log = gathered@.push(ids@);
        proof {
            lemma_union_push(gathered@, ids@);
        }
        if pending == role_ids.len() + 1 {
            ListStep::Done(Ok(found))
        } else {
            let k = pending + 1;
            let (subject_type, subject_id) = if k <= role_ids.len() {
                (SubjectType::Role, role_ids[k - 1].clone())
            } else {
                (SubjectType::Tenant, "all".to_string())
            };
            let query = ResourceQuery { tenant_id, subject_type, subject_id, resource_type };
            let next = ListRun { tenant_id, user_id, resource_type, role_ids, pending: k, found, gathered: Ghost(log) };
            ListStep::Query(next, query)
        }
    }
}

/// The permissions, in the order of `Permission::all()`, whose check was allowed;
/// `decisions[i]` is the decision of the check for the `i`-th permission.
pub open spec fn allowed_permissions(decisions: Seq<Decision>) -> Seq<Permission>
    decreases decisions.len(),
{
    if decisions.len() == 0 {
        Seq::empty()
    } else {
        let before = allowed_permissions(decisions.drop_last());
        if decisions.last() is Allow {
            before.push(Permission::all()[decisions.len() - 1])
        } else {
            before
        }
    }
}

/// `current` kept if it ranks at or above `rel`, else `rel`.
pub open spec fn keep_higher(current: Option<Relation>, rel: Relation) -> Option<Relation> {
    match current {
        Some(c) => if c.level() >= rel.level() {
            Some(c)
        } else {
            Some(rel)
        },
        None => Some(rel),
    }
}

/// The highest-ranked relation among the allowing decisions; on equal rank the first one.
pub open spec fn highest_relation(decisions: Seq<Decision>) -> Option<Relation>
    decreases decisions.len(),
{
    if decisions.len() == 0 {
        None
    } else {
        let before = highest_relation(decisions.drop_last());
        match decisions.last() {
            Decision::Allow(rel) => keep_higher(before, rel),
            _ => before,
        }
    }
}

/// The decisions of the finished checks, the `i`-th for the `i`-th permission.
pub open spec fn decisions_of(now: Timestamp, logs: Seq<Seq<Result<Option<PermissionRow>, StoreError>>>) -> Seq<
    Decision,
> {
    Seq::new(logs.len(), |i: int| check_decision(Permission::all()[i], now, logs[i]))
}

/// The `i`-th permission of `Permission::all()`.
fn permission_at(i: usize) -> (p: Permission)
    requires
        i < 4,
    ensures
        p == Permission::all()[i as int],
{
    match i {
        0 => Permission::Read,
        1 => Permission::Write,
        2 => Permission::Delete,
        _ => Permission::Share,
    }
}

/// An effective-permission computation in progress: one independent check
/// per permission, in the order of `Permission::all()`, the current one
/// waiting for a lookup answer.
pub struct EffectiveRun {
    tenant_id: i32,
    user_id: String,
    resource_type: ResourceType,
    resource_id: String,
    role_ids: Vec<String>,
    now: Timestamp,
    index: usize,
    current: CheckRun,
    permissions: Vec<Permission>,
    highest: Option<Relation>,
    logs: Ghost<Seq<Seq<Result<Option<PermissionRow>, StoreError>>>>,
}

/// The next move of an effective-permission computation: make a lookup and
/// resume, or the permissions allowed with the highest relation that allowed one.
pub enum EffectiveStep {
    Lookup(EffectiveRun, PointLookup),
    Done(Vec<Permission>, Option<Relation>),
}

impl EffectiveRun {
    /// The context of the check in progress; its permission is the one under test.
    pub closed spec fn context(self) -> CheckContext {
        self.current.context()
    }

    pub closed spec fn roles(self) -> Seq<String> {
        self.role_ids@
    }

    pub closed spec fn clock(self) -> Timestamp {
        self.now
    }

    /// The answer logs of the finished checks, one per permission so far.
    pub closed spec fn logs(self) -> Seq<Seq<Result<Option<PermissionRow>, StoreError>>> {
        self.logs@
    }

    /// The answers received so far by the check in progress.
    pub closed spec fn current_answers(self) -> Seq<Result<Option<PermissionRow>, StoreError>> {
        self.current.answers()
    }

    /// The subject whose lookup is awaited.
    pub open spec fn awaited(self) -> (SubjectType, Seq<char>) {
        subject_at(self.context().user_id@, self.roles(), self.current_answers().len() as int)
    }

    /// `answer` ends the check in progress.
    pub open spec fn ends_check(self, answer: Result<Option<PermissionRow>, StoreError>) -> bool {
        lookup_verdict(self.current_answers().len() == 0, self.context().permission, answer, self.clock()) !is Pass
            || self.current_answers().len() + 1 == self.roles().len() + 2
    }

    #[verifier::type_invariant]
    spec fn well_formed(self) -> bool {
        &&& self.index < 4
        &&& self.logs@.len() == self.index
        &&& self.current.context().tenant_id == self.tenant_id
        &&& self.current.context().user_id@ == self.user_id@
        &&& self.current.context().resource_type == self.resource_type
        &&& self.current.context().resource_id@ == self.resource_id@
        &&& self.current.context().permission == Permission::all()[self.index as int]
        &&& self.current.roles() == self.role_ids@
        &&& self.current.clock() == self.now
        &&& self.role_ids@.len() + 2 <= usize::MAX
        &&& self.permissions@ == allowed_permissions(decisions_of(self.now, self.logs@))
        &&& self.highest == highest_relation(decisions_of(self.now, self.logs@))
    }

    /// Starts computing the effective permissions of the user of `ctx` on its
    /// resource at instant `now`; the permission of `ctx` plays no part.
    pub fn start_at(ctx: CheckContext, role_ids: &[String], now: Timestamp) -> (r: (EffectiveRun, PointLookup))
        requires
            role_ids@.len() + 2 <= usize::MAX,
        ensures
            r.0.context().tenant_id == ctx.tenant_id,
            r.0.context().user_id@ == ctx.user_id@,
            r.0.context().resource_type == ctx.resource_type,
            r.0.context().resource_id@ == ctx.resource_id@,
            r.0.context().permission == Permission::Read,
            r.0.roles() == role_ids@,
            r.0.clock() == now,
            r.0.logs() == Seq::<Seq<Result<Option<PermissionRow>, StoreError>>>::empty(),
            r.0.current_answers() == Seq::<Result<Option<PermissionRow>, StoreError>>::empty(),
            r.1.asks(r.0.context(), (SubjectType::User, ctx.user_id@)),
    {
        let mut roles: Vec<String> = Vec::new();
        let mut i: usize = 0;
        while i < role_ids.len()
            invariant
                i <= role_ids@.len(),
                roles@ == role_ids@.subrange(0, i as int),
            decreases role_ids.len() - i,
        {
            roles.push(role_ids[i].clone());
            i += 1;
        }
        proof {
            assert(role_ids@.subrange(0, role_ids@.len() as int) == role_ids@);
            assert(decisions_of(now, Seq::empty()) =~= Seq::<Decision>::empty());
        }
        let first = CheckContext {
            tenant_id: ctx.tenant_id,
            user_id: ctx.user_id.clone(),
            resource_type: ctx.resource_type,
            resource_id: ctx.resource_id.clone(),
            permission: Permission::Read,
        };
        let (current, lookup) = CheckRun::start_at(first, role_ids, now);
        let run = EffectiveRun {
            tenant_id: ctx.tenant_id,
            user_id: ctx.user_id,
            resource_type: ctx.resource_type,
            resource_id: ctx.resource_id,
            role_ids: roles,
            now,
            index: 0,
            current,
            permissions: Vec::new(),
            highest: None,
            logs: Ghost(Seq::empty()),
        };
        (run, lookup)
    }

    /// Takes the answer to the awaited lookup of the check in progress and moves on.
    ///
    /// When that check ends, its decision is recorded and the check of the
    /// next permission starts with the user's own grant; after the check of
    /// Share the result is the allowed permissions, in Read, Write, Delete,
    /// Share order, with the highest-ranked relation that allowed any of them.
    pub fn resume(self, answer: Result<Option<PermissionRow>, StoreError>) -> (r: EffectiveStep)
        ensures
            r is Done <==> (self.ends_check(answer) && self.logs().len() == 3),
            r matches EffectiveStep::Done(perms, highest) ==> {
                let logs = self.logs().push(self.current_answers().push(answer));
                &&& perms@ == allowed_permissions(decisions_of(self.clock(), logs))
                &&& highest == highest_relation(decisions_of(self.clock(), logs))
            },
            r matches EffectiveStep::Lookup(next, req) ==> {
                &&& next.roles() == self.roles()
                &&& next.clock() == self.clock()
                &&& next.context().tenant_id == self.context().tenant_id
                &&& next.context().user_id@ == self.context().user_id@
                &&& next.context().resource_type == self.context().resource_type
                &&& next.context().resource_id@ == self.context().resource_id@
                &&& req.asks(next.context(), next.awaited())
                &&& if self.ends_check(answer) {
                    &&& next.logs() == self.logs().push(self.current_answers().push(answer))
                    &&& next.current_answers().len() == 0
                    &&& next.context().permission == Permission::all()[self.logs().len() + 1int]
                } else {
                    &&& next.logs() == self.logs()
                    &&& next.current_answers() == self.current_answers().push(answer)
                    &&& next.context().permission == self.context().permission
                }
            },
    {
        proof {
            use_type_invariant(&self);
        }
        let EffectiveRun {
            tenant_id,
            user_id,
            resource_type,
            resource_id,
            role_ids,
            now,
            index,
            current,
            permissions,
            highest,
            logs,
        } = self;
        let ghost finished = current.answers().push(answer);
        let perm = permission_at(index);
        match current.resume(answer) {
            CheckStep::Lookup(run, req) => {
                let next = EffectiveRun {
                    tenant_id,
                    user_id,
                    resource_type,
                    resource_id,
                    role_ids,
                    now,
                    index,
                    current: run,
                    permissions,
                    highest,
                    logs,
                };
                EffectiveStep::Lookup(next, req)
            },
            CheckStep::Done(res) => {
                let ghost logs2 = logs@.push(finished);
                let ghost ds = decisions_of(now, logs2);
                proof {
                    assert(ds.drop_last() =~= decisions_of(now, logs@));
                    assert(ds.last() == check_decision(perm, now, finished));
                }
                let mut permissions = permissions;
                let mut highest = highest;
                if res.allowed {
                    permissions.push(perm);
                    if let Some(rel) = res.relation {
                        highest = Some(
                            match highest {
                                Some(cur) if cur.is_at_least(rel) => cur,
                                _ => rel,
                            },
                        );
                    }
                }
                if index == 3 {
                    EffectiveStep::Done(permissions, highest)
                } else {
                    let k = index + 1;
                    let ctx = CheckContext {
                        tenant_id,
                        user_id: user_id.clone(),
                        resource_type,
                        resource_id: resource_id.clone(),
                        permission: permission_at(k),
                    };
                    let (run, req) = CheckRun::start_at(ctx, role_ids.as_slice(), now);
                    let next = EffectiveRun {
                        tenant_id,
                        user_id,
                        resource_type,
                        resource_id,
                        role_ids,
                        now,
                        index: k,
                        current: run,
                        permissions,
                        highest,
                        logs: Ghost(logs2),
                    };
                    EffectiveStep::Lookup(next, req)
                }
            },
        }
    }
}

/// An expired grant held by the user personally denies every permission as
/// expired, whatever its relation and whatever the roles or the tenant hold.
pub proof fn lemma_expired_user_grant_denies(
    perm: Permission,
    now: Timestamp,
    answers: Seq<Result<Option<PermissionRow>, StoreError>>,
)
    requires
        answers.len() > 0,
        answers[0] matches Ok(Some(row)) && row.expired_at(now),
    ensures
        check_decision(perm, now, answers) == Decision::Expired,
{
}

/// When all lookups from `from` on, except the final one, come back empty,
/// the final answer alone settles the decision.
proof fn lemma_only_last_counts(
    perm: Permission,
    now: Timestamp,
    answers: Seq<Result<Option<PermissionRow>, StoreError>>,
    from: nat,
)
    requires
        from < answers.len(),
        forall|i: int| from <= i < answers.len() - 1 ==> answers[i] == Ok::<Option<PermissionRow>, StoreError>(None),
    ensures
        decision_from(perm, now, answers, from) == match lookup_verdict(
            answers.len() == 1,
            perm,
            answers.last(),
            now,
        ) {
            Verdict::Grant(rel) => Decision::Allow(rel),
            Verdict::Expired => Decision::Expired,
            Verdict::Pass => Decision::NotFound,
        },
{
    let last = (answers.len() - 1) as nat;
    lemma_decision_skips_passes(perm, now, answers, from, last);
    assert(decision_from(perm, now, answers, (last + 1) as nat) == Decision::NotFound);
}

/// With no grant for the user or any role, a tenant-wide Viewer grant
/// allows Read, through Viewer, and leaves Write denied.
pub proof fn lemma_tenant_wide_viewer(now: Timestamp, answers: Seq<Result<Option<PermissionRow>, StoreError>>)
    requires
        answers.len() >= 2,
        forall|i: int| 0 <= i < answers.len() - 1 ==> answers[i] == Ok::<Option<PermissionRow>, StoreError>(None),
        answers.last() matches Ok(Some(row)) && !row.expired_at(now) && row.relation@ == Relation::Viewer.text(),
    ensures
        check_decision(Permission::Read, now, answers) == Decision::Allow(Relation::Viewer),
        check_decision(Permission::Write, now, answers) == Decision::NotFound,
{
    lemma_relation_round_trip(Relation::Viewer);
    lemma_only_last_counts(Permission::Read, now, answers, 0);
    lemma_only_last_counts(Permission::Write, now, answers, 0);
}

/// A user whose only grant on the resource is a live Sharer grant has the
/// effective permissions Read and Share, with Sharer as the highest relation.
///
/// `logs[i]` holds the answers of the check of the `i`-th permission: the
/// user's Sharer grant first, then nothing for each later subject.
pub proof fn lemma_sharer_only_effective(
    now: Timestamp,
    logs: Seq<Seq<Result<Option<PermissionRow>, StoreError>>>,
)
    requires
        logs.len() == 4,
        forall|i: int| 0 <= i < 4 ==> #[trigger] logs[i].len() > 0,
        forall|i: int|
            0 <= i < 4 ==> (#[trigger] logs[i][0] matches Ok(Some(row)) && !row.expired_at(now)
                && row.relation@ == Relation::Sharer.text()),
        forall|i: int, j: int|
            0 <= i < 4 && 1 <= j < logs[i].len() ==> #[trigger] logs[i][j] == Ok::<Option<PermissionRow>, StoreError>(
                None,
            ),
    ensures
        allowed_permissions(decisions_of(now, logs)) == seq![Permission::Read, Permission::Share],
        highest_relation(decisions_of(now, logs)) == Some(Relation::Sharer),
{
    lemma_relation_round_trip(Relation::Sharer);
    let ds = decisions_of(now, logs);
    assert forall|i: int| 0 <= i < 4 implies #[trigger] ds[i] == (if Relation::Sharer.permits(Permission::all()[i]) {
        Decision::Allow(Relation::Sharer)
    } else {
        Decision::NotFound
    }) by {
        let perm = Permission::all()[i];
        let answers = logs[i];
        assert(answers[0] == logs[i][0]);
        assert(ds[i] == decision_from(perm, now, answers, 0));
        if !Relation::Sharer.permits(perm) {
            assert(lookup_verdict(true, perm, answers[0], now) is Pass);
            assert forall|j: int| 1 <= j < answers.len() implies lookup_verdict(j == 0, perm, answers[j], now) is Pass by {
                assert(answers[j] == logs[i][j]);
            }
            lemma_decision_skips_passes(perm, now, answers, 1, answers.len());
            assert(decision_from(perm, now, answers, 1) == Decision::NotFound);
        }
    }
    assert(ds[0] == Decision::Allow(Relation::Sharer));
    assert(ds[1] == Decision::NotFound);
    assert(ds[2] == Decision::NotFound);
    assert(ds[3] == Decision::Allow(Relation::Sharer));
    let d3 = ds.drop_last();
    let d2 = d3.drop_last();
    let d1 = d2.drop_last();
    let d0 = d1.drop_last();
    assert(d0 =~= Seq::<Decision>::empty());
    assert(d1.last() == ds[0] && d2.last() == ds[1] && d3.last() == ds[2]);
    assert(d1.len() == 1 && d1.drop_last() == d0);
    assert(Permission::all()[0] == Permission::Read && Permission::all()[3] == Permission::Share);
    assert(allowed_permissions(d0) == Seq::<Permission>::empty());
    assert(highest_relation(d0) is None);
    assert(allowed_permissions(d1) =~= seq![Permission::Read]);
    assert(allowed_permissions(d2) =~= seq![Permission::Read]);
    assert(allowed_permissions(d3) =~= seq![Permission::Read]);
    assert(allowed_permissions(ds) =~= seq![Permission::Read, Permission::Share]);
    assert(highest_relation(d1) == Some(Relation::Sharer));
    assert(highest_relation(d2) == Some(Relation::Sharer));
    assert(highest_relation(d3) == Some(Relation::Sharer));
}

} // verus!
