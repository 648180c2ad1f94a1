use bookmark_authz::engine::{
    judge_lookup, CheckContext, CheckResult, CheckRun, CheckStep, EffectiveRun, EffectiveStep,
    ListRun, ListStep, PointLookup, ResourceQuery, Verdict,
};
use bookmark_authz::relations::{Permission, Relation, ResourceType, SubjectType};
use bookmark_authz::store::{PermissionRow, StoreError};
use bookmark_authz::time::Timestamp;

const NOW: Timestamp = Timestamp { seconds: 1_700_000_000, nanos: 0 };
const PAST: Timestamp = Timestamp { seconds: 1_600_000_000, nanos: 0 };
const FUTURE: Timestamp = Timestamp { seconds: 1_800_000_000, nanos: 0 };

fn row(resource: &str, relation: &str, subject_type: SubjectType, subject: &str, expires: Option<Timestamp>) -> PermissionRow {
    PermissionRow {
        id: 1,
        tenant_id: 7,
        resource_type: ResourceType::Bookmark.as_str().to_string(),
        resource_id: resource.to_string(),
        relation: relation.to_string(),
        subject_type: subject_type.as_str().to_string(),
        subject_id: subject.to_string(),
        granted_by: None,
        expires_at: expires,
        create_time: PAST,
    }
}

fn grant(resource: &str, rel: Relation, subject_type: SubjectType, subject: &str) -> PermissionRow {
    row(resource, rel.as_str(), subject_type, subject, None)
}

/// An in-memory store; `failing` lists subject ids whose lookups fail.
struct Store {
    rows: Vec<PermissionRow>,
    failing: Vec<String>,
}

impl Store {
    fn new(rows: Vec<PermissionRow>) -> Self {
        Store { rows, failing: Vec::new() }
    }

    fn lookup(&self, q: &PointLookup, log: &mut Vec<(SubjectType, String)>) -> Result<Option<PermissionRow>, StoreError> {
        log.push((q.subject_type, q.subject_id.clone()));
        if self.failing.contains(&q.subject_id) {
            return Err(StoreError { message: "connection reset".to_string() });
        }
        Ok(self
            .rows
            .iter()
            .find(|r| {
                r.tenant_id == q.tenant_id
                    && r.resource_type == q.resource_type.as_str()
                    && r.resource_id == q.resource_id
                    && r.subject_type == q.subject_type.as_str()
                    && r.subject_id == q.subject_id
            })
            .map(|r| PermissionRow {
                id: r.id,
                tenant_id: r.tenant_id,
                resource_type: r.resource_type.clone(),
                resource_id: r.resource_id.clone(),
                relation: r.relation.clone(),
                subject_type: r.subject_type.clone(),
                subject_id: r.subject_id.clone(),
                granted_by: r.granted_by,
                expires_at: r.expires_at,
                create_time: r.create_time,
            }))
    }

    fn resources(&self, q: &ResourceQuery) -> Result<Vec<String>, StoreError> {
        if self.failing.contains(&q.subject_id) {
            return Err(StoreError { message: "connection reset".to_string() });
        }
        let mut ids: Vec<String> = Vec::new();
        for r in &self.rows {
            if r.tenant_id == q.tenant_id
                && r.resource_type == q.resource_type.as_str()
                && r.subject_type == q.subject_type.as_str()
                && r.subject_id == q.subject_id
                && !ids.contains(&r.resource_id)
            {
                ids.push(r.resource_id.clone());
            }
        }
        Ok(ids)
    }
}

fn ctx(resource: &str, perm: Permission) -> CheckContext {
    CheckContext::new(7, "alice", ResourceType::Bookmark, resource, perm)
}

fn roles(ids: &[&str]) -> Vec<String> {
    ids.iter().map(|s| s.to_string()).collect()
}

fn run_check(store: &Store, c: CheckContext, role_ids: &[String], log: &mut Vec<(SubjectType, String)>) -> CheckResult {
    let (mut run, mut q) = CheckRun::start_at(c, role_ids, NOW);
    loop {
        let answer = store.lookup(&q, log);
        match run.resume(answer) {
            CheckStep::Lookup(next, next_q) => {
                run = next;
                q = next_q;
            }
            CheckStep::Done(result) => return result,
        }
    }
}

fn check(store: &Store, resource: &str, perm: Permission, role_ids: &[&str]) -> CheckResult {
    let mut log = Vec::new();
    run_check(store, ctx(resource, perm), &roles(role_ids), &mut log)
}

fn list(store: &Store, user: &str, role_ids: &[&str]) -> Result<Vec<String>, StoreError> {
    let r = roles(role_ids);
    let (mut run, mut q) = ListRun::start(7, user, ResourceType::Bookmark, &r);
    loop {
        match run.resume(store.resources(&q)) {
            ListStep::Query(next, next_q) => {
                run = next;
                q = next_q;
            }
            ListStep::Done(result) => return result,
        }
    }
}

fn effective(store: &Store, resource: &str, role_ids: &[&str]) -> (Vec<Permission>, Option<Relation>) {
    let r = roles(role_ids);
    let mut log = Vec::new();
    let (mut run, mut q) = EffectiveRun::start_at(ctx(resource, Permission::Delete), &r, NOW);
    loop {
        let answer = store.lookup(&q, &mut log);
        match run.resume(answer) {
            EffectiveStep::Lookup(next, next_q) => {
                run = next;
                q = next_q;
            }
            EffectiveStep::Done(perms, highest) => return (perms, highest),
        }
    }
}

fn clock_now() -> Timestamp {
    let t = chrono::Utc::now();
    Timestamp { seconds: t.timestamp(), nanos: t.timestamp_subsec_nanos() }
}

fn sorted(mut v: Vec<String>) -> Vec<String> {
    v.sort();
    v
}

#[test]
fn user_viewer_role_editor_write_allowed_by_editor() {
    let store = Store::new(vec![
        grant("b1", Relation::Viewer, SubjectType::User, "alice"),
        grant("b1", Relation::Editor, SubjectType::Role, "editor"),
    ]);
    let r = check(&store, "b1", Permission::Write, &["editor"]);
    assert!(r.allowed);
    assert_eq!(r.relation, Some(Relation::Editor));
    assert_eq!(r.reason, "direct permission");
}

#[test]
fn user_grant_wins_before_roles() {
    let store = Store::new(vec![
        grant("b1", Relation::Viewer, SubjectType::User, "alice"),
        grant("b1", Relation::Owner, SubjectType::Role, "admin"),
    ]);
    let mut log = Vec::new();
    let r = run_check(&store, ctx("b1", Permission::Read), &roles(&["admin"]), &mut log);
    assert!(r.allowed);
    assert_eq!(r.relation, Some(Relation::Viewer));
    assert_eq!(log, vec![(SubjectType::User, "alice".to_string())]);
}

#[test]
fn expired_user_owner_denies_every_permission() {
    let store = Store::new(vec![
        row("b1", "RELATION_OWNER", SubjectType::User, "alice", Some(PAST)),
        grant("b1", Relation::Owner, SubjectType::Role, "admin"),
        grant("b1", Relation::Owner, SubjectType::Tenant, "all"),
    ]);
    for perm in [Permission::Read, Permission::Write, Permission::Delete, Permission::Share] {
        let r = check(&store, "b1", perm, &["admin"]);
        assert!(!r.allowed);
        assert_eq!(r.relation, None);
        assert_eq!(r.reason, "permission expired");
    }
}

#[test]
fn unexpired_grant_still_counts() {
    let store = Store::new(vec![row("b1", "RELATION_OWNER", SubjectType::User, "alice", Some(FUTURE))]);
    let r = check(&store, "b1", Permission::Delete, &[]);
    assert!(r.allowed);
    assert_eq!(r.relation, Some(Relation::Owner));
}

#[test]
fn expiry_at_exactly_now_is_not_expired() {
    let store = Store::new(vec![row("b1", "RELATION_VIEWER", SubjectType::User, "alice", Some(NOW))]);
    let r = check(&store, "b1", Permission::Read, &[]);
    assert!(r.allowed);
}

#[test]
fn expired_role_grant_passes_to_tenant() {
    let store = Store::new(vec![
        row("b1", "RELATION_OWNER", SubjectType::Role, "admin", Some(PAST)),
        grant("b1", Relation::Viewer, SubjectType::Tenant, "all"),
    ]);
    let r = check(&store, "b1", Permission::Read, &["admin"]);
    assert!(r.allowed);
    assert_eq!(r.relation, Some(Relation::Viewer));
    let w = check(&store, "b1", Permission::Write, &["admin"]);
    assert!(!w.allowed);
    assert_eq!(w.reason, "no permission found");
}

#[test]
fn tenant_viewer_allows_read_denies_write() {
    let store = Store::new(vec![grant("b1", Relation::Viewer, SubjectType::Tenant, "all")]);
    let r = check(&store, "b1", Permission::Read, &["staff"]);
    assert!(r.allowed);
    assert_eq!(r.relation, Some(Relation::Viewer));
    let w = check(&store, "b1", Permission::Write, &["staff"]);
    assert!(!w.allowed);
    assert_eq!(w.relation, None);
    assert_eq!(w.reason, "no permission found");
}

#[test]
fn no_grant_denies() {
    let store = Store::new(vec![grant("b2", Relation::Owner, SubjectType::User, "alice")]);
    let r = check(&store, "b1", Permission::Read, &[]);
    assert!(!r.allowed);
    assert_eq!(r.reason, "no permission found");
}

#[test]
fn roles_tried_in_order_until_one_grants() {
    let store = Store::new(vec![
        grant("b1", Relation::Viewer, SubjectType::Role, "r1"),
        grant("b1", Relation::Sharer, SubjectType::Role, "r2"),
        grant("b1", Relation::Owner, SubjectType::Role, "r3"),
    ]);
    let mut log = Vec::new();
    let r = run_check(&store, ctx("b1", Permission::Share), &roles(&["r1", "r2", "r3"]), &mut log);
    assert!(r.allowed);
    assert_eq!(r.relation, Some(Relation::Sharer));
    assert_eq!(
        log,
        vec![
            (SubjectType::User, "alice".to_string()),
            (SubjectType::Role, "r1".to_string()),
            (SubjectType::Role, "r2".to_string()),
        ]
    );
}

#[test]
fn lookup_order_ends_with_tenant() {
    let store = Store::new(vec![]);
    let mut log = Vec::new();
    let r = run_check(&store, ctx("b1", Permission::Read), &roles(&["r1", "r2"]), &mut log);
    assert!(!r.allowed);
    assert_eq!(
        log,
        vec![
            (SubjectType::User, "alice".to_string()),
            (SubjectType::Role, "r1".to_string()),
            (SubjectType::Role, "r2".to_string()),
            (SubjectType::Tenant, "all".to_string()),
        ]
    );
}

#[test]
fn failed_user_lookup_falls_through() {
    let mut store = Store::new(vec![
        grant("b1", Relation::Owner, SubjectType::User, "alice"),
        grant("b1", Relation::Editor, SubjectType::Role, "editor"),
    ]);
    store.failing.push("alice".to_string());
    let r = check(&store, "b1", Permission::Write, &["editor"]);
    assert!(r.allowed);
    assert_eq!(r.relation, Some(Relation::Editor));
    let d = check(&store, "b1", Permission::Delete, &["editor"]);
    assert!(!d.allowed);
    assert_eq!(d.reason, "no permission found");
}

#[test]
fn unknown_relation_text_grants_nothing() {
    let store = Store::new(vec![
        row("b1", "RELATION_SUPERUSER", SubjectType::User, "alice", None),
        grant("b1", Relation::Viewer, SubjectType::Tenant, "all"),
    ]);
    let r = check(&store, "b1", Permission::Read, &[]);
    assert!(r.allowed);
    assert_eq!(r.relation, Some(Relation::Viewer));
    let w = check(&store, "b1", Permission::Write, &[]);
    assert!(!w.allowed);
}

#[test]
fn judge_lookup_verdicts() {
    let owner = Ok(Some(grant("b1", Relation::Owner, SubjectType::User, "alice")));
    assert_eq!(judge_lookup(true, Permission::Share, &owner, &NOW), Verdict::Grant(Relation::Owner));
    let viewer = Ok(Some(grant("b1", Relation::Viewer, SubjectType::User, "alice")));
    assert_eq!(judge_lookup(true, Permission::Write, &viewer, &NOW), Verdict::Pass);
    let expired = Ok(Some(row("b1", "RELATION_OWNER", SubjectType::User, "alice", Some(PAST))));
    assert_eq!(judge_lookup(true, Permission::Read, &expired, &NOW), Verdict::Expired);
    assert_eq!(judge_lookup(false, Permission::Read, &expired, &NOW), Verdict::Pass);
    assert_eq!(judge_lookup(true, Permission::Read, &Ok(None), &NOW), Verdict::Pass);
    let failed: Result<Option<PermissionRow>, StoreError> = Err(StoreError { message: "timeout".to_string() });
    assert_eq!(judge_lookup(true, Permission::Read, &failed, &NOW), Verdict::Pass);
}

#[test]
fn check_with_clock_sees_far_past_as_expired() {
    let store = Store::new(vec![row(
        "b1",
        "RELATION_OWNER",
        SubjectType::User,
        "alice",
        Some(Timestamp { seconds: 946_684_800, nanos: 0 }),
    )]);
    let (run, q) = CheckRun::start_at(ctx("b1", Permission::Read), &[], clock_now());
    let mut log = Vec::new();
    match run.resume(store.lookup(&q, &mut log)) {
        CheckStep::Done(r) => {
            assert!(!r.allowed);
            assert_eq!(r.reason, "permission expired");
        }
        CheckStep::Lookup(_, _) => panic!("an expired user grant ends the check"),
    }
}

#[test]
fn check_with_clock_sees_far_future_as_live() {
    let store = Store::new(vec![row(
        "b1",
        "RELATION_EDITOR",
        SubjectType::User,
        "alice",
        Some(Timestamp { seconds: 32_503_680_000, nanos: 0 }),
    )]);
    let (run, q) = CheckRun::start_at(ctx("b1", Permission::Write), &[], clock_now());
    let mut log = Vec::new();
    match run.resume(store.lookup(&q, &mut log)) {
        CheckStep::Done(r) => {
            assert!(r.allowed);
            assert_eq!(r.relation, Some(Relation::Editor));
        }
        CheckStep::Lookup(_, _) => panic!("a live Editor grant allows Write"),
    }
}

#[test]
fn first_lookup_targets_the_user() {
    let (_, q) = CheckRun::start_at(ctx("b9", Permission::Read), &[], NOW);
    assert_eq!(q.tenant_id, 7);
    assert_eq!(q.resource_type, ResourceType::Bookmark);
    assert_eq!(q.resource_id, "b9");
    assert_eq!(q.subject_type, SubjectType::User);
    assert_eq!(q.subject_id, "alice");
}

#[test]
fn listing_is_union_without_duplicates() {
    let store = Store::new(vec![
        grant("b1", Relation::Owner, SubjectType::User, "alice"),
        grant("b2", Relation::Viewer, SubjectType::User, "alice"),
        grant("b2", Relation::Editor, SubjectType::Role, "editor"),
        grant("b3", Relation::Sharer, SubjectType::Role, "ops"),
        grant("b1", Relation::Viewer, SubjectType::Tenant, "all"),
        grant("b4", Relation::Viewer, SubjectType::Tenant, "all"),
        grant("b5", Relation::Owner, SubjectType::User, "bob"),
        grant("b6", Relation::Owner, SubjectType::Role, "other"),
    ]);
    let ids = list(&store, "alice", &["editor", "ops"]).unwrap();
    assert_eq!(sorted(ids), vec!["b1", "b2", "b3", "b4"]);
}

#[test]
fn listing_counts_grants_that_carry_no_permission_in_question() {
    let store = Store::new(vec![
        row("b1", "RELATION_UNKNOWN", SubjectType::User, "alice", None),
        row("b2", "RELATION_VIEWER", SubjectType::User, "alice", Some(PAST)),
    ]);
    let ids = list(&store, "alice", &[]).unwrap();
    assert_eq!(sorted(ids), vec!["b1", "b2"]);
}

#[test]
fn listing_with_nothing_is_empty() {
    let store = Store::new(vec![]);
    assert_eq!(list(&store, "alice", &["r"]).unwrap(), Vec::<String>::new());
}

#[test]
fn listing_fails_when_a_query_fails() {
    let mut store = Store::new(vec![grant("b1", Relation::Owner, SubjectType::User, "alice")]);
    store.failing.push("ops".to_string());
    let err = list(&store, "alice", &["ops"]).unwrap_err();
    assert_eq!(err.message, "connection reset");
}

#[test]
fn listing_queries_each_subject_in_order() {
    let r = roles(&["r1"]);
    let (run, q0) = ListRun::start(3, "carol", ResourceType::Bookmark, &r);
    assert_eq!((q0.tenant_id, q0.subject_type, q0.subject_id.as_str()), (3, SubjectType::User, "carol"));
    let (run, q1) = match run.resume(Ok(vec!["x".to_string()])) {
        ListStep::Query(next, q) => (next, q),
        ListStep::Done(_) => panic!("role query expected"),
    };
    assert_eq!((q1.subject_type, q1.subject_id.as_str()), (SubjectType::Role, "r1"));
    let (run, q2) = match run.resume(Ok(vec!["y".to_string(), "x".to_string()])) {
        ListStep::Query(next, q) => (next, q),
        ListStep::Done(_) => panic!("tenant query expected"),
    };
    assert_eq!((q2.subject_type, q2.subject_id.as_str()), (SubjectType::Tenant, "all"));
    match run.resume(Ok(vec!["z".to_string(), "y".to_string()])) {
        ListStep::Done(Ok(ids)) => assert_eq!(ids, vec!["x", "y", "z"]),
        _ => panic!("listing should end after the tenant query"),
    }
}

#[test]
fn effective_permissions_of_sharer() {
    let store = Store::new(vec![grant("b1", Relation::Sharer, SubjectType::User, "alice")]);
    let (perms, highest) = effective(&store, "b1", &["r1"]);
    assert_eq!(perms, vec![Permission::Read, Permission::Share]);
    assert_eq!(highest, Some(Relation::Sharer));
}

#[test]
fn effective_permissions_mix_sources() {
    let store = Store::new(vec![
        grant("b1", Relation::Viewer, SubjectType::User, "alice"),
        grant("b1", Relation::Editor, SubjectType::Role, "editor"),
        grant("b1", Relation::Sharer, SubjectType::Tenant, "all"),
    ]);
    let (perms, highest) = effective(&store, "b1", &["editor"]);
    assert_eq!(perms, vec![Permission::Read, Permission::Write, Permission::Share]);
    assert_eq!(highest, Some(Relation::Editor));
}

#[test]
fn effective_permissions_of_owner() {
    let store = Store::new(vec![grant("b1", Relation::Owner, SubjectType::User, "alice")]);
    let (perms, highest) = effective(&store, "b1", &[]);
    assert_eq!(perms, vec![Permission::Read, Permission::Write, Permission::Delete, Permission::Share]);
    assert_eq!(highest, Some(Relation::Owner));
}

#[test]
fn effective_permissions_none() {
    let store = Store::new(vec![]);
    let (perms, highest) = effective(&store, "b1", &["r1", "r2"]);
    assert!(perms.is_empty());
    assert_eq!(highest, None);
}

#[test]
fn effective_permissions_expired_user_grant() {
    let store = Store::new(vec![
        row("b1", "RELATION_OWNER", SubjectType::User, "alice", Some(PAST)),
        grant("b1", Relation::Viewer, SubjectType::Tenant, "all"),
    ]);
    let (perms, highest) = effective(&store, "b1", &[]);
    assert!(perms.is_empty());
    assert_eq!(highest, None);
}

#[test]
fn listing_set_ignores_role_order() {
    let store = Store::new(vec![
        grant("b1", Relation::Viewer, SubjectType::Role, "r1"),
        grant("b2", Relation::Viewer, SubjectType::Role, "r2"),
        grant("b3", Relation::Sharer, SubjectType::Role, "r3"),
        grant("b2", Relation::Owner, SubjectType::User, "alice"),
    ]);
    let a = sorted(list(&store, "alice", &["r1", "r2", "r3"]).unwrap());
    let b = sorted(list(&store, "alice", &["r3", "r1", "r2"]).unwrap());
    assert_eq!(a, vec!["b1", "b2", "b3"]);
    assert_eq!(a, b);
}
