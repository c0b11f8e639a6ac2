//! The list filter clauses, the filter builders and the replication policy.

use nanocl_core::cargo_spec::{target_instances, ReplicationMode, ReplicationStatic};
use nanocl_core::models::{ProcessDb, ProcessKind};
use nanocl_core::process::replication_plan;
use nanocl_core::generic::{
    GenericClause, GenericFilter, GenericListQueryNsp, GenericNspQuery,
};
use nanocl_core::status::{ObjPsStatus, ObjPsStatusKind, ObjPsStatusUpdate};

#[test]
fn clause_semantics() {
    let some = String::from("web");
    assert_eq!(GenericClause::Eq(String::from("web")).matches(Some(&some)), Some(true));
    assert_eq!(GenericClause::Eq(String::from("db")).matches(Some(&some)), Some(false));
    assert_eq!(GenericClause::Eq(String::from("web")).matches(None), Some(false));
    assert_eq!(GenericClause::Ne(String::from("db")).matches(Some(&some)), Some(true));
    assert_eq!(GenericClause::IsNull.matches(None), Some(true));
    assert_eq!(GenericClause::IsNull.matches(Some(&some)), Some(false));
    assert_eq!(GenericClause::IsNotNull.matches(Some(&some)), Some(true));
    let list = vec![String::from("a"), String::from("web")];
    assert_eq!(GenericClause::In(list.clone()).matches(Some(&some)), Some(true));
    assert_eq!(GenericClause::NotIn(list).matches(Some(&some)), Some(false));
    // Ordered and pattern clauses belong to the backend.
    assert_eq!(GenericClause::Like(String::from("%web%")).matches(Some(&some)), None);
    assert_eq!(GenericClause::Gt(String::from("a")).matches(Some(&some)), None);
}

#[test]
fn filter_builders() {
    let f = GenericFilter::new()
        .limit(10)
        .offset(5)
        .and_where("kind_key", GenericClause::Eq(String::from("hello.global")));
    assert_eq!(f.limit, Some(10));
    assert_eq!(f.offset, Some(5));
    let w = f.where_clause.as_ref().unwrap();
    assert_eq!(w.conditions.len(), 1);
    assert_eq!(w.conditions[0].key.as_str(), "kind_key");
    let q = GenericNspQuery::new(Some("system"));
    assert_eq!(q.namespace.as_ref().unwrap().as_str(), "system");
    let q = GenericNspQuery::new(None);
    assert!(q.namespace.is_none());
    let lq = GenericListQueryNsp::new(Some("system")).with_namespace(Some("global"));
    assert_eq!(lq.namespace.as_ref().unwrap().as_str(), "global");
}

#[test]
fn replication_targets() {
    let groups = vec![String::from("edge"), String::from("db")];
    let names = vec![String::from("node2")];
    assert_eq!(target_instances(&None, "node1", &groups), 1);
    assert_eq!(target_instances(&Some(ReplicationMode::Auto), "node1", &groups), 1);
    assert_eq!(target_instances(&Some(ReplicationMode::Unique), "node1", &groups), 1);
    assert_eq!(target_instances(&Some(ReplicationMode::UniqueByNode), "node1", &groups), 1);
    assert_eq!(
        target_instances(
            &Some(ReplicationMode::UniqueByNodeGroups { groups: vec![String::from("edge")] }),
            "node1",
            &groups,
        ),
        1
    );
    assert_eq!(
        target_instances(
            &Some(ReplicationMode::UniqueByNodeGroups { groups: vec![String::from("gpu")] }),
            "node1",
            &groups,
        ),
        0
    );
    assert_eq!(
        target_instances(
            &Some(ReplicationMode::UniqueByNodeNames { names: names.clone() }),
            "node2",
            &groups,
        ),
        1
    );
    assert_eq!(
        target_instances(
            &Some(ReplicationMode::UniqueByNodeNames { names: names.clone() }),
            "node1",
            &groups,
        ),
        0
    );
    assert_eq!(
        target_instances(
            &Some(ReplicationMode::Static(ReplicationStatic { number: 4 })),
            "node1",
            &groups,
        ),
        4
    );
    assert_eq!(
        target_instances(
            &Some(ReplicationMode::StaticByNodeGroups {
                groups: vec![String::from("db")],
                number: 3,
            }),
            "node1",
            &groups,
        ),
        3
    );
    assert_eq!(
        target_instances(
            &Some(ReplicationMode::StaticByNodeNames { names, number: -2 }),
            "node2",
            &groups,
        ),
        0
    );
}

#[test]
fn surplus_removed_oldest_first() {
    let mk = |key: &str, created_at: i64| ProcessDb {
        key: String::from(key),
        created_at,
        updated_at: created_at,
        name: String::from(key),
        kind: ProcessKind::Cargo,
        node_key: String::from("node1"),
        kind_key: String::from("web.global"),
        running: true,
    };
    let processes = vec![mk("c-new", 30), mk("c-old", 10), mk("c-mid", 20)];
    let plan = replication_plan(&processes, 1);
    assert_eq!(plan.create_count, 0);
    // The two oldest go, the oldest first.
    assert_eq!(plan.remove_keys.len(), 2);
    assert_eq!(plan.remove_keys[0].as_str(), "c-old");
    assert_eq!(plan.remove_keys[1].as_str(), "c-mid");

    let plan = replication_plan(&processes, 5);
    assert_eq!(plan.create_count, 2);
    assert!(plan.remove_keys.is_empty());

    let plan = replication_plan(&processes, 3);
    assert_eq!(plan.create_count, 0);
    assert!(plan.remove_keys.is_empty());
}

#[test]
fn status_updates_keep_absent_fields() {
    let st = ObjPsStatus::new_created();
    let up = ObjPsStatusUpdate {
        wanted: Some(ObjPsStatusKind::Running),
        prev_wanted: None,
        actual: Some(ObjPsStatusKind::Starting),
        prev_actual: Some(ObjPsStatusKind::Created),
    };
    let next = st.apply(&up);
    assert_eq!(next.wanted, ObjPsStatusKind::Running);
    assert_eq!(next.prev_wanted, ObjPsStatusKind::Created);
    assert_eq!(next.actual, ObjPsStatusKind::Starting);
    assert_eq!(next.prev_actual, ObjPsStatusKind::Created);
    assert_eq!(ObjPsStatusKind::Running.to_str(), "Running");
    assert_eq!(ObjPsStatusKind::Stopping.to_str(), "Stopping");
}
