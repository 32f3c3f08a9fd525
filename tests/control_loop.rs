use halo::cluster::{Cluster, ClusterConfig, Decision};
use halo::resource::{decide_action, Action, Resource, Status};

fn resource(id: &str, managed: bool) -> Resource {
    Resource::new(id.to_string(), managed, vec![]).unwrap()
}

fn cluster_with(ids: &[(&str, bool)]) -> Cluster {
    let mut c = Cluster::new(ClusterConfig::new());
    for (id, m) in ids {
        assert!(c.add_resource(resource(id, *m)));
    }
    c
}

#[test]
fn scenario_a_running_on_home_is_observed() {
    let mut c = cluster_with(&[("db1", true)]);
    let i = c.find(&"db1".to_string()).unwrap();
    c.refresh_status(i, Status::RunningOnHome);
    let d = c.tick();
    assert_eq!(d, vec![Decision { action: Action::Observe, alert: false }]);
    let r = &c.resources()[i];
    assert!(r.get_managed());
    assert_eq!(r.get_status(), Status::RunningOnHome);
    assert!(!r.outstanding);
}

#[test]
fn unmanaged_resource_never_acted_on() {
    let mut c = cluster_with(&[("web2", false)]);
    for s in [Status::Failed, Status::RunningAway, Status::Stopped, Status::Unknown, Status::Failed] {
        c.refresh_status(0, s);
        let d = c.tick();
        assert_eq!(d[0].action, Action::Skip);
        assert!(!d[0].alert);
        assert!(!c.resources()[0].outstanding);
    }
}

#[test]
fn at_most_one_action_outstanding() {
    let mut c = cluster_with(&[("db1", true)]);
    c.refresh_status(0, Status::RunningAway);
    assert_eq!(c.tick()[0].action, Action::Migrate);
    assert!(c.resources()[0].outstanding);
    assert_eq!(c.tick()[0].action, Action::Skip);
    assert_eq!(c.tick()[0].action, Action::Skip);
    assert!(!c.complete_action(0, true));
    assert!(!c.resources()[0].outstanding);
    assert_eq!(c.tick()[0].action, Action::Migrate);
}

#[test]
fn failed_node_is_fenced_then_migrated() {
    let mut c = cluster_with(&[("db1", true)]);
    c.refresh_status(0, Status::Failed);
    assert_eq!(c.tick()[0].action, Action::Fence);
    assert!(c.resources()[0].fenced);
    c.complete_action(0, true);
    assert_eq!(c.tick()[0].action, Action::Migrate);
    c.complete_action(0, true);
    c.refresh_status(0, Status::RunningOnHome);
    assert_eq!(c.tick()[0].action, Action::Observe);
    assert!(!c.resources()[0].fenced);
    c.refresh_status(0, Status::Failed);
    assert_eq!(c.tick()[0].action, Action::Fence);
}

#[test]
fn unknown_status_alerts_after_cap() {
    let cfg = ClusterConfig { unknown_retry_cap: 3, action_retry_cap: 2, tick_interval_ms: 1000 };
    let mut c = Cluster::new(cfg);
    assert!(c.add_resource(resource("db1", true)));
    c.refresh_status(0, Status::Unknown);
    let alerts: Vec<bool> = (0..4).map(|_| c.tick()[0].alert).collect();
    assert_eq!(alerts, vec![false, false, true, true]);
    assert_eq!(c.resources()[0].unknown_ticks, 4);
    c.refresh_status(0, Status::RunningOnHome);
    assert_eq!(c.tick()[0], Decision { action: Action::Observe, alert: false });
    assert_eq!(c.resources()[0].unknown_ticks, 0);
}

#[test]
fn failed_actions_alert_after_cap() {
    let cfg = ClusterConfig { unknown_retry_cap: 3, action_retry_cap: 2, tick_interval_ms: 1000 };
    let mut c = Cluster::new(cfg);
    assert!(c.add_resource(resource("db1", true)));
    c.refresh_status(0, Status::RunningAway);
    assert_eq!(c.tick()[0].action, Action::Migrate);
    assert!(!c.complete_action(0, false));
    assert_eq!(c.tick()[0].action, Action::Migrate);
    assert!(c.complete_action(0, false));
    assert_eq!(c.resources()[0].failed_actions, 2);
    assert_eq!(c.tick()[0].action, Action::Migrate);
    assert!(!c.complete_action(0, true));
    assert_eq!(c.resources()[0].failed_actions, 0);
}

#[test]
fn decide_table() {
    assert_eq!(decide_action(true, Status::RunningOnHome, false, false), Action::Observe);
    assert_eq!(decide_action(true, Status::RunningOnHome, true, false), Action::Observe);
    assert_eq!(decide_action(true, Status::RunningAway, false, false), Action::Migrate);
    assert_eq!(decide_action(true, Status::Stopped, false, false), Action::Migrate);
    assert_eq!(decide_action(true, Status::Failed, false, false), Action::Fence);
    assert_eq!(decide_action(true, Status::Failed, true, false), Action::Skip);
    assert_eq!(decide_action(true, Status::Unknown, false, false), Action::Skip);
    assert_eq!(decide_action(false, Status::Failed, false, false), Action::Skip);
    assert_eq!(decide_action(true, Status::Failed, false, true), Action::Migrate);
    assert_eq!(decide_action(false, Status::Failed, false, true), Action::Skip);
    assert!(Action::Fence.corrective());
    assert!(!Action::Observe.corrective());
}

#[test]
fn duplicate_ids_rejected() {
    let mut c = cluster_with(&[("db1", true), ("web2", false)]);
    assert!(!c.add_resource(resource("db1", false)));
    assert_eq!(c.len(), 2);
    assert!(c.resources()[0].get_managed());
    assert_eq!(c.find(&"web2".to_string()), Some(1));
    assert_eq!(c.find(&"nope".to_string()), None);
    assert_eq!(c.config().unknown_retry_cap, 5);
    assert_eq!(c.config().action_retry_cap, 3);
    assert_eq!(c.config().tick_interval_ms, 5000);
}

#[test]
fn parameters_keys_unique() {
    let p = vec![("host".to_string(), "n1".to_string()), ("check".to_string(), "ping".to_string())];
    let r = Resource::new("db1".to_string(), true, p).unwrap();
    assert_eq!(r.parameter(&"check".to_string()), Some(&"ping".to_string()));
    assert_eq!(r.parameter(&"port".to_string()), None);
    assert_eq!(r.get_status(), Status::Unknown);
    let dup = vec![("host".to_string(), "n1".to_string()), ("host".to_string(), "n2".to_string())];
    assert!(Resource::new("db2".to_string(), true, dup).is_none());
}

#[test]
fn resource_setters() {
    let mut r = resource("db1", true);
    r.set_managed(false);
    r.set_status(Status::Failed);
    assert!(!r.get_managed());
    assert_eq!(r.get_status(), Status::Failed);
    assert_eq!(r.id, "db1");
}

#[test]
fn per_resource_tick_and_completion() {
    let cfg = ClusterConfig { unknown_retry_cap: 2, action_retry_cap: 1, tick_interval_ms: 1000 };
    let mut r = resource("db1", true);
    r.set_status(Status::RunningAway);
    assert_eq!(r.tick_step(cfg), Decision { action: Action::Migrate, alert: false });
    assert!(r.outstanding);
    assert_eq!(r.tick_step(cfg).action, Action::Skip);
    assert!(r.complete(false, cfg));
    assert!(!r.outstanding);
    assert_eq!(r.failed_actions, 1);
}
