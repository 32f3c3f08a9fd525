use halo::cluster::{position_of, Cluster, ClusterConfig, SetManaged};
use halo::commands::{
    default_config_path, default_socket, handled_error, manage_found, manage_missing,
    quoted_response, is_manager_alive, manage_resource, Cli,
    Commands, Handle, HandledError, ManageArgs, ManageBody, UnManageArgs,
};
use halo::manager::MgrContext;
use halo::resource::Resource;

fn cluster_with(ids: &[(&str, bool)]) -> Cluster {
    let mut c = Cluster::new(ClusterConfig::new());
    for (id, m) in ids {
        assert!(c.add_resource(Resource::new(id.to_string(), *m, vec![]).unwrap()));
    }
    c
}

fn body(id: &str, manage: bool) -> ManageBody {
    ManageBody { resource: id.to_string(), manage }
}

fn flags(c: &Cluster) -> Vec<bool> {
    c.resources().iter().map(|r| r.managed).collect()
}

#[test]
fn scenario_b_already_managed() {
    let mut c = cluster_with(&[("db1", true)]);
    let r = manage_resource(&mut c, &body("db1", true));
    assert!(r.error);
    assert_eq!(r.text, "Resource \"db1\" is already managed");
    assert_eq!(flags(&c), vec![true]);
}

#[test]
fn scenario_c_unmanage_then_no_action() {
    let mut c = cluster_with(&[("db1", true), ("web2", true)]);
    let r = manage_resource(&mut c, &body("web2", false));
    assert!(!r.error);
    assert_eq!(r.text, "Resource \"web2\" set to be unmanaged");
    assert_eq!(flags(&c), vec![true, false]);
    c.refresh_status(1, halo::resource::Status::Failed);
    for _ in 0..3 {
        assert_eq!(c.tick()[1].action, halo::resource::Action::Skip);
    }
}

#[test]
fn scenario_d_unknown_resource() {
    let mut c = cluster_with(&[("db1", false)]);
    let r = manage_resource(&mut c, &body("ghost", true));
    assert!(r.error);
    assert_eq!(r.text, "Resource \"ghost\" not found");
    assert_eq!(flags(&c), vec![false]);
}

#[test]
fn set_managed_twice_success_then_error() {
    let mut c = cluster_with(&[("db1", false), ("web2", true)]);
    let first = manage_resource(&mut c, &body("db1", true));
    assert!(!first.error);
    assert_eq!(first.text, "Resource \"db1\" set to be managed");
    let after_first = flags(&c);
    let second = manage_resource(&mut c, &body("db1", true));
    assert!(second.error);
    assert_eq!(second.text, "Resource \"db1\" is already managed");
    assert_eq!(flags(&c), after_first);
    assert_eq!(after_first, vec![true, true]);
}

#[test]
fn set_managed_outcomes() {
    let mut c = cluster_with(&[("db1", false)]);
    assert_eq!(c.set_managed(&"x".to_string(), true), SetManaged::NotFound);
    assert_eq!(c.set_managed(&"db1".to_string(), false), SetManaged::Unchanged);
    assert_eq!(c.set_managed(&"db1".to_string(), true), SetManaged::Changed);
    assert_eq!(flags(&c), vec![true]);
}

#[test]
fn unknown_id_quoting_escapes() {
    let mut c = cluster_with(&[]);
    let r = manage_resource(&mut c, &body("a\"b", false));
    assert!(r.error);
    assert_eq!(r.text, "Resource \"a\\\"b\" not found");
}

#[test]
fn liveness_probe() {
    let r = is_manager_alive();
    assert!(!r.error);
    assert_eq!(r.text, "Manager Service is Alive");
}

#[test]
fn handled_errors() {
    assert_eq!(handled_error(), Err(HandledError {}));
    let mut seen = Vec::new();
    let ok: Result<u8, String> = Ok(3);
    assert_eq!(ok.handle_err(|e: String| seen.push(e)), Ok(3));
    let bad: Result<u8, String> = Err("boom".to_string());
    assert_eq!(bad.handle_err(|e: String| seen.push(e)), Err(HandledError {}));
    assert_eq!(seen, vec!["boom".to_string()]);
}

#[test]
fn cli_defaults_and_socket() {
    let cli = Cli::default();
    assert_eq!(cli.socket.as_deref(), Some("/var/run/halo.socket"));
    assert_eq!(cli.config.as_deref(), Some("/etc/halo/halo.conf"));
    assert!(!cli.verbose && !cli.mtls && !cli.manage_resources && cli.command.is_none());
    assert_eq!(default_socket(), "/var/run/halo.socket");
    assert_eq!(default_config_path(), "/etc/halo/halo.conf");
    let mut other = Cli::default();
    other.socket = Some("/tmp/h.sock".to_string());
    assert_eq!(other.socket_path(), "/tmp/h.sock");
    other.socket = None;
    assert_eq!(other.socket_path(), "/var/run/halo.socket");
    let ctx = MgrContext::new(other);
    assert!(ctx.args.socket.is_none());
}

#[test]
fn requests_from_subcommands() {
    let m = Commands::Manage(ManageArgs { resource_id: "db1".to_string() });
    let b = m.request();
    assert_eq!((b.resource.as_str(), b.manage), ("db1", true));
    let u = Commands::Unmanage(UnManageArgs { resource_id: "web2".to_string() });
    let b = u.request();
    assert_eq!((b.resource.as_str(), b.manage), ("web2", false));
}

#[test]
fn requests_on_different_ids_independent() {
    let mut a = cluster_with(&[("db1", false), ("web2", true)]);
    let mut b = cluster_with(&[("db1", false), ("web2", true)]);
    let a1 = manage_resource(&mut a, &body("db1", true));
    let a2 = manage_resource(&mut a, &body("web2", false));
    let b2 = manage_resource(&mut b, &body("web2", false));
    let b1 = manage_resource(&mut b, &body("db1", true));
    assert_eq!((a1.error, a1.text.clone()), (b1.error, b1.text.clone()));
    assert_eq!((a2.error, a2.text.clone()), (b2.error, b2.text.clone()));
    assert_eq!(flags(&a), flags(&b));
    assert_eq!(flags(&a), vec![true, false]);
}

#[test]
fn per_resource_request_and_lookup() {
    let c = cluster_with(&[("db1", false), ("web2", true)]);
    let mut rs = c.into_resources();
    let ids: Vec<String> = rs.iter().map(|r| r.id.clone()).collect();
    assert_eq!(position_of(&ids, &"web2".to_string()), Some(1));
    assert_eq!(position_of(&ids, &"ghost".to_string()), None);
    assert_eq!(rs[1].request_managed(true), SetManaged::Unchanged);
    assert_eq!(rs[1].request_managed(false), SetManaged::Changed);
    assert!(!rs[1].managed);
    assert_eq!(rs[0].request_managed(true), SetManaged::Changed);
    assert!(rs[0].managed);
}

#[test]
fn text_from_quoted_id() {
    let r = quoted_response(SetManaged::Changed, &"'db1'".to_string(), false);
    assert!(!r.error);
    assert_eq!(r.text, "Resource 'db1' set to be unmanaged");
    let r = quoted_response(SetManaged::Unchanged, &"<x>".to_string(), true);
    assert!(r.error);
    assert_eq!(r.text, "Resource <x> is already managed");
    let r = quoted_response(SetManaged::NotFound, &"q".to_string(), true);
    assert_eq!(r.text, "Resource q not found");
}

#[test]
fn answers_on_a_found_or_missing_resource() {
    let mut r = Resource::new("db1".to_string(), true, vec![]).unwrap();
    let a = manage_found(&mut r, &body("db1", true));
    assert!(a.error);
    assert_eq!(a.text, "Resource \"db1\" is already managed");
    let b = manage_found(&mut r, &body("db1", false));
    assert!(!b.error);
    assert_eq!(b.text, "Resource \"db1\" set to be unmanaged");
    assert!(!r.managed);
    let m = manage_missing(&body("ghost", true));
    assert!(m.error);
    assert_eq!(m.text, "Resource \"ghost\" not found");
}
