use hypertask::config::{
    ClientConfig, ConfigFile, ConfigForUse, HooksConfig, ProvidesDataDir, ServerConfig,
    ShellExpand, SyncCliDaemonConfig, SyncSecretSource, SyncServerConfig,
};
use hypertask::datetime::DateTime;
use hypertask::error::{HyperTaskErrorAction, HyperTaskErrorDomain};
use hypertask::hash::calculate_hash;
use hypertask::id::Id;
use hypertask::sync::{
    check_authorization, failure_reply, generate_sync_secret, get_available_port, ids_to_sync,
    resolve_posted_task, sync_action, PostTaskFailure, SyncAction, SECRET_CHARS,
};
use hypertask::task::Task;

fn task(id: &str, updated: i64, description: &str) -> Task {
    Task {
        id: Id(id.to_string()),
        updated_at: DateTime::new(updated, 0),
        description: Some(description.to_string()),
        ..Task::generate(&DateTime::new(1_000_000_000, 0))
    }
}

#[test]
fn authorization_header() {
    assert_eq!(check_authorization(Some("hypertask s3cret"), "s3cret"), None);
    let r = check_authorization(Some("hypertask other"), "s3cret").unwrap();
    assert_eq!(r.status, 401);
    assert_eq!(r.body, "incorect Authorization header provided");
    let r = check_authorization(None, "s3cret").unwrap();
    assert_eq!(r.status, 400);
    assert_eq!(r.body, "no Authorization header provided");
}

#[test]
fn failure_replies() {
    let r = failure_reply(PostTaskFailure::MissingId);
    assert_eq!((r.status, r.body.as_str()), (400, "no id provided"));
    let r = failure_reply(PostTaskFailure::InvalidTask);
    assert_eq!((r.status, r.body.as_str()), (400, "invalid task recieved"));
    let r = failure_reply(PostTaskFailure::ReadFailed);
    assert_eq!((r.status, r.body.as_str()), (500, "could not read local task"));
    let r = failure_reply(PostTaskFailure::Conflict);
    assert_eq!((r.status, r.body.as_str()), (400, "tasks did not match"));
    let r = failure_reply(PostTaskFailure::WriteFailed);
    assert_eq!((r.status, r.body.as_str()), (500, "could not write local task"));
}

#[test]
fn posted_task_resolution() {
    let client = task("t", 200, "client");
    let server = task("t", 100, "server");
    let kept = resolve_posted_task(Some(client.duplicate()), Some(server.duplicate())).unwrap();
    assert_eq!(kept, Some(client.duplicate()));
    assert_eq!(resolve_posted_task(None, None).unwrap(), None);
    let r = resolve_posted_task(Some(task("a", 1, "x")), Some(task("b", 1, "y"))).unwrap_err();
    assert_eq!(r.status, 400);
    assert_eq!(r.body, "tasks did not match");
}

#[test]
fn sync_actions() {
    let old = task("t", 100, "old");
    let new = task("t", 200, "new");
    assert_eq!(
        sync_action(Some(old.duplicate()), Some(new.duplicate())).unwrap(),
        SyncAction::Put(new.duplicate())
    );
    assert_eq!(sync_action(None, None).unwrap(), SyncAction::Delete);
    let e = sync_action(Some(task("a", 1, "x")), Some(task("b", 1, "y"))).unwrap_err();
    assert_eq!(e.domain, HyperTaskErrorDomain::Task);
    assert_eq!(e.action, HyperTaskErrorAction::Compare);
}

#[test]
fn sync_converges_on_concrete_versions() {
    // the server resolves the client's version against its own ...
    let client = task("t", 100, "client");
    let server = task("t", 200, "server");
    let kept = resolve_posted_task(Some(client.duplicate()), Some(server.duplicate()))
        .unwrap()
        .unwrap();
    assert_eq!(kept, server.duplicate());
    // ... and the client, resolving against the answer, keeps the same version
    assert_eq!(sync_action(Some(client), Some(kept.duplicate())).unwrap(), SyncAction::Put(kept));
}

#[test]
fn ids_that_differ() {
    let local = vec![
        ("a".to_string(), 1u64),
        ("b".to_string(), 2u64),
        ("c".to_string(), 3u64),
    ];
    let remote = vec![
        ("b".to_string(), 2u64),
        ("c".to_string(), 4u64),
        ("d".to_string(), 5u64),
    ];
    assert_eq!(ids_to_sync(&local, &remote), vec!["a".to_string(), "c".to_string(), "d".to_string()]);
    let mut both = ids_to_sync(&remote, &local);
    both.sort();
    assert_eq!(both, vec!["a".to_string(), "c".to_string(), "d".to_string()]);
    assert!(ids_to_sync(&local, &local).is_empty());
}

#[test]
fn available_port_search() {
    assert_eq!(get_available_port(|p| p == 10005), Some(10005));
    assert_eq!(get_available_port(|p| p >= 10000), Some(10000));
    assert_eq!(get_available_port(|_| false), None);
    assert_eq!(get_available_port(|p| p == 20000), None);
}

#[test]
fn secrets_are_generated_from_the_alphabet() {
    let s = generate_sync_secret();
    assert_eq!(s.chars().count(), 64);
    assert!(s.chars().all(|c| SECRET_CHARS.contains(c)));
}

#[test]
fn task_hashes() {
    let json = "{\"created_at\":\"2014-07-08T09:10:11Z\",\"updated_at\":\"2014-07-08T09:10:11Z\",\"id\":\"test_id\"}";
    assert_eq!(calculate_hash(json.as_bytes()), 1218049881);
    let json = "{\"created_at\":\"2014-07-08T09:10:11Z\",\"updated_at\":\"2014-07-08T09:10:11Z\",\"id\":\"test_id\",\"description\":\"with a description\"}";
    assert_eq!(calculate_hash(json.as_bytes()), 1780513461);
}

fn hooks(after: &str, before: &str) -> HooksConfig {
    HooksConfig {
        after: Some(after.to_string()),
        on_edit: None,
        before: Some(before.to_string()),
    }
}

#[test]
fn client_settings() {
    let c = ConfigForUse::new_for_client(ConfigFile {
        data_dir: "/data".to_string(),
        client: Some(ClientConfig { hooks: Some(hooks("a", "b")) }),
        server: None,
    })
    .unwrap();
    assert_eq!(c.data_dir, "/data");
    assert_eq!(c.hook_after.as_deref(), Some("a"));
    assert_eq!(c.hook_before.as_deref(), Some("b"));
    assert_eq!(c.server_port, None);
    let c = ConfigForUse::new_for_client(ConfigFile {
        data_dir: "/data".to_string(),
        client: None,
        server: None,
    })
    .unwrap();
    assert_eq!(c.hook_after, None);
}

#[test]
fn server_settings() {
    let config = ConfigFile {
        data_dir: "/srv".to_string(),
        client: None,
        server: Some(ServerConfig {
            hooks: hooks("x", "y"),
            port: 8080,
            address: Some("0.0.0.0".to_string()),
        }),
    };
    assert_eq!(config.get_server_config().as_ref().map(|s| s.port), Some(8080));
    let c = ConfigForUse::new_for_server(config).unwrap();
    assert_eq!(c.server_port, Some(8080));
    assert_eq!(c.server_address.as_deref(), Some("0.0.0.0"));
    assert_eq!(c.hook_after.as_deref(), Some("x"));
    let e = ConfigForUse::new_for_server(ConfigFile {
        data_dir: "/srv".to_string(),
        client: None,
        server: None,
    })
    .unwrap_err();
    assert_eq!(e.domain, HyperTaskErrorDomain::Config);
    assert_eq!(e.action, HyperTaskErrorAction::Read);
    assert_eq!(e.meta.as_deref(), Some("missing [server] section from config.toml"));
}

#[test]
fn sync_server_defaults() {
    let mut c = SyncServerConfig::default_in("/tasks".to_string());
    assert_eq!(c.hostname, "localhost");
    assert_eq!(c.port, 1234);
    assert_eq!(c.sync_secret.chars().count(), 64);
    assert_eq!(c.get_task_state_dir(), "/tasks");
    c.shell_expand();
    assert_eq!(c.task_state_dir, "/tasks");
    let mut c = SyncServerConfig::default_in("~/tasks".to_string());
    c.shell_expand();
    assert!(c.task_state_dir.ends_with("/tasks"));
}

#[test]
fn sync_daemon_defaults() {
    let mut c = SyncCliDaemonConfig::default_in("nested/~/dir".to_string());
    assert_eq!(
        c.sync_secret,
        SyncSecretSource::EnvVar { var_name: "HYPERTASK_DAEMON_SYNC_SECRET".to_string() }
    );
    assert_eq!(c.server_url, "https://hypertask-sync-server.horse:1234");
    c.shell_expand();
    assert_eq!(c.get_task_state_dir(), "nested/~/dir");
}
