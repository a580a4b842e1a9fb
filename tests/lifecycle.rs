use laplace_server::error::ServerError;
use laplace_server::frame::{decode_frame, encode_frame};
use laplace_server::manager::{is_valid_name, CallOutcome, LappsManager};
use laplace_server::permission::{Permission, PermissionSet};

fn name(s: &str) -> String {
    s.to_string()
}

fn exports(list: &[&str]) -> Result<Vec<String>, String> {
    Ok(list.iter().map(|s| s.to_string()).collect())
}

fn loaded(lapp: &str, perms: Vec<Permission>, ex: &[&str]) -> LappsManager {
    let mut m = LappsManager::new();
    m.install(name(lapp), PermissionSet::new(perms)).unwrap();
    m.enable(&name(lapp)).unwrap();
    m.load(&name(lapp), exports(ex)).unwrap();
    m
}

#[test]
fn resolve_follows_lifecycle() {
    let mut m = LappsManager::new();
    let n = name("echo");
    assert!(matches!(m.resolve(&n), Err(ServerError::LappNotFound(s)) if s == "echo"));
    m.install(n.clone(), PermissionSet::empty()).unwrap();
    assert!(matches!(m.resolve(&n), Err(ServerError::LappNotEnabled(s)) if s == "echo"));
    m.enable(&n).unwrap();
    assert!(matches!(m.resolve(&n), Err(ServerError::LappNotLoaded(s)) if s == "echo"));
    m.load(&n, exports(&["http_handler"])).unwrap();
    let h = m.resolve(&n).unwrap();
    assert_eq!(h.name, "echo");
    assert!(!h.needs_reload);
}

#[test]
fn disable_unloads_loaded_lapp() {
    let mut m = loaded("echo", vec![Permission::PeerMessaging], &["p2p_handler"]);
    let n = name("echo");
    m.gossip_start(&n).unwrap();
    m.disable(&n).unwrap();
    let s = m.status(&n).unwrap();
    assert!(!s.enabled);
    assert!(!s.loaded);
    assert!(!s.subscribed);
    assert!(matches!(m.resolve(&n), Err(ServerError::LappNotEnabled(_))));
}

#[test]
fn missing_export_keeps_instance_usable() {
    let mut m = loaded("echo", vec![], &["http_handler"]);
    let n = name("echo");
    let r = m.begin_invoke(&n, &name("nope"));
    assert!(matches!(r, Err(ServerError::ExportNotFound(l, x)) if l == "echo" && x == "nope"));
    let s = m.status(&n).unwrap();
    assert!(!s.poisoned);
    assert!(!s.in_call);
    assert!(m.begin_invoke(&n, &name("http_handler")).is_ok());
}

#[test]
fn absent_permission_is_denied_every_time() {
    let set = PermissionSet::new(vec![Permission::FileRead]);
    let lapp = name("echo");
    for _ in 0..2 {
        let r = set.check(&lapp, Permission::Database);
        assert!(matches!(r, Err(ServerError::LappPermissionDenied(l, Permission::Database)) if l == "echo"));
    }
    assert!(set.check(&lapp, Permission::FileRead).is_ok());
    let mut m = loaded("echo", vec![], &["http_handler"]);
    let e = m.storage_put(&lapp, 1, vec![1]).unwrap_err();
    assert_eq!(e.status_code(), 403);
    assert!(m.storage_get(&lapp, 1).is_err());
}

#[test]
fn calls_into_one_lapp_are_serialized() {
    let mut m = loaded("echo", vec![], &["http_handler"]);
    m.install(name("other"), PermissionSet::empty()).unwrap();
    m.enable(&name("other")).unwrap();
    m.load(&name("other"), exports(&["http_handler"])).unwrap();
    let n = name("echo");
    let x = name("http_handler");
    m.begin_invoke(&n, &x).unwrap();
    let busy = m.begin_invoke(&n, &x).unwrap_err();
    assert!(matches!(busy, ServerError::LappBusy(ref l) if l == "echo"));
    assert_eq!(busy.status_code(), 503);
    // another lapp is not held up
    m.begin_invoke(&name("other"), &x).unwrap();
    let out = m.finish_invoke(&n, CallOutcome::Returned(vec![2, 0, 0, 0, 7, 8])).unwrap();
    assert_eq!(out, vec![7, 8]);
    assert!(m.begin_invoke(&n, &x).is_ok());
}

#[test]
fn storage_survives_reload() {
    let mut m = loaded("db", vec![Permission::Database], &["http_handler"]);
    let n = name("db");
    m.storage_put(&n, 5, vec![1, 2, 3]).unwrap();
    m.storage_put(&n, 6, vec![9]).unwrap();
    m.storage_put(&n, 5, vec![4]).unwrap();
    m.unload(&n).unwrap();
    assert!(matches!(m.storage_get(&n, 5), Err(ServerError::LappNotLoaded(_))));
    m.load(&n, exports(&["http_handler"])).unwrap();
    assert_eq!(m.storage_get(&n, 5).unwrap(), Some(vec![4]));
    assert_eq!(m.storage_get(&n, 6).unwrap(), Some(vec![9]));
    assert_eq!(m.storage_get(&n, 7).unwrap(), None);
}

#[test]
fn install_rejects_duplicates_and_bad_names() {
    let mut m = LappsManager::new();
    m.install(name("echo"), PermissionSet::empty()).unwrap();
    let e = m.install(name("echo"), PermissionSet::empty()).unwrap_err();
    assert!(matches!(e, ServerError::LappAlreadyExists(ref l) if l == "echo"));
    assert_eq!(e.status_code(), 409);
    assert!(matches!(m.install(name(""), PermissionSet::empty()), Err(ServerError::UnknownLappName)));
    assert!(matches!(m.install(name("a/b"), PermissionSet::empty()), Err(ServerError::UnknownLappName)));
    assert!(is_valid_name(&name("chat")));
    assert!(!is_valid_name(&name("/")));
}

#[test]
fn load_errors() {
    let mut m = LappsManager::new();
    let n = name("echo");
    assert!(matches!(m.load(&n, exports(&[])), Err(ServerError::LappNotFound(_))));
    m.install(n.clone(), PermissionSet::empty()).unwrap();
    assert!(matches!(m.load(&n, exports(&[])), Err(ServerError::LappNotEnabled(_))));
    m.enable(&n).unwrap();
    let e = m.load(&n, Err(name("bad magic"))).unwrap_err();
    assert!(matches!(e, ServerError::LappInitError(ref s) if s == "bad magic"));
    assert!(!m.status(&n).unwrap().loaded);
    m.load(&n, exports(&[])).unwrap();
    assert!(matches!(m.load(&n, exports(&[])), Err(ServerError::LappAlreadyLoaded(_))));
}

#[test]
fn remove_only_when_not_loaded() {
    let mut m = loaded("echo", vec![], &[]);
    let n = name("echo");
    assert!(matches!(m.remove(&n), Err(ServerError::LappStillLoaded(_))));
    m.unload(&n).unwrap();
    assert!(matches!(m.unload(&n), Err(ServerError::LappNotLoaded(_))));
    m.remove(&n).unwrap();
    assert!(m.status(&n).is_none());
    assert!(matches!(m.remove(&n), Err(ServerError::LappNotFound(_))));
}

#[test]
fn unrecoverable_trap_poisons_instance() {
    let mut m = loaded("echo", vec![], &["http_handler"]);
    let n = name("echo");
    let x = name("http_handler");
    m.begin_invoke(&n, &x).unwrap();
    let e = m.finish_invoke(&n, CallOutcome::Trapped).unwrap_err();
    assert!(matches!(e, ServerError::TrapDuringExecution(ref l) if l == "echo"));
    assert!(!m.resolve(&n).unwrap().needs_reload);
    m.begin_invoke(&n, &x).unwrap();
    assert!(m.finish_invoke(&n, CallOutcome::Poisoned).is_err());
    assert!(m.resolve(&n).unwrap().needs_reload);
    assert!(matches!(m.begin_invoke(&n, &x), Err(ServerError::LappNotLock)));
    m.unload(&n).unwrap();
    m.load(&n, exports(&["http_handler"])).unwrap();
    assert!(!m.resolve(&n).unwrap().needs_reload);
    assert!(m.begin_invoke(&n, &x).is_ok());
}

#[test]
fn malformed_result_is_reported() {
    let mut m = loaded("echo", vec![], &["http_handler"]);
    let n = name("echo");
    let x = name("http_handler");
    m.begin_invoke(&n, &x).unwrap();
    let r = m.finish_invoke(&n, CallOutcome::Returned(vec![5, 0, 0, 0, 1]));
    assert!(matches!(r, Err(ServerError::WrongResultLength)));
    assert!(!m.status(&n).unwrap().in_call);
    m.begin_invoke(&n, &x).unwrap();
    assert!(matches!(m.finish_invoke(&n, CallOutcome::Returned(vec![0, 0])), Err(ServerError::WrongResultLength)));
}

#[test]
fn frame_encoding() {
    assert_eq!(encode_frame(&[1, 2, 3]), vec![3, 0, 0, 0, 1, 2, 3]);
    let big: Vec<u8> = vec![7; 300];
    let f = encode_frame(&big);
    assert_eq!(&f[..4], &[44, 1, 0, 0]);
    assert_eq!(decode_frame(&f).unwrap(), big);
    assert_eq!(decode_frame(&vec![0, 0, 0, 0]).unwrap(), Vec::<u8>::new());
    assert!(matches!(decode_frame(&vec![1, 0, 0]), Err(ServerError::WrongResultLength)));
    assert!(matches!(decode_frame(&vec![0, 0, 0, 0, 9]), Err(ServerError::WrongResultLength)));
}

#[test]
fn gossip_stop_and_publish() {
    let mut m = loaded("chat", vec![Permission::PeerMessaging], &["p2p_handler"]);
    let n = name("chat");
    assert!(matches!(m.may_publish(&n), Err(ServerError::LappNotSubscribed(_))));
    assert!(matches!(m.gossip_stop(&n), Err(ServerError::LappNotSubscribed(_))));
    m.gossip_start(&n).unwrap();
    assert!(m.may_publish(&n).is_ok());
    m.gossip_stop(&n).unwrap();
    assert!(!m.status(&n).unwrap().subscribed);
    assert!(matches!(m.deliver(&n, &vec![1]), Err(ServerError::LappNotSubscribed(_))));
    let mut q = loaded("quiet", vec![], &["p2p_handler"]);
    let e = q.may_publish(&name("quiet")).unwrap_err();
    assert!(matches!(e, ServerError::LappPermissionDenied(_, Permission::PeerMessaging)));
}

#[test]
fn status_codes_and_names() {
    assert_eq!(ServerError::LappNotFound(name("x")).status_code(), 404);
    assert_eq!(ServerError::LappNotEnabled(name("x")).status_code(), 409);
    assert_eq!(ServerError::LappNotLoaded(name("x")).status_code(), 409);
    assert_eq!(ServerError::LappPermissionDenied(name("x"), Permission::Database).status_code(), 403);
    assert_eq!(ServerError::LappsManagerNotLock.status_code(), 500);
    assert_eq!(ServerError::WrongResultLength.status_code(), 500);
    assert_eq!(Permission::PeerMessaging.as_str(), "peer_messaging");
    assert_eq!(Permission::FileWrite.as_str(), "file_write");
}

#[test]
fn manifest_permission_names() {
    assert_eq!(Permission::from_name("database"), Some(Permission::Database));
    assert_eq!(Permission::from_name("peer_messaging"), Some(Permission::PeerMessaging));
    assert_eq!(Permission::from_name("Database"), None);
    assert_eq!(Permission::from_name(""), None);
    let set = PermissionSet::from_names(&vec![name("file_read"), name("peer_messaging")]).unwrap();
    assert!(set.contains(Permission::FileRead));
    assert!(set.contains(Permission::PeerMessaging));
    assert!(!set.contains(Permission::Database));
    assert!(PermissionSet::from_names(&vec![name("file_read"), name("root")]).is_none());
    assert!(!PermissionSet::from_names(&vec![]).unwrap().contains(Permission::FileRead));
}
