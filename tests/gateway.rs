use laplace_server::error::ServerError;
use laplace_server::gateway::{handle, route, Action, Method, Route};
use laplace_server::manager::{CallOutcome, LappsManager};
use laplace_server::permission::{Permission, PermissionSet};

fn echo_with(perms: Vec<Permission>) -> LappsManager {
    let mut m = LappsManager::new();
    m.install("echo".to_string(), PermissionSet::new(perms)).unwrap();
    m.enable(&"echo".to_string()).unwrap();
    m.load(&"echo".to_string(), Ok(vec!["http_handler".to_string(), "p2p_handler".to_string()]))
        .unwrap();
    m
}

#[test]
fn echo_p2p_denied_without_permission() {
    let mut m = echo_with(vec![]);
    let r = route(Method::Post, "/echo/api/p2p");
    assert!(matches!(r, Route::P2pStart { ref lapp } if lapp == "echo"));
    let e = handle(&mut m, r, &vec![]).err().unwrap();
    assert!(matches!(e, ServerError::LappPermissionDenied(ref l, Permission::PeerMessaging) if l == "echo"));
    assert_eq!(e.status_code(), 403);
    assert!(!m.status(&"echo".to_string()).unwrap().subscribed);
}

#[test]
fn echo_p2p_allowed_then_gossip_invokes_handler_once() {
    let mut m = echo_with(vec![Permission::PeerMessaging]);
    let r = route(Method::Post, "/echo/api/p2p");
    let a = handle(&mut m, r, &vec![]).ok().unwrap();
    assert!(matches!(a, Action::GossipStarted { ref lapp } if lapp == "echo"));
    let n = "echo".to_string();
    assert!(m.status(&n).unwrap().subscribed);
    let args = m.deliver(&n, &vec![104, 105]).unwrap();
    assert_eq!(args, vec![2, 0, 0, 0, 104, 105]);
    assert!(m.status(&n).unwrap().in_call);
    // the one call is in flight: nothing else enters until it ends
    assert!(matches!(m.deliver(&n, &vec![1]), Err(ServerError::LappBusy(_))));
    let out = m.finish_invoke(&n, CallOutcome::Returned(vec![0, 0, 0, 0])).unwrap();
    assert!(out.is_empty());
    assert!(!m.status(&n).unwrap().in_call);
}

#[test]
fn routes_of_the_table() {
    assert!(matches!(route(Method::Get, "/echo"), Route::Index { ref lapp } if lapp == "echo"));
    assert!(matches!(route(Method::Post, "/echo"), Route::MethodNotAllowed));
    assert!(matches!(route(Method::Get, "/echo/static/js/app.js"),
        Route::StaticFile { ref lapp, ref file } if lapp == "echo" && file == "js/app.js"));
    assert!(matches!(route(Method::Get, "/echo/api/ws"), Route::WsStart { ref lapp } if lapp == "echo"));
    assert!(matches!(route(Method::Post, "/echo/api/ws"), Route::MethodNotAllowed));
    assert!(matches!(route(Method::Get, "/echo/api/p2p"), Route::MethodNotAllowed));
    assert!(matches!(route(Method::Put, "/echo/api/items/3"),
        Route::Api { ref lapp, ref tail, method: Method::Put } if lapp == "echo" && tail == "items/3"));
    assert!(matches!(route(Method::Get, "/echo/some/page"),
        Route::Internal { ref lapp, ref tail } if lapp == "echo" && tail == "some/page"));
    assert!(matches!(route(Method::Get, "/"), Route::NotFound));
    assert!(matches!(route(Method::Get, "//x"), Route::NotFound));
    assert!(matches!(route(Method::Get, "echo"), Route::NotFound));
    assert!(matches!(route(Method::Get, "/echo/"), Route::NotFound));
}

#[test]
fn api_request_starts_http_handler_call() {
    let mut m = echo_with(vec![]);
    let r = route(Method::Post, "/echo/api/say");
    let a = handle(&mut m, r, &vec![9]).ok().unwrap();
    match a {
        Action::Invoke { lapp, args } => {
            assert_eq!(lapp, "echo");
            assert_eq!(args, vec![1, 3, 0, 0, 0, b's', b'a', b'y', 1, 0, 0, 0, 9]);
        },
        _ => panic!("expected a call"),
    }
    assert!(m.status(&"echo".to_string()).unwrap().in_call);
}

#[test]
fn gateway_reports_lifecycle_errors() {
    let mut m = LappsManager::new();
    let e = handle(&mut m, route(Method::Get, "/nope/api/ws"), &vec![]).err().unwrap();
    assert_eq!(e.status_code(), 404);
    m.install("echo".to_string(), PermissionSet::empty()).unwrap();
    let e = handle(&mut m, route(Method::Get, "/echo/api/x"), &vec![]).err().unwrap();
    assert!(matches!(e, ServerError::LappNotEnabled(_)));
    assert_eq!(e.status_code(), 409);
    let a = handle(&mut m, route(Method::Get, "/echo/static/a.css"), &vec![]).ok().unwrap();
    assert!(matches!(a, Action::ServeAsset { ref lapp, file: Some(ref f) } if lapp == "echo" && f == "a.css"));
    let a = handle(&mut m, route(Method::Delete, "/echo"), &vec![]).ok().unwrap();
    assert!(matches!(a, Action::Refuse { status: 405 }));
}
