use vstd::prelude::*;
use vstd::string::{StrSliceExecFns, StringSliceAdditionalSpecFns};

use crate::error::ServerError;
use crate::frame::{encode_frame, framed};
use crate::lapp::is_live;
use crate::manager::{begin_invoke_post, gossip_start_post, resolve_error, LappsManager, Registry};

verus! {

/// The HTTP method of a request, as far as routing tells them apart.
#[derive(Clone, Copy, Debug, PartialEq, Eq, Structural)]
pub enum Method {
    Get,
    Post,
    Put,
    Delete,
    Patch,
    Other,
}

/// Where the gateway sends a request for `/{lapp}/...`.
#[derive(Debug)]
pub enum Route {
    /// `GET /{lapp}`: the lapp's index asset.
    Index { lapp: String },
    /// `GET /{lapp}/static/{file}`: a static asset of the lapp.
    StaticFile { lapp: String, file: String },
    /// `GET /{lapp}/api/ws`: open the WebSocket bridge.
    WsStart { lapp: String },
    /// `POST /{lapp}/api/p2p`: start the lapp's gossip session.
    P2pStart { lapp: String },
    /// `/{lapp}/api/{tail}`, any method: passthrough to `http_handler`.
    Api { lapp: String, tail: String, method: Method },
    /// `GET /{lapp}/{tail}`: the lapp's own client-side routing.
    Internal { lapp: String, tail: String },
    MethodNotAllowed,
    NotFound,
}

/// `Route` over character sequences.
pub enum RouteView {
    Index { lapp: Seq<char> },
    StaticFile { lapp: Seq<char>, file: Seq<char> },
    WsStart { lapp: Seq<char> },
    P2pStart { lapp: Seq<char> },
    Api { lapp: Seq<char>, tail: Seq<char>, method: Method },
    Internal { lapp: Seq<char>, tail: Seq<char> },
    MethodNotAllowed,
    NotFound,
}

impl View for Route {
    type V = RouteView;

    open spec fn view(&self) -> RouteView {
        match self {
            Route::Index { lapp } => RouteView::Index { lapp: lapp@ },
            Route::StaticFile { lapp, file } => RouteView::StaticFile { lapp: lapp@, file: file@ },
            Route::WsStart { lapp } => RouteView::WsStart { lapp: lapp@ },
            Route::P2pStart { lapp } => RouteView::P2pStart { lapp: lapp@ },
            Route::Api { lapp, tail, method } => RouteView::Api {
                lapp: lapp@,
                tail: tail@,
                method: *method,
            },
            Route::Internal { lapp, tail } => RouteView::Internal { lapp: lapp@, tail: tail@ },
            Route::MethodNotAllowed => RouteView::MethodNotAllowed,
            Route::NotFound => RouteView::NotFound,
        }
    }
}

/// The index of the first `/` in `s` at or after `i`, or `s.len()`.
pub open spec fn first_slash_from(s: Seq<char>, i: int) -> int
    decreases s.len() - i,
{
    if i < 0 || i >= s.len() {
        s.len() as int
    } else if s[i] == '/' {
        i
    } else {
        first_slash_from(s, i + 1)
    }
}

/// The name of the directory that holds a lapp's static assets.
pub open spec fn static_dir_name() -> Seq<char> {
    "static"@
}

pub open spec fn only_for(m: Method, allowed: Method, r: RouteView) -> RouteView {
    if m == allowed {
        r
    } else {
        RouteView::MethodNotAllowed
    }
}

/// The route table: `path` is the request path, starting with `/`.
pub open spec fn route_of(m: Method, p: Seq<char>) -> RouteView {
    let k = first_slash_from(p, 1);
    let lapp = p.subrange(1, k);
    let rest = p.subrange(k + 1, p.len() as int);
    let k2 = first_slash_from(rest, 0);
    let seg = rest.subrange(0, k2);
    let tail = rest.subrange(k2 + 1, rest.len() as int);
    if p.len() < 2 || p[0] != '/' || lapp.len() == 0 {
        RouteView::NotFound
    } else if k == p.len() {
        only_for(m, Method::Get, RouteView::Index { lapp })
    } else if seg == "api"@ && k2 < rest.len() && tail.len() > 0 {
        if tail == "ws"@ {
            only_for(m, Method::Get, RouteView::WsStart { lapp })
        } else if tail == "p2p"@ {
            only_for(m, Method::Post, RouteView::P2pStart { lapp })
        } else {
            RouteView::Api { lapp, tail, method: m }
        }
    } else if seg == static_dir_name() && k2 < rest.len() && tail.len() > 0 {
        only_for(m, Method::Get, RouteView::StaticFile { lapp, file: tail })
    } else if rest.len() > 0 {
        only_for(m, Method::Get, RouteView::Internal { lapp, tail: rest })
    } else {
        RouteView::NotFound
    }
}


/// The export that serves API requests.
pub open spec fn http_handler_name() -> Seq<char> {
    "http_handler"@
}

pub open spec fn method_code(m: Method) -> u8 {
    match m {
        Method::Get => 0,
        Method::Post => 1,
        Method::Put => 2,
        Method::Delete => 3,
        Method::Patch => 4,
        Method::Other => 5,
    }
}

/// The arguments of an `http_handler` call: the method's code, then the
/// framed UTF-8 path remainder, then the framed body.
pub open spec fn request_bytes(m: Method, tail: Seq<char>, body: Seq<u8>) -> Seq<u8> {
    seq![method_code(m)] + framed(vstd::utf8::encode_utf8(tail)) + framed(body)
}

/// What the transport layer is to do with a request.
pub enum Action {
    /// Serve a file of the lapp's installation: `None` for its index asset.
    ServeAsset { lapp: String, file: Option<String> },
    /// Open the WebSocket bridge to the lapp.
    OpenWebSocket { lapp: String },
    /// The lapp's gossip session is open.
    GossipStarted { lapp: String },
    /// Run `http_handler` of the lapp on these arguments, then hand the
    /// outcome to `finish_invoke`.
    Invoke { lapp: String, args: Vec<u8> },
    /// Answer with this status and no further work.
    Refuse { status: u16 },
}

pub open spec fn fits_frame(b: Seq<u8>) -> bool {
    b.len() <= u32::MAX
}

/// What `handle` does for a request routed to `route`.
pub open spec fn handle_post(
    m0: Registry,
    route: RouteView,
    body: Seq<u8>,
    r: Result<Action, ServerError>,
    m1: Registry,
) -> bool {
    match route {
        RouteView::Index { lapp } => m1 == m0 && (r matches Ok(
            Action::ServeAsset { lapp: l, file: None },
        ) && l@ == lapp),
        RouteView::Internal { lapp, tail } => m1 == m0 && (r matches Ok(
            Action::ServeAsset { lapp: l, file: None },
        ) && l@ == lapp),
        RouteView::StaticFile { lapp, file } => m1 == m0 && (r matches Ok(
            Action::ServeAsset { lapp: l, file: Some(f) },
        ) && l@ == lapp && f@ == file),
        RouteView::WsStart { lapp } => {
            &&& m1 == m0
            &&& !is_live(m0, lapp) ==> r is Err && resolve_error(m0, lapp, r->Err_0)
            &&& is_live(m0, lapp) ==> (r matches Ok(Action::OpenWebSocket { lapp: l }) && l@ == lapp)
        },
        RouteView::P2pStart { lapp } => {
            &&& gossip_start_post(m0, lapp, r, m1)
            &&& r is Ok ==> (r matches Ok(Action::GossipStarted { lapp: l }) && l@ == lapp)
        },
        RouteView::Api { lapp, tail, method } => {
            if !fits_frame(vstd::utf8::encode_utf8(tail)) || !fits_frame(body) {
                m1 == m0 && r == Ok::<Action, ServerError>(Action::Refuse { status: 413 })
            } else {
                &&& begin_invoke_post(m0, lapp, http_handler_name(), r, m1)
                &&& r is Ok ==> (r matches Ok(Action::Invoke { lapp: l, args }) && l@ == lapp
                    && args@ == request_bytes(method, tail, body))
            }
        },
        RouteView::MethodNotAllowed => m1 == m0 && r == Ok::<Action, ServerError>(
            Action::Refuse { status: 405 },
        ),
        RouteView::NotFound => m1 == m0 && r == Ok::<Action, ServerError>(
            Action::Refuse { status: 404 },
        ),
    }
}

fn first_slash(s: &str, from: usize) -> (r: usize)
    requires
        from <= s@.len(),
    ensures
        r == first_slash_from(s@, from as int),
        from <= r <= s@.len(),
{
    let len = s.unicode_len();
    let mut i = from;
    while i < len
        invariant
            len == s@.len(),
            from <= i <= len,
            first_slash_from(s@, from as int) == first_slash_from(s@, i as int),
        decreases len - i,
    {
        if s.get_char(i) == '/' {
            return i;
        }
        i = i + 1;
    }
    i
}

/// Whether the characters of `s` from `from` to `to` spell `lit`.
fn span_is(s: &str, from: usize, to: usize, lit: &str) -> (r: bool)
    requires
        from <= to <= s@.len(),
    ensures
        r == (s@.subrange(from as int, to as int) == lit@),
{
    let n = lit.unicode_len();
    if to - from != n {
        return false;
    }
    let mut i: usize = 0;
    while i < n
        invariant
            n == lit@.len(),
            to - from == n,
            from <= to <= s@.len(),
            i <= n,
            forall|j: int| 0 <= j < i ==> s@[from + j] == lit@[j],
        decreases n - i,
    {
        if s.get_char(from + i) != lit.get_char(i) {
            proof {
                assert(s@.subrange(from as int, to as int)[i as int] != lit@[i as int]);
            }
            return false;
        }
        i = i + 1;
    }
    proof {
        assert(s@.subrange(from as int, to as int) =~= lit@);
    }
    true
}

fn span(s: &str, from: usize, to: usize) -> (r: String)
    requires
        from <= to <= s@.len(),
    ensures
        r@ == s@.subrange(from as int, to as int),
{
    s.substring_char(from, to).to_owned()
}

fn only(m: Method, allowed: Method, r: Route) -> (o: Route)
    ensures
        o@ == only_for(m, allowed, r@),
{
    if m == allowed {
        r
    } else {
        Route::MethodNotAllowed
    }
}

/// Routes a request by its method and path.
pub fn route(m: Method, path: &str) -> (r: Route)
    ensures
        r@ == route_of(m, path@),
{
    let len = path.unicode_len();
    if len < 2 || path.get_char(0) != '/' {
        return Route::NotFound;
    }
    let k = first_slash(path, 1);
    if k == 1 {
        return Route::NotFound;
    }
    let lapp = span(path, 1, k);
    if k == len {
        return only(m, Method::Get, Route::Index { lapp });
    }
    let ghost p = path@;
    let ghost rest = p.subrange(k + 1, p.len() as int);
    let rest_s = path.substring_char(k + 1, len);
    let rlen = rest_s.unicode_len();
    let k2 = first_slash(rest_s, 0);
    let has_tail = k2 < rlen && k2 + 1 < rlen;
    proof {
        assert(rest_s@ == rest);
        if k2 < rlen {
            assert(rest.subrange(k2 + 1, rest.len() as int).len() == rlen - k2 - 1);
        }
    }
    if has_tail && span_is(rest_s, 0, k2, "api") {
        let tail = span(rest_s, k2 + 1, rlen);
        if span_is(rest_s, k2 + 1, rlen, "ws") {
            return only(m, Method::Get, Route::WsStart { lapp });
        }
        if span_is(rest_s, k2 + 1, rlen, "p2p") {
            return only(m, Method::Post, Route::P2pStart { lapp });
        }
        return Route::Api { lapp, tail, method: m };
    }
    if has_tail && span_is(rest_s, 0, k2, "static") {
        let file = span(rest_s, k2 + 1, rlen);
        return only(m, Method::Get, Route::StaticFile { lapp, file });
    }
    if rlen > 0 {
        let tail = span(rest_s, 0, rlen);
        proof {
            assert(tail@ =~= rest);
        }
        return only(m, Method::Get, Route::Internal { lapp, tail });
    }
    Route::NotFound
}

fn method_code_of(m: Method) -> (r: u8)
    ensures
        r == method_code(m),
{
    match m {
        Method::Get => 0,
        Method::Post => 1,
        Method::Put => 2,
        Method::Delete => 3,
        Method::Patch => 4,
        Method::Other => 5,
    }
}

/// The gateway's decision for a routed request: assets are served without
/// the instance, a WebSocket needs a live lapp, a gossip session goes
/// through the permission gate, and an API request starts a call of
/// `http_handler` on the encoded request.
pub fn handle(manager: &mut LappsManager, route: Route, body: &Vec<u8>) -> (r: Result<Action, ServerError>)
    requires
        old(manager).wf(),
    ensures
        final(manager).wf(),
        handle_post(old(manager)@, route@, body@, r, final(manager)@),
{
    match route {
        Route::Index { lapp } => Ok(Action::ServeAsset { lapp, file: None }),
        Route::Internal { lapp, tail } => Ok(Action::ServeAsset { lapp, file: None }),
        Route::StaticFile { lapp, file } => Ok(Action::ServeAsset { lapp, file: Some(file) }),
        Route::WsStart { lapp } => match manager.resolve(&lapp) {
            Err(e) => Err(e),
            Ok(_) => Ok(Action::OpenWebSocket { lapp }),
        },
        Route::P2pStart { lapp } => match manager.gossip_start(&lapp) {
            Err(e) => Err(e),
            Ok(()) => Ok(Action::GossipStarted { lapp }),
        },
        Route::Api { lapp, tail, method } => {
            let tail_bytes = tail.as_str().as_bytes();
            if tail_bytes.len() > 4294967295 || body.len() > 4294967295 {
                return Ok(Action::Refuse { status: 413 });
            }
            let export = "http_handler".to_owned();
            match manager.begin_invoke(&lapp, &export) {
                Err(e) => Err(e),
                Ok(()) => {
                    let mut args: Vec<u8> = Vec::new();
                    args.push(method_code_of(method));
                    let mut t = encode_frame(tail_bytes);
                    args.append(&mut t);
                    let mut b = encode_frame(body.as_slice());
                    args.append(&mut b);
                    Ok(Action::Invoke { lapp, args })
                },
            }
        },
        Route::MethodNotAllowed => Ok(Action::Refuse { status: 405 }),
        Route::NotFound => Ok(Action::Refuse { status: 404 }),
    }
}

} // verus!
