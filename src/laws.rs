use vstd::prelude::*;

use crate::error::{
    is_busy, is_denied, is_export_not_found, is_not_enabled, is_not_found, is_not_loaded,
    ServerError,
};
use crate::frame::framed;
use crate::lapp::{is_live, valid_name, LappView};
use crate::manager::{
    begin_invoke_post, deliver_post, disable_post, enable_post, finish_invoke_post,
    gossip_start_post, install_post, load_post, p2p_handler_name, resolve_post, unload_post,
    CallOutcome, LappHandle, Registry,
};
use crate::permission::Permission;

verus! {

/// `resolve` follows the lifecycle: a lapp that is not installed is not
/// found; once installed it is not enabled; once enabled it is not loaded;
/// once loaded it resolves.
pub proof fn lemma_resolve_follows_lifecycle(
    m0: Registry,
    n: Seq<char>,
    p: Set<Permission>,
    r0: Result<LappHandle, ServerError>,
    ri: Result<(), ServerError>,
    m1: Registry,
    r1: Result<LappHandle, ServerError>,
    re: Result<(), ServerError>,
    m2: Registry,
    r2: Result<LappHandle, ServerError>,
    module: Result<Vec<String>, String>,
    rl: Result<(), ServerError>,
    m3: Registry,
    r3: Result<LappHandle, ServerError>,
)
    requires
        valid_name(n),
        !m0.contains_key(n),
        resolve_post(m0, n, r0),
        install_post(m0, n, p, ri, m1),
        resolve_post(m1, n, r1),
        enable_post(m1, n, re, m2),
        resolve_post(m2, n, r2),
        load_post(m2, n, module, rl, m3),
        rl is Ok,
        resolve_post(m3, n, r3),
    ensures
        r0 is Err && is_not_found(r0->Err_0, n),
        r1 is Err && is_not_enabled(r1->Err_0, n),
        r2 is Err && is_not_loaded(r2->Err_0, n),
        r3 is Ok && r3->Ok_0.name@ == n && !r3->Ok_0.needs_reload,
{
}

/// Disabling a loaded lapp unloads it in the same step: afterwards it is
/// disabled, has no instance and no subscription, and `resolve` reports it
/// not enabled.
pub proof fn lemma_disable_unloads(
    m0: Registry,
    n: Seq<char>,
    r: Result<(), ServerError>,
    m1: Registry,
    r2: Result<LappHandle, ServerError>,
)
    requires
        m0.contains_key(n),
        m0[n].instance is Some,
        disable_post(m0, n, r, m1),
        resolve_post(m1, n, r2),
    ensures
        r is Ok,
        !m1[n].enabled,
        m1[n].instance is None,
        !m1[n].subscribed,
        r2 is Err && is_not_enabled(r2->Err_0, n),
{
}

/// A call of an export that the module lacks fails with `ExportNotFound`
/// and changes nothing: the instance stays unpoisoned and idle.
pub proof fn lemma_missing_export(
    m0: Registry,
    n: Seq<char>,
    x: Seq<char>,
    r: Result<(), ServerError>,
    m1: Registry,
)
    requires
        is_live(m0, n),
        !m0[n].instance->Some_0.poisoned,
        !m0[n].instance->Some_0.in_call,
        !m0[n].instance->Some_0.exports.contains(x),
        begin_invoke_post(m0, n, x, r, m1),
    ensures
        r is Err && is_export_not_found(r->Err_0, n, x),
        m1 == m0,
        !m1[n].instance->Some_0.poisoned,
{
}

/// Calls into one lapp are serialized: while a call is in flight, a second
/// call into the same lapp is refused as busy and changes nothing, until
/// the first is finished.
pub proof fn lemma_calls_serialized(
    m0: Registry,
    n: Seq<char>,
    x: Seq<char>,
    r1: Result<(), ServerError>,
    m1: Registry,
    y: Seq<char>,
    r2: Result<(), ServerError>,
    m2: Registry,
    outcome: CallOutcome,
    r3: Result<Vec<u8>, ServerError>,
    m3: Registry,
)
    requires
        begin_invoke_post(m0, n, x, r1, m1),
        r1 is Ok,
        begin_invoke_post(m1, n, y, r2, m2),
        finish_invoke_post(m1, n, outcome, r3, m3),
    ensures
        r2 is Err && is_busy(r2->Err_0, n),
        m2 == m1,
        m3[n].instance is Some && !m3[n].instance->Some_0.in_call,
{
}

/// Starting or finishing a call into one lapp leaves every other lapp as
/// it was, so calls into different lapps never wait on each other.
pub proof fn lemma_calls_independent(
    m0: Registry,
    n: Seq<char>,
    x: Seq<char>,
    r1: Result<(), ServerError>,
    m1: Registry,
    outcome: CallOutcome,
    r2: Result<Vec<u8>, ServerError>,
    m2: Registry,
    k: Seq<char>,
)
    requires
        begin_invoke_post(m0, n, x, r1, m1),
        finish_invoke_post(m0, n, outcome, r2, m2),
        k != n,
    ensures
        m1.contains_key(k) == m0.contains_key(k),
        m2.contains_key(k) == m0.contains_key(k),
        m0.contains_key(k) ==> m1[k] == m0[k] && m2[k] == m0[k],
{
}

/// Unloading a lapp and loading it again keeps its storage exactly.
pub proof fn lemma_reload_keeps_storage(
    m0: Registry,
    n: Seq<char>,
    r1: Result<(), ServerError>,
    m1: Registry,
    module: Result<Vec<String>, String>,
    r2: Result<(), ServerError>,
    m2: Registry,
)
    requires
        m0.contains_key(n),
        unload_post(m0, n, r1, m1),
        load_post(m1, n, module, r2, m2),
    ensures
        m2.contains_key(n),
        m2[n].storage == m0[n].storage,
{
}

/// A lapp that does not declare peer messaging is denied a gossip session
/// and gets no subscription.
pub proof fn lemma_gossip_needs_permission(
    m0: Registry,
    n: Seq<char>,
    r: Result<(), ServerError>,
    m1: Registry,
)
    requires
        is_live(m0, n),
        !m0[n].permissions.contains(Permission::PeerMessaging),
        gossip_start_post(m0, n, r, m1),
    ensures
        r is Err && is_denied(r->Err_0, n, Permission::PeerMessaging),
        m1 == m0,
{
}

/// Once a live, idle lapp that exports `p2p_handler` has started a gossip
/// session, an inbound message for it starts exactly one call of
/// `p2p_handler` with the framed message as arguments.
pub proof fn lemma_gossip_delivers(
    m0: Registry,
    n: Seq<char>,
    r: Result<(), ServerError>,
    m1: Registry,
    payload: Seq<u8>,
    rd: Result<Vec<u8>, ServerError>,
    m2: Registry,
)
    requires
        is_live(m0, n),
        !m0[n].instance->Some_0.poisoned,
        !m0[n].instance->Some_0.in_call,
        m0[n].instance->Some_0.exports.contains(p2p_handler_name()),
        gossip_start_post(m0, n, r, m1),
        r is Ok,
        deliver_post(m1, n, payload, rd, m2),
    ensures
        m1[n].subscribed,
        rd is Ok && rd->Ok_0@ == framed(payload),
        m2 == m1.insert(n, LappView {
            instance: Some(
                crate::lapp::InstanceView { in_call: true, ..m1[n].instance->Some_0 },
            ),
            ..m1[n]
        }),
{
}

} // verus!
