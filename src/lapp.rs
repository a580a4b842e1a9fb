use vstd::prelude::*;

use crate::permission::Permission;

verus! {

/// The abstract state of one loaded module instance.
pub struct InstanceView {
    /// Names of the functions the module exports.
    pub exports: Seq<Seq<char>>,
    /// Set after an unrecoverable trap; the instance then takes no calls.
    pub poisoned: bool,
    /// A call into the instance is in flight.
    pub in_call: bool,
}

/// The abstract state of one registered lapp.
pub struct LappView {
    pub permissions: Set<Permission>,
    pub enabled: bool,
    pub instance: Option<InstanceView>,
    pub subscribed: bool,
    pub storage: Map<u64, Seq<u8>>,
}

/// A lapp name can address a lapp: it is non-empty and holds no `/`, so
/// that it is one path segment.
pub open spec fn valid_name(n: Seq<char>) -> bool {
    n.len() > 0 && forall|i: int| 0 <= i < n.len() ==> n[i] != '/'
}

/// What install registers: disabled, not loaded, no subscription, no records.
pub open spec fn fresh_lapp(p: Set<Permission>) -> LappView {
    LappView {
        permissions: p,
        enabled: false,
        instance: None,
        subscribed: false,
        storage: Map::empty(),
    }
}

/// The state invariant of a lapp: only an enabled lapp is loaded, and only
/// a loaded lapp that declares peer messaging holds a subscription.
pub open spec fn lapp_consistent(v: LappView) -> bool {
    &&& (v.instance is Some ==> v.enabled)
    &&& (v.subscribed ==> v.instance is Some && v.permissions.contains(Permission::PeerMessaging))
}

/// The lapp is registered, enabled and loaded: it may serve requests.
pub open spec fn is_live(m: Map<Seq<char>, LappView>, n: Seq<char>) -> bool {
    m.contains_key(n) && m[n].enabled && m[n].instance is Some
}

/// `v` with its instance's flags replaced.
pub open spec fn with_call_flags(v: LappView, in_call: bool, poisoned: bool) -> LappView {
    LappView {
        instance: Some(
            InstanceView { in_call: in_call, poisoned: poisoned, ..v.instance->Some_0 },
        ),
        ..v
    }
}

} // verus!
