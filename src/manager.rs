use vstd::prelude::*;
use vstd::string::StrSliceExecFns;

use crate::error::{
    is_already_exists, is_already_loaded, is_busy, is_denied, is_export_not_found,
    is_not_enabled, is_not_found, is_not_loaded, is_not_subscribed,
    is_still_loaded, is_trap, ServerError,
};
use crate::frame::{decode_frame, encode_frame, framed, is_frame};
use crate::keyed::{
    has_key, keys_unique, lemma_to_map_absent, lemma_to_map_index, lemma_to_map_push,
    lemma_to_map_remove, lemma_to_map_update, to_map,
};
use crate::lapp::{
    fresh_lapp, is_live, lapp_consistent, valid_name, with_call_flags, InstanceView, LappView,
};
use crate::permission::{Permission, PermissionSet};
use crate::storage::LappStorage;

verus! {

pub type Registry = Map<Seq<char>, LappView>;

/// The export that receives inbound gossip messages.
pub open spec fn p2p_handler_name() -> Seq<char> {
    "p2p_handler"@
}

/// The error that `resolve` gives for a lapp that is not live.
pub open spec fn resolve_error(m: Registry, n: Seq<char>, e: ServerError) -> bool {
    if !m.contains_key(n) {
        is_not_found(e, n)
    } else if !m[n].enabled {
        is_not_enabled(e, n)
    } else {
        is_not_loaded(e, n)
    }
}

pub open spec fn install_post(
    m: Registry,
    n: Seq<char>,
    p: Set<Permission>,
    r: Result<(), ServerError>,
    m2: Registry,
) -> bool {
    if !valid_name(n) {
        r matches Err(ServerError::UnknownLappName) && m2 == m
    } else if m.contains_key(n) {
        r is Err && is_already_exists(r->Err_0, n) && m2 == m
    } else {
        r is Ok && m2 == m.insert(n, fresh_lapp(p))
    }
}

pub open spec fn enable_post(
    m: Registry,
    n: Seq<char>,
    r: Result<(), ServerError>,
    m2: Registry,
) -> bool {
    if !m.contains_key(n) {
        r is Err && is_not_found(r->Err_0, n) && m2 == m
    } else {
        r is Ok && m2 == m.insert(n, LappView { enabled: true, ..m[n] })
    }
}

pub open spec fn disable_post(
    m: Registry,
    n: Seq<char>,
    r: Result<(), ServerError>,
    m2: Registry,
) -> bool {
    if !m.contains_key(n) {
        r is Err && is_not_found(r->Err_0, n) && m2 == m
    } else {
        r is Ok && m2 == m.insert(
            n,
            LappView { enabled: false, instance: None, subscribed: false, ..m[n] },
        )
    }
}

/// `module` is what instantiating the module gave: its export names, or
/// the engine's message where instantiation failed.
pub open spec fn load_post(
    m: Registry,
    n: Seq<char>,
    module: Result<Vec<String>, String>,
    r: Result<(), ServerError>,
    m2: Registry,
) -> bool {
    if !m.contains_key(n) {
        r is Err && is_not_found(r->Err_0, n) && m2 == m
    } else if !m[n].enabled {
        r is Err && is_not_enabled(r->Err_0, n) && m2 == m
    } else if m[n].instance is Some {
        r is Err && is_already_loaded(r->Err_0, n) && m2 == m
    } else if module is Err {
        r == Err::<(), ServerError>(ServerError::LappInitError(module->Err_0)) && m2 == m
    } else {
        r is Ok && m2 == m.insert(
            n,
            LappView {
                instance: Some(
                    InstanceView { exports: names_view(module->Ok_0@), poisoned: false, in_call: false },
                ),
                ..m[n]
            },
        )
    }
}

pub open spec fn unload_post(
    m: Registry,
    n: Seq<char>,
    r: Result<(), ServerError>,
    m2: Registry,
) -> bool {
    if !m.contains_key(n) {
        r is Err && is_not_found(r->Err_0, n) && m2 == m
    } else if m[n].instance is None {
        r is Err && is_not_loaded(r->Err_0, n) && m2 == m
    } else {
        r is Ok && m2 == m.insert(n, LappView { instance: None, subscribed: false, ..m[n] })
    }
}

pub open spec fn remove_post(
    m: Registry,
    n: Seq<char>,
    r: Result<(), ServerError>,
    m2: Registry,
) -> bool {
    if !m.contains_key(n) {
        r is Err && is_not_found(r->Err_0, n) && m2 == m
    } else if m[n].instance is Some {
        r is Err && is_still_loaded(r->Err_0, n) && m2 == m
    } else {
        r is Ok && m2 == m.remove(n)
    }
}

pub open spec fn resolve_post(m: Registry, n: Seq<char>, r: Result<LappHandle, ServerError>) -> bool {
    if !is_live(m, n) {
        r is Err && resolve_error(m, n, r->Err_0)
    } else {
        r is Ok && r->Ok_0.name@ == n && r->Ok_0.needs_reload == m[n].instance->Some_0.poisoned
    }
}

pub open spec fn begin_invoke_post<T>(
    m: Registry,
    n: Seq<char>,
    x: Seq<char>,
    r: Result<T, ServerError>,
    m2: Registry,
) -> bool {
    if !is_live(m, n) {
        r is Err && resolve_error(m, n, r->Err_0) && m2 == m
    } else if m[n].instance->Some_0.poisoned {
        r matches Err(ServerError::LappNotLock) && m2 == m
    } else if m[n].instance->Some_0.in_call {
        r is Err && is_busy(r->Err_0, n) && m2 == m
    } else if !m[n].instance->Some_0.exports.contains(x) {
        r is Err && is_export_not_found(r->Err_0, n, x) && m2 == m
    } else {
        r is Ok && m2 == m.insert(n, with_call_flags(m[n], true, false))
    }
}

pub open spec fn finish_invoke_post(
    m: Registry,
    n: Seq<char>,
    outcome: CallOutcome,
    r: Result<Vec<u8>, ServerError>,
    m2: Registry,
) -> bool {
    if !is_live(m, n) {
        r is Err && resolve_error(m, n, r->Err_0) && m2 == m
    } else {
        match outcome {
            CallOutcome::Returned(b) => {
                &&& m2 == m.insert(n, with_call_flags(m[n], false, m[n].instance->Some_0.poisoned))
                &&& is_frame(b@) ==> r is Ok && r->Ok_0@ == b@.subrange(4, b@.len() as int)
                &&& !is_frame(b@) ==> r matches Err(ServerError::WrongResultLength)
            },
            CallOutcome::Trapped => {
                &&& m2 == m.insert(n, with_call_flags(m[n], false, m[n].instance->Some_0.poisoned))
                &&& r is Err && is_trap(r->Err_0, n)
            },
            CallOutcome::Poisoned => {
                &&& m2 == m.insert(n, with_call_flags(m[n], false, true))
                &&& r is Err && is_trap(r->Err_0, n)
            },
        }
    }
}

pub open spec fn gossip_start_post<T>(
    m: Registry,
    n: Seq<char>,
    r: Result<T, ServerError>,
    m2: Registry,
) -> bool {
    if !is_live(m, n) {
        r is Err && resolve_error(m, n, r->Err_0) && m2 == m
    } else if !m[n].permissions.contains(Permission::PeerMessaging) {
        r is Err && is_denied(r->Err_0, n, Permission::PeerMessaging) && m2 == m
    } else {
        r is Ok && m2 == m.insert(n, LappView { subscribed: true, ..m[n] })
    }
}

pub open spec fn gossip_stop_post(
    m: Registry,
    n: Seq<char>,
    r: Result<(), ServerError>,
    m2: Registry,
) -> bool {
    if !m.contains_key(n) {
        r is Err && is_not_found(r->Err_0, n) && m2 == m
    } else if !m[n].subscribed {
        r is Err && is_not_subscribed(r->Err_0, n) && m2 == m
    } else {
        r is Ok && m2 == m.insert(n, LappView { subscribed: false, ..m[n] })
    }
}

pub open spec fn publish_post(m: Registry, n: Seq<char>, r: Result<(), ServerError>) -> bool {
    if !is_live(m, n) {
        r is Err && resolve_error(m, n, r->Err_0)
    } else if !m[n].permissions.contains(Permission::PeerMessaging) {
        r is Err && is_denied(r->Err_0, n, Permission::PeerMessaging)
    } else if !m[n].subscribed {
        r is Err && is_not_subscribed(r->Err_0, n)
    } else {
        r is Ok
    }
}

pub open spec fn deliver_post(
    m: Registry,
    n: Seq<char>,
    payload: Seq<u8>,
    r: Result<Vec<u8>, ServerError>,
    m2: Registry,
) -> bool {
    if is_live(m, n) && !m[n].subscribed {
        r is Err && is_not_subscribed(r->Err_0, n) && m2 == m
    } else {
        &&& begin_invoke_post(m, n, p2p_handler_name(), r, m2)
        &&& r is Ok ==> r->Ok_0@ == framed(payload)
    }
}

/// A host call of the lapp's code into its storage: the lapp must be live
/// and hold the database permission.
pub open spec fn storage_error(m: Registry, n: Seq<char>, e: ServerError) -> bool {
    if !is_live(m, n) {
        resolve_error(m, n, e)
    } else {
        is_denied(e, n, Permission::Database)
    }
}

pub open spec fn storage_allowed(m: Registry, n: Seq<char>) -> bool {
    is_live(m, n) && m[n].permissions.contains(Permission::Database)
}

pub open spec fn storage_put_post(
    m: Registry,
    n: Seq<char>,
    key: u64,
    value: Seq<u8>,
    r: Result<(), ServerError>,
    m2: Registry,
) -> bool {
    if !storage_allowed(m, n) {
        r is Err && storage_error(m, n, r->Err_0) && m2 == m
    } else {
        r is Ok && m2 == m.insert(n, LappView { storage: m[n].storage.insert(key, value), ..m[n] })
    }
}

pub open spec fn storage_get_post(
    m: Registry,
    n: Seq<char>,
    key: u64,
    r: Result<Option<Vec<u8>>, ServerError>,
) -> bool {
    if !storage_allowed(m, n) {
        r is Err && storage_error(m, n, r->Err_0)
    } else {
        r is Ok && match r->Ok_0 {
            Some(v) => m[n].storage.contains_key(key) && v@ == m[n].storage[key],
            None => !m[n].storage.contains_key(key),
        }
    }
}

/// What the module did with a call handed to it.
pub enum CallOutcome {
    /// It returned this buffer.
    Returned(Vec<u8>),
    /// It trapped; the instance stays usable.
    Trapped,
    /// It trapped in a way that leaves the instance unusable.
    Poisoned,
}

/// What `resolve` hands the gateway for a live lapp.
pub struct LappHandle {
    pub name: String,
    /// The instance was poisoned: it must be unloaded and loaded again
    /// before it takes calls.
    pub needs_reload: bool,
}

/// Flags of one lapp, for inspection.
pub struct LappStatus {
    pub enabled: bool,
    pub loaded: bool,
    pub poisoned: bool,
    pub in_call: bool,
    pub subscribed: bool,
}

struct LappEntry {
    name: String,
    permissions: PermissionSet,
    enabled: bool,
    /// The exports of the loaded instance; `None` when not loaded.
    exports: Option<Vec<String>>,
    /// Flags of the loaded instance, meaningful only while it is loaded.
    poisoned: bool,
    in_call: bool,
    subscribed: bool,
    storage: LappStorage,
}

pub open spec fn names_view(v: Seq<String>) -> Seq<Seq<char>> {
    v.map_values(|s: String| s@)
}

spec fn entry_view(e: LappEntry) -> LappView {
    LappView {
        permissions: e.permissions@,
        enabled: e.enabled,
        instance: match e.exports {
            Some(x) => Some(
                InstanceView { exports: names_view(x@), poisoned: e.poisoned, in_call: e.in_call },
            ),
            None => None,
        },
        subscribed: e.subscribed,
        storage: e.storage@,
    }
}

spec fn entry_wf(e: LappEntry) -> bool {
    e.storage.wf() && lapp_consistent(entry_view(e)) && valid_name(e.name@)
}

spec fn pairs_of(s: Seq<LappEntry>) -> Seq<(Seq<char>, LappView)> {
    s.map_values(|e: LappEntry| (e.name@, entry_view(e)))
}

/// The registry of installed lapps, the one owner of their lifecycle.
pub struct LappsManager {
    lapps: Vec<LappEntry>,
}

impl View for LappsManager {
    type V = Registry;

    closed spec fn view(&self) -> Registry {
        to_map(pairs_of(self.lapps@))
    }
}

proof fn lemma_entry_replaced(s: Seq<LappEntry>, i: int, e: LappEntry)
    requires
        keys_unique(pairs_of(s)),
        0 <= i < s.len(),
        e.name@ == s[i].name@,
    ensures
        keys_unique(pairs_of(s.update(i, e))),
        to_map(pairs_of(s.update(i, e))) == to_map(pairs_of(s)).insert(s[i].name@, entry_view(e)),
{
    lemma_to_map_update(pairs_of(s), i, entry_view(e));
    assert(pairs_of(s.update(i, e)) =~= pairs_of(s).update(i, (s[i].name@, entry_view(e))));
}

fn names_contain(v: &Vec<String>, x: &String) -> (r: bool)
    ensures
        r == names_view(v@).contains(x@),
{
    let mut i: usize = 0;
    while i < v.len()
        invariant
            i <= v@.len(),
            forall|j: int| 0 <= j < i ==> v@[j]@ != x@,
        decreases v@.len() - i,
    {
        if v[i] == *x {
            proof {
                assert(names_view(v@)[i as int] == x@);
            }
            return true;
        }
        i = i + 1;
    }
    proof {
        if names_view(v@).contains(x@) {
            let k = choose|k: int| 0 <= k < names_view(v@).len() && names_view(v@)[k] == x@;
            assert(v@[k]@ == x@);
        }
    }
    false
}

/// Whether `name` can address a lapp.
pub fn is_valid_name(name: &String) -> (r: bool)
    ensures
        r == valid_name(name@),
{
    let s = name.as_str();
    let len = s.unicode_len();
    if len == 0 {
        return false;
    }
    let mut i: usize = 0;
    while i < len
        invariant
            i <= len,
            len == s@.len(),
            s@ == name@,
            forall|j: int| 0 <= j < i ==> s@[j] != '/',
        decreases len - i,
    {
        if s.get_char(i) == '/' {
            return false;
        }
        i = i + 1;
    }
    true
}

impl LappsManager {
    pub closed spec fn wf(&self) -> bool {
        &&& keys_unique(pairs_of(self.lapps@))
        &&& forall|i: int| 0 <= i < self.lapps@.len() ==> entry_wf(#[trigger] self.lapps@[i])
    }

    /// Every lapp of a well-formed registry keeps the state invariant.
    pub proof fn lemma_consistent(&self, n: Seq<char>)
        requires
            self.wf(),
            self@.contains_key(n),
        ensures
            lapp_consistent(self@[n]),
            valid_name(n),
    {
        let j = choose|j: int| 0 <= j < pairs_of(self.lapps@).len() && pairs_of(self.lapps@)[j].0 == n;
        lemma_to_map_index(pairs_of(self.lapps@), j);
        assert(entry_wf(self.lapps@[j]));
    }

    /// An empty registry.
    pub fn new() -> (r: LappsManager)
        ensures
            r.wf(),
            r@ == Registry::empty(),
    {
        let r = LappsManager { lapps: Vec::new() };
        proof {
            assert(r@ =~= Registry::empty());
        }
        r
    }

    fn find(&self, name: &String) -> (r: Option<usize>)
        requires
            self.wf(),
        ensures
            match r {
                Some(i) => i < self.lapps@.len() && self.lapps@[i as int].name@ == name@
                    && self@.contains_key(name@) && self@[name@] == entry_view(self.lapps@[i as int]),
                None => !self@.contains_key(name@),
            },
    {
        let mut i: usize = 0;
        while i < self.lapps.len()
            invariant
                self.wf(),
                i <= self.lapps@.len(),
                forall|j: int| 0 <= j < i ==> self.lapps@[j].name@ != name@,
            decreases self.lapps@.len() - i,
        {
            if self.lapps[i].name == *name {
                proof {
                    lemma_to_map_index(pairs_of(self.lapps@), i as int);
                }
                return Some(i);
            }
            i = i + 1;
        }
        proof {
            assert forall|j: int| 0 <= j < pairs_of(self.lapps@).len() implies pairs_of(
                self.lapps@,
            )[j].0 != name@ by {
                assert(pairs_of(self.lapps@)[j].0 == self.lapps@[j].name@);
            }
            lemma_to_map_absent(pairs_of(self.lapps@), name@);
        }
        None
    }

    /// The index of a live lapp, or the error that `resolve` gives.
    fn locate(&self, name: &String) -> (r: Result<usize, ServerError>)
        requires
            self.wf(),
        ensures
            match r {
                Ok(i) => i < self.lapps@.len() && self.lapps@[i as int].name@ == name@
                    && is_live(self@, name@) && self@[name@] == entry_view(self.lapps@[i as int]),
                Err(e) => !is_live(self@, name@) && resolve_error(self@, name@, e),
            },
    {
        match self.find(name) {
            None => Err(ServerError::LappNotFound(name.clone())),
            Some(i) => {
                if !self.lapps[i].enabled {
                    Err(ServerError::LappNotEnabled(name.clone()))
                } else if self.lapps[i].exports.is_none() {
                    Err(ServerError::LappNotLoaded(name.clone()))
                } else {
                    Ok(i)
                }
            },
        }
    }

    /// Registers a lapp under `name` with the permissions of its manifest,
    /// disabled, not loaded and with an empty store.
    pub fn install(&mut self, name: String, permissions: PermissionSet) -> (r: Result<(), ServerError>)
        requires
            old(self).wf(),
        ensures
            final(self).wf(),
            install_post(old(self)@, name@, permissions@, r, final(self)@),
    {
        if !is_valid_name(&name) {
            return Err(ServerError::UnknownLappName);
        }
        if self.find(&name).is_some() {
            return Err(ServerError::LappAlreadyExists(name));
        }
        let ghost p = permissions@;
        let entry = LappEntry {
            name,
            permissions,
            enabled: false,
            exports: None,
            poisoned: false,
            in_call: false,
            subscribed: false,
            storage: LappStorage::new(),
        };
        let ghost before = self.lapps@;
        proof {
            assert(entry_view(entry) == fresh_lapp(p));
            if has_key(pairs_of(before), entry.name@) {
                let j = choose|j: int|
                    0 <= j < pairs_of(before).len() && pairs_of(before)[j].0 == entry.name@;
                lemma_to_map_index(pairs_of(before), j);
            }
            lemma_to_map_push(pairs_of(before), entry.name@, entry_view(entry));
        }
        self.lapps.push(entry);
        proof {
            assert(pairs_of(self.lapps@) =~= pairs_of(before).push((entry.name@, entry_view(entry))));
            assert forall|i: int| 0 <= i < self.lapps@.len() implies entry_wf(#[trigger] self.lapps@[i]) by {
                if i < before.len() {
                    assert(self.lapps@[i] == before[i]);
                }
            }
        }
        Ok(())
    }

    /// Marks the lapp enabled.
    pub fn enable(&mut self, name: &String) -> (r: Result<(), ServerError>)
        requires
            old(self).wf(),
        ensures
            final(self).wf(),
            enable_post(old(self)@, name@, r, final(self)@),
    {
        match self.find(name) {
            None => Err(ServerError::LappNotFound(name.clone())),
            Some(i) => {
                let ghost before = self.lapps@;
                self.lapps[i].enabled = true;
                proof {
                    lemma_entry_replaced(before, i as int, self.lapps@[i as int]);
                    assert(self.lapps@ == before.update(i as int, self.lapps@[i as int]));
                    assert(entry_view(self.lapps@[i as int]) == LappView {
                        enabled: true,
                        ..entry_view(before[i as int])
                    });
                }
                Ok(())
            },
        }
    }

    /// Marks the lapp disabled; a loaded lapp is unloaded with it, its
    /// instance torn down before its subscription.
    pub fn disable(&mut self, name: &String) -> (r: Result<(), ServerError>)
        requires
            old(self).wf(),
        ensures
            final(self).wf(),
            disable_post(old(self)@, name@, r, final(self)@),
    {
        match self.find(name) {
            None => Err(ServerError::LappNotFound(name.clone())),
            Some(i) => {
                let ghost before = self.lapps@;
                self.lapps[i].enabled = false;
                self.lapps[i].exports = None;
                self.lapps[i].subscribed = false;
                proof {
                    lemma_entry_replaced(before, i as int, self.lapps@[i as int]);
                    assert(self.lapps@ == before.update(i as int, self.lapps@[i as int]));
                    assert(entry_view(self.lapps@[i as int]) == LappView {
                        enabled: false,
                        instance: None,
                        subscribed: false,
                        ..entry_view(before[i as int])
                    });
                }
                Ok(())
            },
        }
    }

    /// Takes the result of instantiating the lapp's module and, for an
    /// enabled lapp that is not loaded, makes it the live instance.
    pub fn load(&mut self, name: &String, module: Result<Vec<String>, String>) -> (r: Result<(), ServerError>)
        requires
            old(self).wf(),
        ensures
            final(self).wf(),
            load_post(old(self)@, name@, module, r, final(self)@),
    {
        match self.find(name) {
            None => Err(ServerError::LappNotFound(name.clone())),
            Some(i) => {
                if !self.lapps[i].enabled {
                    return Err(ServerError::LappNotEnabled(name.clone()));
                }
                if self.lapps[i].exports.is_some() {
                    return Err(ServerError::LappAlreadyLoaded(name.clone()));
                }
                match module {
                    Err(msg) => Err(ServerError::LappInitError(msg)),
                    Ok(exports) => {
                        let ghost before = self.lapps@;
                        let ghost x = exports@;
                        self.lapps[i].exports = Some(exports);
                        self.lapps[i].poisoned = false;
                        self.lapps[i].in_call = false;
                        proof {
                            lemma_entry_replaced(before, i as int, self.lapps@[i as int]);
                            assert(self.lapps@ == before.update(i as int, self.lapps@[i as int]));
                            assert(entry_view(self.lapps@[i as int]) == LappView {
                                instance: Some(
                                    InstanceView {
                                        exports: names_view(x),
                                        poisoned: false,
                                        in_call: false,
                                    },
                                ),
                                ..entry_view(before[i as int])
                            });
                        }
                        Ok(())
                    },
                }
            },
        }
    }

    /// Tears down the live instance, then the gossip subscription; the
    /// lapp's storage is kept.
    pub fn unload(&mut self, name: &String) -> (r: Result<(), ServerError>)
        requires
            old(self).wf(),
        ensures
            final(self).wf(),
            unload_post(old(self)@, name@, r, final(self)@),
    {
        match self.find(name) {
            None => Err(ServerError::LappNotFound(name.clone())),
            Some(i) => {
                if self.lapps[i].exports.is_none() {
                    return Err(ServerError::LappNotLoaded(name.clone()));
                }
                let ghost before = self.lapps@;
                self.lapps[i].exports = None;
                self.lapps[i].subscribed = false;
                proof {
                    lemma_entry_replaced(before, i as int, self.lapps@[i as int]);
                    assert(self.lapps@ == before.update(i as int, self.lapps@[i as int]));
                    assert(entry_view(self.lapps@[i as int]) == LappView {
                        instance: None,
                        subscribed: false,
                        ..entry_view(before[i as int])
                    });
                }
                Ok(())
            },
        }
    }

    /// Deletes a lapp that is not loaded, with its storage.
    pub fn remove(&mut self, name: &String) -> (r: Result<(), ServerError>)
        requires
            old(self).wf(),
        ensures
            final(self).wf(),
            remove_post(old(self)@, name@, r, final(self)@),
    {
        match self.find(name) {
            None => Err(ServerError::LappNotFound(name.clone())),
            Some(i) => {
                if self.lapps[i].exports.is_some() {
                    return Err(ServerError::LappStillLoaded(name.clone()));
                }
                let ghost before = self.lapps@;
                let _ = self.lapps.remove(i);
                proof {
                    lemma_to_map_remove(pairs_of(before), i as int);
                    assert(pairs_of(self.lapps@) =~= pairs_of(before).remove(i as int));
                    assert forall|k: int| 0 <= k < self.lapps@.len() implies entry_wf(
                        #[trigger] self.lapps@[k],
                    ) by {
                        if k < i {
                            assert(self.lapps@[k] == before[k]);
                        } else {
                            assert(self.lapps@[k] == before[k + 1]);
                        }
                    }
                }
                Ok(())
            },
        }
    }

    /// The entry point of the gateway: a handle on a live lapp, or why
    /// there is none.
    pub fn resolve(&self, name: &String) -> (r: Result<LappHandle, ServerError>)
        requires
            self.wf(),
        ensures
            resolve_post(self@, name@, r),
    {
        match self.locate(name) {
            Err(e) => Err(e),
            Ok(i) => Ok(LappHandle { name: name.clone(), needs_reload: self.lapps[i].poisoned }),
        }
    }

    /// Starts a call of `export`: checks that the lapp is live, usable,
    /// idle and has the export, and marks a call in flight. The module is
    /// then run on the arguments and `finish_invoke` takes what it did.
    pub fn begin_invoke(&mut self, name: &String, export: &String) -> (r: Result<(), ServerError>)
        requires
            old(self).wf(),
        ensures
            final(self).wf(),
            begin_invoke_post(old(self)@, name@, export@, r, final(self)@),
    {
        let i = match self.locate(name) {
            Err(e) => return Err(e),
            Ok(i) => i,
        };
        if self.lapps[i].poisoned {
            return Err(ServerError::LappNotLock);
        }
        if self.lapps[i].in_call {
            return Err(ServerError::LappBusy(name.clone()));
        }
        let found = match &self.lapps[i].exports {
            Some(x) => names_contain(x, export),
            None => false,
        };
        if !found {
            return Err(ServerError::ExportNotFound(name.clone(), export.clone()));
        }
        let ghost before = self.lapps@;
        self.lapps[i].in_call = true;
        proof {
            lemma_entry_replaced(before, i as int, self.lapps@[i as int]);
            assert(self.lapps@ == before.update(i as int, self.lapps@[i as int]));
            assert(entry_view(self.lapps@[i as int]) == with_call_flags(
                entry_view(before[i as int]),
                true,
                false,
            ));
        }
        Ok(())
    }

    /// Ends the call in flight with what the module did: the unframed
    /// result, a malformed-result error, or a trap, which poisons the
    /// instance when it is unrecoverable.
    pub fn finish_invoke(&mut self, name: &String, outcome: CallOutcome) -> (r: Result<Vec<u8>, ServerError>)
        requires
            old(self).wf(),
        ensures
            final(self).wf(),
            finish_invoke_post(old(self)@, name@, outcome, r, final(self)@),
    {
        let i = match self.locate(name) {
            Err(e) => return Err(e),
            Ok(i) => i,
        };
        let ghost before = self.lapps@;
        let ghost was_poisoned = self.lapps@[i as int].poisoned;
        self.lapps[i].in_call = false;
        let r = match &outcome {
            CallOutcome::Returned(b) => decode_frame(b),
            CallOutcome::Trapped => Err(ServerError::TrapDuringExecution(name.clone())),
            CallOutcome::Poisoned => {
                self.lapps[i].poisoned = true;
                Err(ServerError::TrapDuringExecution(name.clone()))
            },
        };
        proof {
            lemma_entry_replaced(before, i as int, self.lapps@[i as int]);
            assert(self.lapps@ == before.update(i as int, self.lapps@[i as int]));
            assert(entry_view(self.lapps@[i as int]) == with_call_flags(
                entry_view(before[i as int]),
                false,
                self.lapps@[i as int].poisoned,
            ));
        }
        r
    }

    /// Opens the gossip subscription of a live lapp that declares peer
    /// messaging; a lapp without that permission is denied and gets none.
    pub fn gossip_start(&mut self, name: &String) -> (r: Result<(), ServerError>)
        requires
            old(self).wf(),
        ensures
            final(self).wf(),
            gossip_start_post(old(self)@, name@, r, final(self)@),
    {
        let i = match self.locate(name) {
            Err(e) => return Err(e),
            Ok(i) => i,
        };
        if let Err(e) = self.lapps[i].permissions.check(name, Permission::PeerMessaging) {
            return Err(e);
        }
        let ghost before = self.lapps@;
        self.lapps[i].subscribed = true;
        proof {
            lemma_entry_replaced(before, i as int, self.lapps@[i as int]);
            assert(self.lapps@ == before.update(i as int, self.lapps@[i as int]));
            assert(entry_view(self.lapps@[i as int]) == LappView {
                subscribed: true,
                ..entry_view(before[i as int])
            });
        }
        Ok(())
    }

    /// Closes the gossip subscription of a lapp.
    pub fn gossip_stop(&mut self, name: &String) -> (r: Result<(), ServerError>)
        requires
            old(self).wf(),
        ensures
            final(self).wf(),
            gossip_stop_post(old(self)@, name@, r, final(self)@),
    {
        match self.find(name) {
            None => Err(ServerError::LappNotFound(name.clone())),
            Some(i) => {
                if !self.lapps[i].subscribed {
                    return Err(ServerError::LappNotSubscribed(name.clone()));
                }
                let ghost before = self.lapps@;
                self.lapps[i].subscribed = false;
                proof {
                    lemma_entry_replaced(before, i as int, self.lapps@[i as int]);
                    assert(self.lapps@ == before.update(i as int, self.lapps@[i as int]));
                    assert(entry_view(self.lapps@[i as int]) == LappView {
                        subscribed: false,
                        ..entry_view(before[i as int])
                    });
                }
                Ok(())
            },
        }
    }

    /// Whether the lapp may publish a gossip message now: it is live,
    /// declares peer messaging and holds a subscription.
    pub fn may_publish(&self, name: &String) -> (r: Result<(), ServerError>)
        requires
            self.wf(),
        ensures
            publish_post(self@, name@, r),
    {
        let i = match self.locate(name) {
            Err(e) => return Err(e),
            Ok(i) => i,
        };
        if let Err(e) = self.lapps[i].permissions.check(name, Permission::PeerMessaging) {
            return Err(e);
        }
        if !self.lapps[i].subscribed {
            return Err(ServerError::LappNotSubscribed(name.clone()));
        }
        Ok(())
    }

    /// Hands an inbound gossip message to its lapp: starts one call of
    /// `p2p_handler` and returns the framed arguments for it.
    pub fn deliver(&mut self, name: &String, payload: &Vec<u8>) -> (r: Result<Vec<u8>, ServerError>)
        requires
            old(self).wf(),
            payload@.len() <= u32::MAX,
        ensures
            final(self).wf(),
            deliver_post(old(self)@, name@, payload@, r, final(self)@),
    {
        if let Ok(i) = self.locate(name) {
            if !self.lapps[i].subscribed {
                return Err(ServerError::LappNotSubscribed(name.clone()));
            }
        }
        let export = "p2p_handler".to_owned();
        match self.begin_invoke(name, &export) {
            Err(e) => Err(e),
            Ok(()) => Ok(encode_frame(payload.as_slice())),
        }
    }

    /// The host call by which a live lapp with the database permission
    /// stores a record.
    pub fn storage_put(&mut self, name: &String, key: u64, value: Vec<u8>) -> (r: Result<(), ServerError>)
        requires
            old(self).wf(),
        ensures
            final(self).wf(),
            storage_put_post(old(self)@, name@, key, value@, r, final(self)@),
    {
        let i = match self.locate(name) {
            Err(e) => return Err(e),
            Ok(i) => i,
        };
        if let Err(e) = self.lapps[i].permissions.check(name, Permission::Database) {
            return Err(e);
        }
        let ghost before = self.lapps@;
        let ghost v = value@;
        self.lapps[i].storage.put(key, value);
        proof {
            lemma_entry_replaced(before, i as int, self.lapps@[i as int]);
            assert(self.lapps@ == before.update(i as int, self.lapps@[i as int]));
            assert(entry_view(self.lapps@[i as int]) == LappView {
                storage: entry_view(before[i as int]).storage.insert(key, v),
                ..entry_view(before[i as int])
            });
        }
        Ok(())
    }

    /// The host call by which a live lapp with the database permission
    /// reads a record.
    pub fn storage_get(&self, name: &String, key: u64) -> (r: Result<Option<Vec<u8>>, ServerError>)
        requires
            self.wf(),
        ensures
            storage_get_post(self@, name@, key, r),
    {
        let i = match self.locate(name) {
            Err(e) => return Err(e),
            Ok(i) => i,
        };
        if let Err(e) = self.lapps[i].permissions.check(name, Permission::Database) {
            return Err(e);
        }
        Ok(self.lapps[i].storage.get(key))
    }

    /// The flags of a registered lapp.
    pub fn status(&self, name: &String) -> (r: Option<LappStatus>)
        requires
            self.wf(),
        ensures
            match r {
                None => !self@.contains_key(name@),
                Some(s) => {
                    &&& self@.contains_key(name@)
                    &&& s.enabled == self@[name@].enabled
                    &&& s.loaded == self@[name@].instance is Some
                    &&& s.subscribed == self@[name@].subscribed
                    &&& s.loaded ==> s.poisoned == self@[name@].instance->Some_0.poisoned
                        && s.in_call == self@[name@].instance->Some_0.in_call
                    &&& !s.loaded ==> !s.poisoned && !s.in_call
                },
            },
    {
        match self.find(name) {
            None => None,
            Some(i) => {
                let loaded = self.lapps[i].exports.is_some();
                Some(
                    LappStatus {
                        enabled: self.lapps[i].enabled,
                        loaded,
                        poisoned: loaded && self.lapps[i].poisoned,
                        in_call: loaded && self.lapps[i].in_call,
                        subscribed: self.lapps[i].subscribed,
                    },
                )
            },
        }
    }
}

} // verus!
