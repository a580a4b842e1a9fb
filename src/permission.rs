use vstd::prelude::*;
use vstd::string::StrSliceExecFns;

use crate::error::{is_denied, ServerError};

verus! {

/// A class of privileged host capability that a lapp may be granted.
#[derive(Clone, Copy, Debug, PartialEq, Eq, Structural)]
pub enum Permission {
    FileRead,
    FileWrite,
    ClientHttp,
    Database,
    PeerMessaging,
}

pub open spec fn permission_name(p: Permission) -> Seq<char> {
    match p {
        Permission::FileRead => "file_read"@,
        Permission::FileWrite => "file_write"@,
        Permission::ClientHttp => "client_http"@,
        Permission::Database => "database"@,
        Permission::PeerMessaging => "peer_messaging"@,
    }
}

impl Permission {
    /// The manifest name of the permission.
    pub fn as_str(&self) -> (r: &'static str)
        ensures
            r@ == permission_name(*self),
    {
        match self {
            Permission::FileRead => "file_read",
            Permission::FileWrite => "file_write",
            Permission::ClientHttp => "client_http",
            Permission::Database => "database",
            Permission::PeerMessaging => "peer_messaging",
        }
    }
}

/// Whether `a` and `b` hold the same characters.
pub fn same_text(a: &str, b: &str) -> (r: bool)
    ensures
        r == (a@ == b@),
{
    let n = a.unicode_len();
    if n != b.unicode_len() {
        return false;
    }
    let mut i: usize = 0;
    while i < n
        invariant
            n == a@.len(),
            n == b@.len(),
            i <= n,
            forall|j: int| 0 <= j < i ==> a@[j] == b@[j],
        decreases n - i,
    {
        if a.get_char(i) != b.get_char(i) {
            return false;
        }
        i = i + 1;
    }
    proof {
        assert(a@ =~= b@);
    }
    true
}

impl Permission {
    /// The permission whose manifest name is `s`, if any.
    pub fn from_name(s: &str) -> (r: Option<Permission>)
        ensures
            match r {
                Some(p) => permission_name(p) == s@,
                None => forall|p: Permission| permission_name(p) != s@,
            },
    {
        if same_text(s, "file_read") {
            Some(Permission::FileRead)
        } else if same_text(s, "file_write") {
            Some(Permission::FileWrite)
        } else if same_text(s, "client_http") {
            Some(Permission::ClientHttp)
        } else if same_text(s, "database") {
            Some(Permission::Database)
        } else if same_text(s, "peer_messaging") {
            Some(Permission::PeerMessaging)
        } else {
            None
        }
    }
}

/// The immutable set of capabilities declared by a lapp at install time.
pub struct PermissionSet {
    granted: Vec<Permission>,
}

impl View for PermissionSet {
    type V = Set<Permission>;

    closed spec fn view(&self) -> Set<Permission> {
        self.granted@.to_set()
    }
}

/// What a permission check on `granted` for `p` by lapp `lapp` returns.
pub open spec fn check_result(
    granted: Set<Permission>,
    lapp: Seq<char>,
    p: Permission,
    r: Result<(), ServerError>,
) -> bool {
    if granted.contains(p) {
        r is Ok
    } else {
        r is Err && is_denied(r->Err_0, lapp, p)
    }
}

impl PermissionSet {
    /// The set that grants nothing.
    pub fn empty() -> (r: PermissionSet)
        ensures
            r@ == Set::<Permission>::empty(),
    {
        let r = PermissionSet { granted: Vec::new() };
        proof {
            assert(r@ =~= Set::<Permission>::empty());
        }
        r
    }

    /// The set that grants exactly the listed permissions.
    pub fn new(granted: Vec<Permission>) -> (r: PermissionSet)
        ensures
            r@ == granted@.to_set(),
    {
        PermissionSet { granted }
    }

    /// Whether `p` is granted.
    pub fn contains(&self, p: Permission) -> (r: bool)
        ensures
            r == self@.contains(p),
    {
        let mut i: usize = 0;
        while i < self.granted.len()
            invariant
                i <= self.granted@.len(),
                forall|j: int| 0 <= j < i ==> self.granted@[j] != p,
            decreases self.granted@.len() - i,
        {
            if self.granted[i] == p {
                proof {
                    assert(self.granted@.to_set().contains(self.granted@[i as int]));
                }
                return true;
            }
            i = i + 1;
        }
        proof {
            if self.granted@.to_set().contains(p) {
                let k = choose|k: int| 0 <= k < self.granted@.len() && self.granted@[k] == p;
                assert(self.granted@[k] == p);
            }
        }
        false
    }

    /// The permission gate: `Ok` when `p` is granted, else a denial naming
    /// the lapp and the permission. It reads nothing but the set itself.
    pub fn check(&self, lapp: &String, p: Permission) -> (r: Result<(), ServerError>)
        ensures
            check_result(self@, lapp@, p, r),
    {
        if self.contains(p) {
            Ok(())
        } else {
            Err(ServerError::LappPermissionDenied(lapp.clone(), p))
        }
    }

    /// The set that a manifest declares by permission names; `None` when
    /// a name is not a permission.
    pub fn from_names(names: &Vec<String>) -> (r: Option<PermissionSet>)
        ensures
            match r {
                Some(set) => forall|p: Permission| #[trigger] set@.contains(p) <==> exists|i: int|
                    0 <= i < names@.len() && names@[i]@ == permission_name(p),
                None => exists|i: int| 0 <= i < names@.len() && forall|p: Permission|
                    permission_name(p) != #[trigger] names@[i]@,
            },
    {
        let mut granted: Vec<Permission> = Vec::new();
        let mut i: usize = 0;
        while i < names.len()
            invariant
                i <= names@.len(),
                granted@.len() == i,
                forall|j: int| 0 <= j < i ==> permission_name(#[trigger] granted@[j]) == names@[j]@,
            decreases names@.len() - i,
        {
            match Permission::from_name(names[i].as_str()) {
                Some(p) => granted.push(p),
                None => {
                    proof {
                        assert(forall|p: Permission| permission_name(p) != names@[i as int]@);
                    }
                    return None;
                },
            }
            i = i + 1;
        }
        let set = PermissionSet { granted };
        proof {
            assert forall|p: Permission| #[trigger] set@.contains(p) <==> exists|i: int|
                0 <= i < names@.len() && names@[i]@ == permission_name(p) by {
                if set@.contains(p) {
                    let k = choose|k: int| 0 <= k < set.granted@.len() && set.granted@[k] == p;
                    assert(permission_name(set.granted@[k]) == names@[k]@);
                }
                if exists|i: int| 0 <= i < names@.len() && names@[i]@ == permission_name(p) {
                    let k = choose|k: int| 0 <= k < names@.len() && names@[k]@ == permission_name(p);
                    let q = set.granted@[k];
                    assert(permission_name(q) == permission_name(p));
                    lemma_permission_name_injective(p, q);
                    assert(set.granted@.contains(q));
                }
            }
        }
        Some(set)
    }

    /// A copy of the set.
    pub fn duplicate(&self) -> (r: PermissionSet)
        ensures
            r@ == self@,
    {
        PermissionSet { granted: self.granted.clone() }
    }
}

proof fn lemma_permission_name_injective(p: Permission, q: Permission)
    requires
        permission_name(p) == permission_name(q),
    ensures
        p == q,
{
    reveal_strlit("file_read");
    reveal_strlit("file_write");
    reveal_strlit("client_http");
    reveal_strlit("database");
    reveal_strlit("peer_messaging");
    assert(permission_name(Permission::FileRead).len() == 9);
    assert(permission_name(Permission::FileWrite).len() == 10);
    assert(permission_name(Permission::ClientHttp).len() == 11);
    assert(permission_name(Permission::Database).len() == 8);
    assert(permission_name(Permission::PeerMessaging).len() == 14);
}

/// A denied capability stays denied: a check for a permission outside the
/// declared set is a denial, and two checks of the same set, lapp and
/// permission have the same outcome, since the outcome is a function of
/// those alone.
pub proof fn lemma_absent_permission_denied(
    granted: Set<Permission>,
    lapp: Seq<char>,
    p: Permission,
    r1: Result<(), ServerError>,
    r2: Result<(), ServerError>,
)
    requires
        !granted.contains(p),
        check_result(granted, lapp, p, r1),
        check_result(granted, lapp, p, r2),
    ensures
        r1 is Err && is_denied(r1->Err_0, lapp, p),
        r2 is Err && is_denied(r2->Err_0, lapp, p),
        (r1 is Ok) == (r2 is Ok),
{
}

} // verus!
