//! Roles and permissions: which permission ids a role gets when permissions are
//! assigned, which role changes are refused, how a user's roles change, and when a
//! user name is taken.
//!
//! Granting a menu permission also grants the API permissions filed under that menu.
use vstd::prelude::*;
use vstd::string::*;
use crate::text::str_eq;
use crate::error::ApiError;

verus! {

/// A permission as the assignment reads it: its id, its kind (`menu` or `api`) and the
/// menu it is filed under.
pub struct PermissionInfo {
    pub id: i64,
    pub kind: String,
    pub parent_id: Option<i64>,
}

/// The first permission with id `id` is a menu permission.
pub open spec fn is_menu(all: Seq<PermissionInfo>, id: i64) -> bool {
    exists|k: int|
        0 <= k < all.len() && (#[trigger] all[k]).id == id && all[k].kind@ == "menu"@ && forall|j: int|
            0 <= j < k ==> (#[trigger] all[j]).id != id
}

/// Permission `q` is an API permission with id `x` filed under menu `m`.
pub open spec fn api_at(all: Seq<PermissionInfo>, q: int, m: i64, x: i64) -> bool {
    0 <= q < all.len() && all[q].kind@ == "api"@ && all[q].parent_id == Some(m) && all[q].id == x
}

/// `x` is the id of an API permission filed under menu `m`.
pub open spec fn api_under(all: Seq<PermissionInfo>, m: i64, x: i64) -> bool {
    exists|q: int| #[trigger] api_at(all, q, m, x)
}

/// `x` is an API permission under one of the menu permissions `ms`.
pub open spec fn via_menus(all: Seq<PermissionInfo>, ms: Seq<i64>, x: i64) -> bool {
    exists|m: i64| #[trigger] ms.contains(m) && is_menu(all, m) && api_under(all, m, x)
}

/// `x` is granted: it was asked for, or it is an API permission under a menu
/// permission that was asked for.
pub open spec fn granted(all: Seq<PermissionInfo>, req: Seq<i64>, x: i64) -> bool {
    req.contains(x) || via_menus(all, req, x)
}

proof fn lemma_push_contains(s: Seq<i64>, a: i64)
    ensures
        forall|x: i64| #[trigger] s.push(a).contains(x) <==> (s.contains(x) || x == a),
{
    assert forall|x: i64| #[trigger] s.push(a).contains(x) <==> (s.contains(x) || x == a) by {
        if s.push(a).contains(x) {
            let w = choose|w: int| 0 <= w < s.push(a).len() && s.push(a)[w] == x;
            if w < s.len() {
                assert(s[w] == x);
            }
        }
        if s.contains(x) {
            let w = choose|w: int| 0 <= w < s.len() && s[w] == x;
            assert(s.push(a)[w] == x);
        }
        if x == a {
            assert(s.push(a)[s.len() as int] == a);
        }
    }
}

proof fn lemma_via_menus_push(all: Seq<PermissionInfo>, ms: Seq<i64>, m: i64)
    ensures
        forall|x: i64| #[trigger] via_menus(all, ms.push(m), x) <==> (via_menus(all, ms, x) || (is_menu(all, m)
            && api_under(all, m, x))),
{
    lemma_push_contains(ms, m);
    assert forall|x: i64| #[trigger] via_menus(all, ms.push(m), x) <==> (via_menus(all, ms, x) || (is_menu(all, m)
        && api_under(all, m, x))) by {
        if via_menus(all, ms.push(m), x) {
            let mm = choose|mm: i64| #[trigger] ms.push(m).contains(mm) && is_menu(all, mm) && api_under(all, mm, x);
            if mm != m {
                assert(ms.contains(mm));
            }
        }
        if via_menus(all, ms, x) {
            let mm = choose|mm: i64| #[trigger] ms.contains(mm) && is_menu(all, mm) && api_under(all, mm, x);
            assert(ms.push(m).contains(mm));
        }
        if is_menu(all, m) && api_under(all, m, x) {
            assert(ms.push(m).contains(m));
        }
    }
}

/// Strictly increasing.
pub open spec fn strictly_sorted(s: Seq<i64>) -> bool {
    forall|i: int, j: int| 0 <= i < j < s.len() ==> s[i] < s[j]
}

/// Whether the first permission with id `id` is a menu permission.
fn first_is_menu(all: &[PermissionInfo], id: i64) -> (b: bool)
    ensures
        b == is_menu(all@, id),
{
    let mut k: usize = 0;
    while k < all.len()
        invariant
            k <= all.len(),
            forall|j: int| 0 <= j < k ==> (#[trigger] all@[j]).id != id,
        decreases all.len() - k,
    {
        if all[k].id == id {
            let m = str_eq(all[k].kind.as_str(), "menu");
            proof {
                if !m {
                    assert forall|q: int|
                        0 <= q < all@.len() && (#[trigger] all@[q]).id == id && all@[q].kind@ == "menu"@
                            implies !(forall|j: int| 0 <= j < q ==> (#[trigger] all@[j]).id != id) by {
                        if q > k {
                            assert(all@[k as int].id == id);
                        }
                    }
                }
            }
            return m;
        }
        k = k + 1;
    }
    false
}

/// The ids asked for followed by the API permissions under each menu asked for.
fn extended_ids(all: &[PermissionInfo], req: &[i64]) -> (v: Vec<i64>)
    ensures
        forall|x: i64| v@.contains(x) <==> granted(all@, req@, x),
{
    let mut v: Vec<i64> = Vec::new();
    let mut i: usize = 0;
    while i < req.len()
        invariant
            i <= req.len(),
            forall|x: i64| #[trigger] v@.contains(x) <==> req@.take(i as int).contains(x),
        decreases req.len() - i,
    {
        proof {
            assert(req@.take(i + 1) =~= req@.take(i as int).push(req@[i as int]));
            lemma_push_contains(req@.take(i as int), req@[i as int]);
            lemma_push_contains(v@, req@[i as int]);
        }
        v.push(req[i]);
        i = i + 1;
    }
    assert(req@.take(req@.len() as int) =~= req@);
    let ghost base = v@;
    let mut i: usize = 0;
    assert(req@.take(0) =~= Seq::<i64>::empty());
    while i < req.len()
        invariant
            i <= req.len(),
            forall|x: i64| #[trigger] base.contains(x) <==> req@.contains(x),
            forall|x: i64| #[trigger] v@.contains(x) <==> (base.contains(x) || via_menus(all@, req@.take(i as int), x)),
        decreases req.len() - i,
    {
        let m = req[i];
        let ghost before = v@;
        if first_is_menu(all, m) {
            let mut k: usize = 0;
            while k < all.len()
                invariant
                    k <= all.len(),
                    forall|x: i64| #[trigger] v@.contains(x) <==> (before.contains(x) || exists|q: int|
                        0 <= q < k && #[trigger] api_at(all@, q, m, x)),
                decreases all.len() - k,
            {
                let p = &all[k];
                let is_api = str_eq(p.kind.as_str(), "api");
                let ghost prev = v@;
                proof {
                    lemma_push_contains(prev, p.id);
                }
                if is_api && p.parent_id == Some(m) {
                    v.push(p.id);
                }
                proof {
                    assert forall|x: i64| #[trigger] v@.contains(x) <==> (before.contains(x) || exists|q: int|
                        0 <= q < k + 1 && #[trigger] api_at(all@, q, m, x)) by {
                        if exists|q: int| 0 <= q < k + 1 && #[trigger] api_at(all@, q, m, x) {
                            let q = choose|q: int| 0 <= q < k + 1 && #[trigger] api_at(all@, q, m, x);
                            if q == k {
                                assert(v@.contains(x));
                            } else {
                                assert(prev.contains(x));
                            }
                        }
                        if v@.contains(x) && !prev.contains(x) {
                            assert(api_at(all@, k as int, m, x));
                        }
                    }
                }
                k = k + 1;
            }
            proof {
                assert forall|x: i64| #[trigger] v@.contains(x) <==> (before.contains(x) || (is_menu(all@, m)
                    && api_under(all@, m, x))) by {
                    if api_under(all@, m, x) {
                        let q = choose|q: int| #[trigger] api_at(all@, q, m, x);
                        assert(0 <= q < all@.len());
                    }
                }
            }
        }
        proof {
            let t0 = req@.take(i as int);
            assert(req@.take(i + 1) =~= t0.push(m));
            lemma_via_menus_push(all@, t0, m);
        }
        i = i + 1;
    }
    assert(req@.take(req@.len() as int) =~= req@);
    v
}

/// The ids in increasing order, each once.
pub fn sort_unique(v: &Vec<i64>) -> (r: Vec<i64>)
    ensures
        strictly_sorted(r@),
        forall|x: i64| r@.contains(x) <==> v@.contains(x),
{
    let mut r: Vec<i64> = Vec::new();
    let mut i: usize = 0;
    while i < v.len()
        invariant
            i <= v.len(),
            strictly_sorted(r@),
            forall|x: i64| #[trigger] r@.contains(x) <==> v@.take(i as int).contains(x),
        decreases v.len() - i,
    {
        let x = v[i];
        proof {
            assert(v@.take(i + 1) =~= v@.take(i as int).push(x));
            lemma_push_contains(v@.take(i as int), x);
        }
        let mut p: usize = 0;
        while p < r.len() && r[p] < x
            invariant
                p <= r.len(),
                forall|k: int| 0 <= k < p ==> r@[k] < x,
            decreases r.len() - p,
        {
            p = p + 1;
        }
        let ghost r0 = r@;
        if p < r.len() && r[p] == x {
            assert forall|y: i64| #[trigger] r@.contains(y) <==> v@.take(i + 1).contains(y) by {
                if y == x {
                    assert(r@[p as int] == x);
                }
                assert(v@.take(i as int).push(x).contains(y) <==> (v@.take(i as int).contains(y) || y == x));
                assert(v@.take(i + 1) == v@.take(i as int).push(x));
            }
        } else {
            let ghost old_r = r@;
            r.insert(p, x);
            assert(r@ == old_r.insert(p as int, x));
            assert forall|a: int, b: int| 0 <= a < b < r@.len() implies r@[a] < r@[b] by {
                if b < p {
                } else if b == p {
                } else if a < p {
                    assert(r@[b] == old_r[b - 1]);
                } else if a == p {
                    assert(r@[b] == old_r[b - 1]);
                    assert(old_r[p as int] > x);
                    assert(old_r[p as int] <= old_r[b - 1]);
                } else {
                    assert(r@[a] == old_r[a - 1]);
                    assert(r@[b] == old_r[b - 1]);
                }
            }
            assert forall|y: i64| r@.contains(y) <==> (old_r.contains(y) || y == x) by {
                if r@.contains(y) {
                    let w = choose|w: int| 0 <= w < r@.len() && r@[w] == y;
                    if w < p {
                        assert(old_r[w] == y);
                    } else if w > p {
                        assert(old_r[w - 1] == y);
                    }
                }
                if old_r.contains(y) {
                    let w = choose|w: int| 0 <= w < old_r.len() && old_r[w] == y;
                    if w < p {
                        assert(r@[w] == y);
                    } else {
                        assert(r@[w + 1] == y);
                    }
                }
                if y == x {
                    assert(r@[p as int] == x);
                }
            }
            assert forall|y: i64| #[trigger] r@.contains(y) <==> v@.take(i + 1).contains(y) by {
                assert(old_r == r0);
                assert(r0.contains(y) <==> v@.take(i as int).contains(y));
                assert(v@.take(i as int).push(x).contains(y) <==> (v@.take(i as int).contains(y) || y == x));
                assert(v@.take(i + 1) == v@.take(i as int).push(x));
            }
        }
        i = i + 1;
    }
    assert(v@.take(v@.len() as int) =~= v@);
    r
}

/// The permission ids a role ends up with when `requested` is assigned: the ids asked
/// for and the API permissions under each menu permission asked for, in increasing
/// order, each once.
pub fn permissions_to_assign(all: &[PermissionInfo], requested: &[i64]) -> (r: Vec<i64>)
    ensures
        strictly_sorted(r@),
        forall|x: i64| r@.contains(x) <==> granted(all@, requested@, x),
{
    let v = extended_ids(all, requested);
    sort_unique(&v)
}

/// Why a role change is refused.
#[derive(Clone, Copy, Debug, PartialEq, Eq, Structural)]
pub enum RoleChangeError {
    /// A system role's name cannot change.
    SystemRoleName,
    /// A system role cannot be deleted.
    DeleteSystemRole,
}

impl RoleChangeError {
    /// The message answered.
    pub fn message(&self) -> (s: &'static str)
        ensures
            s@ == match self {
                RoleChangeError::SystemRoleName => "Cannot modify system role name"@,
                RoleChangeError::DeleteSystemRole => "Cannot delete system role"@,
            },
    {
        match self {
            RoleChangeError::SystemRoleName => "Cannot modify system role name",
            RoleChangeError::DeleteSystemRole => "Cannot delete system role",
        }
    }
}

/// How a role update is carried out.
#[derive(Clone, Copy, Debug, PartialEq, Eq, Structural)]
pub enum RoleUpdate {
    /// Nothing to change: the role is read back as it is.
    Unchanged,
    /// The name and the description change.
    NameAndDescription,
    /// Only the name changes.
    NameOnly,
    /// Only the description changes.
    DescriptionOnly,
}

/// Decide a role update: a system role's name cannot change; otherwise the fields
/// given are written.
pub fn plan_role_update(is_system: bool, has_name: bool, has_description: bool) -> (r: Result<
    RoleUpdate,
    RoleChangeError,
>)
    ensures
        is_system && has_name ==> r == Err::<RoleUpdate, RoleChangeError>(RoleChangeError::SystemRoleName),
        !(is_system && has_name) ==> r == Ok::<RoleUpdate, RoleChangeError>(
            if has_name && has_description {
                RoleUpdate::NameAndDescription
            } else if has_name {
                RoleUpdate::NameOnly
            } else if has_description {
                RoleUpdate::DescriptionOnly
            } else {
                RoleUpdate::Unchanged
            },
        ),
{
    if is_system && has_name {
        return Err(RoleChangeError::SystemRoleName);
    }
    if has_name && has_description {
        Ok(RoleUpdate::NameAndDescription)
    } else if has_name {
        Ok(RoleUpdate::NameOnly)
    } else if has_description {
        Ok(RoleUpdate::DescriptionOnly)
    } else {
        Ok(RoleUpdate::Unchanged)
    }
}

/// Decide a role deletion: system roles stay.
pub fn check_role_deletion(is_system: bool) -> (r: Result<(), RoleChangeError>)
    ensures
        r == (if is_system {
            Err::<(), RoleChangeError>(RoleChangeError::DeleteSystemRole)
        } else {
            Ok::<(), RoleChangeError>(())
        }),
{
    if is_system {
        Err(RoleChangeError::DeleteSystemRole)
    } else {
        Ok(())
    }
}

/// Law of permission assignment: every id asked for is granted, and when permission
/// ids are unique, assigning the granted ids again grants exactly the same ids.
pub proof fn lemma_assignment_laws(all: Seq<PermissionInfo>, req: Seq<i64>, granted_ids: Seq<i64>, x: i64)
    requires
        forall|i: int, j: int| 0 <= i < all.len() && 0 <= j < all.len() && (#[trigger] all[i]).id == (#[trigger] all[j]).id ==> i == j,
        forall|y: i64| #[trigger] granted_ids.contains(y) <==> granted(all, req, y),
    ensures
        req.contains(x) ==> granted(all, req, x),
        granted(all, granted_ids, x) <==> granted_ids.contains(x),
{
    if granted(all, granted_ids, x) && !granted_ids.contains(x) {
        let m = choose|m: i64| #[trigger] granted_ids.contains(m) && is_menu(all, m) && api_under(all, m, x);
        assert(granted(all, req, m));
        if req.contains(m) {
            assert(granted(all, req, x));
        } else {
            let m2 = choose|m2: i64| #[trigger] req.contains(m2) && is_menu(all, m2) && api_under(all, m2, m);
            let k = choose|k: int|
                0 <= k < all.len() && (#[trigger] all[k]).kind@ == "api"@ && all[k].parent_id == Some(m2) && all[k].id == m;
            let k2 = choose|k2: int|
                0 <= k2 < all.len() && (#[trigger] all[k2]).id == m && all[k2].kind@ == "menu"@ && forall|j: int|
                    0 <= j < k2 ==> (#[trigger] all[j]).id != m;
            assert(k == k2);
            reveal_strlit("api");
            reveal_strlit("menu");
            assert("api"@[0] != "menu"@[0]);
        }
    }
}


/// Whether `x` is one of `s`.
fn has_id(s: &[i64], x: i64) -> (b: bool)
    ensures
        b == s@.contains(x),
{
    let mut i: usize = 0;
    while i < s.len()
        invariant
            i <= s.len(),
            forall|k: int| 0 <= k < i ==> s@[k] != x,
        decreases s.len() - i,
    {
        if s[i] == x {
            assert(s@[i as int] == x);
            return true;
        }
        i = i + 1;
    }
    false
}

/// The ids of `a` that are not in `b`, in increasing order, each once.
fn ids_not_in(a: &[i64], b: &[i64]) -> (r: Vec<i64>)
    ensures
        strictly_sorted(r@),
        forall|x: i64| #[trigger] r@.contains(x) <==> (a@.contains(x) && !b@.contains(x)),
{
    let mut v: Vec<i64> = Vec::new();
    let mut i: usize = 0;
    while i < a.len()
        invariant
            i <= a.len(),
            forall|x: i64| #[trigger] v@.contains(x) <==> (a@.take(i as int).contains(x) && !b@.contains(x)),
        decreases a.len() - i,
    {
        let x = a[i];
        proof {
            assert(a@.take(i + 1) =~= a@.take(i as int).push(x));
            lemma_push_contains(a@.take(i as int), x);
            lemma_push_contains(v@, x);
        }
        if !has_id(b, x) {
            v.push(x);
        }
        i = i + 1;
    }
    assert(a@.take(a@.len() as int) =~= a@);
    sort_unique(&v)
}

/// How a user's roles change: the roles to add and the roles to remove, each in
/// increasing order and once; a role asked for and already held is left alone.
pub fn role_changes(requested: &[i64], current: &[i64]) -> (r: (Vec<i64>, Vec<i64>))
    ensures
        strictly_sorted(r.0@),
        strictly_sorted(r.1@),
        forall|x: i64| #[trigger] r.0@.contains(x) <==> (requested@.contains(x) && !current@.contains(x)),
        forall|x: i64| #[trigger] r.1@.contains(x) <==> (current@.contains(x) && !requested@.contains(x)),
{
    (ids_not_in(requested, current), ids_not_in(current, requested))
}

/// Check that a user name is free: taken when some user has it, unless that user is
/// the one being renamed.
pub fn check_username_available(existing: Option<i64>, current_user: Option<i64>) -> (r: Result<(), ApiError>)
    ensures
        match existing {
            Some(id) => if current_user == Some(id) {
                r is Ok
            } else {
                r matches Err(ApiError::ValidationError(m)) && m@ == "Username already exists"@
            },
            None => r is Ok,
        },
{
    match existing {
        Some(id) => {
            let same = match current_user {
                Some(uid) => uid == id,
                None => false,
            };
            if same {
                Ok(())
            } else {
                Err(ApiError::validation_error(String::from_str("Username already exists")))
            }
        },
        None => Ok(()),
    }
}

/// Check that a role code is free before a role is created: refused when a role
/// (`existing`, its id) already has the code.
pub fn check_role_code_available(existing: Option<i64>) -> (r: Result<(), ApiError>)
    ensures
        match existing {
            Some(_) => r matches Err(ApiError::ValidationError(m)) && m@ == "Role code already exists"@,
            None => r is Ok,
        },
{
    match existing {
        Some(_) => Err(ApiError::validation_error(String::from_str("Role code already exists"))),
        None => Ok(()),
    }
}

/// `x` is an API permission filed under some permission of kind `menu` whose id was
/// asked for.
pub open spec fn under_requested_menu(all: Seq<PermissionInfo>, req: Seq<i64>, x: i64) -> bool {
    exists|k: int, q: int|
        0 <= k < all.len() && req.contains(#[trigger] all[k].id) && all[k].kind@ == "menu"@ && #[trigger] api_at(
            all,
            q,
            all[k].id,
            x,
        )
}

/// Law of permission assignment over a permission table keyed by id: the ids
/// granted are exactly those asked for together with the API permissions filed under
/// a menu permission asked for.
pub proof fn lemma_granted_with_unique_ids(all: Seq<PermissionInfo>, req: Seq<i64>, x: i64)
    requires
        forall|i: int, j: int| 0 <= i < all.len() && 0 <= j < all.len() && (#[trigger] all[i]).id == (#[trigger] all[j]).id ==> i == j,
    ensures
        granted(all, req, x) <==> (req.contains(x) || under_requested_menu(all, req, x)),
{
    if via_menus(all, req, x) {
        let m = choose|m: i64| #[trigger] req.contains(m) && is_menu(all, m) && api_under(all, m, x);
        let k = choose|k: int|
            0 <= k < all.len() && (#[trigger] all[k]).id == m && all[k].kind@ == "menu"@ && forall|j: int|
                0 <= j < k ==> (#[trigger] all[j]).id != m;
        let q = choose|q: int| #[trigger] api_at(all, q, m, x);
        assert(req.contains(all[k].id) && api_at(all, q, all[k].id, x));
    }
    if under_requested_menu(all, req, x) {
        let (k, q) = choose|k: int, q: int|
            0 <= k < all.len() && req.contains(#[trigger] all[k].id) && all[k].kind@ == "menu"@ && #[trigger] api_at(
                all,
                q,
                all[k].id,
                x,
            );
        let m = all[k].id;
        assert forall|j: int| 0 <= j < k implies (#[trigger] all[j]).id != m by {
            if all[j].id == m {
                assert(j == k);
            }
        }
        assert(is_menu(all, m));
        assert(api_under(all, m, x));
        assert(req.contains(m) && is_menu(all, m) && api_under(all, m, x));
    }
}

/// Law of role changes: applying them to the current roles yields exactly the roles
/// asked for.
pub proof fn lemma_role_changes_apply(requested: Seq<i64>, current: Seq<i64>, add: Seq<i64>, remove: Seq<i64>, x: i64)
    requires
        forall|y: i64| #[trigger] add.contains(y) <==> (requested.contains(y) && !current.contains(y)),
        forall|y: i64| #[trigger] remove.contains(y) <==> (current.contains(y) && !requested.contains(y)),
    ensures
        ((current.contains(x) && !remove.contains(x)) || add.contains(x)) <==> requested.contains(x),
{
}

} // verus!
