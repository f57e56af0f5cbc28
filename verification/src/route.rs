//! Bookkeeping of the system routes that this node adds.
//!
//! The route commands themselves (`ip route add/del` on Linux, `route
//! add/delete` on Windows) are run by the caller; the manager is told how
//! each one went and keeps the list of routes that stand, so that
//! [`RouteManager::cleanup`] can remove them all in reverse order.

use vstd::prelude::*;
use crate::text::{contains_str, join, join_strings, push_str, str_eq, string_from_chars, views};

verus! {

/// Why a route operation failed.
#[derive(Debug, Clone, PartialEq, Eq)]
pub enum RouteError {
    /// The command that adds the route failed.
    AddFailed { cidr: String, interface: String, cause: String },
    /// The command that deletes the route failed.
    DeleteFailed { cidr: String, interface: String, cause: String },
    /// Some deletions of a cleanup failed; one line for each.
    CleanupFailed(Vec<String>),
}

/// The routes that have been added and not deleted since.
pub struct RouteManager {
    /// Target segment of each route, in the order the routes were added.
    pub added_routes: Vec<String>,
    /// Interface (or gateway) of each route, index for index with
    /// `added_routes`.
    pub route_interfaces: Vec<String>,
}

/// The first index at which `rs` holds `key`.
pub open spec fn first_match(rs: Seq<(Seq<char>, Seq<char>)>, key: (Seq<char>, Seq<char>)) -> Option<
    int,
> {
    if exists|i: int| 0 <= i < rs.len() && rs[i] == key {
        Some(choose|i: int| 0 <= i < rs.len() && rs[i] == key && forall|j: int| 0 <= j < i ==> rs[j] != key)
    } else {
        None
    }
}

proof fn lemma_first_match(rs: Seq<(Seq<char>, Seq<char>)>, key: (Seq<char>, Seq<char>), i: int)
    requires
        0 <= i < rs.len(),
        rs[i] == key,
        forall|j: int| 0 <= j < i ==> rs[j] != key,
    ensures
        first_match(rs, key) == Some(i),
{
    assert(exists|k: int| 0 <= k < rs.len() && rs[k] == key && forall|j: int| 0 <= j < k ==> rs[j] != key);
    let k = choose|k: int| 0 <= k < rs.len() && rs[k] == key && forall|j: int| 0 <= j < k ==> rs[j] != key;
    if k < i {
        assert(rs[k] != key);
    } else if k > i {
        assert(rs[i] != key);
    }
}

/// A route that was not recorded, once added and then deleted, leaves the
/// recorded routes as they were: the deletion finds it at the end, where
/// the addition put it.
pub proof fn lemma_add_then_delete(rs: Seq<(Seq<char>, Seq<char>)>, key: (Seq<char>, Seq<char>))
    requires
        forall|j: int| 0 <= j < rs.len() ==> rs[j] != key,
    ensures
        first_match(rs.push(key), key) == Some(rs.len() as int),
        rs.push(key).remove(rs.len() as int) == rs,
{
    let added = rs.push(key);
    assert forall|j: int| 0 <= j < rs.len() implies added[j] != key by {
        assert(added[j] == rs[j]);
    }
    lemma_first_match(added, key, rs.len() as int);
    assert(added.remove(rs.len() as int) =~= rs);
}

/// The line that a failed deletion adds to a cleanup report:
/// `{cidr} via {interface}: {cause}`.
pub open spec fn cleanup_line(cidr: Seq<char>, interface: Seq<char>, cause: Seq<char>) -> Seq<char> {
    cidr + " via "@ + interface + ": "@ + cause
}

impl RouteManager {
    /// The two lists run side by side.
    pub open spec fn wf(&self) -> bool {
        self.added_routes@.len() == self.route_interfaces@.len()
    }

    /// The routes, as (target segment, interface) pairs.
    pub open spec fn routes(&self) -> Seq<(Seq<char>, Seq<char>)> {
        Seq::new(
            self.added_routes@.len(),
            |i: int| (self.added_routes@[i]@, self.route_interfaces@[i]@),
        )
    }

    /// A manager with no routes.
    pub fn new() -> (m: RouteManager)
        ensures
            m.wf(),
            m.added_routes@.len() == 0,
            m.route_interfaces@.len() == 0,
    {
        RouteManager { added_routes: Vec::new(), route_interfaces: Vec::new() }
    }

    /// Records the route `target_cidr` via `interface` once the command that
    /// adds it has run: on success the route is kept, on failure nothing
    /// changes and the failure is reported.
    pub fn add_route(&mut self, target_cidr: &str, interface: &str, outcome: Result<(), String>) -> (r:
        Result<(), RouteError>)
        requires
            old(self).wf(),
        ensures
            final(self).wf(),
            match outcome {
                Ok(_) => r is Ok && final(self).routes() == old(self).routes().push(
                    (target_cidr@, interface@),
                ),
                Err(cause) => {
                    &&& final(self).routes() == old(self).routes()
                    &&& r matches Err(RouteError::AddFailed { cidr: c, interface: i, cause: e })
                        && c@ == target_cidr@ && i@ == interface@ && e == cause
                },
            },
    {
        match outcome {
            Ok(_) => {
                self.added_routes.push(target_cidr.to_owned());
                self.route_interfaces.push(interface.to_owned());
                assert(self.routes() =~= old(self).routes().push((target_cidr@, interface@)));
                Ok(())
            },
            Err(cause) => {
                assert(self.routes() =~= old(self).routes());
                Err(
                    RouteError::AddFailed {
                        cidr: target_cidr.to_owned(),
                        interface: interface.to_owned(),
                        cause,
                    },
                )
            },
        }
    }

    /// Forgets the route `target_cidr` via `interface` once the command that
    /// deletes it has run: on success the first such route is dropped (if
    /// there is one), on failure nothing changes and the failure is reported.
    pub fn delete_route(&mut self, target_cidr: &str, interface: &str, outcome: Result<(), String>) -> (r:
        Result<(), RouteError>)
        requires
            old(self).wf(),
        ensures
            final(self).wf(),
            match outcome {
                Ok(_) => r is Ok && final(self).routes() == match first_match(
                    old(self).routes(),
                    (target_cidr@, interface@),
                ) {
                    Some(i) => old(self).routes().remove(i),
                    None => old(self).routes(),
                },
                Err(cause) => {
                    &&& final(self).routes() == old(self).routes()
                    &&& r matches Err(RouteError::DeleteFailed { cidr: c, interface: i, cause: e })
                        && c@ == target_cidr@ && i@ == interface@ && e == cause
                },
            },
    {
        match outcome {
            Ok(_) => {
                let ghost rs = self.routes();
                let ghost key = (target_cidr@, interface@);
                match self.find_route(target_cidr, interface) {
                    Some(i) => {
                        proof {
                            lemma_first_match(rs, key, i as int);
                        }
                        self.added_routes.remove(i);
                        self.route_interfaces.remove(i);
                        assert(self.routes() =~= rs.remove(i as int));
                    },
                    None => {},
                }
                Ok(())
            },
            Err(cause) => Err(
                RouteError::DeleteFailed {
                    cidr: target_cidr.to_owned(),
                    interface: interface.to_owned(),
                    cause,
                },
            ),
        }
    }

    /// The first index of the route `target_cidr` via `interface`.
    fn find_route(&self, target_cidr: &str, interface: &str) -> (r: Option<usize>)
        requires
            self.wf(),
        ensures
            match r {
                Some(i) => i < self.routes().len() && self.routes()[i as int] == (target_cidr@, interface@)
                    && forall|j: int| 0 <= j < i ==> self.routes()[j] != (target_cidr@, interface@),
                None => forall|j: int|
                    0 <= j < self.routes().len() ==> self.routes()[j] != (target_cidr@, interface@),
            },
    {
        let n = self.added_routes.len();
        let ghost rs = self.routes();
        let ghost key = (target_cidr@, interface@);
        let mut i: usize = 0;
        while i < n
            invariant
                n == self.added_routes@.len(),
                self.wf(),
                rs == self.routes(),
                key == (target_cidr@, interface@),
                i <= n,
                forall|j: int| 0 <= j < i ==> rs[j] != key,
            decreases n - i,
        {
            let same_cidr = str_eq(self.added_routes[i].as_str(), target_cidr);
            let same_iface = str_eq(self.route_interfaces[i].as_str(), interface);
            assert(rs[i as int] == (self.added_routes@[i as int]@, self.route_interfaces@[i as int]@));
            if same_cidr && same_iface {
                return Some(i);
            }
            i += 1;
        }
        None
    }

    /// The routes to delete at cleanup, latest first.
    pub fn pending_deletions(&self) -> (r: Vec<(String, String)>)
        requires
            self.wf(),
        ensures
            r@.len() == self.routes().len(),
            forall|k: int|
                0 <= k < r@.len() ==> (#[trigger] r@[k]).0@ == self.routes()[r@.len() - 1 - k].0
                    && r@[k].1@ == self.routes()[r@.len() - 1 - k].1,
    {
        let n = self.added_routes.len();
        let mut r: Vec<(String, String)> = Vec::new();
        let mut i: usize = n;
        while i > 0
            invariant
                n == self.added_routes@.len(),
                self.wf(),
                i <= n,
                r@.len() == n - i,
                forall|k: int|
                    0 <= k < r@.len() ==> (#[trigger] r@[k]).0@ == self.routes()[n - 1 - k].0
                        && r@[k].1@ == self.routes()[n - 1 - k].1,
            decreases i,
        {
            i -= 1;
            r.push((self.added_routes[i].clone(), self.route_interfaces[i].clone()));
        }
        r
    }

    /// Ends a cleanup: every route is forgotten, whatever became of its
    /// deletion; the cleanup fails where any deletion did, with one line for
    /// each failure.
    pub fn cleanup(&mut self, failures: Vec<String>) -> (r: Result<(), RouteError>)
        ensures
            final(self).wf(),
            final(self).routes().len() == 0,
            failures@.len() == 0 ==> r is Ok,
            failures@.len() > 0 ==> r == Err::<(), RouteError>(RouteError::CleanupFailed(failures)),
    {
        self.added_routes.clear();
        self.route_interfaces.clear();
        if failures.len() == 0 {
            Ok(())
        } else {
            Err(RouteError::CleanupFailed(failures))
        }
    }
}

impl Default for RouteManager {
    fn default() -> (m: RouteManager)
        ensures
            m.wf(),
            m.added_routes@.len() == 0,
            m.route_interfaces@.len() == 0,
    {
        RouteManager::new()
    }
}

/// The line for a failed deletion in a cleanup report.
pub fn cleanup_failure_line(cidr: &str, interface: &str, cause: &str) -> (s: String)
    ensures
        s@ == cleanup_line(cidr@, interface@, cause@),
{
    let mut v: Vec<char> = Vec::new();
    push_str(&mut v, cidr);
    push_str(&mut v, " via ");
    push_str(&mut v, interface);
    push_str(&mut v, ": ");
    push_str(&mut v, cause);
    assert(v@ =~= cleanup_line(cidr@, interface@, cause@));
    string_from_chars(v.as_slice())
}

/// Whether the error output of `ip route del` says that the route is not
/// there, which counts as success.
pub fn route_already_gone(stderr: &str) -> (r: bool)
    ensures
        r == (crate::text::contains_seq(stderr@, "No such process"@) || crate::text::contains_seq(
            stderr@,
            "cannot find device"@,
        )),
{
    let v = crate::text::chars_of(stderr);
    contains_str(v.as_slice(), "No such process") || contains_str(v.as_slice(), "cannot find device")
}

impl RouteError {
    /// The message of the error.
    pub fn message(&self) -> (s: String)
        ensures
            s@ == match self {
                RouteError::AddFailed { cidr, interface, cause } => "添加路由失败 (cidr="@ + cidr@
                    + ", interface="@ + interface@ + "): "@ + cause@,
                RouteError::DeleteFailed { cidr, interface, cause } => "删除路由失败 (cidr="@
                    + cidr@ + ", interface="@ + interface@ + "): "@ + cause@,
                RouteError::CleanupFailed(lines) => "部分路由清理失败: "@ + join(
                    views(lines@),
                    "; "@,
                ),
            },
    {
        let mut v: Vec<char> = Vec::new();
        match self {
            RouteError::AddFailed { cidr, interface, cause } => {
                push_str(&mut v, "添加路由失败 (cidr=");
                push_str(&mut v, cidr.as_str());
                push_str(&mut v, ", interface=");
                push_str(&mut v, interface.as_str());
                push_str(&mut v, "): ");
                push_str(&mut v, cause.as_str());
            },
            RouteError::DeleteFailed { cidr, interface, cause } => {
                push_str(&mut v, "删除路由失败 (cidr=");
                push_str(&mut v, cidr.as_str());
                push_str(&mut v, ", interface=");
                push_str(&mut v, interface.as_str());
                push_str(&mut v, "): ");
                push_str(&mut v, cause.as_str());
            },
            RouteError::CleanupFailed(lines) => {
                push_str(&mut v, "部分路由清理失败: ");
                let joined = join_strings(lines.as_slice(), "; ");
                push_str(&mut v, joined.as_str());
            },
        }
        string_from_chars(v.as_slice())
    }
}

} // verus!
