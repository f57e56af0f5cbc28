//! Which routes the server hands to a node.
//!
//! - An operator may reach every active segment.
//! - The server itself needs no routes.
//! - A client without a stored policy may reach nothing; with one, it gets
//!   what its access mode says: every active segment, the listed ones, or
//!   none.

use vstd::prelude::*;
use crate::models::{AccessMode, NodeRole, RouteEntry};
use crate::text::str_eq;

verus! {

/// A node's stored policy, as the database holds it: the access mode's
/// name and the JSON list of allowed segment ids.
#[derive(Debug, Clone)]
pub struct StoredPolicy {
    pub access_mode: String,
    pub allowed_segments: String,
}

/// An active segment, with the name of the node that owns it (empty where
/// the node is gone).
#[derive(Debug, Clone)]
pub struct ActiveSegment {
    pub id: String,
    pub name: String,
    pub mapped_cidr: String,
    pub node_id: String,
    pub real_cidr: String,
    pub node_name: String,
}

/// Which active segments a node gets routes to.
#[derive(Debug, Clone)]
pub enum RouteFilter {
    /// Every one.
    All,
    /// Those whose id is listed.
    Only(Vec<String>),
    /// None.
    Nothing,
}

/// The list of strings that the JSON text `s` holds, where it holds one.
pub uninterp spec fn json_string_list(s: Seq<char>) -> Option<Seq<Seq<char>>>;

/// `serde_json::from_str::<Vec<String>>`: the list of strings that `s`
/// holds as JSON. The contract only names the result as a function of the
/// text; what JSON it accepts is not restated here.
#[verifier::external_body]
pub(crate) fn parse_json_string_list(s: &str) -> (r: Option<Vec<String>>)
    ensures
        r.deep_view() == json_string_list(s@),
{
    serde_json::from_str::<Vec<String>>(s).ok()
}

/// The ids a filter admits: `None` for all of them.
pub open spec fn filter_view(f: RouteFilter) -> Option<Seq<Seq<char>>> {
    match f {
        RouteFilter::All => None,
        RouteFilter::Only(ids) => Some(ids.deep_view()),
        RouteFilter::Nothing => Some(Seq::empty()),
    }
}

/// Whether `allow` (`None` for all) admits the id.
pub open spec fn admits(allow: Option<Seq<Seq<char>>>, id: Seq<char>) -> bool {
    match allow {
        None => true,
        Some(ids) => ids.contains(id),
    }
}

/// The allowed ids of a stored policy: the JSON list, or none where the
/// text is not a JSON list of strings.
pub open spec fn allowed_ids(p: StoredPolicy) -> Seq<Seq<char>> {
    match json_string_list(p.allowed_segments@) {
        Some(l) => l,
        None => Seq::empty(),
    }
}

/// The access mode of a node and the ids of the segments it gets routes to
/// (`None` for all).
pub open spec fn spec_access_plan(role: NodeRole, policy: Option<StoredPolicy>) -> (AccessMode, Option<Seq<Seq<char>>>) {
    match role {
        NodeRole::Operator => (AccessMode::AllowedAll, None),
        NodeRole::Server => (AccessMode::AllowedAll, Some(Seq::empty())),
        NodeRole::Client => match policy {
            None => (AccessMode::Denied, Some(Seq::empty())),
            Some(p) => {
                let mode = AccessMode::from_name(p.access_mode@);
                match mode {
                    AccessMode::AllowedAll => (mode, None),
                    AccessMode::AllowedSegments => (mode, Some(allowed_ids(p))),
                    AccessMode::Denied => (mode, Some(Seq::empty())),
                }
            },
        },
    }
}

/// The access mode of a node of role `role` with stored policy `policy`,
/// and which active segments it gets routes to.
pub fn access_plan(role: NodeRole, policy: Option<StoredPolicy>) -> (r: (AccessMode, RouteFilter))
    ensures
        r.0 == spec_access_plan(role, policy).0,
        filter_view(r.1) == spec_access_plan(role, policy).1,
{
    match role {
        NodeRole::Operator => (AccessMode::AllowedAll, RouteFilter::All),
        NodeRole::Server => (AccessMode::AllowedAll, RouteFilter::Nothing),
        NodeRole::Client => match policy {
            None => (AccessMode::Denied, RouteFilter::Nothing),
            Some(p) => {
                let mode = AccessMode::from_db_str(p.access_mode.as_str());
                let ids = match parse_json_string_list(p.allowed_segments.as_str()) {
                    Some(v) => v,
                    None => Vec::new(),
                };
                assert(ids.deep_view() =~= allowed_ids(p));
                match mode {
                    AccessMode::AllowedAll => (mode, RouteFilter::All),
                    AccessMode::AllowedSegments => (mode, RouteFilter::Only(ids)),
                    AccessMode::Denied => (mode, RouteFilter::Nothing),
                }
            },
        },
    }
}

/// The segments of `rows` whose id `allow` admits, in order.
pub open spec fn selected(rows: Seq<ActiveSegment>, allow: Option<Seq<Seq<char>>>) -> Seq<ActiveSegment>
    decreases rows.len(),
{
    if rows.len() == 0 {
        Seq::empty()
    } else {
        let prev = selected(rows.drop_last(), allow);
        if admits(allow, rows.last().id@) {
            prev.push(rows.last())
        } else {
            prev
        }
    }
}

/// The route entry of a segment, by views.
pub open spec fn route_matches(e: RouteEntry, s: ActiveSegment) -> bool {
    &&& e.mapped_cidr@ == s.mapped_cidr@
    &&& e.target_node_id@ == s.node_id@
    &&& e.target_node_name@ == s.node_name@
    &&& e.real_cidr@ == s.real_cidr@
    &&& e.segment_name@ == s.name@
}

fn contains_id(ids: &Vec<String>, id: &str) -> (r: bool)
    ensures
        r == ids.deep_view().contains(id@),
{
    let n = ids.len();
    let mut k: usize = 0;
    while k < n
        invariant
            n == ids@.len(),
            k <= n,
            forall|j: int| 0 <= j < k ==> (#[trigger] ids@[j])@ != id@,
        decreases n - k,
    {
        if str_eq(ids[k].as_str(), id) {
            assert(ids.deep_view()[k as int] == id@);
            return true;
        }
        k += 1;
    }
    assert forall|j: int| 0 <= j < ids.deep_view().len() implies ids.deep_view()[j] != id@ by {
        assert(ids.deep_view()[j] == ids@[j]@);
    }
    false
}

fn filter_admits(filter: &RouteFilter, id: &str) -> (r: bool)
    ensures
        r == admits(filter_view(*filter), id@),
{
    match filter {
        RouteFilter::All => true,
        RouteFilter::Nothing => false,
        RouteFilter::Only(ids) => contains_id(ids, id),
    }
}

/// The routes to the active segments that the filter admits, in the order
/// of `rows`.
pub fn select_routes(rows: &[ActiveSegment], filter: &RouteFilter) -> (r: Vec<RouteEntry>)
    ensures
        r@.len() == selected(rows@, filter_view(*filter)).len(),
        forall|k: int|
            0 <= k < r@.len() ==> route_matches(#[trigger] r@[k], selected(rows@, filter_view(*filter))[k]),
        forall|k: int|
            0 <= k < r@.len() ==> {
                let s = selected(rows@, filter_view(*filter))[k];
                &&& (#[trigger] r@[k]).mapped_cidr@ == s.mapped_cidr@
                &&& r@[k].real_cidr@ == s.real_cidr@
                &&& r@[k].target_node_id@ == s.node_id@
                &&& r@[k].target_node_name@ == s.node_name@
                &&& r@[k].segment_name@ == s.name@
            },
{
    let n = rows.len();
    let ghost allow = filter_view(*filter);
    let mut out: Vec<RouteEntry> = Vec::new();
    let mut i: usize = 0;
    while i < n
        invariant
            n == rows@.len(),
            allow == filter_view(*filter),
            i <= n,
            out@.len() == selected(rows@.subrange(0, i as int), allow).len(),
            forall|k: int|
                0 <= k < out@.len() ==> route_matches(
                    #[trigger] out@[k],
                    selected(rows@.subrange(0, i as int), allow)[k],
                ),
        decreases n - i,
    {
        proof {
            assert(rows@.subrange(0, i + 1).drop_last() =~= rows@.subrange(0, i as int));
        }
        let row = &rows[i];
        if filter_admits(filter, row.id.as_str()) {
            out.push(
                RouteEntry {
                    mapped_cidr: row.mapped_cidr.clone(),
                    target_node_id: row.node_id.clone(),
                    target_node_name: row.node_name.clone(),
                    real_cidr: row.real_cidr.clone(),
                    segment_name: row.name.clone(),
                },
            );
        }
        i += 1;
    }
    assert(rows@.subrange(0, n as int) =~= rows@);
    out
}

/// The access mode of a node and its routes among the active segments
/// `active` (listed in the order the routes are to come in).
pub fn routes_for_node(role: NodeRole, policy: Option<StoredPolicy>, active: &[ActiveSegment]) -> (r: (
    AccessMode,
    Vec<RouteEntry>,
))
    ensures
        r.0 == spec_access_plan(role, policy).0,
        r.1@.len() == selected(active@, spec_access_plan(role, policy).1).len(),
        forall|k: int|
            0 <= k < r.1@.len() ==> route_matches(
                #[trigger] r.1@[k],
                selected(active@, spec_access_plan(role, policy).1)[k],
            ),
        forall|k: int|
            0 <= k < r.1@.len() ==> {
                let s = selected(active@, spec_access_plan(role, policy).1)[k];
                &&& (#[trigger] r.1@[k]).mapped_cidr@ == s.mapped_cidr@
                &&& r.1@[k].real_cidr@ == s.real_cidr@
                &&& r.1@[k].target_node_id@ == s.node_id@
                &&& r.1@[k].target_node_name@ == s.node_name@
                &&& r.1@[k].segment_name@ == s.name@
            },
{
    let (mode, filter) = access_plan(role, policy);
    let routes = select_routes(active, &filter);
    (mode, routes)
}

/// A route made from a segment carries that segment's own fields: its
/// mapped segment, its real segment, the node that owns it and that node's
/// name, and the segment's name.
pub proof fn lemma_route_carries_segment(e: RouteEntry, s: ActiveSegment)
    requires
        route_matches(e, s),
    ensures
        e.mapped_cidr@ == s.mapped_cidr@,
        e.real_cidr@ == s.real_cidr@,
        e.target_node_id@ == s.node_id@,
        e.target_node_name@ == s.node_name@,
        e.segment_name@ == s.name@,
{
}

/// The segments selected are exactly the rows whose id is admitted.
pub proof fn lemma_selected_members(rows: Seq<ActiveSegment>, allow: Option<Seq<Seq<char>>>)
    ensures
        selected(rows, allow).len() <= rows.len(),
        forall|x: ActiveSegment| #[trigger] selected(rows, allow).contains(x) <==> (rows.contains(x) && admits(allow, x.id@)),
    decreases rows.len(),
{
    if rows.len() > 0 {
        let pre = rows.drop_last();
        lemma_selected_members(pre, allow);
        assert(rows =~= pre.push(rows.last()));
        assert forall|x: ActiveSegment| #[trigger] selected(rows, allow).contains(x) <==> (rows.contains(x) && admits(
            allow,
            x.id@,
        )) by {
            if rows.contains(x) {
                let k = choose|k: int| 0 <= k < rows.len() && rows[k] == x;
                if k < rows.len() - 1 {
                    assert(pre[k] == x);
                }
            }
            if pre.contains(x) {
                let k = choose|k: int| 0 <= k < pre.len() && pre[k] == x;
                assert(rows[k] == x);
            }
            if admits(allow, rows.last().id@) {
                assert(selected(rows, allow) == selected(pre, allow).push(rows.last()));
                if selected(rows, allow).contains(x) {
                    let k = choose|k: int| 0 <= k < selected(rows, allow).len() && selected(rows, allow)[k] == x;
                    if k < selected(pre, allow).len() {
                        assert(selected(pre, allow)[k] == x);
                    }
                }
                if selected(pre, allow).contains(x) {
                    let k = choose|k: int| 0 <= k < selected(pre, allow).len() && selected(pre, allow)[k] == x;
                    assert(selected(rows, allow)[k] == x);
                }
                if x == rows.last() {
                    assert(selected(rows, allow)[selected(pre, allow).len() as int] == x);
                }
            }
        }
    }
}

/// With every id admitted, every segment is selected; with none, none is.
pub proof fn lemma_selected_all_or_none(rows: Seq<ActiveSegment>)
    ensures
        selected(rows, None) == rows,
        selected(rows, Some(Seq::empty())).len() == 0,
    decreases rows.len(),
{
    if rows.len() > 0 {
        lemma_selected_all_or_none(rows.drop_last());
        assert(rows.drop_last().push(rows.last()) =~= rows);
    }
}

/// An operator gets a route to every active segment; the server and a
/// client without a policy get none.
pub proof fn lemma_operator_and_default_routes(rows: Seq<ActiveSegment>, policy: Option<StoredPolicy>)
    ensures
        selected(rows, spec_access_plan(NodeRole::Operator, policy).1) == rows,
        selected(rows, spec_access_plan(NodeRole::Server, policy).1).len() == 0,
        selected(rows, spec_access_plan(NodeRole::Client, None).1).len() == 0,
        spec_access_plan(NodeRole::Client, None).0 == AccessMode::Denied,
{
    lemma_selected_all_or_none(rows);
}

} // verus!
