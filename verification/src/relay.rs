//! The server's tunnel relay: what it decides about authentication, about
//! each frame it receives, and where it forwards an IP packet.
//!
//! The relay keeps a table from mapped segment to the node that owns it,
//! rebuilt from the active segments; a packet goes to the first node in the
//! table whose segment holds the packet's destination, that is online, and
//! that is not the sender.

use vstd::prelude::*;
use vstd::utf8::{decode_utf8, encode_utf8, encode_utf8_decode_utf8, encode_utf8_valid_utf8, valid_utf8};
use vstd::string::*;
use crate::ip::{ip_in_cidr, spec_ip_in_cidr};
use crate::models::RouteEntry;
use crate::text::{chars_of, push_str, str_eq, string_from_chars, trim_chars, trimmed, utf8_lossy, utf8_lossy_string};
use crate::tunnel::{Frame, FrameType, TunnelRoute};

verus! {

// ------------------------------------------------------------------
// Authentication
// ------------------------------------------------------------------

/// The node id of an authentication frame: its payload read as UTF-8 and
/// trimmed; or the reason the frame does not authenticate anyone.
pub open spec fn spec_auth_node_id(t: FrameType, payload: Seq<u8>) -> Result<Seq<char>, Seq<char>> {
    if t != FrameType::Auth {
        Err("期望认证帧，收到 "@ + t.name())
    } else {
        let text = if valid_utf8(payload) {
            decode_utf8(payload)
        } else {
            utf8_lossy(payload)
        };
        let id = trimmed(text);
        if id.len() == 0 {
            Err("node_id 为空"@)
        } else {
            Ok(id)
        }
    }
}

/// Reads the node id from the first frame of a connection; the error is
/// the message of the refusal that the server sends back.
pub fn auth_node_id(frame: &Frame) -> (r: Result<String, String>)
    ensures
        match spec_auth_node_id(frame.frame_type, frame.payload@) {
            Ok(id) => r matches Ok(s) && s@ == id,
            Err(m) => r matches Err(e) && e@ == m,
        },
{
    if frame.frame_type != FrameType::Auth {
        let mut v: Vec<char> = Vec::new();
        push_str(&mut v, "期望认证帧，收到 ");
        push_str(&mut v, frame.frame_type.as_str());
        return Err(string_from_chars(v.as_slice()));
    }
    let text = utf8_lossy_string(frame.payload.as_slice());
    node_id_from_text(text.as_str())
}

/// The node id that the text of an authentication frame names: the text
/// trimmed; or the refusal where nothing is left of it.
pub fn node_id_from_text(text: &str) -> (r: Result<String, String>)
    ensures
        trimmed(text@).len() == 0 ==> (r matches Err(m) && m@ == "node_id 为空"@),
        trimmed(text@).len() > 0 ==> (r matches Ok(s) && s@ == trimmed(text@)),
{
    let chars = chars_of(text);
    let id = trim_chars(chars.as_slice());
    if id.len() == 0 {
        return Err("node_id 为空".to_owned());
    }
    Ok(string_from_chars(id.as_slice()))
}

/// The node id that a client puts in its authentication frame is the one
/// the server reads from it, up to white space at either end.
pub proof fn lemma_auth_roundtrip(node_id: Seq<char>)
    ensures
        trimmed(node_id).len() > 0 ==> spec_auth_node_id(FrameType::Auth, encode_utf8(node_id)) == Ok::<
            Seq<char>,
            Seq<char>,
        >(trimmed(node_id)),
        trimmed(node_id).len() == 0 ==> spec_auth_node_id(FrameType::Auth, encode_utf8(node_id)) is Err,
{
    encode_utf8_valid_utf8(node_id);
    encode_utf8_decode_utf8(node_id);
}

/// What the stored record of a node says about its authentication: absent
/// (`None`) or with its `enabled` flag.
pub open spec fn spec_auth_admit(node_id: Seq<char>, enabled: Option<i64>) -> Result<(), Seq<char>> {
    match enabled {
        None => Err("节点不存在: "@ + node_id),
        Some(e) => if e == 0 {
            Err("节点已禁用"@)
        } else {
            Ok(())
        },
    }
}

/// Admits a node that exists and is enabled; the error is the message of
/// the refusal that the server sends back.
pub fn auth_admit(node_id: &str, enabled: Option<i64>) -> (r: Result<(), String>)
    ensures
        match spec_auth_admit(node_id@, enabled) {
            Ok(_) => r is Ok,
            Err(m) => r matches Err(e) && e@ == m,
        },
{
    match enabled {
        None => {
            let mut v: Vec<char> = Vec::new();
            push_str(&mut v, "节点不存在: ");
            push_str(&mut v, node_id);
            Err(string_from_chars(v.as_slice()))
        },
        Some(e) => if e == 0 {
            Err("节点已禁用".to_owned())
        } else {
            Ok(())
        },
    }
}

// ------------------------------------------------------------------
// Frames from an authenticated node
// ------------------------------------------------------------------

/// What the relay does with a frame from an authenticated node.
#[derive(Debug, Clone, Copy, PartialEq, Eq, Structural)]
pub enum RelayAction {
    /// Forward the IP packet.
    Forward,
    /// Note that the node is alive.
    Heartbeat,
    /// Close the connection.
    Close,
    /// A second authentication frame: ignored.
    IgnoreAuth,
    /// A frame that only the server sends: ignored.
    IgnoreServerFrame,
}

/// The relay's action for a frame type.
pub open spec fn spec_relay_action(t: FrameType) -> RelayAction {
    match t {
        FrameType::IpPacket => RelayAction::Forward,
        FrameType::Heartbeat => RelayAction::Heartbeat,
        FrameType::Disconnect => RelayAction::Close,
        FrameType::Auth => RelayAction::IgnoreAuth,
        FrameType::AuthAck => RelayAction::IgnoreServerFrame,
        FrameType::RouteUpdate => RelayAction::IgnoreServerFrame,
    }
}

/// What to do with a frame of type `t` from an authenticated node.
pub fn relay_action(t: FrameType) -> (a: RelayAction)
    ensures
        a == spec_relay_action(t),
{
    match t {
        FrameType::IpPacket => RelayAction::Forward,
        FrameType::Heartbeat => RelayAction::Heartbeat,
        FrameType::Disconnect => RelayAction::Close,
        FrameType::Auth => RelayAction::IgnoreAuth,
        FrameType::AuthAck => RelayAction::IgnoreServerFrame,
        FrameType::RouteUpdate => RelayAction::IgnoreServerFrame,
    }
}

// ------------------------------------------------------------------
// The route table
// ------------------------------------------------------------------

/// Mapped segment to owning node, one entry per segment.
pub struct RouteTable {
    pub entries: Vec<(String, String)>,
}

/// The entries as texts.
pub open spec fn entry_views(v: Seq<(String, String)>) -> Seq<(Seq<char>, Seq<char>)> {
    v.map_values(|e: (String, String)| (e.0@, e.1@))
}

/// No segment occurs twice.
pub open spec fn keys_unique(es: Seq<(Seq<char>, Seq<char>)>) -> bool {
    forall|i: int, j: int| 0 <= i < j < es.len() ==> (#[trigger] es[i]).0 != (#[trigger] es[j]).0
}

/// The map that a list of entries stands for.
pub open spec fn as_map(es: Seq<(Seq<char>, Seq<char>)>) -> Map<Seq<char>, Seq<char>>
    decreases es.len(),
{
    if es.len() == 0 {
        Map::empty()
    } else {
        as_map(es.drop_last()).insert(es.last().0, es.last().1)
    }
}

/// The map that inserting the rows one after another gives: for each
/// segment, the node of the last row that names it.
pub open spec fn rows_map(rows: Seq<(Seq<char>, Seq<char>)>) -> Map<Seq<char>, Seq<char>>
    decreases rows.len(),
{
    if rows.len() == 0 {
        Map::empty()
    } else {
        rows_map(rows.drop_last()).insert(rows.last().0, rows.last().1)
    }
}

proof fn lemma_as_map_update(es: Seq<(Seq<char>, Seq<char>)>, k: int, v: Seq<char>)
    requires
        keys_unique(es),
        0 <= k < es.len(),
    ensures
        as_map(es.update(k, (es[k].0, v))) == as_map(es).insert(es[k].0, v),
        keys_unique(es.update(k, (es[k].0, v))),
    decreases es.len(),
{
    let u = es.update(k, (es[k].0, v));
    if k == es.len() - 1 {
        assert(u.drop_last() =~= es.drop_last());
        assert(as_map(u) =~= as_map(es).insert(es[k].0, v));
    } else {
        assert(u.drop_last() =~= es.drop_last().update(k, (es[k].0, v)));
        lemma_as_map_update(es.drop_last(), k, v);
        assert(es.last().0 != es[k].0);
        assert(as_map(u) =~= as_map(es).insert(es[k].0, v));
    }
    assert forall|i: int, j: int| 0 <= i < j < u.len() implies (#[trigger] u[i]).0 != (#[trigger] u[j]).0 by {
        assert(u[i].0 == es[i].0);
        assert(u[j].0 == es[j].0);
    }
}

proof fn lemma_as_map_has(es: Seq<(Seq<char>, Seq<char>)>, c: Seq<char>)
    requires
        forall|i: int| 0 <= i < es.len() ==> (#[trigger] es[i]).0 != c,
    ensures
        !as_map(es).dom().contains(c),
    decreases es.len(),
{
    if es.len() > 0 {
        lemma_as_map_has(es.drop_last(), c);
    }
}

proof fn lemma_as_map_lookup(es: Seq<(Seq<char>, Seq<char>)>, k: int)
    requires
        keys_unique(es),
        0 <= k < es.len(),
    ensures
        as_map(es).dom().contains(es[k].0),
        as_map(es)[es[k].0] == es[k].1,
    decreases es.len(),
{
    if k < es.len() - 1 {
        lemma_as_map_lookup(es.drop_last(), k);
    }
}

impl RouteTable {
    /// The entries as texts.
    pub open spec fn view_entries(&self) -> Seq<(Seq<char>, Seq<char>)> {
        entry_views(self.entries@)
    }

    /// No segment occurs twice.
    pub open spec fn wf(&self) -> bool {
        keys_unique(self.view_entries())
    }

    /// An empty table.
    pub fn new() -> (t: RouteTable)
        ensures
            t.wf(),
            t.view_entries().len() == 0,
    {
        RouteTable { entries: Vec::new() }
    }

    /// The index of the entry of a segment.
    fn find_entry(&self, mapped_cidr: &str) -> (r: Option<usize>)
        ensures
            match r {
                Some(k) => k < self.view_entries().len() && self.view_entries()[k as int].0 == mapped_cidr@,
                None => forall|j: int|
                    0 <= j < self.view_entries().len() ==> (#[trigger] self.view_entries()[j]).0 != mapped_cidr@,
            },
    {
        let n = self.entries.len();
        let ghost es = self.view_entries();
        let mut i: usize = 0;
        while i < n
            invariant
                n == self.entries@.len(),
                es == self.view_entries(),
                es.len() == n,
                i <= n,
                forall|j: int| 0 <= j < i ==> (#[trigger] es[j]).0 != mapped_cidr@,
            decreases n - i,
        {
            assert(es[i as int].0 == self.entries@[i as int].0@);
            if str_eq(self.entries[i].0.as_str(), mapped_cidr) {
                return Some(i);
            }
            i += 1;
        }
        None
    }

    /// Sets the node of a segment: the entry's node is replaced where the
    /// segment is there, else the entry is added at the end.
    pub fn insert(&mut self, mapped_cidr: String, node_id: String)
        requires
            old(self).wf(),
        ensures
            final(self).wf(),
            as_map(final(self).view_entries()) == as_map(old(self).view_entries()).insert(
                mapped_cidr@,
                node_id@,
            ),
    {
        let ghost es = self.view_entries();
        match self.find_entry(mapped_cidr.as_str()) {
            Some(k) => {
                let ghost key = mapped_cidr@;
                let ghost val = node_id@;
                self.entries.set(k, (mapped_cidr, node_id));
                proof {
                    assert(self.view_entries() =~= es.update(k as int, (es[k as int].0, val)));
                    lemma_as_map_update(es, k as int, val);
                }
            },
            None => {
                let ghost key = mapped_cidr@;
                let ghost val = node_id@;
                self.entries.push((mapped_cidr, node_id));
                proof {
                    let nes = self.view_entries();
                    assert(nes =~= es.push((key, val)));
                    assert(nes.drop_last() =~= es);
                    assert forall|i: int, j: int| 0 <= i < j < nes.len() implies (#[trigger] nes[i]).0
                        != (#[trigger] nes[j]).0 by {
                        if j == nes.len() - 1 {
                            assert(nes[i] == es[i]);
                        } else {
                            assert(nes[i] == es[i]);
                            assert(nes[j] == es[j]);
                        }
                    }
                }
            },
        }
    }

    /// The table of the active segments `rows` (segment, owning node), each
    /// inserted in turn.
    pub fn rebuild(rows: &[(String, String)]) -> (t: RouteTable)
        ensures
            t.wf(),
            as_map(t.view_entries()) == rows_map(entry_views(rows@)),
    {
        let mut t = RouteTable::new();
        let n = rows.len();
        let mut i: usize = 0;
        while i < n
            invariant
                n == rows@.len(),
                i <= n,
                t.wf(),
                as_map(t.view_entries()) == rows_map(entry_views(rows@.subrange(0, i as int))),
            decreases n - i,
        {
            let (c, node) = &rows[i];
            t.insert(c.clone(), node.clone());
            proof {
                let pre = entry_views(rows@.subrange(0, i as int));
                let post = entry_views(rows@.subrange(0, i + 1));
                assert(post.drop_last() =~= pre);
                assert(post.last() == (rows@[i as int].0@, rows@[i as int].1@));
            }
            i += 1;
        }
        assert(rows@.subrange(0, n as int) =~= rows@);
        t
    }

    /// The node that a packet for `dst` from `source` goes to: that of the
    /// first entry whose segment holds `dst`, whose node is online and is
    /// not `source`.
    pub fn forward_target(&self, dst: &str, source: &str, online: &[String]) -> (r: Option<String>)
        ensures
            match r {
                Some(node) => exists|k: int|
                    0 <= k < self.view_entries().len() && #[trigger] candidate(
                        self.view_entries()[k],
                        dst@,
                        source@,
                        online.deep_view(),
                    ) && node@ == self.view_entries()[k].1 && forall|j: int|
                        0 <= j < k ==> !candidate(self.view_entries()[j], dst@, source@, online.deep_view()),
                None => forall|k: int|
                    0 <= k < self.view_entries().len() ==> !#[trigger] candidate(
                        self.view_entries()[k],
                        dst@,
                        source@,
                        online.deep_view(),
                    ),
            },
    {
        let n = self.entries.len();
        let ghost es = self.view_entries();
        let mut i: usize = 0;
        while i < n
            invariant
                n == self.entries@.len(),
                es == self.view_entries(),
                es.len() == n,
                i <= n,
                forall|j: int| 0 <= j < i ==> !#[trigger] candidate(es[j], dst@, source@, online.deep_view()),
            decreases n - i,
        {
            let (c, node) = &self.entries[i];
            assert(es[i as int] == (c@, node@));
            if !str_eq(node.as_str(), source) {
                let inside = ip_in_cidr(dst, c.as_str());
                match inside {
                    Ok(true) => {
                        if contains_string(online, node.as_str()) {
                            assert(candidate(es[i as int], dst@, source@, online.deep_view()));
                            let found = node.clone();
                            assert(found@ == es[i as int].1);
                            return Some(found);
                        }
                    },
                    _ => {},
                }
            }
            i += 1;
        }
        None
    }
}

/// Whether a packet for `dst` from `source` may go to the entry's node.
pub open spec fn candidate(e: (Seq<char>, Seq<char>), dst: Seq<char>, source: Seq<char>, online: Seq<Seq<char>>) -> bool {
    &&& e.1 != source
    &&& spec_ip_in_cidr(dst, e.0) == Ok::<bool, crate::ip::IpError>(true)
    &&& online.contains(e.1)
}

fn contains_string(v: &[String], s: &str) -> (r: bool)
    ensures
        r == v.deep_view().contains(s@),
{
    let n = v.len();
    let mut k: usize = 0;
    while k < n
        invariant
            n == v@.len(),
            k <= n,
            forall|j: int| 0 <= j < k ==> (#[trigger] v@[j])@ != s@,
        decreases n - k,
    {
        if str_eq(v[k].as_str(), s) {
            assert(v.deep_view()[k as int] == s@);
            return true;
        }
        k += 1;
    }
    assert forall|j: int| 0 <= j < v.deep_view().len() implies v.deep_view()[j] != s@ by {
        assert(v.deep_view()[j] == v@[j]@);
    }
    false
}

/// The tunnel route of a route entry.
pub fn tunnel_route(e: RouteEntry) -> (t: TunnelRoute)
    ensures
        t.mapped_cidr == e.mapped_cidr,
        t.target_node_id == e.target_node_id,
        t.target_node_name == e.target_node_name,
        t.real_cidr == e.real_cidr,
        t.segment_name == e.segment_name,
{
    TunnelRoute {
        mapped_cidr: e.mapped_cidr,
        target_node_id: e.target_node_id,
        target_node_name: e.target_node_name,
        real_cidr: e.real_cidr,
        segment_name: e.segment_name,
    }
}

/// After a rebuild, the table holds, for each segment, the node of the last
/// row that names it, and nothing else.
pub proof fn lemma_rebuild_lookup(t: RouteTable, rows: Seq<(Seq<char>, Seq<char>)>, k: int)
    requires
        t.wf(),
        as_map(t.view_entries()) == rows_map(rows),
        0 <= k < t.view_entries().len(),
    ensures
        rows_map(rows).dom().contains(t.view_entries()[k].0),
        rows_map(rows)[t.view_entries()[k].0] == t.view_entries()[k].1,
{
    lemma_as_map_lookup(t.view_entries(), k);
}

} // verus!
