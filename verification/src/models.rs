//! The records that the server stores and the nodes exchange, and the
//! enumerations they hold, each with the name it is stored under.

use vstd::prelude::*;
use vstd::string::*;
use crate::text::str_eq;

verus! {

/// Role of a node.
#[derive(Debug, Clone, Copy, PartialEq, Eq, Structural)]
pub enum NodeRole {
    /// The server.
    Server,
    /// An ordinary client.
    Client,
    /// An operator (a field engineer's node).
    Operator,
}

impl NodeRole {
    /// The name stored in the database and sent over the API.
    pub open spec fn name(self) -> Seq<char> {
        match self {
            NodeRole::Server => "server"@,
            NodeRole::Client => "client"@,
            NodeRole::Operator => "operator"@,
        }
    }

    /// The value that a stored name stands for; any other text is
    /// `Client`.
    pub open spec fn from_name(s: Seq<char>) -> Self {
        if s == "server"@ {
            NodeRole::Server
        } else if s == "operator"@ {
            NodeRole::Operator
        } else {
            NodeRole::Client
        }
    }

    /// The stored name of the value.
    pub fn as_str(&self) -> (s: &'static str)
        ensures
            s@ == self.name(),
    {
        match self {
            NodeRole::Server => "server",
            NodeRole::Client => "client",
            NodeRole::Operator => "operator",
        }
    }

    /// The value of a stored name; text that names no value gives
    /// `Client`.
    pub fn from_db_str(s: &str) -> (r: Self)
        ensures
            r == Self::from_name(s@),
    {
        if str_eq(s, "server") {
            NodeRole::Server
        } else if str_eq(s, "operator") {
            NodeRole::Operator
        } else {
            NodeRole::Client
        }
    }
}

/// Reading back the stored name of a value gives the value.
pub proof fn lemma_node_role_name_roundtrip(x: NodeRole)
    ensures
        NodeRole::from_name(x.name()) == x,
{
    reveal_strlit("server");
    reveal_strlit("client");
    reveal_strlit("operator");
    assert("server"@.len() != "operator"@.len());
    assert("client"@[0] != "server"@[0]);
    assert("client"@.len() != "operator"@.len());
    assert("operator"@.len() != "server"@.len());
}

/// Connection state of a node.
#[derive(Debug, Clone, Copy, PartialEq, Eq, Structural)]
pub enum NodeStatus {
    /// Not connected.
    Disconnected,
    /// Connected.
    Connected,
    /// Connected and in the overlay.
    Networking,
    /// Partly failing.
    PartialError,
}

impl NodeStatus {
    /// The name stored in the database and sent over the API.
    pub open spec fn name(self) -> Seq<char> {
        match self {
            NodeStatus::Disconnected => "disconnected"@,
            NodeStatus::Connected => "connected"@,
            NodeStatus::Networking => "networking"@,
            NodeStatus::PartialError => "partial_error"@,
        }
    }

    /// The value that a stored name stands for; any other text is
    /// `Disconnected`.
    pub open spec fn from_name(s: Seq<char>) -> Self {
        if s == "connected"@ {
            NodeStatus::Connected
        } else if s == "networking"@ {
            NodeStatus::Networking
        } else if s == "partial_error"@ {
            NodeStatus::PartialError
        } else {
            NodeStatus::Disconnected
        }
    }

    /// The stored name of the value.
    pub fn as_str(&self) -> (s: &'static str)
        ensures
            s@ == self.name(),
    {
        match self {
            NodeStatus::Disconnected => "disconnected",
            NodeStatus::Connected => "connected",
            NodeStatus::Networking => "networking",
            NodeStatus::PartialError => "partial_error",
        }
    }

    /// The value of a stored name; text that names no value gives
    /// `Disconnected`.
    pub fn from_db_str(s: &str) -> (r: Self)
        ensures
            r == Self::from_name(s@),
    {
        if str_eq(s, "connected") {
            NodeStatus::Connected
        } else if str_eq(s, "networking") {
            NodeStatus::Networking
        } else if str_eq(s, "partial_error") {
            NodeStatus::PartialError
        } else {
            NodeStatus::Disconnected
        }
    }
}

/// Reading back the stored name of a value gives the value.
pub proof fn lemma_node_status_name_roundtrip(x: NodeStatus)
    ensures
        NodeStatus::from_name(x.name()) == x,
{
    reveal_strlit("disconnected");
    reveal_strlit("connected");
    reveal_strlit("networking");
    reveal_strlit("partial_error");
    assert("disconnected"@.len() != "connected"@.len());
    assert("disconnected"@.len() != "networking"@.len());
    assert("disconnected"@.len() != "partial_error"@.len());
    assert("connected"@.len() != "networking"@.len());
    assert("connected"@.len() != "partial_error"@.len());
    assert("networking"@.len() != "connected"@.len());
    assert("networking"@.len() != "partial_error"@.len());
    assert("partial_error"@.len() != "connected"@.len());
    assert("partial_error"@.len() != "networking"@.len());
}

/// Operating system of a node.
#[derive(Debug, Clone, Copy, PartialEq, Eq, Structural)]
pub enum OsType {
    /// Windows.
    Windows,
    /// Linux.
    Linux,
    /// Android.
    Android,
    /// Another or an unknown system.
    Unknown,
}

impl OsType {
    /// The name stored in the database and sent over the API.
    pub open spec fn name(self) -> Seq<char> {
        match self {
            OsType::Windows => "windows"@,
            OsType::Linux => "linux"@,
            OsType::Android => "android"@,
            OsType::Unknown => "unknown"@,
        }
    }

    /// The value that a stored name stands for; any other text is
    /// `Linux`.
    pub open spec fn from_name(s: Seq<char>) -> Self {
        if s == "windows"@ {
            OsType::Windows
        } else if s == "android"@ {
            OsType::Android
        } else if s == "unknown"@ {
            OsType::Unknown
        } else {
            OsType::Linux
        }
    }

    /// The stored name of the value.
    pub fn as_str(&self) -> (s: &'static str)
        ensures
            s@ == self.name(),
    {
        match self {
            OsType::Windows => "windows",
            OsType::Linux => "linux",
            OsType::Android => "android",
            OsType::Unknown => "unknown",
        }
    }

    /// The value of a stored name; text that names no value gives
    /// `Linux`.
    pub fn from_db_str(s: &str) -> (r: Self)
        ensures
            r == Self::from_name(s@),
    {
        if str_eq(s, "windows") {
            OsType::Windows
        } else if str_eq(s, "android") {
            OsType::Android
        } else if str_eq(s, "unknown") {
            OsType::Unknown
        } else {
            OsType::Linux
        }
    }
}

/// Reading back the stored name of a value gives the value.
pub proof fn lemma_os_type_name_roundtrip(x: OsType)
    ensures
        OsType::from_name(x.name()) == x,
{
    reveal_strlit("windows");
    reveal_strlit("linux");
    reveal_strlit("android");
    reveal_strlit("unknown");
    assert("windows"@[0] != "android"@[0]);
    assert("windows"@[0] != "unknown"@[0]);
    assert("linux"@.len() != "windows"@.len());
    assert("linux"@.len() != "android"@.len());
    assert("linux"@.len() != "unknown"@.len());
    assert("android"@[0] != "windows"@[0]);
    assert("android"@[0] != "unknown"@[0]);
    assert("unknown"@[0] != "windows"@[0]);
    assert("unknown"@[0] != "android"@[0]);
}

/// State of a reported segment.
#[derive(Debug, Clone, Copy, PartialEq, Eq, Structural)]
pub enum SegmentStatus {
    /// Waiting for confirmation.
    Pending,
    /// In use.
    Active,
    /// Switched off.
    Disabled,
    /// Failing.
    Error,
}

impl SegmentStatus {
    /// The name stored in the database and sent over the API.
    pub open spec fn name(self) -> Seq<char> {
        match self {
            SegmentStatus::Pending => "pending"@,
            SegmentStatus::Active => "active"@,
            SegmentStatus::Disabled => "disabled"@,
            SegmentStatus::Error => "error"@,
        }
    }

    /// The value that a stored name stands for; any other text is
    /// `Pending`.
    pub open spec fn from_name(s: Seq<char>) -> Self {
        if s == "active"@ {
            SegmentStatus::Active
        } else if s == "disabled"@ {
            SegmentStatus::Disabled
        } else if s == "error"@ {
            SegmentStatus::Error
        } else {
            SegmentStatus::Pending
        }
    }

    /// The stored name of the value.
    pub fn as_str(&self) -> (s: &'static str)
        ensures
            s@ == self.name(),
    {
        match self {
            SegmentStatus::Pending => "pending",
            SegmentStatus::Active => "active",
            SegmentStatus::Disabled => "disabled",
            SegmentStatus::Error => "error",
        }
    }

    /// The value of a stored name; text that names no value gives
    /// `Pending`.
    pub fn from_db_str(s: &str) -> (r: Self)
        ensures
            r == Self::from_name(s@),
    {
        if str_eq(s, "active") {
            SegmentStatus::Active
        } else if str_eq(s, "disabled") {
            SegmentStatus::Disabled
        } else if str_eq(s, "error") {
            SegmentStatus::Error
        } else {
            SegmentStatus::Pending
        }
    }
}

/// Reading back the stored name of a value gives the value.
pub proof fn lemma_segment_status_name_roundtrip(x: SegmentStatus)
    ensures
        SegmentStatus::from_name(x.name()) == x,
{
    reveal_strlit("pending");
    reveal_strlit("active");
    reveal_strlit("disabled");
    reveal_strlit("error");
    assert("pending"@.len() != "active"@.len());
    assert("pending"@.len() != "disabled"@.len());
    assert("pending"@.len() != "error"@.len());
    assert("active"@.len() != "disabled"@.len());
    assert("active"@.len() != "error"@.len());
    assert("disabled"@.len() != "active"@.len());
    assert("disabled"@.len() != "error"@.len());
    assert("error"@.len() != "active"@.len());
    assert("error"@.len() != "disabled"@.len());
}

/// What other segments a node may reach.
#[derive(Debug, Clone, Copy, PartialEq, Eq, Structural)]
pub enum AccessMode {
    /// None.
    Denied,
    /// The listed ones.
    AllowedSegments,
    /// All of them.
    AllowedAll,
}

impl AccessMode {
    /// The name stored in the database and sent over the API.
    pub open spec fn name(self) -> Seq<char> {
        match self {
            AccessMode::Denied => "denied"@,
            AccessMode::AllowedSegments => "allowed_segments"@,
            AccessMode::AllowedAll => "allowed_all"@,
        }
    }

    /// The value that a stored name stands for; any other text is
    /// `Denied`.
    pub open spec fn from_name(s: Seq<char>) -> Self {
        if s == "allowed_segments"@ {
            AccessMode::AllowedSegments
        } else if s == "allowed_all"@ {
            AccessMode::AllowedAll
        } else {
            AccessMode::Denied
        }
    }

    /// The stored name of the value.
    pub fn as_str(&self) -> (s: &'static str)
        ensures
            s@ == self.name(),
    {
        match self {
            AccessMode::Denied => "denied",
            AccessMode::AllowedSegments => "allowed_segments",
            AccessMode::AllowedAll => "allowed_all",
        }
    }

    /// The value of a stored name; text that names no value gives
    /// `Denied`.
    pub fn from_db_str(s: &str) -> (r: Self)
        ensures
            r == Self::from_name(s@),
    {
        if str_eq(s, "allowed_segments") {
            AccessMode::AllowedSegments
        } else if str_eq(s, "allowed_all") {
            AccessMode::AllowedAll
        } else {
            AccessMode::Denied
        }
    }
}

/// Reading back the stored name of a value gives the value.
pub proof fn lemma_access_mode_name_roundtrip(x: AccessMode)
    ensures
        AccessMode::from_name(x.name()) == x,
{
    reveal_strlit("denied");
    reveal_strlit("allowed_segments");
    reveal_strlit("allowed_all");
    assert("denied"@.len() != "allowed_segments"@.len());
    assert("denied"@.len() != "allowed_all"@.len());
    assert("allowed_segments"@.len() != "allowed_all"@.len());
    assert("allowed_all"@.len() != "allowed_segments"@.len());
}

/// State of a connection session.
#[derive(Debug, Clone, Copy, PartialEq, Eq, Structural)]
pub enum SessionStatus {
    /// Open.
    Active,
    /// Timed out.
    Timeout,
    /// Closed.
    Ended,
}

impl SessionStatus {
    /// The name stored in the database and sent over the API.
    pub open spec fn name(self) -> Seq<char> {
        match self {
            SessionStatus::Active => "active"@,
            SessionStatus::Timeout => "timeout"@,
            SessionStatus::Ended => "ended"@,
        }
    }

    /// The value that a stored name stands for; any other text is
    /// `Active`.
    pub open spec fn from_name(s: Seq<char>) -> Self {
        if s == "timeout"@ {
            SessionStatus::Timeout
        } else if s == "ended"@ {
            SessionStatus::Ended
        } else {
            SessionStatus::Active
        }
    }

    /// The stored name of the value.
    pub fn as_str(&self) -> (s: &'static str)
        ensures
            s@ == self.name(),
    {
        match self {
            SessionStatus::Active => "active",
            SessionStatus::Timeout => "timeout",
            SessionStatus::Ended => "ended",
        }
    }

    /// The value of a stored name; text that names no value gives
    /// `Active`.
    pub fn from_db_str(s: &str) -> (r: Self)
        ensures
            r == Self::from_name(s@),
    {
        if str_eq(s, "timeout") {
            SessionStatus::Timeout
        } else if str_eq(s, "ended") {
            SessionStatus::Ended
        } else {
            SessionStatus::Active
        }
    }
}

/// Reading back the stored name of a value gives the value.
pub proof fn lemma_session_status_name_roundtrip(x: SessionStatus)
    ensures
        SessionStatus::from_name(x.name()) == x,
{
    reveal_strlit("active");
    reveal_strlit("timeout");
    reveal_strlit("ended");
    assert("active"@.len() != "timeout"@.len());
    assert("active"@.len() != "ended"@.len());
    assert("timeout"@.len() != "ended"@.len());
    assert("ended"@.len() != "timeout"@.len());
}

/// Network protocol of a session.
#[derive(Debug, Clone, Copy, PartialEq, Eq, Structural)]
pub enum Protocol {
    /// ICMP.
    Icmp,
    /// TCP.
    Tcp,
    /// UDP.
    Udp,
}

impl Protocol {
    /// The name stored in the database and sent over the API.
    pub open spec fn name(self) -> Seq<char> {
        match self {
            Protocol::Icmp => "icmp"@,
            Protocol::Tcp => "tcp"@,
            Protocol::Udp => "udp"@,
        }
    }

    /// The value that a stored name stands for; any other text is
    /// `Icmp`.
    pub open spec fn from_name(s: Seq<char>) -> Self {
        if s == "tcp"@ {
            Protocol::Tcp
        } else if s == "udp"@ {
            Protocol::Udp
        } else {
            Protocol::Icmp
        }
    }

    /// The stored name of the value.
    pub fn as_str(&self) -> (s: &'static str)
        ensures
            s@ == self.name(),
    {
        match self {
            Protocol::Icmp => "icmp",
            Protocol::Tcp => "tcp",
            Protocol::Udp => "udp",
        }
    }

    /// The value of a stored name; text that names no value gives
    /// `Icmp`.
    pub fn from_db_str(s: &str) -> (r: Self)
        ensures
            r == Self::from_name(s@),
    {
        if str_eq(s, "tcp") {
            Protocol::Tcp
        } else if str_eq(s, "udp") {
            Protocol::Udp
        } else {
            Protocol::Icmp
        }
    }
}

/// Reading back the stored name of a value gives the value.
pub proof fn lemma_protocol_name_roundtrip(x: Protocol)
    ensures
        Protocol::from_name(x.name()) == x,
{
    reveal_strlit("icmp");
    reveal_strlit("tcp");
    reveal_strlit("udp");
    assert("icmp"@.len() != "tcp"@.len());
    assert("icmp"@.len() != "udp"@.len());
    assert("tcp"@[0] != "udp"@[0]);
    assert("udp"@[0] != "tcp"@[0]);
}


/// A node as the server lists it.
#[derive(Debug, Clone)]
pub struct NodeInfo {
    pub id: String,
    pub name: String,
    pub role: NodeRole,
    pub status: NodeStatus,
    pub os_type: OsType,
    pub virtual_ip: Option<String>,
    pub reported_segments_count: i64,
    pub last_online: Option<String>,
    pub created_at: String,
    pub remark: String,
    pub enabled: bool,
}

/// A reported segment.
#[derive(Debug, Clone)]
pub struct SegmentInfo {
    pub id: String,
    pub node_id: String,
    pub name: String,
    pub real_cidr: String,
    pub mapped_cidr: String,
    pub status: SegmentStatus,
    pub remark: String,
    pub created_at: String,
    pub updated_at: String,
}

/// The access policy of a node.
#[derive(Debug, Clone)]
pub struct AccessPolicyInfo {
    pub id: String,
    pub node_id: String,
    pub access_mode: AccessMode,
    pub allowed_segments: Vec<String>,
    pub created_at: String,
    pub updated_at: String,
}

/// The address pool as stored, with its allocation counters.
#[derive(Debug, Clone)]
pub struct AddressPoolInfo {
    pub id: i64,
    pub client_pool_cidr: String,
    pub segment_size: i32,
    pub operator_pool_cidr: String,
    pub server_virtual_ip: String,
    pub next_client_segment_index: i64,
    pub next_operator_ip_index: i64,
}

/// A connection session.
#[derive(Debug, Clone)]
pub struct ConnectionSessionInfo {
    pub id: String,
    pub source_node_id: String,
    pub target_segment_id: String,
    pub protocol: Protocol,
    pub target_address: String,
    pub target_client_id: String,
    pub started_at: String,
    pub last_activity: String,
    pub status: SessionStatus,
}

/// The counts that the dashboard shows.
#[derive(Debug, Clone)]
pub struct DashboardData {
    /// Nodes online.
    pub online_node_count: i64,
    /// Ordinary clients.
    pub client_count: i64,
    /// Operators.
    pub operator_count: i64,
    /// Reported segments.
    pub registered_segment_count: i64,
    /// Mapped segments in use.
    pub active_mapped_segment_count: i64,
    /// Failing segments.
    pub error_segment_count: i64,
    /// Open sessions.
    pub active_session_count: i64,
}

/// A route handed to a node: a mapped segment and where it leads.
#[derive(Debug, Clone)]
pub struct RouteEntry {
    /// The mapped segment.
    pub mapped_cidr: String,
    /// The node behind it.
    pub target_node_id: String,
    /// That node's name.
    pub target_node_name: String,
    /// The real segment.
    pub real_cidr: String,
    /// The segment's name.
    pub segment_name: String,
}

/// The answer to an access query.
#[derive(Debug, Clone)]
pub struct AccessQueryResponse {
    pub node_id: String,
    pub access_mode: AccessMode,
    pub routes: Vec<RouteEntry>,
}

/// A mapping between a real segment and its mapped segment.
#[derive(Debug, Clone)]
pub struct MappingInfo {
    pub segment_id: String,
    pub node_id: String,
    pub node_name: String,
    pub segment_name: String,
    pub real_cidr: String,
    pub mapped_cidr: String,
    pub status: SegmentStatus,
    /// How an address translates, such as `192.168.1.10 -> 100.64.1.10`.
    pub access_example: String,
}

/// A log line.
#[derive(Debug, Clone)]
pub struct LogEntry {
    pub timestamp: String,
    pub level: String,
    pub module: String,
    pub message: String,
}

/// The address pool of a configuration file.
#[derive(Debug, Clone)]
pub struct AddressPool {
    /// Pool of the clients' mapped segments, such as `100.64.0.0/16`.
    pub client_pool_cidr: String,
    /// Prefix length of one mapped segment, such as 24.
    pub segment_size: i32,
    /// Pool of the operators' virtual addresses, such as `10.244.0.0/16`.
    pub operator_pool_cidr: String,
    /// The server's own virtual address.
    pub server_virtual_ip: String,
}

impl Default for AddressPool {
    /// Every text empty and a segment size of 0.
    fn default() -> (p: AddressPool)
        ensures
            p.client_pool_cidr@ == Seq::<char>::empty(),
            p.segment_size == 0,
            p.operator_pool_cidr@ == Seq::<char>::empty(),
            p.server_virtual_ip@ == Seq::<char>::empty(),
    {
        AddressPool {
            client_pool_cidr: String::new(),
            segment_size: 0,
            operator_pool_cidr: String::new(),
            server_virtual_ip: String::new(),
        }
    }
}

} // verus!
