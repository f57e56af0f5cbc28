//! Requests and responses of the server's HTTP API.

use vstd::prelude::*;
use crate::models::{AccessMode, NodeRole, OsType, RouteEntry, SegmentStatus};

verus! {

/// The envelope of every API answer: code 0 and the data on success, a
/// nonzero code and a message on failure.
#[derive(Debug, Clone)]
pub struct ApiResponse<T> {
    pub code: i32,
    pub message: String,
    pub data: Option<T>,
}

impl<T> ApiResponse<T> {
    /// A success: code 0, message `ok`, and the data.
    pub fn ok(data: T) -> (r: ApiResponse<T>)
        ensures
            r.code == 0,
            r.message@ == "ok"@,
            r.data == Some(data),
    {
        ApiResponse { code: 0, message: "ok".to_owned(), data: Some(data) }
    }

    /// A failure with code -1 and the message.
    pub fn err(msg: &str) -> (r: ApiResponse<T>)
        ensures
            r.code == -1,
            r.message@ == msg@,
            r.data is None,
    {
        ApiResponse { code: -1, message: msg.to_owned(), data: None }
    }

    /// A failure with the given code and message.
    pub fn err_with_code(code: i32, msg: &str) -> (r: ApiResponse<T>)
        ensures
            r.code == code,
            r.message@ == msg@,
            r.data is None,
    {
        ApiResponse { code, message: msg.to_owned(), data: None }
    }
}

/// A node registers.
#[derive(Debug, Clone)]
pub struct RegisterRequest {
    pub name: String,
    pub role: NodeRole,
    pub os_type: OsType,
    pub remark: Option<String>,
}

/// The id given to a registered node, and an operator's virtual address.
#[derive(Debug, Clone)]
pub struct RegisterResponse {
    pub node_id: String,
    pub virtual_ip: Option<String>,
}

/// A node's heartbeat.
#[derive(Debug, Clone)]
pub struct HeartbeatRequest {
    pub node_id: String,
    /// How many segments the node reports now.
    pub reported_segments_count: Option<i64>,
}

/// The routes that the node should have now.
#[derive(Debug, Clone)]
pub struct HeartbeatResponse {
    pub routes: Vec<RouteEntry>,
}

/// Changes to a node.
#[derive(Debug, Clone)]
pub struct UpdateNodeRequest {
    pub name: Option<String>,
    pub remark: Option<String>,
}

/// A node reports a real segment.
#[derive(Debug, Clone)]
pub struct ReportSegmentRequest {
    pub node_id: String,
    pub name: String,
    /// The real segment, such as `192.168.1.0/24`.
    pub real_cidr: String,
    pub remark: Option<String>,
}

/// The id of a reported segment and the mapped segment it was given.
#[derive(Debug, Clone)]
pub struct ReportSegmentResponse {
    pub segment_id: String,
    pub mapped_cidr: String,
}

/// Changes to a segment.
#[derive(Debug, Clone)]
pub struct UpdateSegmentRequest {
    pub name: Option<String>,
    pub remark: Option<String>,
}

/// A new access policy for a node.
#[derive(Debug, Clone)]
pub struct UpdatePolicyRequest {
    pub access_mode: AccessMode,
    /// Segment ids that may be reached (with `AllowedSegments`).
    pub allowed_segments: Vec<String>,
}

/// Changes to the address pool.
#[derive(Debug, Clone)]
pub struct UpdatePoolRequest {
    pub client_pool_cidr: Option<String>,
    pub segment_size: Option<i32>,
    pub operator_pool_cidr: Option<String>,
    pub server_virtual_ip: Option<String>,
}

/// A node asks for the segments it has reported.
#[derive(Debug, Clone)]
pub struct QuerySegmentsRequest {
    pub node_id: String,
}

/// One reported segment in a listing.
#[derive(Debug, Clone)]
pub struct SegmentSummary {
    pub id: String,
    pub name: String,
    pub real_cidr: String,
    /// The mapped segment, where one was given.
    pub mapped_cidr: Option<String>,
    pub status: SegmentStatus,
    pub remark: Option<String>,
}

/// The segments a node has reported.
#[derive(Debug, Clone)]
pub struct QuerySegmentsResponse {
    pub segments: Vec<SegmentSummary>,
}

/// An operator asks for its virtual address.
#[derive(Debug, Clone)]
pub struct RequestOperatorIpRequest {
    pub node_id: String,
}

/// An operator's virtual address and the routes it may use.
#[derive(Debug, Clone)]
pub struct RequestOperatorIpResponse {
    pub virtual_ip: String,
    pub accessible_segments: Vec<RouteEntry>,
}

/// A node asks what it may reach.
#[derive(Debug, Clone)]
pub struct QueryAccessRequest {
    pub node_id: String,
}

/// What a node may reach.
#[derive(Debug, Clone)]
pub struct QueryAccessResponse {
    pub access_mode: AccessMode,
    pub allowed_segments: Vec<RouteEntry>,
}


/// The query of an access lookup: the asking node.
#[derive(Debug, Clone)]
pub struct AccessQueryParams {
    pub node_id: String,
}

/// The query of a segment listing: only the segments of one node, where
/// one is given.
#[derive(Debug, Clone)]
pub struct SegmentListQuery {
    pub node_id: Option<String>,
}

} // verus!
