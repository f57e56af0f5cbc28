//! The server's stored records as the API hands them out: each is built
//! from the plain values of a database row, the stored names of its
//! enumerations read back into values.

use vstd::prelude::*;
use crate::allocation::{access_example, generate_access_example};
use crate::models::{
    AccessMode, AccessPolicyInfo, ConnectionSessionInfo, MappingInfo, NodeInfo, NodeRole, NodeStatus, OsType,
    Protocol, SegmentInfo, SegmentStatus, SessionStatus,
};
use crate::policy::{json_string_list, parse_json_string_list};

verus! {

/// A node from its row: the stored names read back, and enabled where the
/// stored flag is not 0.
pub fn node_info(
    id: String,
    name: String,
    role: &str,
    status: &str,
    os_type: &str,
    virtual_ip: Option<String>,
    reported_segments_count: i64,
    last_online: Option<String>,
    created_at: String,
    remark: String,
    enabled: i64,
) -> (n: NodeInfo)
    ensures
        n.id == id,
        n.name == name,
        n.role == NodeRole::from_name(role@),
        n.status == NodeStatus::from_name(status@),
        n.os_type == OsType::from_name(os_type@),
        n.virtual_ip == virtual_ip,
        n.reported_segments_count == reported_segments_count,
        n.last_online == last_online,
        n.created_at == created_at,
        n.remark == remark,
        n.enabled == (enabled != 0),
{
    NodeInfo {
        id,
        name,
        role: NodeRole::from_db_str(role),
        status: NodeStatus::from_db_str(status),
        os_type: OsType::from_db_str(os_type),
        virtual_ip,
        reported_segments_count,
        last_online,
        created_at,
        remark,
        enabled: enabled != 0,
    }
}

/// A segment from its row.
pub fn segment_info(
    id: String,
    node_id: String,
    name: String,
    real_cidr: String,
    mapped_cidr: String,
    status: &str,
    remark: String,
    created_at: String,
    updated_at: String,
) -> (s: SegmentInfo)
    ensures
        s.id == id,
        s.node_id == node_id,
        s.name == name,
        s.real_cidr == real_cidr,
        s.mapped_cidr == mapped_cidr,
        s.status == SegmentStatus::from_name(status@),
        s.remark == remark,
        s.created_at == created_at,
        s.updated_at == updated_at,
{
    SegmentInfo {
        id,
        node_id,
        name,
        real_cidr,
        mapped_cidr,
        status: SegmentStatus::from_db_str(status),
        remark,
        created_at,
        updated_at,
    }
}

/// An access policy from its row: the allowed segments are the JSON list
/// of strings that the row holds, or none where it holds no such list.
pub fn policy_info(
    id: String,
    node_id: String,
    access_mode: &str,
    allowed_segments: &str,
    created_at: String,
    updated_at: String,
) -> (p: AccessPolicyInfo)
    ensures
        p.id == id,
        p.node_id == node_id,
        p.access_mode == AccessMode::from_name(access_mode@),
        p.allowed_segments.deep_view() == match json_string_list(allowed_segments@) {
            Some(l) => l,
            None => Seq::empty(),
        },
        p.created_at == created_at,
        p.updated_at == updated_at,
{
    let allowed = match parse_json_string_list(allowed_segments) {
        Some(v) => v,
        None => {
            let v: Vec<String> = Vec::new();
            assert(v.deep_view() =~= Seq::<Seq<char>>::empty());
            v
        },
    };
    AccessPolicyInfo {
        id,
        node_id,
        access_mode: AccessMode::from_db_str(access_mode),
        allowed_segments: allowed,
        created_at,
        updated_at,
    }
}

/// A connection session from its row.
pub fn session_info(
    id: String,
    source_node_id: String,
    target_segment_id: String,
    protocol: &str,
    target_address: String,
    target_client_id: String,
    started_at: String,
    last_activity: String,
    status: &str,
) -> (s: ConnectionSessionInfo)
    ensures
        s.id == id,
        s.source_node_id == source_node_id,
        s.target_segment_id == target_segment_id,
        s.protocol == Protocol::from_name(protocol@),
        s.target_address == target_address,
        s.target_client_id == target_client_id,
        s.started_at == started_at,
        s.last_activity == last_activity,
        s.status == SessionStatus::from_name(status@),
{
    ConnectionSessionInfo {
        id,
        source_node_id,
        target_segment_id,
        protocol: Protocol::from_db_str(protocol),
        target_address,
        target_client_id,
        started_at,
        last_activity,
        status: SessionStatus::from_db_str(status),
    }
}

/// A mapping from the row of a segment and its node's name, with its
/// access example.
pub fn mapping_info(
    segment_id: String,
    node_id: String,
    node_name: String,
    segment_name: String,
    real_cidr: String,
    mapped_cidr: String,
    status: &str,
) -> (m: MappingInfo)
    ensures
        m.segment_id == segment_id,
        m.node_id == node_id,
        m.node_name == node_name,
        m.segment_name == segment_name,
        m.real_cidr == real_cidr,
        m.mapped_cidr == mapped_cidr,
        m.status == SegmentStatus::from_name(status@),
        m.access_example@ == access_example(real_cidr@, mapped_cidr@),
{
    let access_example = generate_access_example(real_cidr.as_str(), mapped_cidr.as_str());
    MappingInfo {
        segment_id,
        node_id,
        node_name,
        segment_name,
        real_cidr,
        mapped_cidr,
        status: SegmentStatus::from_db_str(status),
        access_example,
    }
}

} // verus!
