//! The library-wide error type of the server's storage and allocation.

use vstd::prelude::*;
use crate::text::{push_str, string_from_chars};

verus! {

/// Errors of storage, lookups, input and allocation, each with its detail.
#[derive(Debug, Clone, PartialEq, Eq)]
pub enum NetToolError {
    Database(String),
    NotFound(String),
    InvalidInput(String),
    AllocationFailed(String),
    Internal(String),
}

impl NetToolError {
    /// The prefix of the error's message.
    pub open spec fn label(&self) -> Seq<char> {
        match self {
            NetToolError::Database(_) => "数据库错误: "@,
            NetToolError::NotFound(_) => "资源未找到: "@,
            NetToolError::InvalidInput(_) => "输入无效: "@,
            NetToolError::AllocationFailed(_) => "地址分配失败: "@,
            NetToolError::Internal(_) => "内部错误: "@,
        }
    }

    /// The detail that the error carries.
    pub open spec fn detail(&self) -> Seq<char> {
        match self {
            NetToolError::Database(d) => d@,
            NetToolError::NotFound(d) => d@,
            NetToolError::InvalidInput(d) => d@,
            NetToolError::AllocationFailed(d) => d@,
            NetToolError::Internal(d) => d@,
        }
    }

    /// The message of the error: its label, then its detail.
    pub fn message(&self) -> (s: String)
        ensures
            s@ == self.label() + self.detail(),
    {
        let mut v: Vec<char> = Vec::new();
        match self {
            NetToolError::Database(d) => {
                push_str(&mut v, "数据库错误: ");
                push_str(&mut v, d.as_str());
            },
            NetToolError::NotFound(d) => {
                push_str(&mut v, "资源未找到: ");
                push_str(&mut v, d.as_str());
            },
            NetToolError::InvalidInput(d) => {
                push_str(&mut v, "输入无效: ");
                push_str(&mut v, d.as_str());
            },
            NetToolError::AllocationFailed(d) => {
                push_str(&mut v, "地址分配失败: ");
                push_str(&mut v, d.as_str());
            },
            NetToolError::Internal(d) => {
                push_str(&mut v, "内部错误: ");
                push_str(&mut v, d.as_str());
            },
        }
        string_from_chars(v.as_slice())
    }
}

} // verus!
