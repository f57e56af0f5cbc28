//! A node's dealings with the server's HTTP API: the state of the
//! connection, the base URL, what an API answer means, and the waits
//! between retries.

use vstd::prelude::*;
use vstd::arithmetic::power2::{pow2, lemma2_to64};
use crate::text::{chars_of, is_prefix, push_chars, push_decimal, push_str, starts_with_str, strip_trailing, strip_trailing_chars, string_from_chars, trim_chars, trimmed};

verus! {

/// The state of the connection to the server.
#[derive(Debug, Clone, Copy, PartialEq, Eq, Structural)]
pub enum ConnectionStatus {
    Disconnected,
    Connecting,
    Connected,
    Reconnecting,
    Failed,
}

impl ConnectionStatus {
    /// The label shown to the user.
    pub open spec fn label(self) -> Seq<char> {
        match self {
            ConnectionStatus::Disconnected => "已断开"@,
            ConnectionStatus::Connecting => "连接中"@,
            ConnectionStatus::Connected => "已连接"@,
            ConnectionStatus::Reconnecting => "重连中"@,
            ConnectionStatus::Failed => "连接失败"@,
        }
    }

    /// The label shown to the user.
    pub fn as_str(&self) -> (s: &'static str)
        ensures
            s@ == self.label(),
    {
        match self {
            ConnectionStatus::Disconnected => "已断开",
            ConnectionStatus::Connecting => "连接中",
            ConnectionStatus::Connected => "已连接",
            ConnectionStatus::Reconnecting => "重连中",
            ConnectionStatus::Failed => "连接失败",
        }
    }
}

/// The base URL of a server address: trimmed, without trailing `/`, with
/// `http://` put in front where it has no `http://` or `https://`.
pub open spec fn spec_base_url(server_addr: Seq<char>) -> Result<Seq<char>, Seq<char>> {
    let a = strip_trailing(trimmed(server_addr), '/');
    if a.len() == 0 {
        Err("服务端地址为空"@)
    } else if is_prefix("http://"@, a) || is_prefix("https://"@, a) {
        Ok(a)
    } else {
        Ok("http://"@ + a)
    }
}

/// The base URL of a server address given as `IP:port` or as a URL.
pub fn normalize_base_url(server_addr: &str) -> (r: Result<String, String>)
    ensures
        match spec_base_url(server_addr@) {
            Ok(u) => r matches Ok(s) && s@ == u,
            Err(m) => r matches Err(e) && e@ == m,
        },
{
    let v = chars_of(server_addr);
    let t = trim_chars(v.as_slice());
    let a = strip_trailing_chars(t.as_slice(), '/');
    if a.len() == 0 {
        return Err("服务端地址为空".to_owned());
    }
    if starts_with_str(a.as_slice(), "http://") || starts_with_str(a.as_slice(), "https://") {
        Ok(string_from_chars(a.as_slice()))
    } else {
        let mut out: Vec<char> = Vec::new();
        push_str(&mut out, "http://");
        push_chars(&mut out, a.as_slice());
        Ok(string_from_chars(out.as_slice()))
    }
}

/// What an API answer means: its data when the code is 0 and data is
/// there; else the message (or `未知错误` where it is empty), or the note
/// that data is missing.
pub fn api_result<T>(code: i32, message: String, data: Option<T>) -> (r: Result<T, String>)
    ensures
        code != 0 && message@.len() > 0 ==> r == Err::<T, String>(message),
        code != 0 && message@.len() == 0 ==> (r matches Err(e) && e@ == "未知错误"@),
        code == 0 && data is Some ==> r == Ok::<T, String>(data->0),
        code == 0 && data is None ==> (r matches Err(e) && e@ == "响应缺少 data 字段"@),
{
    if code != 0 {
        if message.as_str().is_empty() {
            return Err("未知错误".to_owned());
        }
        return Err(message);
    }
    match data {
        Some(d) => Ok(d),
        None => Err("响应缺少 data 字段".to_owned()),
    }
}

fn pow2_upto(k: u32) -> (r: u64)
    requires
        k <= 5,
    ensures
        r == pow2(k as nat),
        1 <= r <= 32,
{
    proof {
        lemma2_to64();
    }
    match k {
        0 => 1,
        1 => 2,
        2 => 4,
        3 => 8,
        4 => 16,
        _ => 32,
    }
}

/// The wait before the next registration attempt after attempt number
/// `attempt` failed: 2^attempt seconds, at most 30 (1, 2, 4, ... 30).
pub open spec fn register_delay(attempt: nat) -> nat {
    let d = pow2(if attempt < 5 { attempt } else { 5 });
    if d < 30 {
        d
    } else {
        30
    }
}

/// The wait before the next heartbeat after `fails` heartbeats in a row
/// failed: 5 * 2^fails seconds, at most 60.
pub open spec fn heartbeat_delay(fails: nat) -> nat {
    let d = 5 * pow2(if fails < 4 { fails } else { 4 });
    if d < 60 {
        d
    } else {
        60
    }
}

/// Seconds to wait after registration attempt `attempt` failed.
pub fn register_retry_delay(attempt: u32) -> (d: u64)
    ensures
        d == register_delay(attempt as nat),
{
    let k = if attempt < 5 {
        attempt
    } else {
        5
    };
    let p = pow2_upto(k);
    if p < 30 {
        p
    } else {
        30
    }
}

/// Seconds to wait after `fail_count` heartbeats in a row failed.
pub fn heartbeat_retry_delay(fail_count: u32) -> (d: u64)
    ensures
        d == heartbeat_delay(fail_count as nat),
{
    let k = if fail_count < 4 {
        fail_count
    } else {
        4
    };
    let p = pow2_upto(k);
    if 5 * p < 60 {
        5 * p
    } else {
        60
    }
}

/// After registration attempt `attempt` (counted from 1) failed with
/// `error`: the wait before the next attempt, or, once `max_attempts`
/// attempts are spent, the final error `注册失败（已重试 N 次）: {error}`.
pub fn register_retry_step(attempt: u32, max_attempts: u32, error: &str) -> (r: Result<u64, String>)
    ensures
        attempt >= max_attempts ==> (r matches Err(m) && m@ == "注册失败（已重试 "@ + crate::text::decimal(
            attempt as nat,
        ) + " 次）: "@ + error@),
        attempt < max_attempts ==> r == Ok::<u64, String>(register_delay(attempt as nat) as u64),
{
    if attempt >= max_attempts {
        let mut v: Vec<char> = Vec::new();
        push_str(&mut v, "注册失败（已重试 ");
        push_decimal(&mut v, attempt as u64);
        push_str(&mut v, " 次）: ");
        push_str(&mut v, error);
        return Err(string_from_chars(v.as_slice()));
    }
    Ok(register_retry_delay(attempt))
}

/// Waits never exceed their caps, and grow with the number of failures.
pub proof fn lemma_delays_bounded(a: nat, b: nat)
    requires
        a <= b,
    ensures
        1 <= register_delay(a) <= register_delay(b) <= 30,
        5 <= heartbeat_delay(a) <= heartbeat_delay(b) <= 60,
{
    lemma2_to64();
    vstd::arithmetic::power2::lemma_pow2_pos(a);
    let ka: nat = if a < 5 { a } else { 5 };
    let kb: nat = if b < 5 { b } else { 5 };
    if ka < kb {
        vstd::arithmetic::power2::lemma_pow2_strictly_increases(ka, kb);
    }
    let ha: nat = if a < 4 { a } else { 4 };
    let hb: nat = if b < 4 { b } else { 4 };
    if ha < hb {
        vstd::arithmetic::power2::lemma_pow2_strictly_increases(ha, hb);
    }
    vstd::arithmetic::power2::lemma_pow2_pos(ka);
    vstd::arithmetic::power2::lemma_pow2_pos(ha);
}

} // verus!
