//! NAT rules that forward a mapped segment to the real segment behind a
//! node.
//!
//! On Linux each rule is a DNAT rule (traffic to the mapped segment goes to
//! the real segment's address) and a MASQUERADE rule (traffic from the real
//! segment leaves through the interface with the interface's address). The
//! caller runs the `iptables` commands that [`dnat_args`] and
//! [`masquerade_args`] describe and tells the manager how they went.

use vstd::prelude::*;
use crate::text::{chars_of, find_char, first_index_of, join, join_strings, lemma_first_index_of, push_str, slice_chars, string_from_chars, views};

verus! {

/// One NAT rule: the mapped segment, the real segment it stands for, and the
/// physical interface.
#[derive(Debug, Clone)]
pub struct NatRule {
    pub mapped_cidr: String,
    pub real_cidr: String,
    pub interface: String,
}

/// Why a NAT operation failed.
#[derive(Debug, Clone, PartialEq, Eq)]
pub enum NatError {
    /// The commands that add the rule failed.
    AddFailed { mapped_cidr: String, real_cidr: String, interface: String, cause: String },
    /// Some deletions of a cleanup failed; one line for each.
    CleanupFailed(Vec<String>),
}

/// The NAT rules that have been added.
pub struct NatManager {
    pub rules: Vec<NatRule>,
}

/// A rule as three texts: mapped segment, real segment, interface.
pub open spec fn rule_view(r: NatRule) -> (Seq<char>, Seq<char>, Seq<char>) {
    (r.mapped_cidr@, r.real_cidr@, r.interface@)
}

impl NatManager {
    /// The rules, as (mapped, real, interface) texts.
    pub open spec fn rule_views(&self) -> Seq<(Seq<char>, Seq<char>, Seq<char>)> {
        self.rules@.map_values(|r: NatRule| rule_view(r))
    }

    /// A manager with no rules.
    pub fn new() -> (m: NatManager)
        ensures
            m.rules@.len() == 0,
    {
        NatManager { rules: Vec::new() }
    }

    /// Records the rule once the commands that add it have run: on success
    /// the rule is kept, on failure nothing changes and the failure is
    /// reported.
    pub fn add_rule(
        &mut self,
        mapped_cidr: &str,
        real_cidr: &str,
        interface: &str,
        outcome: Result<(), String>,
    ) -> (r: Result<(), NatError>)
        ensures
            match outcome {
                Ok(_) => r is Ok && final(self).rule_views() == old(self).rule_views().push(
                    (mapped_cidr@, real_cidr@, interface@),
                ),
                Err(cause) => {
                    &&& final(self).rule_views() == old(self).rule_views()
                    &&& r matches Err(NatError::AddFailed { mapped_cidr: m, real_cidr: c, interface: i, cause: e })
                        && m@ == mapped_cidr@ && c@ == real_cidr@ && i@ == interface@ && e == cause
                },
            },
    {
        match outcome {
            Ok(_) => {
                let rule = NatRule {
                    mapped_cidr: mapped_cidr.to_owned(),
                    real_cidr: real_cidr.to_owned(),
                    interface: interface.to_owned(),
                };
                self.rules.push(rule);
                assert(self.rule_views() =~= old(self).rule_views().push(
                    (mapped_cidr@, real_cidr@, interface@),
                ));
                Ok(())
            },
            Err(cause) => Err(
                NatError::AddFailed {
                    mapped_cidr: mapped_cidr.to_owned(),
                    real_cidr: real_cidr.to_owned(),
                    interface: interface.to_owned(),
                    cause,
                },
            ),
        }
    }

    /// The rules to delete at cleanup, latest first.
    pub fn pending_deletions(&self) -> (r: Vec<NatRule>)
        ensures
            r@.len() == self.rules@.len(),
            forall|k: int|
                0 <= k < r@.len() ==> rule_view(#[trigger] r@[k]) == self.rule_views()[r@.len() - 1
                    - k],
    {
        let n = self.rules.len();
        let mut r: Vec<NatRule> = Vec::new();
        let mut i: usize = n;
        while i > 0
            invariant
                n == self.rules@.len(),
                i <= n,
                r@.len() == n - i,
                forall|k: int|
                    0 <= k < r@.len() ==> rule_view(#[trigger] r@[k]) == self.rule_views()[n - 1
                        - k],
            decreases i,
        {
            i -= 1;
            let rule = &self.rules[i];
            let copy = NatRule {
                mapped_cidr: rule.mapped_cidr.clone(),
                real_cidr: rule.real_cidr.clone(),
                interface: rule.interface.clone(),
            };
            r.push(copy);
        }
        r
    }

    /// Ends a cleanup: every rule is forgotten, whatever became of its
    /// deletion; the cleanup fails where any deletion did, with one line for
    /// each failure.
    pub fn cleanup(&mut self, failures: Vec<String>) -> (r: Result<(), NatError>)
        ensures
            final(self).rules@.len() == 0,
            failures@.len() == 0 ==> r is Ok,
            failures@.len() > 0 ==> r == Err::<(), NatError>(NatError::CleanupFailed(failures)),
    {
        self.rules.clear();
        if failures.len() == 0 {
            Ok(())
        } else {
            Err(NatError::CleanupFailed(failures))
        }
    }
}

impl Default for NatManager {
    fn default() -> (m: NatManager)
        ensures
            m.rules@.len() == 0,
    {
        NatManager::new()
    }
}

/// The part of a CIDR before its first `/`, or the whole text where it has
/// none.
pub open spec fn spec_cidr_base(cidr: Seq<char>) -> Seq<char> {
    match first_index_of(cidr, '/') {
        Some(i) => cidr.subrange(0, i),
        None => cidr,
    }
}

/// The network-address part of a CIDR (`192.168.1.0/24` gives
/// `192.168.1.0`); text without `/` is returned whole.
pub fn cidr_base(cidr: &str) -> (r: String)
    ensures
        r@ == spec_cidr_base(cidr@),
{
    let v = chars_of(cidr);
    match find_char(v.as_slice(), '/') {
        Some(i) => {
            proof {
                lemma_first_index_of(v@, '/', i as int);
            }
            let head = slice_chars(v.as_slice(), 0, i);
            string_from_chars(head.as_slice())
        },
        None => cidr.to_owned(),
    }
}

/// The texts of a list of strings.
pub open spec fn arg_views(v: Seq<String>) -> Seq<Seq<char>> {
    views(v)
}

pub(crate) fn owned(s: &str) -> (r: String)
    ensures
        r@ == s@,
{
    s.to_owned()
}

/// The `iptables` arguments of the DNAT rule of a mapping; `op` is `-A` to
/// add it and `-D` to delete it.
pub fn dnat_args(op: &str, mapped_cidr: &str, real_cidr: &str) -> (r: Vec<String>)
    ensures
        views(r@) == seq![
            "-t"@,
            "nat"@,
            op@,
            "PREROUTING"@,
            "-d"@,
            mapped_cidr@,
            "-j"@,
            "DNAT"@,
            "--to-destination"@,
            spec_cidr_base(real_cidr@),
        ],
{
    let mut r: Vec<String> = Vec::new();
    r.push(owned("-t"));
    r.push(owned("nat"));
    r.push(owned(op));
    r.push(owned("PREROUTING"));
    r.push(owned("-d"));
    r.push(owned(mapped_cidr));
    r.push(owned("-j"));
    r.push(owned("DNAT"));
    r.push(owned("--to-destination"));
    r.push(cidr_base(real_cidr));
    assert(views(r@) =~= seq![
        "-t"@,
        "nat"@,
        op@,
        "PREROUTING"@,
        "-d"@,
        mapped_cidr@,
        "-j"@,
        "DNAT"@,
        "--to-destination"@,
        spec_cidr_base(real_cidr@),
    ]);
    r
}

/// The `iptables` arguments of the MASQUERADE rule of a mapping; `op` is
/// `-A` to add it and `-D` to delete it.
pub fn masquerade_args(op: &str, real_cidr: &str, interface: &str) -> (r: Vec<String>)
    ensures
        views(r@) == seq![
            "-t"@,
            "nat"@,
            op@,
            "POSTROUTING"@,
            "-s"@,
            real_cidr@,
            "-o"@,
            interface@,
            "-j"@,
            "MASQUERADE"@,
        ],
{
    let mut r: Vec<String> = Vec::new();
    r.push(owned("-t"));
    r.push(owned("nat"));
    r.push(owned(op));
    r.push(owned("POSTROUTING"));
    r.push(owned("-s"));
    r.push(owned(real_cidr));
    r.push(owned("-o"));
    r.push(owned(interface));
    r.push(owned("-j"));
    r.push(owned("MASQUERADE"));
    assert(views(r@) =~= seq![
        "-t"@,
        "nat"@,
        op@,
        "POSTROUTING"@,
        "-s"@,
        real_cidr@,
        "-o"@,
        interface@,
        "-j"@,
        "MASQUERADE"@,
    ]);
    r
}

/// The line for a failed deletion in a cleanup report:
/// `mapped={m}, real={r}, iface={i}: {cause}`.
pub fn nat_cleanup_failure_line(rule: &NatRule, cause: &str) -> (s: String)
    ensures
        s@ == "mapped="@ + rule.mapped_cidr@ + ", real="@ + rule.real_cidr@ + ", iface="@
            + rule.interface@ + ": "@ + cause@,
{
    let mut v: Vec<char> = Vec::new();
    push_str(&mut v, "mapped=");
    push_str(&mut v, rule.mapped_cidr.as_str());
    push_str(&mut v, ", real=");
    push_str(&mut v, rule.real_cidr.as_str());
    push_str(&mut v, ", iface=");
    push_str(&mut v, rule.interface.as_str());
    push_str(&mut v, ": ");
    push_str(&mut v, cause);
    assert(v@ =~= "mapped="@ + rule.mapped_cidr@ + ", real="@ + rule.real_cidr@ + ", iface="@
        + rule.interface@ + ": "@ + cause@);
    string_from_chars(v.as_slice())
}

impl NatError {
    /// The message of the error.
    pub fn message(&self) -> (s: String)
        ensures
            s@ == match self {
                NatError::AddFailed { mapped_cidr, real_cidr, interface, cause } => "添加 NAT 规则失败 (mapped="@
                    + mapped_cidr@ + ", real="@ + real_cidr@ + ", iface="@ + interface@ + "): "@
                    + cause@,
                NatError::CleanupFailed(lines) => "部分 NAT 规则清理失败: "@ + join(views(lines@), "; "@),
            },
    {
        let mut v: Vec<char> = Vec::new();
        match self {
            NatError::AddFailed { mapped_cidr, real_cidr, interface, cause } => {
                push_str(&mut v, "添加 NAT 规则失败 (mapped=");
                push_str(&mut v, mapped_cidr.as_str());
                push_str(&mut v, ", real=");
                push_str(&mut v, real_cidr.as_str());
                push_str(&mut v, ", iface=");
                push_str(&mut v, interface.as_str());
                push_str(&mut v, "): ");
                push_str(&mut v, cause.as_str());
            },
            NatError::CleanupFailed(lines) => {
                push_str(&mut v, "部分 NAT 规则清理失败: ");
                let joined = join_strings(lines.as_slice(), "; ");
                push_str(&mut v, joined.as_str());
            },
        }
        string_from_chars(v.as_slice())
    }
}

} // verus!
