//! The configuration a node runs with: the configuration file, then the
//! command-line options over it, the role fixed by the mode.

use vstd::prelude::*;
use crate::cli::CommonArgs;
use crate::common_config::ClientConfig;
use crate::models::NodeRole;
use crate::text::{chars_of, push_chars, push_str, slice_chars, string_from_chars, trim_chars, trimmed};

verus! {

/// A lowercase hexadecimal digit.
pub open spec fn is_lower_hex(c: char) -> bool {
    ('0' <= c && c <= '9') || ('a' <= c && c <= 'f')
}

/// The hyphenated lowercase text of a UUID: 36 characters, `-` at 8, 13,
/// 18 and 23, lowercase hexadecimal digits elsewhere.
pub open spec fn is_uuid_text(s: Seq<char>) -> bool {
    &&& s.len() == 36
    &&& forall|i: int|
        0 <= i < 36 ==> if i == 8 || i == 13 || i == 18 || i == 23 {
            s[i] == '-'
        } else {
            is_lower_hex(#[trigger] s[i])
        }
}

/// `uuid::Uuid::new_v4().to_string()`: a random UUID, whose text the crate
/// writes in hyphenated lowercase form. Which UUID comes out is left open.
#[verifier::external_body]
fn new_uuid_text() -> (s: String)
    ensures
        is_uuid_text(s@),
{
    uuid::Uuid::new_v4().to_string()
}

/// The configuration with the options over it: every option given takes
/// the place of the file's value; the role is the mode's.
pub open spec fn overridden(file: ClientConfig, common: CommonArgs, role: NodeRole, c: ClientConfig) -> bool {
    &&& c.role == role
    &&& c.server_addr@ == match common.server_addr {
        Some(a) => a@,
        None => file.server_addr@,
    }
    &&& c.remark == match common.remark {
        Some(r) => Some(r),
        None => file.remark,
    }
    &&& c.auto_reconnect == match common.auto_reconnect {
        Some(b) => b,
        None => file.auto_reconnect,
    }
    &&& c.auto_start == match common.auto_start {
        Some(b) => b,
        None => file.auto_start,
    }
    &&& c.log_level@ == match common.log_level {
        Some(l) => l@,
        None => file.log_level@,
    }
}

/// The name before the fallback: the option's, else the file's.
pub open spec fn chosen_name(file: ClientConfig, common: CommonArgs) -> Seq<char> {
    match common.name {
        Some(n) => n@,
        None => file.node_name@,
    }
}

fn pick_text(opt: &Option<String>, base: String) -> (r: String)
    ensures
        r@ == match opt {
            Some(v) => v@,
            None => base@,
        },
{
    match opt {
        Some(v) => v.clone(),
        None => base,
    }
}

/// The name of a node that was given none: `node-` and the first eight
/// characters of the UUID text `uuid_text`.
pub fn default_node_name(uuid_text: &str) -> (s: String)
    requires
        is_uuid_text(uuid_text@),
    ensures
        s@ == "node-"@ + uuid_text@.subrange(0, 8),
{
    let id_chars = chars_of(uuid_text);
    let head = slice_chars(id_chars.as_slice(), 0, 8);
    let mut v: Vec<char> = Vec::new();
    push_str(&mut v, "node-");
    push_chars(&mut v, head.as_slice());
    string_from_chars(v.as_slice())
}

/// The configuration a node runs with, from the file's configuration
/// `file` (or the defaults), the options and the mode's role. A server
/// address that is blank after trimming is refused; a blank name becomes
/// `node-` and eight random lowercase hexadecimal digits.
pub fn resolve(file: ClientConfig, common: &CommonArgs, role: NodeRole) -> (r: Result<ClientConfig, String>)
    ensures
        trimmed(match common.server_addr {
            Some(a) => a@,
            None => file.server_addr@,
        }).len() == 0 ==> (r matches Err(m) && m@ == "服务端地址不能为空，请通过 --server-addr 或配置文件指定"@),
        r matches Ok(c) ==> {
            &&& overridden(file, *common, role, c)
            &&& trimmed(chosen_name(file, *common)).len() > 0 ==> c.node_name@ == chosen_name(file, *common)
            &&& trimmed(chosen_name(file, *common)).len() == 0 ==> {
                &&& c.node_name@.len() == 13
                &&& c.node_name@.subrange(0, 5) == "node-"@
                &&& forall|i: int| 5 <= i < 13 ==> is_lower_hex(#[trigger] c.node_name@[i])
            }
        },
        trimmed(match common.server_addr {
            Some(a) => a@,
            None => file.server_addr@,
        }).len() > 0 ==> r is Ok,
{
    let server_addr = pick_text(&common.server_addr, file.server_addr);
    let node_name = pick_text(&common.name, file.node_name);
    let remark = match &common.remark {
        Some(r) => Some(r.clone()),
        None => file.remark,
    };
    let auto_reconnect = match common.auto_reconnect {
        Some(b) => b,
        None => file.auto_reconnect,
    };
    let auto_start = match common.auto_start {
        Some(b) => b,
        None => file.auto_start,
    };
    let log_level = pick_text(&common.log_level, file.log_level);
    let addr_chars = chars_of(server_addr.as_str());
    if trim_chars(addr_chars.as_slice()).len() == 0 {
        return Err("服务端地址不能为空，请通过 --server-addr 或配置文件指定".to_owned());
    }
    let name_chars = chars_of(node_name.as_str());
    let node_name = if trim_chars(name_chars.as_slice()).len() == 0 {
        let id = new_uuid_text();
        let name = default_node_name(id.as_str());
        proof {
            reveal_strlit("node-");
            assert(name@.subrange(0, 5) =~= "node-"@);
            assert forall|i: int| 5 <= i < 13 implies is_lower_hex(#[trigger] name@[i]) by {
                assert(name@[i] == id@[i - 5]);
            }
        }
        name
    } else {
        node_name
    };
    Ok(
        ClientConfig {
            server_addr,
            node_name,
            role,
            remark,
            auto_reconnect,
            auto_start,
            log_level,
        },
    )
}


/// `PathBuf::join` of a relative name under `/` separators: `dir`, a `/`
/// where `dir` does not end in one, and `name`.
pub open spec fn joined(dir: Seq<char>, name: Seq<char>) -> Seq<char> {
    if dir.len() == 0 || dir.last() == '/' {
        dir + name
    } else {
        dir + "/"@ + name
    }
}

fn join_path(dir: &str, name: &str) -> (r: String)
    ensures
        r@ == joined(dir@, name@),
{
    let mut v = chars_of(dir);
    let n = v.len();
    if n > 0 && v[n - 1] != '/' {
        push_str(&mut v, "/");
    }
    push_str(&mut v, name);
    string_from_chars(v.as_slice())
}

/// The configuration directory: `.net-tool` in the home directory (from
/// `HOME`, else `USERPROFILE`), or in the working directory where neither
/// is set.
pub fn config_dir(home: Option<&str>) -> (r: String)
    ensures
        r@ == match home {
            Some(h) => joined(h@, ".net-tool"@),
            None => ".net-tool"@,
        },
{
    match home {
        Some(h) => join_path(h, ".net-tool"),
        None => ".net-tool".to_owned(),
    }
}

/// The default configuration file: `config.toml` in [`config_dir`].
pub fn config_path(home: Option<&str>) -> (r: String)
    ensures
        r@ == joined(
            match home {
                Some(h) => joined(h@, ".net-tool"@),
                None => ".net-tool"@,
            },
            "config.toml"@,
        ),
{
    let dir = config_dir(home);
    join_path(dir.as_str(), "config.toml")
}

} // verus!
