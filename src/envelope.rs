use vstd::prelude::*;
use vstd::string::*;

use crate::resource::{kind_name, ResourceKind};

verus! {

/// One successful read of a resource, as the core handles it.
///
/// `data` is the value already written as JSON; `warning` is the severity in
/// `[0, 1]` written as a JSON number, `icon` a short symbolic tag. `levels`
/// are the integer measures a threshold comparator looks at (for memory:
/// used-memory and used-swap percentages).
#[derive(Debug)]
pub struct Reading {
    pub data: String,
    pub warning: Option<String>,
    pub icon: Option<String>,
    pub levels: Vec<u64>,
}

/// What a JSON string literal for `s` looks like: the characters of `s`
/// between double quotes, with quotes, backslashes and control characters
/// escaped.
pub uninterp spec fn json_quoted(s: Seq<char>) -> Seq<char>;

/// Relies on serde_json's `Display` for `Value::String`: it writes `s` as a
/// JSON string literal.
#[verifier::external_body]
fn quote_json(s: &str) -> (r: String)
    ensures
        r@ == json_quoted(s@),
{
    serde_json::Value::String(s.to_string()).to_string()
}

/// The warning a reading carries on the wire: its own, or zero.
pub open spec fn warning_text(r: Reading) -> Seq<char> {
    match r.warning {
        Some(w) => w@,
        None => "0.0"@,
    }
}

/// The icon a reading carries on the wire: its own, or empty.
pub open spec fn icon_text(r: Reading) -> Seq<char> {
    match r.icon {
        Some(i) => i@,
        None => Seq::empty(),
    }
}

/// The single-line envelope that carries reading `r` of resource `name`.
pub open spec fn envelope(name: Seq<char>, r: Reading) -> Seq<char> {
    "{\"resource\":\""@ + name + "\",\"warning\":"@ + warning_text(r) + ",\"icon\":"@
        + json_quoted(icon_text(r)) + ",\"data\":"@ + r.data@ + "}"@
}

/// The envelope of an update of resource `k`.
pub open spec fn update_message(k: ResourceKind, r: Reading) -> Seq<char> {
    envelope(kind_name(k), r)
}

/// Writes the envelope that carries reading `r` of resource `name`.
pub fn encode_envelope(name: &str, r: &Reading) -> (m: String)
    ensures
        m@ == envelope(name@, *r),
{
    let mut m = String::from_str("{\"resource\":\"");
    m.append(name);
    m.append("\",\"warning\":");
    match &r.warning {
        Some(w) => m.append(w.as_str()),
        None => m.append("0.0"),
    }
    m.append(",\"icon\":");
    let icon = match &r.icon {
        Some(i) => quote_json(i.as_str()),
        None => quote_json(""),
    };
    m.append(icon.as_str());
    m.append(",\"data\":");
    m.append(r.data.as_str());
    m.append("}");
    proof {
        if r.icon.is_none() {
            assert(""@ =~= Seq::<char>::empty()) by {
                reveal_strlit("");
            }
        }
    }
    assert(m@ =~= envelope(name@, *r));
    m
}

/// Writes the envelope of an update of resource `k`: the one encoding used
/// both for incremental updates and for connect-time bursts.
pub fn encode_update(k: ResourceKind, r: &Reading) -> (m: String)
    ensures
        m@ == update_message(k, *r),
{
    encode_envelope(k.name(), r)
}

/// Frames one envelope as a line of the newline-delimited stream that
/// subscribers read.
pub fn frame_line(msg: &str) -> (line: String)
    ensures
        line@ == msg@.push('\n'),
{
    let mut line = String::from_str(msg);
    line.append("\n");
    proof {
        reveal_strlit("\n");
    }
    assert(line@ =~= msg@.push('\n'));
    line
}

} // verus!
