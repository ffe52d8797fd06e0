//! Where the control endpoint lives on the filesystem.
//!
//! The endpoint is a socket file named `cddns.sock` in the platform
//! runtime directory, falling back to the state directory and then to
//! `/tmp`. Only the directory lookups come from outside; the choice among
//! them is verified.

use vstd::prelude::*;
use crate::text::{push_str_chars, string_from_chars};

verus! {

/// Relies on dirs' `runtime_dir`: the platform runtime directory, if the
/// environment names one. The value depends on the environment, so
/// nothing is promised of it.
#[verifier::external_body]
fn runtime_dir_string() -> (r: Option<String>) {
    dirs::runtime_dir().map(|p| p.to_string_lossy().into_owned())
}

/// Relies on dirs' `state_dir`: the platform state directory, if the
/// environment names one. The value depends on the environment, so
/// nothing is promised of it.
#[verifier::external_body]
fn state_dir_string() -> (r: Option<String>) {
    dirs::state_dir().map(|p| p.to_string_lossy().into_owned())
}

/// The endpoint path for given directory lookups: the runtime directory
/// if present, else the state directory, else `/tmp`, with the socket
/// file name appended.
pub open spec fn socket_path_text(runtime: Option<Seq<char>>, state: Option<Seq<char>>) -> Seq<
    char,
> {
    (match runtime {
        Some(r) => r,
        None => match state {
            Some(s) => s,
            None => "/tmp"@,
        },
    }) + "/cddns.sock"@
}

/// Builds the endpoint path from the two directory lookups.
pub fn socket_path_from(runtime: Option<String>, state: Option<String>) -> (p: String)
    ensures
        p@ == socket_path_text(
            match runtime {
                Some(r) => Some(r@),
                None => None,
            },
            match state {
                Some(s) => Some(s@),
                None => None,
            },
        ),
{
    let mut out: Vec<char> = Vec::new();
    match &runtime {
        Some(r) => push_str_chars(&mut out, r.as_str()),
        None => match &state {
            Some(s) => push_str_chars(&mut out, s.as_str()),
            None => push_str_chars(&mut out, "/tmp"),
        },
    }
    push_str_chars(&mut out, "/cddns.sock");
    string_from_chars(&out)
}

/// The control endpoint's path in this environment. Whatever directory
/// the environment supplies, the path ends in the socket file name.
pub fn socket_path() -> (p: String)
    ensures
        p@.len() >= "/cddns.sock"@.len(),
        p@.subrange(p@.len() - "/cddns.sock"@.len(), p@.len() as int) == "/cddns.sock"@,
{
    let runtime = runtime_dir_string();
    let state = state_dir_string();
    let p = socket_path_from(runtime, state);
    proof {
        let suffix = "/cddns.sock"@;
        assert(p@.subrange(p@.len() - suffix.len(), p@.len() as int) =~= suffix);
    }
    p
}

} // verus!
