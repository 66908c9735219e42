//! The name of the machine that a run happens on.

use vstd::prelude::*;
use crate::config::text_of;

verus! {

/// The name that stands for a machine whose own name cannot be had.
pub open spec fn unknown_host() -> Seq<char> {
    "unknown"@
}

/// The host name to record, given the name that the system reported, if it
/// reported one.
pub open spec fn host_name_of(reported: Option<Seq<char>>) -> Seq<char> {
    match reported {
        Some(name) => name,
        None => unknown_host(),
    }
}

/// Asks the system for the machine's name. Wraps `hostname::get`; `None`
/// where the call fails or the name is no valid Unicode. Nothing is claimed
/// of the name that comes back.
#[verifier::external_body]
fn system_hostname() -> Option<String> {
    match hostname::get() {
        Ok(name) => name.into_string().ok(),
        Err(_) => None,
    }
}

/// The host name to record, given the name that the system reported, if it
/// reported one: that name, or `unknown`.
pub fn resolve_hostname(reported: Option<String>) -> (name: String)
    ensures
        name@ == host_name_of(text_of(reported)),
{
    match reported {
        Some(name) => name,
        None => "unknown".to_owned(),
    }
}

/// The name of this machine, or `unknown` where the system gives none.
/// Whatever the system reports, the result is what `resolve_hostname` makes
/// of it.
pub fn hostname() -> (name: String)
    ensures
        exists|reported: Option<Seq<char>>| name@ == host_name_of(reported),
{
    let reported = system_hostname();
    resolve_hostname(reported)
}

} // verus!
