//! Deployment configuration decisions.

use vstd::prelude::*;

use crate::util::str_eq;

verus! {

/// The address the server binds to for a deployment-mode setting: the
/// loopback address for `DEV`, the wildcard address for `DOCKER`, and
/// nothing for any other setting, which the caller treats as a fatal
/// misconfiguration.
pub fn get_binding_address(app_env: &str) -> (r: Option<&'static str>)
    ensures
        app_env@ == "DEV"@ ==> (r matches Some(addr) && addr@ == "127.0.0.1"@),
        app_env@ == "DOCKER"@ ==> (r matches Some(addr) && addr@ == "0.0.0.0"@),
        app_env@ != "DEV"@ && app_env@ != "DOCKER"@ ==> r is None,
{
    proof {
        reveal_strlit("DEV");
        reveal_strlit("DOCKER");
        assert("DEV"@.len() == 3);
        assert("DOCKER"@.len() == 6);
        assert("DEV"@ != "DOCKER"@);
    }
    if str_eq(app_env, "DEV") {
        Some("127.0.0.1")
    } else if str_eq(app_env, "DOCKER") {
        Some("0.0.0.0")
    } else {
        None
    }
}

} // verus!
