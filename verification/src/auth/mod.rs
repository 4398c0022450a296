//! Access to the site: one shared password.

use vstd::prelude::*;
use vstd::string::*;

verus! {

/// The password that opens the site.
pub open spec fn site_password() -> Seq<char> {
    "goselkie"@
}

/// Decides whether a request may pass: it must bring a password, and the
/// password must be the site's.
pub fn check_password(password: Option<&str>) -> (accepted: bool)
    ensures
        accepted <==> (password matches Some(given) && given@ == site_password()),
{
    match password {
        Some(given) => {
            let given = String::from_str(given);
            let expected = String::from_str("goselkie");
            given == expected
        },
        None => false,
    }
}

} // verus!
