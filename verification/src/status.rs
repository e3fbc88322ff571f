//! Response-status markers for the request log.

use vstd::prelude::*;

verus! {

/// The marker that the request log prints beside a response: `??` for a
/// missing page, `!!` for any other client or server error, `<3` for a
/// response that went well.
pub fn status_marker(status: u16) -> (r: String)
    ensures
        status == 404 ==> r@ == "??"@,
        status >= 400 && status != 404 ==> r@ == "!!"@,
        status < 400 ==> r@ == "<3"@,
{
    if status == 404 {
        "??".to_owned()
    } else if status >= 400 {
        "!!".to_owned()
    } else {
        "<3".to_owned()
    }
}

} // verus!
