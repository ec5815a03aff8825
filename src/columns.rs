use vstd::prelude::*;
use crate::text::same_text;

verus! {

/// The stored form of an ad group's configured status: 1 when it is
/// `AD_STATUS_NORMAL`, 0 for any other status or none.
pub fn configured_status_bit(status: Option<&str>) -> (r: u8)
    ensures
        r == (if status matches Some(s) && s@ == "AD_STATUS_NORMAL"@ {
            1u8
        } else {
            0u8
        }),
{
    match status {
        Some(s) => if same_text(s, "AD_STATUS_NORMAL") {
            1
        } else {
            0
        },
        None => 0,
    }
}

/// Whether an RTA answer is worth a write: its RTA info or its interface
/// info is present and is not an empty object.
pub fn rta_has_content(rta_present: bool, rta_empty: bool, interface_present: bool, interface_empty: bool) -> (r: bool)
    ensures
        r == ((rta_present && !rta_empty) || (interface_present && !interface_empty)),
{
    (rta_present && !rta_empty) || (interface_present && !interface_empty)
}

} // verus!
