//! Translation of host key codes into the machine's sixteen logical keys.
use vstd::prelude::*;

verus! {

/// The logical key of a host key code: the digits '0' to '9' give keys 0x0
/// to 0x9, the letters 'a' to 'f' give keys 0xA to 0xF; other codes give none.
pub fn key_value(code: i32) -> (r: Option<u8>)
    ensures
        48 <= code <= 57 ==> r == Some((code - 48) as u8),
        97 <= code <= 102 ==> r == Some((code - 87) as u8),
        !(48 <= code <= 57) && !(97 <= code <= 102) ==> r is None,
        r matches Some(k) ==> k < 16,
{
    if code >= 48 && code <= 57 {
        Some((code - 48) as u8)
    } else if code >= 97 && code <= 102 {
        Some((code - 97 + 10) as u8)
    } else {
        None
    }
}

} // verus!
