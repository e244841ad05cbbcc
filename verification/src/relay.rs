//! Settings of the relay that forwards browser logs into the orchestrator.

use vstd::prelude::*;
use crate::text::{ascii_lowercase, ascii_lowercase_chars, chars_equal_str, to_chars, trim, trim_chars};

verus! {

/// The values of `LOG_VERBOSE` that turn verbose relay output off.
pub open spec fn verbose_off(v: Seq<char>) -> bool {
    v == "false"@ || v == "0"@ || v == "no"@ || v == "off"@
}

/// Whether relayed logs are formatted verbosely, given the value of
/// `LOG_VERBOSE`: only `false`, `0`, `no` and `off` (trimmed, in any ASCII
/// case) turn it off; it is on when the variable is unset.
pub fn verbose_setting(value: Option<&str>) -> (b: bool)
    ensures
        b == match value {
            Some(v) => !verbose_off(ascii_lowercase(trim(v@))),
            None => true,
        },
{
    match value {
        Some(v) => {
            let t = trim_chars(&to_chars(v));
            let l = ascii_lowercase_chars(&t);
            proof {
                reveal_strlit("false");
                reveal_strlit("0");
                reveal_strlit("no");
                reveal_strlit("off");
            }
            !(chars_equal_str(&l, "false") || chars_equal_str(&l, "0") || chars_equal_str(&l, "no")
                || chars_equal_str(&l, "off"))
        },
        None => true,
    }
}

} // verus!
