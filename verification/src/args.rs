//! What the command line and the environment decide together.

use vstd::prelude::*;
use vstd::utf8::encode_utf8;
use crate::utils::text::bytes_eq;

verus! {

/// Whether the value of the plain-log variable leaves the log as the command
/// line asks: the variable is not set, or is `0`, `f` or `false`.
pub open spec fn leaves_ansi(plain: Option<Seq<u8>>) -> bool {
    match plain {
        None => true,
        Some(value) => value == encode_utf8("0"@) || value == encode_utf8("f"@) || value
            == encode_utf8("false"@),
    }
}

/// Whether the log is written with ANSI colors, where `flag` is what the
/// command line asks for and `plain` the value of the plain-log variable of
/// the environment: any value of the variable but `0`, `f` and `false`
/// switches the colors off.
pub fn ansi(flag: bool, plain: Option<&[u8]>) -> (r: bool)
    ensures
        r == (flag && leaves_ansi(plain.deep_view())),
{
    match plain {
        None => flag,
        Some(value) => {
            assert(value.deep_view() =~= value@);
            if bytes_eq(value, "0".as_bytes()) || bytes_eq(value, "f".as_bytes()) || bytes_eq(
                value,
                "false".as_bytes(),
            ) {
                flag
            } else {
                false
            }
        },
    }
}

} // verus!
