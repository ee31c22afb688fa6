//! Sanitizing of bytes that are sent back as an HTTP header value.

use vstd::prelude::*;

verus! {

/// The byte that takes the place of one that may not stand in a header value.
pub const REPLACEMENT: u8 = 0x3f;

/// Whether `b` may stand in an HTTP field value: any byte from the space
/// upwards except DEL, or a horizontal tab.
pub open spec fn is_field_vchar(b: u8) -> bool {
    b >= 32 && b != 127 || b == 9
}

/// The byte that `b` is sent as.
pub open spec fn lossy_byte(b: u8) -> u8 {
    if is_field_vchar(b) {
        b
    } else {
        REPLACEMENT
    }
}

/// The header value that `val` is sent as: every byte by itself.
pub open spec fn lossy(val: Seq<u8>) -> Seq<u8> {
    Seq::new(val.len(), |i: int| lossy_byte(val[i]))
}

/// What is sent is as long as what was given, and every byte of it may
/// stand in a field value.
pub proof fn lemma_lossy_is_valid(val: Seq<u8>)
    ensures
        lossy(val).len() == val.len(),
        forall|i: int| 0 <= i < val.len() ==> is_field_vchar(#[trigger] lossy(val)[i]),
        forall|i: int|
            0 <= i < val.len() && is_field_vchar(val[i]) ==> #[trigger] lossy(val)[i] == val[i],
{
}

/// Whether `b` may stand in an HTTP field value.
pub fn is_valid(b: u8) -> (r: bool)
    ensures
        r == is_field_vchar(b),
{
    b >= 32 && b != 127 || b == 9
}

/// Turns `val` into bytes that are valid as a header value, replacing every
/// byte that is not with `?`. The length is kept.
pub fn header_val_lossy(val: &[u8]) -> (r: Vec<u8>)
    ensures
        r@ == lossy(val@),
        r@.len() == val@.len(),
        forall|i: int| 0 <= i < r@.len() ==> is_field_vchar(#[trigger] r@[i]),
{
    let mut bytes: Vec<u8> = Vec::with_capacity(val.len());
    let mut i: usize = 0;
    while i < val.len()
        invariant
            i <= val@.len(),
            bytes@ == lossy(val@.subrange(0, i as int)),
        decreases val@.len() - i,
    {
        let b: u8 = val[i];
        if is_valid(b) {
            bytes.push(b);
        } else {
            bytes.push(REPLACEMENT);
        }
        assert(bytes@ =~= lossy(val@.subrange(0, i + 1)));
        i += 1;
    }
    assert(val@.subrange(0, i as int) =~= val@);
    bytes
}

} // verus!
