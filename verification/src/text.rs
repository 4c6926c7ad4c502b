//! Decoding file bytes into source text: UTF-8 with any leading
//! byte-order-marks stripped.

use vstd::prelude::*;

verus! {

use vstd::utf8::{valid_utf8, decode_utf8};

/// True when the bytes begin with the UTF-8 encoding of U+FEFF,
/// the byte-order-mark.
pub open spec fn starts_with_bom(b: Seq<u8>) -> bool {
    b.len() >= 3 && b[0] == 0xefu8 && b[1] == 0xbbu8 && b[2] == 0xbfu8
}

/// The bytes with every leading byte-order-mark removed.
pub open spec fn strip_boms(b: Seq<u8>) -> Seq<u8>
    decreases b.len(),
{
    if starts_with_bom(b) {
        strip_boms(b.skip(3))
    } else {
        b
    }
}

/// Relies on `core::str::from_utf8`: it returns `Ok` exactly on valid UTF-8
/// input, and the resulting string is that input's decoding.
#[verifier::external_body]
pub(crate) fn utf8_to_string(bytes: &[u8]) -> (r: Option<String>)
    ensures
        r is Some <==> valid_utf8(bytes@),
        r matches Some(s) ==> s@ == decode_utf8(bytes@),
{
    match core::str::from_utf8(bytes) {
        Ok(s) => Some(s.to_owned()),
        Err(_) => None,
    }
}

/// Decodes file bytes into source text.
///
/// Every leading byte-order-mark is dropped (U+FEFF encodes as the three
/// bytes stripped here, so stripping before decoding equals stripping the
/// decoded character), then the rest must be valid UTF-8.
pub fn decode_source_text(bytes: &Vec<u8>) -> (r: Option<String>)
    ensures
        r is Some <==> valid_utf8(strip_boms(bytes@)),
        r matches Some(s) ==> s@ == decode_utf8(strip_boms(bytes@)),
{
    let n = bytes.len();
    let mut i: usize = 0;
    proof {
        assert(bytes@.skip(0) =~= bytes@);
    }
    while n - i >= 3 && bytes[i] == 0xef && bytes[i + 1] == 0xbb && bytes[i + 2] == 0xbf
        invariant
            i <= n,
            n == bytes.len(),
            strip_boms(bytes@) == strip_boms(bytes@.skip(i as int)),
        decreases n - i,
    {
        proof {
            assert(starts_with_bom(bytes@.skip(i as int)));
            assert(bytes@.skip(i as int).skip(3) =~= bytes@.skip(i as int + 3));
        }
        i = i + 3;
    }
    let mut rest: Vec<u8> = Vec::new();
    let mut j: usize = i;
    while j < n
        invariant
            i <= j <= n,
            n == bytes.len(),
            rest@ =~= bytes@.subrange(i as int, j as int),
        decreases n - j,
    {
        rest.push(bytes[j]);
        j = j + 1;
    }
    proof {
        assert(rest@ =~= bytes@.skip(i as int));
        assert(!starts_with_bom(bytes@.skip(i as int)));
        assert(strip_boms(bytes@.skip(i as int)) == bytes@.skip(i as int));
    }
    utf8_to_string(rest.as_slice())
}

} // verus!
