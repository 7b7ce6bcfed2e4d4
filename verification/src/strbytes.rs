//! Byte-level text helpers: trailing-zero stripping for zero-padded wire
//! names, and the one trusted bridge to UTF-8 decoding.
use vstd::prelude::*;
use vstd::utf8::{encode_utf8, valid_utf8};

verus! {

/// The bytes with every trailing zero removed.
pub open spec fn strip_trailing_zeros(s: Seq<u8>) -> Seq<u8>
    decreases s.len(),
{
    if s.len() > 0 && s.last() == 0 {
        strip_trailing_zeros(s.drop_last())
    } else {
        s
    }
}

/// Remove the zero padding at the end of a wire name.
pub fn trim_trailing_zeros(bytes: &Vec<u8>) -> (r: Vec<u8>)
    ensures
        r@ == strip_trailing_zeros(bytes@),
{
    let mut end = bytes.len();
    proof {
        assert(bytes@.take(bytes@.len() as int) =~= bytes@);
    }
    while end > 0 && bytes[end - 1] == 0
        invariant
            end <= bytes@.len(),
            strip_trailing_zeros(bytes@) == strip_trailing_zeros(bytes@.take(end as int)),
        decreases end,
    {
        proof {
            assert(bytes@.take(end as int).drop_last() =~= bytes@.take(end - 1));
        }
        end = end - 1;
    }
    proof {
        if end > 0 {
            assert(strip_trailing_zeros(bytes@.take(end as int)) == bytes@.take(end as int));
        } else {
            assert(bytes@.take(0) =~= Seq::<u8>::empty());
        }
    }
    let mut out: Vec<u8> = Vec::new();
    let mut i: usize = 0;
    while i < end
        invariant
            end <= bytes@.len(),
            i <= end,
            out@ =~= bytes@.take(end as int).take(i as int),
        decreases end - i,
    {
        out.push(bytes[i]);
        proof {
            assert(bytes@.take(end as int).take(i + 1) =~= bytes@.take(end as int).take(
                i as int,
            ).push(bytes@[i as int]));
        }
        i = i + 1;
    }
    proof {
        assert(bytes@.take(end as int).take(end as int) =~= bytes@.take(end as int));
    }
    out
}

/// Relies on `String::from_utf8`: succeeds exactly on valid UTF-8 and
/// returns a string holding exactly the given bytes.
#[verifier::external_body]
pub fn string_from_utf8(bytes: Vec<u8>) -> (r: Option<String>)
    ensures
        match r {
            Some(s) => valid_utf8(bytes@) && encode_utf8(s@) == bytes@,
            None => !valid_utf8(bytes@),
        },
{
    String::from_utf8(bytes).ok()
}

} // verus!
