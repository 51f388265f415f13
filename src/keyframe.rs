//! Detection of a stream-start unit (instantaneous refresh slice or sequence
//! parameter set) in a chunk of a start-code delimited elementary stream.
use vstd::prelude::*;

verus! {

/// Unit type of an instantaneous decoder refresh slice.
pub const UNIT_TYPE_IDR: u8 = 5;

/// Unit type of a sequence parameter set.
pub const UNIT_TYPE_SPS: u8 = 7;

/// The unit type held in the low five bits of a unit's first byte.
pub open spec fn unit_type(b: u8) -> u8 {
    b & 0x1fu8
}

/// A decoder can start from a unit of this type.
pub open spec fn is_stream_start_type(t: u8) -> bool {
    t == UNIT_TYPE_IDR || t == UNIT_TYPE_SPS
}

/// A three-byte start code `00 00 01` begins at `i` and the unit after it is a
/// stream-start unit. A four-byte code `00 00 00 01` at `i - 1` holds the same
/// three bytes, so both forms are covered.
pub open spec fn stream_start_at(s: Seq<u8>, i: int) -> bool {
    &&& 0 <= i
    &&& i + 3 < s.len()
    &&& s[i] == 0
    &&& s[i + 1] == 0
    &&& s[i + 2] == 1
    &&& is_stream_start_type(unit_type(s[i + 3]))
}

/// Some start code in `s` is followed by a stream-start unit.
pub open spec fn has_stream_start(s: Seq<u8>) -> bool {
    exists|i: int| stream_start_at(s, i)
}

/// Both start-code forms: a stream-start unit after a four-byte code
/// `00 00 00 01` at `i`, or after a three-byte code `00 00 01` at `i`, is found.
pub proof fn lemma_either_start_code(s: Seq<u8>, i: int)
    requires
        0 <= i,
        (i + 4 < s.len() && s[i] == 0 && s[i + 1] == 0 && s[i + 2] == 0 && s[i + 3] == 1
            && is_stream_start_type(unit_type(s[i + 4]))) || (i + 3 < s.len() && s[i] == 0 && s[i
            + 1] == 0 && s[i + 2] == 1 && is_stream_start_type(unit_type(s[i + 3]))),
    ensures
        has_stream_start(s),
{
    if stream_start_at(s, i) {
    } else {
        assert(stream_start_at(s, i + 1));
    }
}

fn is_start_unit_byte(b: u8) -> (r: bool)
    ensures
        r == is_stream_start_type(unit_type(b)),
{
    let t: u8 = b & 0x1f;
    t == UNIT_TYPE_IDR || t == UNIT_TYPE_SPS
}

/// Scans `unit` once for start codes, always stepping past the longest code
/// that matches, and reports whether one of them introduces a stream-start unit.
pub fn contains_keyframe(unit: &[u8]) -> (r: bool)
    ensures
        r == has_stream_start(unit@),
{
    let n: usize = unit.len();
    let mut i: usize = 0;
    while i < n && n - i > 3
        invariant
            i <= n,
            n == unit@.len(),
            forall|j: int| 0 <= j < i ==> !stream_start_at(unit@, j),
        decreases n - i,
    {
        if unit[i] == 0 && unit[i + 1] == 0 && unit[i + 2] == 0 && unit[i + 3] == 1 {
            if n - i > 4 && is_start_unit_byte(unit[i + 4]) {
                assert(stream_start_at(unit@, i + 1));
                return true;
            }
            i = i + 4;
        } else if unit[i] == 0 && unit[i + 1] == 0 && unit[i + 2] == 1 {
            if is_start_unit_byte(unit[i + 3]) {
                assert(stream_start_at(unit@, i as int));
                return true;
            }
            i = i + 3;
        } else {
            i = i + 1;
        }
    }
    assert forall|j: int| !stream_start_at(unit@, j) by {
        if 0 <= j && j < i {
        }
    }
    false
}

} // verus!
