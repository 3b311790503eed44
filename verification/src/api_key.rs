//! Internal API key check, compared in constant time.
use vstd::prelude::*;

verus! {

broadcast use vstd::string::group_string_axioms;

/// The header that carries the internal API key.
pub const API_KEY_HEADER: &'static str = "X-API-Key";

/// Whether the presented key (absent when the header is missing or not
/// text) matches the configured key (absent when not configured): both must
/// be present and have the same bytes.  Every byte is compared, whatever
/// the earlier bytes were.
pub fn validate_api_key(presented: Option<&str>, expected: Option<&str>) -> (res: bool)
    ensures
        res == match (presented, expected) {
            (Some(p), Some(e)) => vstd::utf8::encode_utf8(p@) == vstd::utf8::encode_utf8(e@),
            _ => false,
        },
{
    let (p, e) = match (presented, expected) {
        (Some(p), Some(e)) => (p, e),
        _ => {
            return false;
        },
    };
    let a = p.as_bytes();
    let b = e.as_bytes();
    if a.len() != b.len() {
        return false;
    }
    let mut acc: u8 = 0;
    let mut i: usize = 0;
    while i < a.len()
        invariant
            a@.len() == b@.len(),
            i <= a@.len(),
            (acc == 0) == (forall|j: int| 0 <= j < i ==> a@[j] == b@[j]),
        decreases a@.len() - i,
    {
        let x = a[i];
        let y = b[i];
        let next: u8 = acc | (x ^ y);
        assert((next == 0) == (acc == 0 && x == y)) by (bit_vector)
            requires next == acc | (x ^ y);
        acc = next;
        i = i + 1;
    }
    let same = acc == 0;
    proof {
        if same {
            assert(a@ =~= b@);
        }
    }
    same
}

} // verus!
