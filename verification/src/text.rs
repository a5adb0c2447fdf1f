//! Exact comparison and joining of names.

use vstd::prelude::*;
use vstd::utf8::{encode_utf8, encode_utf8_decode_utf8};

verus! {

/// Two texts with the same UTF-8 encoding are the same text.
pub proof fn lemma_utf8_injective(a: Seq<char>, b: Seq<char>)
    requires
        encode_utf8(a) == encode_utf8(b),
    ensures
        a == b,
{
    encode_utf8_decode_utf8(a);
    encode_utf8_decode_utf8(b);
}

/// Whether two texts are the same, character for character.
pub fn str_eq(a: &str, b: &str) -> (same: bool)
    ensures
        same == (a@ == b@),
{
    let x = a.as_bytes();
    let y = b.as_bytes();
    if x.len() != y.len() {
        return false;
    }
    let mut i: usize = 0;
    while i < x.len()
        invariant
            i <= x@.len(),
            x@.len() == y@.len(),
            x@ == encode_utf8(a@),
            y@ == encode_utf8(b@),
            forall|j: int| 0 <= j < i ==> x@[j] == y@[j],
        decreases x@.len() - i,
    {
        if x[i] != y[i] {
            return false;
        }
        i += 1;
    }
    proof {
        assert(x@ =~= y@);
        lemma_utf8_injective(a@, b@);
    }
    true
}

/// The text `left`, then `sep`, then `right`.
pub open spec fn joined(left: Seq<char>, sep: Seq<char>, right: Seq<char>) -> Seq<char> {
    left + sep + right
}

/// Joins two texts with a separator between them.
pub fn join(left: &str, sep: &str, right: &str) -> (out: String)
    ensures
        out@ == joined(left@, sep@, right@),
{
    let mut out = String::from_str(left);
    out.append(sep);
    out.append(right);
    out
}

/// Joining with one separator keeps apart what differs on the right.
pub proof fn lemma_joined_injective_right(left: Seq<char>, sep: Seq<char>, a: Seq<char>, b: Seq<char>)
    requires
        joined(left, sep, a) == joined(left, sep, b),
    ensures
        a == b,
{
    let n = (left + sep).len() as int;
    assert(a =~= joined(left, sep, a).subrange(n, n + a.len()));
    assert(b =~= joined(left, sep, b).subrange(n, n + b.len()));
}

/// Joining with one separator and one right-hand text keeps apart what
/// differs on the left.
pub proof fn lemma_joined_injective_left(a: Seq<char>, b: Seq<char>, sep: Seq<char>, right: Seq<char>)
    requires
        joined(a, sep, right) == joined(b, sep, right),
    ensures
        a == b,
{
    assert(joined(b, sep, right).len() == b.len() + sep.len() + right.len());
    assert(b =~= joined(b, sep, right).subrange(0, b.len() as int));
}

} // verus!
