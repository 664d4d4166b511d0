//! Text as the library compares it: by the bytes of its UTF-8 form.

use vstd::prelude::*;
use vstd::string::StringExecFns;
use vstd::utf8::encode_utf8;

verus! {

/// `a` and `b` agree on their first `k` bytes, and there `a` ends while `b`
/// goes on, or `a` has the smaller byte.
pub open spec fn less_at(a: Seq<u8>, b: Seq<u8>, k: int) -> bool {
    &&& 0 <= k <= a.len()
    &&& k < b.len()
    &&& a.subrange(0, k) == b.subrange(0, k)
    &&& k < a.len() ==> a[k] < b[k]
}

/// `a` comes before `b` in the order of a dictionary, byte by byte.
pub open spec fn bytes_less(a: Seq<u8>, b: Seq<u8>) -> bool {
    exists|k: int| less_at(a, b, k)
}

/// `a` comes after `b` when both are compared as UTF-8 bytes. For
/// timestamps of one fixed-width format this is the order in time.
pub open spec fn text_after(a: Seq<char>, b: Seq<char>) -> bool {
    bytes_less(encode_utf8(b), encode_utf8(a))
}

/// `s` ends with `suffix`, both taken as UTF-8 bytes.
pub open spec fn text_ends_with(s: Seq<char>, suffix: Seq<char>) -> bool {
    encode_utf8(suffix).is_suffix_of(encode_utf8(s))
}

pub fn is_bytes_less(a: &[u8], b: &[u8]) -> (less: bool)
    ensures
        less == bytes_less(a@, b@),
{
    let mut i: usize = 0;
    while i < a.len() && i < b.len()
        invariant
            i <= a.len(),
            i <= b.len(),
            forall|j: int| 0 <= j < i ==> a@[j] == b@[j],
        decreases a.len() - i,
    {
        if a[i] != b[i] {
            let less = a[i] < b[i];
            proof {
                lemma_first_difference(a@, b@, i as int);
            }
            return less;
        }
        i += 1;
    }
    proof {
        lemma_common_prefix(a@, b@, i as int);
    }
    i < b.len()
}

/// Where `a` and `b` first differ at `i`, the bytes at `i` decide.
proof fn lemma_first_difference(a: Seq<u8>, b: Seq<u8>, i: int)
    requires
        0 <= i < a.len(),
        i < b.len(),
        a[i] != b[i],
        forall|j: int| 0 <= j < i ==> a[j] == b[j],
    ensures
        bytes_less(a, b) == (a[i] < b[i]),
{
    if a[i] < b[i] {
        assert(a.subrange(0, i) =~= b.subrange(0, i));
        assert(less_at(a, b, i));
    } else {
        assert forall|k: int| !less_at(a, b, k) by {
            if less_at(a, b, k) {
                if k > i {
                    assert(a.subrange(0, k)[i] == b.subrange(0, k)[i]);
                }
            }
        }
    }
}

/// Where one of `a` and `b` is the other's first `i` bytes, the lengths
/// decide.
proof fn lemma_common_prefix(a: Seq<u8>, b: Seq<u8>, i: int)
    requires
        0 <= i <= a.len(),
        i <= b.len(),
        i == a.len() || i == b.len(),
        forall|j: int| 0 <= j < i ==> a[j] == b[j],
    ensures
        bytes_less(a, b) == (i < b.len()),
{
    if i < b.len() {
        assert(a.subrange(0, i) =~= b.subrange(0, i));
        assert(less_at(a, b, i));
    } else {
        assert forall|k: int| !less_at(a, b, k) by {}
    }
}

/// No text comes after itself.
pub proof fn law_text_after_is_strict(a: Seq<char>)
    ensures
        !text_after(a, a),
{
    let bytes = encode_utf8(a);
    assert forall|k: int| !less_at(bytes, bytes, k) by {}
}

/// Whether `a` comes after `b`.
pub fn text_greater(a: &str, b: &str) -> (after: bool)
    ensures
        after == text_after(a@, b@),
{
    is_bytes_less(b.as_bytes(), a.as_bytes())
}

/// Whether `s` ends with `suffix`.
pub fn ends_with(s: &str, suffix: &str) -> (ends: bool)
    ensures
        ends == text_ends_with(s@, suffix@),
{
    let text = s.as_bytes();
    let tail = suffix.as_bytes();
    if tail.len() > text.len() {
        return false;
    }
    let start: usize = text.len() - tail.len();
    let mut i: usize = 0;
    while i < tail.len()
        invariant
            start + tail.len() == text.len(),
            text@ == encode_utf8(s@),
            tail@ == encode_utf8(suffix@),
            i <= tail.len(),
            forall|j: int| 0 <= j < i ==> tail@[j] == text@[start + j],
        decreases tail.len() - i,
    {
        if tail[i] != text[start + i] {
            assert(text@.subrange(start as int, text@.len() as int)[i as int] != tail@[i as int]);
            return false;
        }
        i += 1;
    }
    assert(tail@ =~= text@.subrange(start as int, text@.len() as int));
    true
}

/// `s` with the first `count` occurrences of the character `from` turned
/// into the text `to`.
pub open spec fn replaced(s: Seq<char>, from: char, to: Seq<char>, count: nat) -> Seq<char>
    decreases s.len(),
{
    if s.len() == 0 || count == 0 {
        s
    } else if s[0] == from {
        to + replaced(s.drop_first(), from, to, (count - 1) as nat)
    } else {
        seq![s[0]] + replaced(s.drop_first(), from, to, count)
    }
}

/// Calls std's `str::replacen` with a character as the pattern: the first
/// `count` occurrences of `from` become `to`, in the order in which they
/// stand, and every other character stays.
#[verifier::external_body]
pub(crate) fn replace_first(s: &str, from: char, to: &str, count: usize) -> (result: String)
    ensures
        result@ == replaced(s@, from, to@, count as nat),
{
    s.replacen(from, to, count)
}

/// Adds `more` at the end of `text`.
pub fn append(text: &mut String, more: &str)
    ensures
        final(text)@ == old(text)@ + more@,
{
    text.append(more);
}

/// `first` followed by `second`.
pub fn joined(first: &str, second: &str) -> (both: String)
    ensures
        both@ == first@ + second@,
{
    let mut both = first.to_string();
    both.append(second);
    both
}

/// Whether `a` and `b` hold the same characters.
pub fn text_equal(a: &str, b: &str) -> (equal: bool)
    ensures
        equal == (a@ == b@),
{
    let left = a.as_bytes();
    let right = b.as_bytes();
    proof {
        vstd::utf8::encode_utf8_decode_utf8(a@);
        vstd::utf8::encode_utf8_decode_utf8(b@);
    }
    if left.len() != right.len() {
        return false;
    }
    let mut i: usize = 0;
    while i < left.len()
        invariant
            left.len() == right.len(),
            left@ == encode_utf8(a@),
            right@ == encode_utf8(b@),
            i <= left.len(),
            forall|j: int| 0 <= j < i ==> left@[j] == right@[j],
        decreases left.len() - i,
    {
        if left[i] != right[i] {
            return false;
        }
        i += 1;
    }
    assert(left@ =~= right@);
    true
}

} // verus!
