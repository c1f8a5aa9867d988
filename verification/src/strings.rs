//! Strings by their characters.

use vstd::prelude::*;
use vstd::string::*;

verus! {

/// Whether `needle` stands at some place in `haystack`.
pub open spec fn occurs<T>(needle: Seq<T>, haystack: Seq<T>) -> bool {
    exists|i: int| occurs_at(needle, haystack, i)
}

/// Whether `needle` stands in `haystack` at place `i`.
pub open spec fn occurs_at<T>(needle: Seq<T>, haystack: Seq<T>, i: int) -> bool {
    0 <= i && i + needle.len() <= haystack.len() && haystack.subrange(i, i + needle.len())
        == needle
}

/// Whether `prefix` stands at the start of `s`.
pub open spec fn begins<T>(s: Seq<T>, prefix: Seq<T>) -> bool {
    occurs_at(prefix, s, 0)
}

/// Whether `suffix` stands at the end of `s`.
pub open spec fn finishes<T>(s: Seq<T>, suffix: Seq<T>) -> bool {
    occurs_at(suffix, s, s.len() - suffix.len())
}

/// The characters of a string.
pub fn characters(s: &str) -> (r: Vec<char>)
    ensures
        r@ == s@,
{
    let mut chars: Vec<char> = Vec::new();
    for c in it: s.chars()
        invariant
            it.seq() == s@,
            chars@ == it.seq().take(it.index()),
    {
        chars.push(c);
    }
    assert(s@.take(s@.len() as int) =~= s@);
    chars
}

/// Whether `needle` stands in `haystack` at place `at`.
fn stands_at(haystack: &Vec<char>, needle: &Vec<char>, at: usize) -> (r: bool)
    requires
        at + needle@.len() <= haystack@.len(),
    ensures
        r == occurs_at(needle@, haystack@, at as int),
{
    let size: usize = haystack.len();
    let mut i: usize = 0;
    while i < needle.len()
        invariant
            size == haystack@.len(),
            at + needle@.len() <= haystack@.len(),
            i <= needle@.len(),
            forall|j: int| 0 <= j < i ==> haystack@[at + j] == needle@[j],
        decreases needle@.len() - i,
    {
        if haystack[at + i] != needle[i] {
            assert(haystack@.subrange(at as int, at + needle@.len())[i as int] != needle@[i as int]);
            return false;
        }
        i += 1;
    }
    assert(haystack@.subrange(at as int, at + needle@.len()) =~= needle@);
    true
}

/// Whether two strings hold the same characters.
pub fn same_text(a: &str, b: &str) -> (r: bool)
    ensures
        r == (a@ == b@),
{
    let x = characters(a);
    let y = characters(b);
    if x.len() != y.len() {
        return false;
    }
    let r = stands_at(&x, &y, 0);
    assert(x@.subrange(0, y@.len() as int) =~= x@);
    r
}

/// Whether `s` starts with `prefix`.
pub fn starts_with(s: &str, prefix: &str) -> (r: bool)
    ensures
        r == begins(s@, prefix@),
{
    let x = characters(s);
    let y = characters(prefix);
    y.len() <= x.len() && stands_at(&x, &y, 0)
}

/// Whether `s` ends with `suffix`.
pub fn ends_with(s: &str, suffix: &str) -> (r: bool)
    ensures
        r == finishes(s@, suffix@),
{
    let x = characters(s);
    let y = characters(suffix);
    y.len() <= x.len() && stands_at(&x, &y, x.len() - y.len())
}

/// Whether `needle` stands in `s`.
pub fn has_substring(s: &str, needle: &str) -> (r: bool)
    ensures
        r == occurs(needle@, s@),
{
    let x = characters(s);
    let y = characters(needle);
    if y.len() > x.len() {
        return false;
    }
    let last: usize = x.len() - y.len();
    let mut i: usize = 0;
    while i <= last
        invariant
            last == x@.len() - y@.len(),
            i <= last + 1,
            x@ == s@,
            y@ == needle@,
            forall|j: int| 0 <= j < i ==> !occurs_at(y@, x@, j),
        decreases last + 1 - i,
    {
        if stands_at(&x, &y, i) {
            return true;
        }
        if i == last {
            return false;
        }
        i += 1;
    }
    false
}

/// Whether `list` holds `s`.
pub fn has_text(list: &Vec<String>, s: &str) -> (r: bool)
    ensures
        r == crate::text::texts(list@).contains(s@),
{
    let ghost held = crate::text::texts(list@);
    let mut i: usize = 0;
    while i < list.len()
        invariant
            held == crate::text::texts(list@),
            i <= list@.len(),
            forall|j: int| 0 <= j < i ==> held[j] != s@,
        decreases list@.len() - i,
    {
        if same_text(list[i].as_str(), s) {
            assert(held[i as int] == s@);
            return true;
        }
        i += 1;
    }
    false
}

/// Whether two runs of bytes are the same.
pub fn same_bytes(a: &[u8], b: &[u8]) -> (r: bool)
    ensures
        r == (a@ == b@),
{
    a.len() == b.len() && bytes_at(a, b, 0)
}

/// Whether `needle` stands in `haystack` at place `at`.
fn bytes_at(haystack: &[u8], needle: &[u8], at: usize) -> (r: bool)
    requires
        at + needle@.len() <= haystack@.len(),
    ensures
        r == occurs_at(needle@, haystack@, at as int),
        at == 0 && needle@.len() == haystack@.len() ==> r == (haystack@ == needle@),
{
    let size: usize = haystack.len();
    let mut i: usize = 0;
    while i < needle.len()
        invariant
            size == haystack@.len(),
            at + needle@.len() <= haystack@.len(),
            i <= needle@.len(),
            forall|j: int| 0 <= j < i ==> haystack@[at + j] == needle@[j],
        decreases needle@.len() - i,
    {
        if haystack[at + i] != needle[i] {
            assert(haystack@.subrange(at as int, at + needle@.len())[i as int] != needle@[i as int]);
            return false;
        }
        i += 1;
    }
    assert(haystack@.subrange(at as int, at + needle@.len()) =~= needle@);
    assert(haystack@.subrange(0, haystack@.len() as int) =~= haystack@);
    true
}

/// Whether `b` starts with `prefix`.
pub fn bytes_start(b: &[u8], prefix: &[u8]) -> (r: bool)
    ensures
        r == begins(b@, prefix@),
{
    prefix.len() <= b.len() && bytes_at(b, prefix, 0)
}

/// Whether `b` ends with `suffix`.
pub fn bytes_end(b: &[u8], suffix: &[u8]) -> (r: bool)
    ensures
        r == finishes(b@, suffix@),
{
    suffix.len() <= b.len() && bytes_at(b, suffix, b.len() - suffix.len())
}

/// Whether `needle` stands in `haystack`; nothing stands everywhere.
pub fn contains(haystack: &[u8], needle: &[u8]) -> (r: bool)
    ensures
        r == occurs(needle@, haystack@),
{
    if needle.len() > haystack.len() {
        return false;
    }
    let last: usize = haystack.len() - needle.len();
    let mut i: usize = 0;
    while i <= last
        invariant
            last == haystack@.len() - needle@.len(),
            i <= last + 1,
            forall|j: int| 0 <= j < i ==> !occurs_at(needle@, haystack@, j),
        decreases last + 1 - i,
    {
        if bytes_at(haystack, needle, i) {
            return true;
        }
        if i == last {
            return false;
        }
        i += 1;
    }
    false
}

/// What the runs of bytes hold.
pub open spec fn byte_strings(list: Seq<Vec<u8>>) -> Seq<Seq<u8>> {
    list.map_values(|b: Vec<u8>| b@)
}

/// Whether `list` holds `b`.
pub fn has_bytes(list: &Vec<Vec<u8>>, b: &[u8]) -> (r: bool)
    ensures
        r == byte_strings(list@).contains(b@),
{
    let ghost held = byte_strings(list@);
    let mut i: usize = 0;
    while i < list.len()
        invariant
            held == byte_strings(list@),
            i <= list@.len(),
            forall|j: int| 0 <= j < i ==> held[j] != b@,
        decreases list@.len() - i,
    {
        if same_bytes(list[i].as_slice(), b) {
            assert(held[i as int] == b@);
            return true;
        }
        i += 1;
    }
    false
}

} // verus!
