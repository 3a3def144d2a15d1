//! Character and byte level helpers shared by the rest of the library.
use vstd::prelude::*;
use vstd::utf8::*;

verus! {

/// Number of bytes that the UTF-8 encoding of `c` takes.
pub fn char_len_utf8(c: char) -> (n: usize)
    ensures
        n as int == encode_utf8(seq![c]).len(),
        1 <= n <= 4,
{
    let v = c as u32;
    proof {
        assert(encode_utf8(seq![c]) =~= encode_scalar(c as u32) + encode_utf8(seq![c].drop_first()));
        assert(seq![c].drop_first() =~= Seq::<char>::empty());
        assert(encode_utf8(Seq::<char>::empty()) =~= Seq::<u8>::empty());
    }
    if v < 0x80 {
        1
    } else if v < 0x800 {
        2
    } else if v < 0x10000 {
        3
    } else {
        4
    }
}

} // verus!

verus! {

/// Byte offset at which the character with index `k` starts in the UTF-8 encoding of `s`.
pub open spec fn byte_offset(s: Seq<char>, k: int) -> int {
    encode_utf8(s.take(k)).len() as int
}

/// The UTF-8 encoding of a concatenation is the concatenation of the encodings.
pub proof fn lemma_encode_concat(a: Seq<char>, b: Seq<char>)
    ensures
        encode_utf8(a + b) =~= encode_utf8(a) + encode_utf8(b),
    decreases a.len(),
{
    if a.len() == 0 {
        assert(a + b =~= b);
        assert(encode_utf8(a) =~= Seq::<u8>::empty());
    } else {
        assert((a + b).drop_first() =~= a.drop_first() + b);
        lemma_encode_concat(a.drop_first(), b);
        assert((a + b)[0] == a[0]);
    }
}

/// Splitting the characters at index `k` splits the bytes at `byte_offset(s, k)`.
pub proof fn lemma_encode_split(s: Seq<char>, k: int)
    requires
        0 <= k <= s.len(),
    ensures
        encode_utf8(s) =~= encode_utf8(s.take(k)) + encode_utf8(s.skip(k)),
        encode_utf8(s).take(byte_offset(s, k)) =~= encode_utf8(s.take(k)),
        encode_utf8(s).skip(byte_offset(s, k)) =~= encode_utf8(s.skip(k)),
        0 <= byte_offset(s, k) <= encode_utf8(s).len(),
{
    assert(s =~= s.take(k) + s.skip(k));
    lemma_encode_concat(s.take(k), s.skip(k));
}

/// The encoding of one character is its scalar encoding.
pub proof fn lemma_encode_single(c: char)
    ensures
        encode_utf8(seq![c]) =~= encode_scalar(c as u32),
        1 <= encode_utf8(seq![c]).len() <= 4,
{
    assert(seq![c].drop_first() =~= Seq::<char>::empty());
    assert(encode_utf8(Seq::<char>::empty()) =~= Seq::<u8>::empty());
}

/// Character boundaries of an encoded sequence are exactly the character offsets.
pub proof fn lemma_boundary_at_offset(s: Seq<char>, k: int)
    requires
        0 <= k <= s.len(),
    ensures
        is_char_boundary(encode_utf8(s), byte_offset(s, k)),
    decreases k,
{
    broadcast use vstd::utf8::group_utf8_lib;
    if k == 0 {
        assert(s.take(0) =~= Seq::<char>::empty());
        assert(encode_utf8(Seq::<char>::empty()) =~= Seq::<u8>::empty());
    } else {
        let t = s.drop_first();
        lemma_boundary_at_offset(t, k - 1);
        encode_utf8_first_scalar(s);
        assert(s.take(k) =~= seq![s[0]] + t.take(k - 1));
        lemma_encode_concat(seq![s[0]], t.take(k - 1));
        lemma_encode_single(s[0]);
        let b = encode_utf8(s);
        assert(pop_first_scalar(b) =~= encode_utf8(t));
        lemma_encode_split(s, k);
    }
}

/// Every character boundary is a character offset.
pub proof fn lemma_boundary_is_offset(s: Seq<char>, i: int)
    requires
        is_char_boundary(encode_utf8(s), i),
    ensures
        exists|k: int| 0 <= k <= s.len() && byte_offset(s, k) == i,
    decreases s.len(),
{
    broadcast use vstd::utf8::group_utf8_lib;
    if i == 0 {
        assert(s.take(0) =~= Seq::<char>::empty());
        assert(encode_utf8(Seq::<char>::empty()) =~= Seq::<u8>::empty());
        assert(byte_offset(s, 0) == 0);
    } else {
        let b = encode_utf8(s);
        if s.len() == 0 {
            assert(b =~= Seq::<u8>::empty());
        } else {
            let t = s.drop_first();
            encode_utf8_first_scalar(s);
            lemma_encode_single(s[0]);
            assert(pop_first_scalar(b) =~= encode_utf8(t));
            let w = encode_scalar(s[0] as u32).len() as int;
            lemma_boundary_is_offset(t, i - w);
            let k0 = choose|k: int| 0 <= k <= t.len() && byte_offset(t, k) == i - w;
            assert(s.take(k0 + 1) =~= seq![s[0]] + t.take(k0));
            lemma_encode_concat(seq![s[0]], t.take(k0));
            assert(byte_offset(s, k0 + 1) == i);
        }
    }
}

/// Positions strictly inside the encoding of one character are not boundaries.
pub proof fn lemma_inside_char_not_boundary(s: Seq<char>, k: int, j: int)
    requires
        0 <= k < s.len(),
        0 < j < encode_utf8(seq![s[k]]).len(),
    ensures
        !is_char_boundary(encode_utf8(s), byte_offset(s, k) + j),
    decreases k,
{
    broadcast use vstd::utf8::group_utf8_lib;
    let b = encode_utf8(s);
    let t = s.drop_first();
    encode_utf8_first_scalar(s);
    lemma_encode_single(s[0]);
    lemma_encode_single(s[k]);
    assert(pop_first_scalar(b) =~= encode_utf8(t));
    lemma_encode_split(s, k);
    lemma_encode_split(s, k + 1);
    assert(s.take(k + 1) =~= s.take(k) + seq![s[k]]);
    lemma_encode_concat(s.take(k), seq![s[k]]);
    if k == 0 {
        assert(s.take(0) =~= Seq::<char>::empty());
        assert(encode_utf8(Seq::<char>::empty()) =~= Seq::<u8>::empty());
    } else {
        lemma_inside_char_not_boundary(t, k - 1, j);
        assert(t[k - 1] == s[k]);
        assert(s.take(k) =~= seq![s[0]] + t.take(k - 1));
        lemma_encode_concat(seq![s[0]], t.take(k - 1));
    }
}

/// Byte offsets grow strictly with the character index.
pub proof fn lemma_offset_monotonic(s: Seq<char>, k1: int, k2: int)
    requires
        0 <= k1 < k2 <= s.len(),
    ensures
        byte_offset(s, k1) < byte_offset(s, k2),
{
    let a = s.take(k2);
    assert(a =~= a.take(k1) + a.skip(k1));
    assert(a.take(k1) =~= s.take(k1));
    lemma_encode_concat(a.take(k1), a.skip(k1));
    let r = a.skip(k1);
    assert(r.len() > 0);
    assert(r =~= seq![r[0]] + r.drop_first());
    lemma_encode_concat(seq![r[0]], r.drop_first());
    lemma_encode_single(r[0]);
}

/// Encoding is injective on character sequences.
pub proof fn lemma_encode_injective(a: Seq<char>, b: Seq<char>)
    requires
        encode_utf8(a) == encode_utf8(b),
    ensures
        a == b,
{
    broadcast use vstd::utf8::group_utf8_lib;
    assert(decode_utf8(encode_utf8(a)) == a);
    assert(decode_utf8(encode_utf8(b)) == b);
}

} // verus!

verus! {

/// `String::insert` puts the UTF-8 encoding of `ch` at byte position `idx`;
/// it panics unless `idx` lies on a character boundary.
pub assume_specification[ String::insert ](s: &mut String, idx: usize, ch: char)
    requires
        is_char_boundary(encode_utf8(old(s)@), idx as int),
    ensures
        encode_utf8(final(s)@) == encode_utf8(old(s)@).take(idx as int) + encode_utf8(seq![ch])
            + encode_utf8(old(s)@).skip(idx as int),
;

/// `String::len` is the length in bytes of the UTF-8 encoding.
pub assume_specification[ String::len ](s: &String) -> (n: usize)
    ensures
        n == encode_utf8(s@).len(),
;

/// `String::push` appends one character.
pub assume_specification[ String::push ](s: &mut String, ch: char)
    ensures
        final(s)@ == old(s)@.push(ch),
;

/// `String::pop` removes and returns the last character, if there is one.
pub assume_specification[ String::pop ](s: &mut String) -> (r: Option<char>)
    ensures
        old(s)@.len() == 0 ==> r is None && final(s)@ == old(s)@,
        old(s)@.len() > 0 ==> r == Some(old(s)@.last()) && final(s)@ == old(s)@.drop_last(),
;

/// `String::clear` empties the string.
pub assume_specification[ String::clear ](s: &mut String)
    ensures
        final(s)@ == Seq::<char>::empty(),
;

/// Removes the bytes `start..end` of `s` through `String::drain`, which panics
/// unless both ends lie on character boundaries and `start <= end`.
#[verifier::external_body]
pub(crate) fn remove_byte_range(s: &mut String, start: usize, end: usize)
    requires
        start <= end,
        is_char_boundary(encode_utf8(old(s)@), start as int),
        is_char_boundary(encode_utf8(old(s)@), end as int),
    ensures
        encode_utf8(final(s)@) == encode_utf8(old(s)@).take(start as int) + encode_utf8(
            old(s)@,
        ).skip(end as int),
{
    s.drain(start..end);
}

/// The characters that `char::is_whitespace` accepts: those with the Unicode
/// `White_Space` property.
pub open spec fn is_unicode_whitespace(c: char) -> bool {
    let v = c as u32;
    ||| 0x09 <= v <= 0x0d
    ||| v == 0x20
    ||| v == 0x85
    ||| v == 0xa0
    ||| v == 0x1680
    ||| 0x2000 <= v <= 0x200a
    ||| v == 0x2028
    ||| v == 0x2029
    ||| v == 0x202f
    ||| v == 0x205f
    ||| v == 0x3000
}

/// `s` without its leading Unicode whitespace.
pub open spec fn trim_start_spec(s: Seq<char>) -> Seq<char>
    decreases s.len(),
{
    if s.len() > 0 && is_unicode_whitespace(s[0]) {
        trim_start_spec(s.drop_first())
    } else {
        s
    }
}

/// `s` without its trailing Unicode whitespace.
pub open spec fn trim_end_spec(s: Seq<char>) -> Seq<char>
    decreases s.len(),
{
    if s.len() > 0 && is_unicode_whitespace(s.last()) {
        trim_end_spec(s.drop_last())
    } else {
        s
    }
}

/// `s` without its leading and trailing Unicode whitespace.
pub open spec fn trim_spec(s: Seq<char>) -> Seq<char> {
    trim_end_spec(trim_start_spec(s))
}

/// Trimming never makes the encoding longer.
pub proof fn lemma_trim_encoding_len(s: Seq<char>)
    ensures
        encode_utf8(trim_start_spec(s)).len() <= encode_utf8(s).len(),
        encode_utf8(trim_end_spec(s)).len() <= encode_utf8(s).len(),
        encode_utf8(trim_spec(s)).len() <= encode_utf8(s).len(),
    decreases s.len(),
{
    if s.len() > 0 {
        lemma_trim_encoding_len(s.drop_first());
        lemma_trim_encoding_len(s.drop_last());
        lemma_encode_split(s, 1);
        assert(s.skip(1) =~= s.drop_first());
        lemma_encode_split(s, s.len() - 1);
        assert(s.take(s.len() - 1) =~= s.drop_last());
    }
    lemma_trim_end_len(trim_start_spec(s));
}

proof fn lemma_trim_end_len(s: Seq<char>)
    ensures
        encode_utf8(trim_end_spec(s)).len() <= encode_utf8(s).len(),
    decreases s.len(),
{
    if s.len() > 0 {
        lemma_trim_end_len(s.drop_last());
        lemma_encode_split(s, s.len() - 1);
        assert(s.take(s.len() - 1) =~= s.drop_last());
    }
}

/// `str::trim`: removes leading and trailing whitespace, where whitespace is
/// what `char::is_whitespace` accepts.
#[verifier::external_body]
pub(crate) fn trim_str(s: &str) -> (r: &str)
    ensures
        r@ == trim_spec(s@),
{
    s.trim()
}

} // verus!

verus! {

/// `needle` occurs in `hay` as a contiguous run of bytes.
pub open spec fn bytes_contain(hay: Seq<u8>, needle: Seq<u8>) -> bool {
    exists|i: int| 0 <= i <= hay.len() - needle.len() && #[trigger] hay.subrange(i, i + needle.len()) == needle
}

/// `hay` begins with `prefix`.
pub open spec fn bytes_start_with(hay: Seq<u8>, prefix: Seq<u8>) -> bool {
    prefix.len() <= hay.len() && hay.subrange(0, prefix.len() as int) == prefix
}

/// Whether `needle` matches `hay` at position `at`.
fn matches_at(hay: &[u8], needle: &[u8], at: usize) -> (r: bool)
    requires
        at + needle@.len() <= hay@.len(),
    ensures
        r == (hay@.subrange(at as int, at + needle@.len()) == needle@),
{
    let hay_len = hay.len();
    let mut j: usize = 0;
    while j < needle.len()
        invariant
            hay_len == hay@.len(),
            at + needle@.len() <= hay@.len(),
            j <= needle@.len(),
            forall|t: int| 0 <= t < j ==> hay@[at + t] == needle@[t],
        decreases needle@.len() - j,
    {
        if hay[at + j] != needle[j] {
            proof {
                assert(hay@.subrange(at as int, at + needle@.len())[j as int] != needle@[j as int]);
            }
            return false;
        }
        j = j + 1;
    }
    proof {
        assert(hay@.subrange(at as int, at + needle@.len()) =~= needle@);
    }
    true
}

/// Whether `needle` occurs in `hay`.
pub fn contains_bytes(hay: &[u8], needle: &[u8]) -> (r: bool)
    ensures
        r == bytes_contain(hay@, needle@),
{
    if needle.len() > hay.len() {
        return false;
    }
    let last = hay.len() - needle.len();
    let mut i: usize = 0;
    while i <= last
        invariant
            last == hay@.len() - needle@.len(),
            i <= last + 1,
            forall|t: int|
                0 <= t < i ==> #[trigger] hay@.subrange(t, t + needle@.len()) != needle@,
        decreases last + 1 - i,
    {
        if matches_at(hay, needle, i) {
            return true;
        }
        if i == last {
            return false;
        }
        i = i + 1;
    }
    false
}

/// Whether `hay` begins with `prefix`.
pub fn starts_with_bytes(hay: &[u8], prefix: &[u8]) -> (r: bool)
    ensures
        r == bytes_start_with(hay@, prefix@),
{
    if prefix.len() > hay.len() {
        return false;
    }
    matches_at(hay, prefix, 0)
}

/// `std::str::from_utf8` accepts exactly the well-formed UTF-8 byte sequences.
#[verifier::external_body]
pub(crate) fn is_valid_utf8(bytes: &[u8]) -> (r: bool)
    ensures
        r == valid_utf8(bytes@),
{
    std::str::from_utf8(bytes).is_ok()
}

} // verus!
