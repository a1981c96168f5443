//! Facts about UTF-8 text that the identifiers rely on, and byte-level
//! routines over `&str`.
use vstd::prelude::*;
use vstd::string::*;
use vstd::utf8::*;

verus! {

broadcast use {vstd::utf8::group_utf8_lib, vstd::string::group_string_axioms};

/// The ASCII byte of the `-` delimiter.
pub const DASH: u8 = 45;

/// UTF-8 encoding of a concatenation is the concatenation of the encodings.
pub proof fn lemma_encode_concat(a: Seq<char>, b: Seq<char>)
    ensures
        encode_utf8(a + b) == encode_utf8(a) + encode_utf8(b),
    decreases a.len(),
{
    if a.len() == 0 {
        assert(a + b =~= b);
        assert(encode_utf8(a) + encode_utf8(b) =~= encode_utf8(b));
    } else {
        assert((a + b).drop_first() =~= a.drop_first() + b);
        lemma_encode_concat(a.drop_first(), b);
        assert(encode_utf8(a + b) =~= encode_utf8(a) + encode_utf8(b));
    }
}

/// An ASCII character encodes as the one byte of the same value.
pub proof fn lemma_encode_ascii_char(c: char)
    requires
        '\0' <= c <= '\u{7f}',
    ensures
        encode_utf8(seq![c]) == seq![c as u8],
{
    let s = seq![c];
    assert(is_ascii_chars(s));
    is_ascii_chars_encode_utf8(s);
    assert(encode_utf8(s) =~= seq![c as u8]);
}

/// An ASCII character at position `j` of `s` shows up as its byte in the
/// encoding of `s`, right after the encoding of the characters before it.
pub proof fn lemma_ascii_char_in_encoding(s: Seq<char>, j: int)
    requires
        0 <= j < s.len(),
        '\0' <= s[j] <= '\u{7f}',
    ensures
        encode_utf8(s.take(j)).len() < encode_utf8(s).len(),
        encode_utf8(s)[encode_utf8(s.take(j)).len() as int] == s[j] as u8,
{
    assert(s =~= s.take(j) + (seq![s[j]] + s.skip(j + 1)));
    lemma_encode_concat(s.take(j), seq![s[j]] + s.skip(j + 1));
    lemma_encode_concat(seq![s[j]], s.skip(j + 1));
    lemma_encode_ascii_char(s[j]);
}

/// Text whose encoding lacks the byte of an ASCII character `c` lacks `c`.
pub proof fn lemma_no_ascii_byte_no_char(s: Seq<char>, c: char)
    requires
        '\0' <= c <= '\u{7f}',
        forall|k: int| 0 <= k < encode_utf8(s).len() ==> encode_utf8(s)[k] != c as u8,
    ensures
        !s.contains(c),
{
    if s.contains(c) {
        let j = choose|j: int| 0 <= j < s.len() && s[j] == c;
        lemma_ascii_char_in_encoding(s, j);
    }
}

/// Text whose encoding holds no `DASH` byte holds no `-`.
pub proof fn lemma_no_dash_byte_no_dash(s: Seq<char>)
    requires
        forall|k: int| 0 <= k < encode_utf8(s).len() ==> encode_utf8(s)[k] != DASH,
    ensures
        !s.contains('-'),
{
    lemma_no_ascii_byte_no_char(s, '-');
}

/// In valid UTF-8, an ASCII byte starts a character and the next position
/// starts one too (or is the end).
pub proof fn lemma_ascii_byte_boundaries(bytes: Seq<u8>, i: int)
    requires
        valid_utf8(bytes),
        0 <= i < bytes.len(),
        bytes[i] <= 0x7f,
    ensures
        is_char_boundary(bytes, i),
        is_char_boundary(bytes, i + 1),
    decreases bytes.len(),
{
    is_char_boundary_iff_not_is_continuation_byte(bytes, i);
    let l = length_of_first_scalar(bytes);
    let rest = pop_first_scalar(bytes);
    if i == 0 {
        assert(l == 1);
        assert(is_char_boundary(rest, 0));
    } else if i < l {
        assert(is_continuation_byte(bytes[i]));
    } else {
        assert(rest[i - l] == bytes[i]);
        lemma_ascii_byte_boundaries(rest, i - l);
    }
}

/// Valid UTF-8 with the byte of an ASCII character `c` at `k` decodes to
/// the text before it, `c`, and the text after it; both sides are valid on
/// their own.
pub proof fn lemma_split_at_ascii(b: Seq<u8>, k: int, c: char)
    requires
        valid_utf8(b),
        0 <= k < b.len(),
        '\0' <= c <= '\u{7f}',
        b[k] == c as u8,
    ensures
        is_char_boundary(b, k),
        is_char_boundary(b, k + 1),
        valid_utf8(b.subrange(0, k)),
        valid_utf8(b.subrange(k + 1, b.len() as int)),
        decode_utf8(b) == decode_utf8(b.subrange(0, k)) + seq![c] + decode_utf8(
            b.subrange(k + 1, b.len() as int),
        ),
{
    lemma_ascii_byte_boundaries(b, k);
    let tail = b.subrange(k, b.len() as int);
    lemma_ascii_byte_boundaries(tail, 0);
    assert(tail.subrange(0, 1) =~= seq![c as u8]);
    assert(tail.subrange(1, tail.len() as int) =~= b.subrange(k + 1, b.len() as int));
    lemma_encode_ascii_char(c);
    assert(decode_utf8(seq![c as u8]) == seq![c]);
    decode_utf8_split(b, k);
    decode_utf8_split(tail, 1);
    valid_utf8_split(b, k);
    valid_utf8_split(tail, 1);
}

/// Valid UTF-8 with a `DASH` byte at `k` decodes to the text before it,
/// `-`, and the text after it; both sides are valid on their own.
pub proof fn lemma_split_at_dash(b: Seq<u8>, k: int)
    requires
        valid_utf8(b),
        0 <= k < b.len(),
        b[k] == DASH,
    ensures
        is_char_boundary(b, k),
        is_char_boundary(b, k + 1),
        valid_utf8(b.subrange(0, k)),
        valid_utf8(b.subrange(k + 1, b.len() as int)),
        decode_utf8(b) == decode_utf8(b.subrange(0, k)) + seq!['-'] + decode_utf8(
            b.subrange(k + 1, b.len() as int),
        ),
{
    lemma_split_at_ascii(b, k, '-');
}

/// `a`, the one-character separator `sep`, then `b`, in a new `String`;
/// with the byte offset at which `b` starts in it.
pub fn join_with(a: &str, sep: &str, b: &str) -> (r: (String, usize))
    requires
        sep@.len() == 1,
        '\0' <= sep@[0] <= '\u{7f}',
    ensures
        r.0@ == a@ + sep@ + b@,
        encode_utf8(r.0@) == encode_utf8(a@) + seq![sep@[0] as u8] + encode_utf8(b@),
        r.1 == encode_utf8(a@).len() + 1,
{
    let mut s = String::from_str(a);
    s.append(sep);
    s.append(b);
    proof {
        assert(sep@ =~= seq![sep@[0]]);
        lemma_encode_ascii_char(sep@[0]);
        lemma_encode_concat(a@, sep@);
        lemma_encode_concat(a@ + sep@, b@);
    }
    let total: usize = s.as_str().as_bytes().len();
    let start: usize = total - b.as_bytes().len();
    (s, start)
}

/// Byte-wise lexicographic order, the order of `str`.
pub open spec fn lex_cmp(a: Seq<u8>, b: Seq<u8>) -> core::cmp::Ordering
    decreases a.len(),
{
    if a.len() == 0 {
        if b.len() == 0 {
            core::cmp::Ordering::Equal
        } else {
            core::cmp::Ordering::Less
        }
    } else if b.len() == 0 {
        core::cmp::Ordering::Greater
    } else if a[0] < b[0] {
        core::cmp::Ordering::Less
    } else if a[0] > b[0] {
        core::cmp::Ordering::Greater
    } else {
        lex_cmp(a.drop_first(), b.drop_first())
    }
}

/// Two byte sequences compare equal exactly when they are the same.
pub proof fn lemma_lex_cmp_equal(a: Seq<u8>, b: Seq<u8>)
    ensures
        (lex_cmp(a, b) == core::cmp::Ordering::Equal) == (a == b),
    decreases a.len(),
{
    if a.len() == 0 && b.len() == 0 {
        assert(a =~= b);
    }
    if a.len() > 0 && b.len() > 0 {
        lemma_lex_cmp_equal(a.drop_first(), b.drop_first());
        assert(a =~= seq![a[0]] + a.drop_first());
        assert(b =~= seq![b[0]] + b.drop_first());
        if a == b {
            assert(a.drop_first() == b.drop_first());
        }
    }
}

/// Texts with the same encoding are the same text.
pub proof fn lemma_encode_injective(x: Seq<char>, y: Seq<char>)
    ensures
        (encode_utf8(x) == encode_utf8(y)) == (x == y),
{
    assert(decode_utf8(encode_utf8(x)) == x);
    assert(decode_utf8(encode_utf8(y)) == y);
}

/// The text of a string that is shared or owned.
pub fn cow_str<'a>(c: &'a std::borrow::Cow<'static, str>) -> (r: &'a str)
    ensures
        r@ == c@,
{
    match c {
        std::borrow::Cow::Borrowed(s) => *s,
        std::borrow::Cow::Owned(s) => s.as_str(),
    }
}

/// The first position at or after `from` at which `b` holds `x`.
pub open spec fn first_byte_from(b: Seq<u8>, x: u8, from: int) -> Option<int>
    decreases b.len() - from,
{
    if from < 0 || from >= b.len() {
        None
    } else if b[from] == x {
        Some(from)
    } else {
        first_byte_from(b, x, from + 1)
    }
}

/// The first position at or after `from` that holds `x`.
pub fn find_byte(b: &[u8], x: u8, from: usize) -> (r: Option<usize>)
    requires
        from <= b@.len(),
    ensures
        match r {
            Some(i) => {
                &&& from <= i < b@.len()
                &&& b@[i as int] == x
                &&& forall|j: int| from <= j < i ==> b@[j] != x
            },
            None => forall|j: int| from <= j < b@.len() ==> b@[j] != x,
        },
        match r {
            Some(i) => first_byte_from(b@, x, from as int) == Some(i as int),
            None => first_byte_from(b@, x, from as int) is None,
        },
        b@.len() <= usize::MAX,
{
    let mut i: usize = from;
    while i < b.len()
        invariant
            from <= i <= b@.len(),
            forall|j: int| from <= j < i ==> b@[j] != x,
            first_byte_from(b@, x, from as int) == first_byte_from(b@, x, i as int),
        decreases b@.len() - i,
    {
        if b[i] == x {
            return Some(i);
        }
        i = i + 1;
    }
    None
}

/// Whether two strings hold the same characters, compared byte by byte.
pub fn str_eq(a: &str, b: &str) -> (r: bool)
    ensures
        r == (a@ == b@),
{
    let x = a.as_bytes();
    let y = b.as_bytes();
    if x.len() != y.len() {
        return false;
    }
    let mut i: usize = 0;
    while i < x.len()
        invariant
            x@ == encode_utf8(a@),
            y@ == encode_utf8(b@),
            x@.len() == y@.len(),
            0 <= i <= x@.len(),
            forall|j: int| 0 <= j < i ==> x@[j] == y@[j],
        decreases x@.len() - i,
    {
        if x[i] != y[i] {
            return false;
        }
        i = i + 1;
    }
    proof {
        assert(x@ =~= y@);
        assert(a@ == decode_utf8(encode_utf8(a@)));
        assert(b@ == decode_utf8(encode_utf8(b@)));
    }
    true
}

/// The order of two strings, byte by byte.
pub fn str_cmp(a: &str, b: &str) -> (r: core::cmp::Ordering)
    ensures
        r == lex_cmp(encode_utf8(a@), encode_utf8(b@)),
{
    let x = a.as_bytes();
    let y = b.as_bytes();
    let mut i: usize = 0;
    proof {
        assert(x@.skip(0) =~= x@);
        assert(y@.skip(0) =~= y@);
    }
    while i < x.len() && i < y.len()
        invariant
            0 <= i <= x@.len(),
            i <= y@.len(),
            lex_cmp(encode_utf8(a@), encode_utf8(b@)) == lex_cmp(x@.skip(i as int), y@.skip(i as int)),
        decreases x@.len() - i,
    {
        proof {
            assert(x@.skip(i as int).drop_first() =~= x@.skip(i + 1));
            assert(y@.skip(i as int).drop_first() =~= y@.skip(i + 1));
        }
        if x[i] < y[i] {
            return core::cmp::Ordering::Less;
        } else if x[i] > y[i] {
            return core::cmp::Ordering::Greater;
        }
        i = i + 1;
    }
    if i < x.len() {
        core::cmp::Ordering::Greater
    } else if i < y.len() {
        core::cmp::Ordering::Less
    } else {
        core::cmp::Ordering::Equal
    }
}

} // verus!
