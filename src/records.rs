//! Splitting the package listing of a community, a JSON array that arrives
//! in byte chunks, into one JSON text per package. Each package object ends
//! with its list of versions, so a package ends at `}]}` followed by the
//! `,` that separates it from the next, or by the `]` that closes the array.
use vstd::prelude::*;
use vstd::string::*;
use vstd::utf8::*;

use crate::text::{lemma_ascii_byte_boundaries, lemma_encode_concat};

verus! {

broadcast use {vstd::utf8::group_utf8_lib, vstd::string::group_string_axioms};

/// Whether `t` can follow a package: `,` before the next one, `]` after
/// the last.
pub open spec fn is_terminator(t: char) -> bool {
    t == ',' || t == ']'
}

/// The characters at which a package ends, followed by `t`.
pub open spec fn record_end(t: char) -> Seq<char> {
    seq!['}', ']', '}', t]
}

/// The bytes of [`record_end`] with terminator byte `t`.
pub open spec fn record_end_bytes(t: u8) -> Seq<u8> {
    seq![125u8, 93u8, 125u8, t]
}

/// Whether `s` holds the end of a package, followed by a terminator, at `j`.
pub open spec fn record_end_in(s: Seq<char>, j: int) -> bool {
    0 <= j && j + 4 <= s.len() && (s.subrange(j, j + 4) == record_end(',') || s.subrange(j, j + 4)
        == record_end(']'))
}

/// Whether `s` holds the end of a package, followed by a terminator, anywhere.
pub open spec fn has_record_end(s: Seq<char>) -> bool {
    exists|j: int| #[trigger] record_end_in(s, j)
}

/// Whether `b` holds [`record_end_bytes`] of a terminator starting at `k`.
pub open spec fn record_end_at(b: Seq<u8>, k: int) -> bool {
    0 <= k && k + 4 <= b.len() && (b.subrange(k, k + 4) == record_end_bytes(44) || b.subrange(
        k,
        k + 4,
    ) == record_end_bytes(93))
}

/// A package text as it is cut out: it ends with `}]}` and holds no
/// package end followed by a terminator.
pub open spec fn well_cut(r: Seq<char>) -> bool {
    &&& r.len() >= 3
    &&& r.subrange(r.len() - 3, r.len() as int) == seq!['}', ']', '}']
    &&& !has_record_end(r)
}

/// The texts of `records`, each followed by its terminator in `terms`.
pub open spec fn joined_records(records: Seq<Seq<char>>, terms: Seq<char>) -> Seq<char>
    decreases records.len(),
{
    if records.len() == 0 {
        Seq::empty()
    } else {
        joined_records(records.drop_last(), terms.drop_last()) + records.last() + seq![terms.last()]
    }
}

/// `s` is the packages `records`, each well cut and followed by its
/// terminator in `terms`, and then `rest`.
pub open spec fn splits_as(
    s: Seq<char>,
    records: Seq<Seq<char>>,
    terms: Seq<char>,
    rest: Seq<char>,
) -> bool {
    &&& terms.len() == records.len()
    &&& forall|i: int| 0 <= i < terms.len() ==> is_terminator(#[trigger] terms[i])
    &&& forall|i: int| 0 <= i < records.len() ==> well_cut(#[trigger] records[i])
    &&& s == joined_records(records, terms) + rest
}

/// The terminators of a complete listing of `n` packages: `,` after each
/// but the last, `]` after the last.
pub open spec fn listing_terms(n: nat) -> Seq<char> {
    Seq::new(n, |i: int| if i == n - 1 { ']' } else { ',' })
}

/// The texts of a sequence of strings.
pub open spec fn record_texts(records: Seq<String>) -> Seq<Seq<char>> {
    records.map_values(|r: String| r@)
}

/// Decoded text as it joins the listing: the opening `[` of the array, the
/// first character of all, is dropped.
pub open spec fn opened(s: Seq<char>, started: bool) -> Seq<char> {
    if started || s.len() == 0 {
        s
    } else {
        s.drop_first()
    }
}

proof fn lemma_record_end_encoding(t: char)
    requires
        is_terminator(t),
    ensures
        encode_utf8(record_end(t)) == record_end_bytes(t as u8),
        t as u8 == 44 || t as u8 == 93,
        t == ',' <==> t as u8 == 44,
        encode_utf8(seq!['}', ']', '}']) == record_end_bytes(t as u8).take(3),
{
    is_ascii_chars_encode_utf8(record_end(t));
    assert(encode_utf8(record_end(t)) =~= record_end_bytes(t as u8));
    is_ascii_chars_encode_utf8(seq!['}', ']', '}']);
    assert(encode_utf8(seq!['}', ']', '}']) =~= record_end_bytes(t as u8).take(3));
}

/// A package end in text is one in the encoding, at the encoded length of
/// what comes before it.
proof fn lemma_record_end_in_encoding(s: Seq<char>, j: int)
    requires
        record_end_in(s, j),
    ensures
        encode_utf8(s.take(j)).len() + 4 <= encode_utf8(s).len(),
        record_end_at(encode_utf8(s), encode_utf8(s.take(j)).len() as int),
{
    let t = s[j + 3];
    assert(s.subrange(j, j + 4)[3] == t);
    assert(s.subrange(j, j + 4) == record_end(t));
    assert(s =~= s.take(j) + (record_end(t) + s.skip(j + 4)));
    lemma_encode_concat(s.take(j), record_end(t) + s.skip(j + 4));
    lemma_encode_concat(record_end(t), s.skip(j + 4));
    lemma_record_end_encoding(t);
    let p = encode_utf8(s.take(j)).len() as int;
    assert(encode_utf8(s).subrange(p, p + 4) =~= record_end_bytes(t as u8));
}

/// Text whose encoding has no package end before byte `k` holds none that
/// ends within its first `k + 3` bytes.
proof fn lemma_no_record_end_before(s: Seq<char>, k: int)
    requires
        encode_utf8(s).len() <= k + 3,
        forall|i: int| 0 <= i < k ==> !record_end_at(encode_utf8(s), i),
    ensures
        !has_record_end(s),
{
    if has_record_end(s) {
        let j = choose|j: int| #[trigger] record_end_in(s, j);
        lemma_record_end_in_encoding(s, j);
    }
}

/// A well-cut package followed by a terminator holds a package end.
proof fn lemma_end_after_record(a: Seq<char>, t: char, rest: Seq<char>)
    requires
        well_cut(a),
        is_terminator(t),
    ensures
        record_end_in(a + seq![t] + rest, a.len() - 3),
{
    let s = a + seq![t] + rest;
    let k = a.len() - 3;
    assert(s.subrange(k, k + 4) =~= record_end(t));
}

/// Two ways of writing `s` as a well-cut package, a terminator and the rest
/// agree.
proof fn lemma_first_records_agree(
    s: Seq<char>,
    a: Seq<char>,
    t: char,
    rest1: Seq<char>,
    b: Seq<char>,
    u: char,
    rest2: Seq<char>,
)
    requires
        s == a + seq![t] + rest1,
        s == b + seq![u] + rest2,
        well_cut(a),
        well_cut(b),
        is_terminator(t),
        is_terminator(u),
    ensures
        a == b,
        t == u,
        rest1 == rest2,
{
    if a.len() < b.len() {
        lemma_end_after_record(a, t, rest1);
        let k = a.len() - 3;
        assert(b.subrange(k, k + 4) =~= s.subrange(k, k + 4));
        assert(record_end_in(b, k));
    } else if a.len() > b.len() {
        lemma_end_after_record(b, u, rest2);
        let k = b.len() - 3;
        assert(a.subrange(k, k + 4) =~= s.subrange(k, k + 4));
        assert(record_end_in(a, k));
    } else {
        assert(a =~= s.take(a.len() as int));
        assert(b =~= s.take(b.len() as int));
        assert(s[a.len() as int] == t);
        assert(s[b.len() as int] == u);
        assert(rest1 =~= s.skip(a.len() as int + 1));
        assert(rest2 =~= s.skip(b.len() as int + 1));
    }
}

/// Joined packages, read from the front: the first package, its
/// terminator, then the others.
proof fn lemma_joined_front(records: Seq<Seq<char>>, terms: Seq<char>)
    requires
        records.len() > 0,
        terms.len() == records.len(),
    ensures
        joined_records(records, terms) == records[0] + seq![terms[0]] + joined_records(
            records.drop_first(),
            terms.drop_first(),
        ),
    decreases records.len(),
{
    if records.len() > 1 {
        lemma_joined_front(records.drop_last(), terms.drop_last());
        assert(records.drop_last().drop_first() =~= records.drop_first().drop_last());
        assert(terms.drop_last().drop_first() =~= terms.drop_first().drop_last());
        assert(records.drop_last()[0] == records[0]);
        assert(terms.drop_last()[0] == terms[0]);
        assert(records.drop_first().last() == records.last());
        assert(terms.drop_first().last() == terms.last());
        assert(joined_records(records.drop_first(), terms.drop_first()) == joined_records(
            records.drop_first().drop_last(),
            terms.drop_first().drop_last(),
        ) + records.last() + seq![terms.last()]);
        assert(joined_records(records, terms) =~= records[0] + seq![terms[0]] + joined_records(
            records.drop_first(),
            terms.drop_first(),
        ));
    } else {
        assert(records.drop_first().len() == 0);
        assert(records.drop_last().len() == 0);
        assert(joined_records(records.drop_first(), terms.drop_first()) == Seq::<char>::empty());
        assert(joined_records(records.drop_last(), terms.drop_last()) == Seq::<char>::empty());
        assert(records.last() == records[0]);
        assert(terms.last() == terms[0]);
        assert(joined_records(records, terms) =~= records[0] + seq![terms[0]] + joined_records(
            records.drop_first(),
            terms.drop_first(),
        ));
    }
}

/// Joining two runs of packages is joining their concatenation.
pub proof fn lemma_joined_concat(
    r1: Seq<Seq<char>>,
    t1: Seq<char>,
    r2: Seq<Seq<char>>,
    t2: Seq<char>,
)
    requires
        t1.len() == r1.len(),
        t2.len() == r2.len(),
    ensures
        joined_records(r1 + r2, t1 + t2) == joined_records(r1, t1) + joined_records(r2, t2),
    decreases r2.len(),
{
    if r2.len() == 0 {
        assert(r1 + r2 =~= r1);
        assert(t1 + t2 =~= t1);
    } else {
        lemma_joined_concat(r1, t1, r2.drop_last(), t2.drop_last());
        assert((r1 + r2).drop_last() =~= r1 + r2.drop_last());
        assert((t1 + t2).drop_last() =~= t1 + t2.drop_last());
    }
}

/// The packages cut out of a text are determined by the text: two ways of
/// writing it as well-cut packages with terminators, then a rest without a
/// package end, are the same.
pub proof fn records_are_unique(
    s: Seq<char>,
    r1: Seq<Seq<char>>,
    t1: Seq<char>,
    rest1: Seq<char>,
    r2: Seq<Seq<char>>,
    t2: Seq<char>,
    rest2: Seq<char>,
)
    requires
        splits_as(s, r1, t1, rest1),
        splits_as(s, r2, t2, rest2),
        !has_record_end(rest1),
        !has_record_end(rest2),
    ensures
        r1 == r2,
        t1 == t2,
        rest1 == rest2,
    decreases r1.len(),
{
    if r1.len() == 0 {
        assert(s =~= rest1);
        if r2.len() > 0 {
            lemma_joined_front(r2, t2);
            assert(s =~= r2[0] + seq![t2[0]] + (joined_records(r2.drop_first(), t2.drop_first())
                + rest2));
            lemma_end_after_record(r2[0], t2[0], joined_records(r2.drop_first(), t2.drop_first()) + rest2);
        } else {
            assert(s =~= rest2);
            assert(r1 =~= r2);
            assert(t1 =~= t2);
        }
    } else if r2.len() == 0 {
        assert(s =~= rest2);
        lemma_joined_front(r1, t1);
        assert(s =~= r1[0] + seq![t1[0]] + (joined_records(r1.drop_first(), t1.drop_first()) + rest1));
        lemma_end_after_record(r1[0], t1[0], joined_records(r1.drop_first(), t1.drop_first()) + rest1);
    } else {
        lemma_joined_front(r1, t1);
        lemma_joined_front(r2, t2);
        let tail1 = joined_records(r1.drop_first(), t1.drop_first()) + rest1;
        let tail2 = joined_records(r2.drop_first(), t2.drop_first()) + rest2;
        assert(s =~= r1[0] + seq![t1[0]] + tail1);
        assert(s =~= r2[0] + seq![t2[0]] + tail2);
        lemma_first_records_agree(s, r1[0], t1[0], tail1, r2[0], t2[0], tail2);
        assert forall|i: int| 0 <= i < t1.drop_first().len() implies is_terminator(
            #[trigger] t1.drop_first()[i],
        ) by {
            assert(t1.drop_first()[i] == t1[i + 1]);
        }
        assert forall|i: int| 0 <= i < t2.drop_first().len() implies is_terminator(
            #[trigger] t2.drop_first()[i],
        ) by {
            assert(t2.drop_first()[i] == t2[i + 1]);
        }
        assert forall|i: int| 0 <= i < r1.drop_first().len() implies well_cut(
            #[trigger] r1.drop_first()[i],
        ) by {
            assert(r1.drop_first()[i] == r1[i + 1]);
        }
        assert forall|i: int| 0 <= i < r2.drop_first().len() implies well_cut(
            #[trigger] r2.drop_first()[i],
        ) by {
            assert(r2.drop_first()[i] == r2[i + 1]);
        }
        records_are_unique(
            tail1,
            r1.drop_first(),
            t1.drop_first(),
            rest1,
            r2.drop_first(),
            t2.drop_first(),
            rest2,
        );
        assert(r1 =~= seq![r1[0]] + r1.drop_first());
        assert(r2 =~= seq![r2[0]] + r2.drop_first());
        assert(t1 =~= seq![t1[0]] + t1.drop_first());
        assert(t2 =~= seq![t2[0]] + t2.drop_first());
    }
}

/// Packages cut out chunk by chunk add up: what one step cut out, followed
/// by what the next step cut out of the remaining text and the new text, is
/// a cut of the whole.
pub proof fn records_accumulate(
    first: Seq<char>,
    r1: Seq<Seq<char>>,
    t1: Seq<char>,
    rest1: Seq<char>,
    next: Seq<char>,
    r2: Seq<Seq<char>>,
    t2: Seq<char>,
    rest2: Seq<char>,
)
    requires
        splits_as(first, r1, t1, rest1),
        splits_as(rest1 + next, r2, t2, rest2),
    ensures
        splits_as(first + next, r1 + r2, t1 + t2, rest2),
{
    lemma_joined_concat(r1, t1, r2, t2);
    assert(first + next =~= joined_records(r1, t1) + (rest1 + next));
    assert(first + next =~= joined_records(r1 + r2, t1 + t2) + rest2);
    assert forall|i: int| 0 <= i < (t1 + t2).len() implies is_terminator(#[trigger] (t1 + t2)[i]) by {
        if i >= t1.len() {
            assert((t1 + t2)[i] == t2[i - t1.len()]);
        }
    }
    assert forall|i: int| 0 <= i < (r1 + r2).len() implies well_cut(#[trigger] (r1 + r2)[i]) by {
        if i >= r1.len() {
            assert((r1 + r2)[i] == r2[i - r1.len()]);
        }
    }
}

/// A complete listing, its well-cut packages separated by `,` and closed by
/// `]` (the opening `[` already dropped), is cut into exactly those
/// packages, in order, with nothing left over.
pub proof fn complete_listing_yields_every_package(
    packages: Seq<Seq<char>>,
    records: Seq<Seq<char>>,
    terms: Seq<char>,
    rest: Seq<char>,
)
    requires
        forall|i: int| 0 <= i < packages.len() ==> well_cut(#[trigger] packages[i]),
        splits_as(joined_records(packages, listing_terms(packages.len())), records, terms, rest),
        !has_record_end(rest),
    ensures
        records == packages,
        terms == listing_terms(packages.len()),
        rest == Seq::<char>::empty(),
{
    let s = joined_records(packages, listing_terms(packages.len()));
    assert(s =~= s + Seq::<char>::empty());
    assert(!has_record_end(Seq::<char>::empty()));
    assert(splits_as(s, packages, listing_terms(packages.len()), Seq::<char>::empty()));
    records_are_unique(
        s,
        records,
        terms,
        rest,
        packages,
        listing_terms(packages.len()),
        Seq::<char>::empty(),
    );
}

/// The concatenation of a sequence of sequences, in order.
pub open spec fn chained<A>(parts: Seq<Seq<A>>) -> Seq<A>
    decreases parts.len(),
{
    if parts.len() == 0 {
        Seq::empty()
    } else {
        chained(parts.drop_last()) + parts.last()
    }
}

/// What the splitter held before step `k` of a run of steps whose leftovers
/// are `rests`: nothing before the first step.
pub open spec fn held_before(rests: Seq<Seq<char>>, k: int) -> Seq<char> {
    if k == 0 {
        Seq::empty()
    } else {
        rests[k - 1]
    }
}

/// Whether step `k` of a run cut `records[k]` (with terminators `terms[k]`)
/// off what it held plus the text `texts[k]` it took, leaving `rests[k]`.
pub open spec fn step_cuts(
    texts: Seq<Seq<char>>,
    records: Seq<Seq<Seq<char>>>,
    terms: Seq<Seq<char>>,
    rests: Seq<Seq<char>>,
    k: int,
) -> bool {
    splits_as(held_before(rests, k) + texts[k], records[k], terms[k], rests[k])
}

proof fn lemma_steps_accumulate(
    texts: Seq<Seq<char>>,
    records: Seq<Seq<Seq<char>>>,
    terms: Seq<Seq<char>>,
    rests: Seq<Seq<char>>,
    k: int,
)
    requires
        1 <= k <= texts.len(),
        records.len() == texts.len(),
        terms.len() == texts.len(),
        rests.len() == texts.len(),
        forall|i: int| 0 <= i < texts.len() ==> #[trigger] step_cuts(texts, records, terms, rests, i),
    ensures
        splits_as(
            chained(texts.take(k)),
            chained(records.take(k)),
            chained(terms.take(k)),
            rests[k - 1],
        ),
    decreases k,
{
    assert(texts.take(k).drop_last() =~= texts.take(k - 1));
    assert(records.take(k).drop_last() =~= records.take(k - 1));
    assert(terms.take(k).drop_last() =~= terms.take(k - 1));
    assert(step_cuts(texts, records, terms, rests, k - 1));
    if k == 1 {
        assert(texts.take(0).len() == 0);
        assert(records.take(0).len() == 0);
        assert(terms.take(0).len() == 0);
        assert(chained(texts.take(0)) == Seq::<char>::empty());
        assert(texts.take(1).last() == texts[0]);
        assert(chained(texts.take(1)) == chained(texts.take(0)) + texts[0]);
        assert(chained(texts.take(1)) =~= held_before(rests, 0) + texts[0]);
        assert(chained(records.take(1)) =~= records[0]);
        assert(chained(terms.take(1)) =~= terms[0]);
    } else {
        lemma_steps_accumulate(texts, records, terms, rests, k - 1);
        records_accumulate(
            chained(texts.take(k - 1)),
            chained(records.take(k - 1)),
            chained(terms.take(k - 1)),
            rests[k - 2],
            texts[k - 1],
            records[k - 1],
            terms[k - 1],
            rests[k - 1],
        );
    }
}

/// A complete listing taken in any number of steps, each of which cuts as
/// [`PackageArraySplitter::push`] does (what it held plus the text it took,
/// into packages and a new leftover), yields exactly the listing's packages,
/// in order, and leaves nothing.
pub proof fn listing_in_steps_yields_every_package(
    packages: Seq<Seq<char>>,
    texts: Seq<Seq<char>>,
    records: Seq<Seq<Seq<char>>>,
    terms: Seq<Seq<char>>,
    rests: Seq<Seq<char>>,
)
    requires
        forall|i: int| 0 <= i < packages.len() ==> well_cut(#[trigger] packages[i]),
        texts.len() >= 1,
        records.len() == texts.len(),
        terms.len() == texts.len(),
        rests.len() == texts.len(),
        forall|i: int| 0 <= i < texts.len() ==> #[trigger] step_cuts(texts, records, terms, rests, i),
        !has_record_end(rests.last()),
        chained(texts) == joined_records(packages, listing_terms(packages.len())),
    ensures
        chained(records) == packages,
        rests.last() == Seq::<char>::empty(),
{
    let m = texts.len() as int;
    lemma_steps_accumulate(texts, records, terms, rests, m);
    assert(texts.take(m) =~= texts);
    assert(records.take(m) =~= records);
    assert(terms.take(m) =~= terms);
    complete_listing_yields_every_package(packages, chained(records), chained(terms), rests.last());
}

/// The first position at which `b` holds the end of a package followed by a
/// terminator.
fn find_record_end(b: &[u8]) -> (r: Option<usize>)
    ensures
        match r {
            Some(k) => record_end_at(b@, k as int) && forall|i: int| 0 <= i < k ==> !record_end_at(b@, i),
            None => forall|i: int| 0 <= i ==> !record_end_at(b@, i),
        },
        b@.len() <= usize::MAX,
{
    let n = b.len();
    if n < 4 {
        return None;
    }
    let mut k: usize = 0;
    while k <= n - 4
        invariant
            n == b@.len(),
            n >= 4,
            k <= n - 3,
            forall|i: int| 0 <= i < k ==> !record_end_at(b@, i),
        decreases n - k,
    {
        if b[k] == 125 && b[k + 1] == 93 && b[k + 2] == 125 && (b[k + 3] == 44 || b[k + 3] == 93) {
            proof {
                if b[k + 3] == 44 {
                    assert(b@.subrange(k as int, k + 4) =~= record_end_bytes(44));
                } else {
                    assert(b@.subrange(k as int, k + 4) =~= record_end_bytes(93));
                }
            }
            return Some(k);
        }
        proof {
            if record_end_at(b@, k as int) {
                assert(b@.subrange(k as int, k + 4)[0] == b@[k as int]);
                assert(b@.subrange(k as int, k + 4)[1] == b@[k + 1]);
                assert(b@.subrange(k as int, k + 4)[2] == b@[k + 2]);
                assert(b@.subrange(k as int, k + 4)[3] == b@[k + 3]);
            }
        }
        k = k + 1;
    }
    None
}

/// Relies on std's `str::from_utf8`: the text of the bytes if they are
/// valid UTF-8, and nothing otherwise.
#[verifier::external_body]
fn text_of_utf8(b: &[u8]) -> (r: Option<&str>)
    ensures
        match r {
            Some(s) => valid_utf8(b@) && s.spec_bytes() == b@,
            None => !valid_utf8(b@),
        },
{
    std::str::from_utf8(b).ok()
}

/// The text without its first character.
fn drop_first_char(s: &str) -> (r: &str)
    requires
        s@.len() > 0,
    ensures
        r@ == s@.drop_first(),
{
    let b = s.as_bytes();
    let ghost bytes = encode_utf8(s@);
    proof {
        assert(bytes.len() > 0);
        assert(valid_first_scalar(bytes));
    }
    let lead = b[0];
    let width: usize = if lead <= 0x7f {
        1
    } else if lead <= 0xdf {
        2
    } else if lead <= 0xef {
        3
    } else {
        4
    };
    proof {
        assert(width == length_of_first_scalar(bytes));
        assert(is_char_boundary(pop_first_scalar(bytes), 0));
        assert(decode_utf8(bytes) == seq![decode_first_scalar(bytes) as char] + decode_utf8(
            pop_first_scalar(bytes),
        ));
    }
    let (_, rest) = s.split_at(width);
    rest
}

/// The state between chunks: bytes that do not form valid UTF-8 yet, the
/// decoded text after the last package cut out, and whether the opening `[`
/// has been dropped.
pub struct PackageArraySplitter {
    undecoded: Vec<u8>,
    text: String,
    started: bool,
}

impl View for PackageArraySplitter {
    type V = (Seq<u8>, Seq<char>, bool);

    closed spec fn view(&self) -> (Seq<u8>, Seq<char>, bool) {
        (self.undecoded@, self.text@, self.started)
    }
}

impl PackageArraySplitter {
    /// The decoded text never holds a whole package end.
    pub open spec fn wf(&self) -> bool {
        !has_record_end(self@.1)
    }

    /// A splitter that has seen nothing.
    pub fn new() -> (r: Self)
        ensures
            r@ == (Seq::<u8>::empty(), Seq::<char>::empty(), false),
            r.wf(),
    {
        PackageArraySplitter { undecoded: Vec::new(), text: String::new(), started: false }
    }

    /// Takes the next chunk of bytes and returns the package texts it
    /// completes, in order: each one ends at `}]}` followed by `,` or by the
    /// closing `]`. While the bytes held so far are not valid UTF-8 (a
    /// character split across chunks), they wait for the next chunk.
    pub fn push(&mut self, chunk: &[u8]) -> (records: Vec<String>)
        requires
            old(self).wf(),
        ensures
            final(self).wf(),
            valid_utf8(old(self)@.0 + chunk@) ==> {
                &&& final(self)@.0 == Seq::<u8>::empty()
                &&& final(self)@.2
                &&& exists|terms: Seq<char>|
                    #[trigger] splits_as(
                        old(self)@.1 + opened(decode_utf8(old(self)@.0 + chunk@), old(self)@.2),
                        record_texts(records@),
                        terms,
                        final(self)@.1,
                    )
            },
            !valid_utf8(old(self)@.0 + chunk@) ==> {
                &&& final(self)@ == (old(self)@.0 + chunk@, old(self)@.1, old(self)@.2)
                &&& records@.len() == 0
            },
    {
        self.undecoded.extend_from_slice(chunk);
        let mut all_text: String;
        match text_of_utf8(self.undecoded.as_slice()) {
            None => {
                proof {
                    assert(self.undecoded@ == old(self)@.0 + chunk@);
                }
                return Vec::new();
            },
            Some(decoded) => {
                proof {
                    assert(decode_utf8(encode_utf8(decoded@)) == decoded@);
                    assert(self.undecoded@ == old(self)@.0 + chunk@);
                    assert(decoded@ == decode_utf8(old(self)@.0 + chunk@));
                    if decoded@.len() > 0 {
                        assert(encode_utf8(decoded@).len() > 0);
                    }
                }
                let added: &str = if self.started || decoded.as_bytes().len() == 0 {
                    decoded
                } else {
                    drop_first_char(decoded)
                };
                all_text = String::from_str(self.text.as_str());
                all_text.append(added);
                proof {
                    assert(added@ == opened(decode_utf8(old(self)@.0 + chunk@), old(self)@.2));
                    assert(all_text@ == old(self)@.1 + opened(
                        decode_utf8(old(self)@.0 + chunk@),
                        old(self)@.2,
                    ));
                }
            },
        }
        self.undecoded.clear();
        self.started = true;
        let (records, rest, Ghost(terms)) = cut_records(all_text.as_str());
        self.text = String::from_str(rest);
        proof {
            assert(splits_as(
                old(self)@.1 + opened(decode_utf8(old(self)@.0 + chunk@), old(self)@.2),
                record_texts(records@),
                terms,
                self@.1,
            ));
        }
        records
    }
}

/// Cuts the first package text off `rest`, given the first position `k` of
/// a package end in its encoding: the package text is everything up to and
/// including `}]}`, then comes its terminator, and what follows remains.
#[verifier::rlimit(80)]
fn cut_one(rest: &str, k: usize) -> (r: (String, char, &str))
    requires
        record_end_at(encode_utf8(rest@), k as int),
        forall|i: int| 0 <= i < k ==> !record_end_at(encode_utf8(rest@), i),
        encode_utf8(rest@).len() <= usize::MAX,
    ensures
        rest@ == r.0@ + seq![r.1] + r.2@,
        is_terminator(r.1),
        well_cut(r.0@),
{
    let ghost b = encode_utf8(rest@);
    let bytes = rest.as_bytes();
    let t: char = if bytes[k + 3] == 44 {
        ','
    } else {
        ']'
    };
    let ghost x = decode_utf8(b.subrange(0, k as int));
    let ghost y = decode_utf8(b.subrange(k + 4, b.len() as int));
    proof {
        assert(b[k as int] == b.subrange(k as int, k + 4)[0]);
        assert(b[k + 2] == b.subrange(k as int, k + 4)[2]);
        assert(b[k + 3] == b.subrange(k as int, k + 4)[3]);
        lemma_record_end_encoding(t);
        assert(b.subrange(k as int, k + 4) =~= record_end_bytes(t as u8));
        lemma_ascii_byte_boundaries(b, k as int);
        lemma_ascii_byte_boundaries(b, k + 2);
        lemma_ascii_byte_boundaries(b, k + 3);
        valid_utf8_split(b, k as int);
        valid_utf8_split(b, k + 4);
        lemma_encode_concat(x, record_end(t));
        lemma_encode_concat(x + record_end(t), y);
        assert(b =~= b.subrange(0, k as int) + record_end_bytes(t as u8) + b.subrange(
            k + 4,
            b.len() as int,
        ));
        assert(rest@ == decode_utf8(encode_utf8(x + record_end(t) + y)));
        lemma_encode_concat(x, seq!['}', ']', '}']);
        assert(encode_utf8(x + seq!['}', ']', '}']) =~= b.subrange(0, k + 3));
    }
    let (head, tail) = rest.split_at(k + 3);
    proof {
        assert(tail.spec_bytes() =~= b.subrange(k + 3, b.len() as int));
        lemma_ascii_byte_boundaries(tail.spec_bytes(), 0);
    }
    let (_, after) = tail.split_at(1);
    let record = String::from_str(head);
    proof {
        assert(after.spec_bytes() =~= b.subrange(k + 4, b.len() as int));
        assert(after@ == y);
        assert(head.spec_bytes() =~= b.subrange(0, k + 3));
        assert(record@ == x + seq!['}', ']', '}']);
        assert(record@.subrange(record@.len() - 3, record@.len() as int) =~= seq!['}', ']', '}']);
        assert(encode_utf8(record@) == b.subrange(0, k + 3));
        assert forall|i: int| 0 <= i < k implies !record_end_at(encode_utf8(record@), i) by {
            if record_end_at(encode_utf8(record@), i) {
                assert(b.subrange(0, k + 3).subrange(i, i + 4) =~= b.subrange(i, i + 4));
                assert(record_end_at(b, i));
            }
        }
        lemma_no_record_end_before(record@, k as int);
        assert(rest@ =~= record@ + seq![t] + after@);
    }
    (record, t, after)
}

/// Cuts every complete package text off the front of `text`; what remains
/// holds no package end.
fn cut_records(text: &str) -> (r: (Vec<String>, &str, Ghost<Seq<char>>))
    ensures
        splits_as(text@, record_texts(r.0@), r.2@, r.1@),
        !has_record_end(r.1@),
{
    let mut records: Vec<String> = Vec::new();
    let mut rest: &str = text;
    let ghost mut terms: Seq<char> = Seq::empty();
    proof {
        assert(record_texts(records@) =~= Seq::<Seq<char>>::empty());
        assert(text@ =~= joined_records(record_texts(records@), terms) + rest@);
    }
    loop
        invariant
            splits_as(text@, record_texts(records@), terms, rest@),
        decreases rest@.len(),
    {
        match find_record_end(rest.as_bytes()) {
            None => {
                proof {
                    lemma_no_record_end_before(rest@, encode_utf8(rest@).len() as int);
                }
                return (records, rest, Ghost(terms));
            },
            Some(k) => {
                let (record, t, after) = cut_one(rest, k);
                let ghost old_records = record_texts(records@);
                let ghost old_terms = terms;
                let ghost cut = record@;
                records.push(record);
                proof {
                    terms = terms.push(t);
                    assert(record_texts(records@).drop_last() =~= old_records);
                    assert(record_texts(records@).last() == cut);
                    assert(terms.drop_last() =~= old_terms);
                    assert(text@ =~= joined_records(record_texts(records@), terms) + after@);
                    assert forall|i: int| 0 <= i < terms.len() implies is_terminator(
                        #[trigger] terms[i],
                    ) by {
                        if i < old_terms.len() {
                            assert(terms[i] == old_terms[i]);
                        }
                    }
                    assert forall|i: int| 0 <= i < record_texts(records@).len() implies well_cut(
                        #[trigger] record_texts(records@)[i],
                    ) by {
                        if i < old_records.len() {
                            assert(record_texts(records@)[i] == old_records[i]);
                        }
                    }
                }
                rest = after;
            },
        }
    }
}

} // verus!
