use std::borrow::Cow;

use vstd::prelude::*;
use vstd::string::*;
use vstd::utf8::*;

use super::package::{dash_free, joined, PackageIdent};
use crate::error::{Error, Result};
use crate::semantic::{parse_semver, semver_parts, SemanticVersion};
use crate::text::{
    cow_str, find_byte, first_byte_from, join_with, lemma_no_dash_byte_no_dash, lemma_split_at_dash,
    lex_cmp, str_cmp, str_eq, DASH,
};

verus! {

broadcast use {vstd::utf8::group_utf8_lib, vstd::string::group_string_axioms};

/// Whether a character sequence holds at most one `-`, written as the ways
/// it can look: no `-` at all, or two `-`-free parts around one.
pub open spec fn at_most_one_dash(s: Seq<char>) -> bool {
    ||| dash_free(s)
    ||| exists|a: Seq<char>, c: Seq<char>| s == joined(a, c) && dash_free(a) && dash_free(c)
}

/// A unique identifier for a package version, formatted as
/// `namespace-name-version`.
///
/// The text is either an owned `String` or a string literal; the name starts
/// at byte `name_start` and the version at byte `version_start`, each just
/// past a delimiter. The version may itself hold `-`.
#[derive(Debug, Eq)]
pub struct VersionIdent {
    pub(crate) repr: Cow<'static, str>,
    pub(crate) name_start: usize,
    pub(crate) version_start: usize,
}

impl View for VersionIdent {
    /// The namespace, the name and the version.
    type V = (Seq<char>, Seq<char>, Seq<char>);

    closed spec fn view(&self) -> (Seq<char>, Seq<char>, Seq<char>) {
        let b = encode_utf8(self.repr@);
        (
            decode_utf8(b.subrange(0, self.name_start - 1)),
            decode_utf8(b.subrange(self.name_start as int, self.version_start - 1)),
            decode_utf8(b.subrange(self.version_start as int, b.len() as int)),
        )
    }
}

impl VersionIdent {
    #[verifier::type_invariant]
    pub(crate) open spec fn wf(&self) -> bool {
        let b = encode_utf8(self.repr@);
        &&& 1 <= self.name_start
        &&& self.name_start + 1 <= self.version_start <= b.len()
        &&& b[self.name_start - 1] == DASH
        &&& b[self.version_start - 1] == DASH
    }

    /// Whether the buffer is a shared string literal rather than an owned
    /// `String`.
    pub closed spec fn shares_literal(&self) -> bool {
        self.repr is Borrowed
    }

    /// The canonical text, `namespace-name-version`.
    pub open spec fn text(&self) -> Seq<char> {
        joined(joined(self@.0, self@.1), self@.2)
    }

    /// The buffer is the three fields with a delimiter between each two, and
    /// the offsets around both delimiters start characters.
    proof fn lemma_layout(&self)
        requires
            self.wf(),
        ensures
            self.repr@ == self.text(),
            is_char_boundary(encode_utf8(self.repr@), self.name_start - 1),
            is_char_boundary(encode_utf8(self.repr@), self.name_start as int),
            is_char_boundary(encode_utf8(self.repr@), self.version_start - 1),
            is_char_boundary(encode_utf8(self.repr@), self.version_start as int),
    {
        let b = encode_utf8(self.repr@);
        let head = b.subrange(0, self.version_start - 1);
        lemma_split_at_dash(b, self.version_start - 1);
        lemma_split_at_dash(b, self.name_start - 1);
        lemma_split_at_dash(head, self.name_start - 1);
        assert(head.subrange(0, self.name_start - 1) =~= b.subrange(0, self.name_start - 1));
        assert(head.subrange(self.name_start as int, head.len() as int) =~= b.subrange(
            self.name_start as int,
            self.version_start - 1,
        ));
    }

    /// An identifier over `repr` whose name starts at byte `name_start` and
    /// whose version starts at byte `version_start`.
    pub(crate) fn from_raw(repr: Cow<'static, str>, name_start: usize, version_start: usize) -> (r: Self)
        requires
            1 <= name_start,
            name_start + 1 <= version_start <= encode_utf8(repr@).len(),
            encode_utf8(repr@)[name_start - 1] == DASH,
            encode_utf8(repr@)[version_start - 1] == DASH,
        ensures
            r.repr == repr,
            r.shares_literal() == repr is Borrowed,
            r@ == (
                decode_utf8(encode_utf8(repr@).subrange(0, name_start - 1)),
                decode_utf8(encode_utf8(repr@).subrange(name_start as int, version_start - 1)),
                decode_utf8(encode_utf8(repr@).subrange(version_start as int, encode_utf8(repr@).len() as int)),
            ),
    {
        VersionIdent { repr, name_start, version_start }
    }

    /// Creates a new identifier from its three fields, copied into one freshly
    /// allocated `String` and delimited by `-`.
    pub fn new(namespace: &str, name: &str, version: &str) -> (r: Self)
        ensures
            r@ == (namespace@, name@, version@),
            !r.shares_literal(),
    {
        proof {
            reveal_strlit("-");
        }
        let (head, name_start) = join_with(namespace, "-", name);
        let (s, version_start) = join_with(head.as_str(), "-", version);
        proof {
            let b = encode_utf8(s@);
            let n = name_start as int;
            let v = version_start as int;
            assert(b.subrange(0, n - 1) =~= encode_utf8(namespace@));
            assert(b.subrange(n, v - 1) =~= encode_utf8(name@));
            assert(b.subrange(v, b.len() as int) =~= encode_utf8(version@));
        }
        VersionIdent::from_raw(Cow::Owned(s), name_start, version_start)
    }

    /// The outcome of parsing `value`: the name starts one byte past the
    /// first `-`, the version one byte past the second, and the buffer is
    /// `value` itself.
    pub closed spec fn parse_spec(value: Cow<'static, str>) -> Result<VersionIdent> {
        let b = encode_utf8(value@);
        match first_byte_from(b, DASH, 0) {
            Some(i) => match first_byte_from(b, DASH, i + 1) {
                Some(j) => Ok(
                    VersionIdent { repr: value, name_start: (i + 1) as usize, version_start: (j + 1) as usize },
                ),
                None => Err(Error::InvalidIdent),
            },
            None => Err(Error::InvalidIdent),
        }
    }

    /// Parses `namespace-name-version`: only the first two `-` delimit
    /// fields, so the version keeps any `-` after them. The text is kept as
    /// it is, without copying.
    pub fn parse_cow(value: Cow<'static, str>) -> (r: Result<Self>)
        ensures
            r == Self::parse_spec(value),
            match r {
                Ok(id) => id.text() == value@ && dash_free(id@.0) && dash_free(id@.1),
                Err(e) => e == Error::InvalidIdent && at_most_one_dash(value@),
            },
    {
        let bytes = cow_str(&value).as_bytes();
        let first = find_byte(bytes, DASH, 0);
        let i = match first {
            None => {
                proof {
                    lemma_no_dash_byte_no_dash(value@);
                }
                return Err(Error::InvalidIdent);
            },
            Some(i) => i,
        };
        let second = find_byte(bytes, DASH, i + 1);
        let j = match second {
            None => {
                proof {
                    let b = encode_utf8(value@);
                    lemma_split_at_dash(b, i as int);
                    let head = b.subrange(0, i as int);
                    let tail = b.subrange(i + 1, b.len() as int);
                    assert(encode_utf8(decode_utf8(head)) == head);
                    assert(encode_utf8(decode_utf8(tail)) == tail);
                    lemma_no_dash_byte_no_dash(decode_utf8(head));
                    lemma_no_dash_byte_no_dash(decode_utf8(tail));
                    assert(value@ == joined(decode_utf8(head), decode_utf8(tail)));
                }
                return Err(Error::InvalidIdent);
            },
            Some(j) => j,
        };
        let id = VersionIdent { repr: value, name_start: i + 1, version_start: j + 1 };
        proof {
            id.lemma_layout();
            let b = encode_utf8(value@);
            let ns = b.subrange(0, i as int);
            let nm = b.subrange(i + 1, j as int);
            lemma_split_at_dash(b, j as int);
            lemma_split_at_dash(b.subrange(0, j as int), i as int);
            assert(b.subrange(0, j as int).subrange(0, i as int) =~= ns);
            assert(b.subrange(0, j as int).subrange(i + 1, j as int) =~= nm);
            assert(encode_utf8(decode_utf8(ns)) == ns);
            assert(encode_utf8(decode_utf8(nm)) == nm);
            lemma_no_dash_byte_no_dash(id@.0);
            lemma_no_dash_byte_no_dash(id@.1);
        }
        Ok(id)
    }

    /// The namespace, a view into the buffer.
    pub fn namespace(&self) -> (r: &str)
        ensures
            r@ == self@.0,
    {
        proof {
            use_type_invariant(self);
            self.lemma_layout();
        }
        let (ns, _) = cow_str(&self.repr).split_at(self.name_start - 1);
        ns
    }

    /// The name, a view into the buffer.
    pub fn name(&self) -> (r: &str)
        ensures
            r@ == self@.1,
    {
        proof {
            use_type_invariant(self);
            self.lemma_layout();
            let b = encode_utf8(self.repr@);
            let head = b.subrange(0, self.version_start - 1);
            lemma_split_at_dash(head, self.name_start - 1);
            assert(head.subrange(self.name_start as int, head.len() as int) =~= b.subrange(
                self.name_start as int,
                self.version_start - 1,
            ));
        }
        let (head, _) = cow_str(&self.repr).split_at(self.version_start - 1);
        let (_, name) = head.split_at(self.name_start);
        name
    }

    /// The version, a view into the buffer.
    pub fn version(&self) -> (r: &str)
        ensures
            r@ == self@.2,
    {
        proof {
            use_type_invariant(self);
            self.lemma_layout();
        }
        let (_, version) = cow_str(&self.repr).split_at(self.version_start);
        version
    }

    /// The version parsed as a semantic version. Text that is not valid
    /// semantic-version syntax gives `Error::InvalidVersion`.
    pub fn parsed_version(&self) -> (r: Result<SemanticVersion>)
        ensures
            match r {
                Ok(v) => semver_parts(self@.2) == Some((v.major, v.minor, v.patch, v.pre@, v.build@)),
                Err(e) => e == Error::InvalidVersion && semver_parts(self@.2) is None,
            },
    {
        match parse_semver(self.version()) {
            Some(v) => Ok(v),
            None => Err(Error::InvalidVersion),
        }
    }

    /// A value that renders the URL path `namespace/name/version` on demand.
    pub fn path(&self) -> (r: VersionIdPath<'_>)
        ensures
            r.ident() == self,
    {
        VersionIdPath::new(self)
    }

    /// Unwraps the underlying text, `namespace-name-version`.
    pub fn into_cow(self) -> (r: Cow<'static, str>)
        ensures
            r@ == self.text(),
            r is Borrowed == self.shares_literal(),
    {
        proof {
            use_type_invariant(&self);
            self.lemma_layout();
        }
        self.repr
    }

    /// Unwraps the underlying text, `namespace-name-version`, copying it if it
    /// was a string literal.
    pub fn into_string(self) -> (r: String)
        ensures
            r@ == self.text(),
    {
        proof {
            use_type_invariant(&self);
            self.lemma_layout();
        }
        match self.repr {
            Cow::Borrowed(s) => s.to_string(),
            Cow::Owned(s) => s,
        }
    }

    /// The underlying text, `namespace-name-version`.
    pub fn as_str(&self) -> (r: &str)
        ensures
            r@ == self.text(),
    {
        proof {
            use_type_invariant(&self);
            self.lemma_layout();
        }
        cow_str(&self.repr)
    }

    /// The identifier of the package, without the version. A string literal
    /// is shared; an owned text is copied up to the second delimiter.
    pub fn package_id(&self) -> (r: PackageIdent)
        ensures
            r@ == (self@.0, self@.1),
            r.shares_literal() == self.shares_literal(),
    {
        proof {
            use_type_invariant(self);
            self.lemma_layout();
        }
        let k = self.version_start - 1;
        let repr: Cow<'static, str> = match &self.repr {
            Cow::Borrowed(s) => Cow::Borrowed((*s).split_at(k).0),
            Cow::Owned(s) => Cow::Owned(s.as_str().split_at(k).0.to_string()),
        };
        proof {
            let b = encode_utf8(self.repr@);
            let head = b.subrange(0, k as int);
            assert(encode_utf8(repr@) == head);
            assert(head.subrange(0, self.name_start - 1) =~= b.subrange(0, self.name_start - 1));
            assert(head.subrange(self.name_start as int, head.len() as int) =~= b.subrange(
                self.name_start as int,
                k as int,
            ));
        }
        PackageIdent::from_raw(repr, self.name_start)
    }

    /// Whether this is a version of the package `other`, comparing the
    /// namespace and the name in place.
    pub fn eq_package(&self, other: &PackageIdent) -> (r: bool)
        ensures
            r == (self@.0 == other@.0 && self@.1 == other@.1),
    {
        str_eq(self.namespace(), other.namespace()) && str_eq(self.name(), other.name())
    }
}

impl Clone for VersionIdent {
    /// A literal stays shared; an owned text is copied.
    fn clone(&self) -> (r: VersionIdent)
        ensures
            r@ == self@,
            r.shares_literal() == self.shares_literal(),
    {
        proof {
            use_type_invariant(self);
        }
        let repr: Cow<'static, str> = match &self.repr {
            Cow::Borrowed(s) => Cow::Borrowed(*s),
            Cow::Owned(s) => Cow::Owned(s.clone()),
        };
        VersionIdent { repr, name_start: self.name_start, version_start: self.version_start }
    }
}

impl PartialEq for VersionIdent {
    /// Identifiers are equal when their texts are, whatever their offsets.
    fn eq(&self, other: &VersionIdent) -> (r: bool) {
        str_eq(self.as_str(), other.as_str())
    }
}

impl vstd::std_specs::cmp::PartialEqSpecImpl for VersionIdent {
    open spec fn obeys_eq_spec() -> bool {
        true
    }

    open spec fn eq_spec(&self, other: &VersionIdent) -> bool {
        self.text() == other.text()
    }
}

impl PartialOrd for VersionIdent {
    /// Identifiers are ordered as their texts are, byte by byte.
    fn partial_cmp(&self, other: &VersionIdent) -> (r: Option<core::cmp::Ordering>) {
        Some(str_cmp(self.as_str(), other.as_str()))
    }
}

impl vstd::std_specs::cmp::PartialOrdSpecImpl for VersionIdent {
    open spec fn obeys_partial_cmp_spec() -> bool {
        true
    }

    open spec fn partial_cmp_spec(&self, other: &VersionIdent) -> Option<core::cmp::Ordering> {
        Some(lex_cmp(encode_utf8(self.text()), encode_utf8(other.text())))
    }
}

impl core::hash::Hash for VersionIdent {
    /// Relies on `<Cow<str> as Hash>::hash`: hashes the text alone, as
    /// `==` compares it, so equal identifiers hash alike.
    #[verifier::external_body]
    fn hash<H: core::hash::Hasher>(&self, state: &mut H) {
        self.repr.hash(state);
    }
}

impl VersionIdent {
    /// Parses an owned `namespace-name-version`, reusing its allocation.
    pub fn try_from_string(value: String) -> (r: Result<Self>)
        ensures
            r == Self::parse_spec(Cow::Owned(value)),
            r is Ok ==> !r->Ok_0.shares_literal(),
            match r {
                Ok(id) => id.text() == value@ && dash_free(id@.0) && dash_free(id@.1),
                Err(e) => e == Error::InvalidIdent && at_most_one_dash(value@),
            },
    {
        VersionIdent::parse_cow(Cow::Owned(value))
    }

    /// Parses a literal `namespace-name-version`, which stays shared.
    pub fn try_from_static(value: &'static str) -> (r: Result<Self>)
        ensures
            r == Self::parse_spec(Cow::Borrowed(value)),
            r is Ok ==> r->Ok_0.shares_literal(),
            match r {
                Ok(id) => id.text() == value@ && dash_free(id@.0) && dash_free(id@.1),
                Err(e) => e == Error::InvalidIdent && at_most_one_dash(value@),
            },
    {
        VersionIdent::parse_cow(Cow::Borrowed(value))
    }

    /// Parses a borrowed `namespace-name-version` into a fresh copy.
    pub fn parse_str(value: &str) -> (r: Result<Self>)
        ensures
            match r {
                Ok(id) => id.text() == value@ && dash_free(id@.0) && dash_free(id@.1),
                Err(e) => e == Error::InvalidIdent && at_most_one_dash(value@),
            },
    {
        VersionIdent::parse_cow(Cow::Owned(String::from_str(value)))
    }

    /// The text, `namespace-name-version`, in a new `String`.
    pub fn to_string(&self) -> (r: String)
        ensures
            r@ == self.text(),
    {
        String::from_str(self.as_str())
    }
}

impl core::str::FromStr for VersionIdent {
    type Err = Error;

    fn from_str(s: &str) -> Result<Self> {
        VersionIdent::parse_str(s)
    }
}

impl TryFrom<Cow<'static, str>> for VersionIdent {
    type Error = Error;

    fn try_from(value: Cow<'static, str>) -> Result<Self> {
        VersionIdent::parse_cow(value)
    }
}

impl vstd::std_specs::convert::TryFromSpecImpl<Cow<'static, str>> for VersionIdent {
    open spec fn obeys_try_from_spec() -> bool {
        true
    }

    open spec fn try_from_spec(value: Cow<'static, str>) -> Result<Self> {
        VersionIdent::parse_spec(value)
    }
}

impl TryFrom<String> for VersionIdent {
    type Error = Error;

    fn try_from(value: String) -> Result<Self> {
        VersionIdent::try_from_string(value)
    }
}

impl vstd::std_specs::convert::TryFromSpecImpl<String> for VersionIdent {
    open spec fn obeys_try_from_spec() -> bool {
        true
    }

    open spec fn try_from_spec(value: String) -> Result<Self> {
        VersionIdent::parse_spec(Cow::Owned(value))
    }
}

impl TryFrom<&'static str> for VersionIdent {
    type Error = Error;

    fn try_from(value: &'static str) -> Result<Self> {
        VersionIdent::try_from_static(value)
    }
}

impl vstd::std_specs::convert::TryFromSpecImpl<&'static str> for VersionIdent {
    open spec fn obeys_try_from_spec() -> bool {
        true
    }

    open spec fn try_from_spec(value: &'static str) -> Result<Self> {
        VersionIdent::parse_spec(Cow::Borrowed(value))
    }
}

impl<'a, 'b, 'c> From<(&'a str, &'b str, &'c str)> for VersionIdent {
    fn from(parts: (&'a str, &'b str, &'c str)) -> Self {
        VersionIdent::new(parts.0, parts.1, parts.2)
    }
}

impl<'a, 'b, 'c> vstd::std_specs::convert::FromSpecImpl<(&'a str, &'b str, &'c str)> for VersionIdent {
    /// The exact buffer that `new` allocates has no spec-level name; what the
    /// result holds is stated by `VersionIdent::new`.
    open spec fn obeys_from_spec() -> bool {
        false
    }

    open spec fn from_spec(parts: (&'a str, &'b str, &'c str)) -> Self {
        arbitrary()
    }
}

/// A fallible conversion to a [`VersionIdent`] that may borrow.
///
/// Call sites that need a version identifier accept any of: an identifier
/// (a reference is passed through without copying), its text as a `String`
/// or `&str` (parsed), or a `(namespace, name, version)` triple.
pub trait IntoVersionIdent<'a>: Sized {
    /// Whether `id`, a namespace, a name and a version, is what `self`
    /// stands for.
    spec fn names(&self, id: (Seq<char>, Seq<char>, Seq<char>)) -> bool;

    /// The identifier that `self` refers to, when it is a reference to one:
    /// the conversion then passes it through without copying. `None` when
    /// the conversion builds a fresh, owned identifier.
    spec fn borrowed(&self) -> Option<&'a VersionIdent>;

    fn into_id(self) -> (r: Result<Cow<'a, VersionIdent>>)
        ensures
            match r {
                Ok(id) => self.names(id@) && match self.borrowed() {
                    Some(b) => id == Cow::<'a, VersionIdent>::Borrowed(b),
                    None => id is Owned,
                },
                Err(e) => e == Error::InvalidIdent && forall|v: (Seq<char>, Seq<char>, Seq<char>)|
                    !self.names(v),
            },
    ;
}

/// Whether `s` is the text of `id` as a parse reads it: the namespace and
/// the name hold no `-`.
pub open spec fn parses_as(s: Seq<char>, id: (Seq<char>, Seq<char>, Seq<char>)) -> bool {
    s == joined(joined(id.0, id.1), id.2) && dash_free(id.0) && dash_free(id.1)
}

impl<'a> IntoVersionIdent<'a> for VersionIdent {
    open spec fn names(&self, id: (Seq<char>, Seq<char>, Seq<char>)) -> bool {
        id == self@
    }

    open spec fn borrowed(&self) -> Option<&'a VersionIdent> {
        None
    }

    fn into_id(self) -> (r: Result<Cow<'a, VersionIdent>>) {
        Ok(Cow::Owned(self))
    }
}

impl<'a> IntoVersionIdent<'a> for &'a VersionIdent {
    open spec fn names(&self, id: (Seq<char>, Seq<char>, Seq<char>)) -> bool {
        id == (*self)@
    }

    open spec fn borrowed(&self) -> Option<&'a VersionIdent> {
        Some(*self)
    }

    fn into_id(self) -> (r: Result<Cow<'a, VersionIdent>>) {
        Ok(Cow::Borrowed(self))
    }
}

impl<'a> IntoVersionIdent<'a> for String {
    open spec fn names(&self, id: (Seq<char>, Seq<char>, Seq<char>)) -> bool {
        parses_as(self@, id)
    }

    open spec fn borrowed(&self) -> Option<&'a VersionIdent> {
        None
    }

    fn into_id(self) -> (r: Result<Cow<'a, VersionIdent>>) {
        proof {
            lemma_at_most_one_dash_not_triple(self@);
        }
        match VersionIdent::try_from_string(self) {
            Ok(id) => Ok(Cow::Owned(id)),
            Err(e) => Err(e),
        }
    }
}

impl<'a, 'b> IntoVersionIdent<'a> for &'b str {
    open spec fn names(&self, id: (Seq<char>, Seq<char>, Seq<char>)) -> bool {
        parses_as((*self)@, id)
    }

    open spec fn borrowed(&self) -> Option<&'a VersionIdent> {
        None
    }

    fn into_id(self) -> (r: Result<Cow<'a, VersionIdent>>) {
        proof {
            lemma_at_most_one_dash_not_triple(self@);
        }
        match VersionIdent::parse_str(self) {
            Ok(id) => Ok(Cow::Owned(id)),
            Err(e) => Err(e),
        }
    }
}

impl<'a, 'b, 'c, 'd> IntoVersionIdent<'a> for (&'b str, &'c str, &'d str) {
    open spec fn names(&self, id: (Seq<char>, Seq<char>, Seq<char>)) -> bool {
        id == (self.0@, self.1@, self.2@)
    }

    open spec fn borrowed(&self) -> Option<&'a VersionIdent> {
        None
    }

    fn into_id(self) -> (r: Result<Cow<'a, VersionIdent>>) {
        Ok(Cow::Owned(VersionIdent::new(self.0, self.1, self.2)))
    }
}

impl<'a> IntoVersionIdent<'a> for (String, String, String) {
    open spec fn names(&self, id: (Seq<char>, Seq<char>, Seq<char>)) -> bool {
        id == (self.0@, self.1@, self.2@)
    }

    open spec fn borrowed(&self) -> Option<&'a VersionIdent> {
        None
    }

    fn into_id(self) -> (r: Result<Cow<'a, VersionIdent>>) {
        Ok(Cow::Owned(VersionIdent::new(self.0.as_str(), self.1.as_str(), self.2.as_str())))
    }
}

/// Text with at most one `-` is not three fields joined by delimiters.
pub proof fn lemma_at_most_one_dash_not_triple(s: Seq<char>)
    ensures
        at_most_one_dash(s) ==> forall|v: (Seq<char>, Seq<char>, Seq<char>)|
            s != joined(joined(v.0, v.1), v.2),
{
    if at_most_one_dash(s) {
        assert forall|v: (Seq<char>, Seq<char>, Seq<char>)| s != joined(joined(v.0, v.1), v.2) by {
            if s == joined(joined(v.0, v.1), v.2) {
                let i = v.0.len() as int;
                let j = i + 1 + v.1.len();
                assert(s[i] == '-');
                assert(s[j] == '-');
                if dash_free(s) {
                    assert(s.contains('-'));
                } else {
                    let (a, c) = choose|a: Seq<char>, c: Seq<char>|
                        s == joined(a, c) && dash_free(a) && dash_free(c);
                    let k = a.len() as int;
                    assert(s[k] == '-');
                    if i < k {
                        assert(a[i] == '-');
                    } else if i > k {
                        assert(c[i - k - 1] == '-');
                    } else {
                        assert(c[j - k - 1] == '-');
                    }
                }
            }
        }
    }
}

/// A rendering of a [`VersionIdent`] as the URL path `namespace/name/version`.
pub struct VersionIdPath<'a> {
    id: &'a VersionIdent,
}

impl<'a> VersionIdPath<'a> {
    /// The identifier that is rendered.
    pub closed spec fn ident(&self) -> &'a VersionIdent {
        self.id
    }

    pub fn new(id: &'a VersionIdent) -> (r: Self)
        ensures
            r.ident() == id,
    {
        VersionIdPath { id }
    }

    /// The path, `namespace/name/version`.
    pub fn to_string(&self) -> (r: String)
        ensures
            r@ == self.ident()@.0 + seq!['/'] + self.ident()@.1 + seq!['/'] + self.ident()@.2,
    {
        let mut s = self.id.namespace().to_string();
        s.append("/");
        s.append(self.id.name());
        s.append("/");
        s.append(self.id.version());
        proof {
            reveal_strlit("/");
        }
        s
    }
}

} // verus!
