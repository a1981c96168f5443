use std::borrow::Cow;

use vstd::prelude::*;
use vstd::string::*;
use vstd::utf8::*;

use super::version::VersionIdent;
use crate::error::{Error, Result};
use crate::text::{
    cow_str, find_byte, first_byte_from, join_with, lemma_no_dash_byte_no_dash, lemma_split_at_dash,
    lex_cmp, str_cmp, str_eq, DASH,
};

verus! {

broadcast use {vstd::utf8::group_utf8_lib, vstd::string::group_string_axioms};

/// Whether a character sequence holds no `-`.
pub open spec fn dash_free(s: Seq<char>) -> bool {
    !s.contains('-')
}

/// `a-b`: two fields joined by the delimiter.
pub open spec fn joined(a: Seq<char>, b: Seq<char>) -> Seq<char> {
    a + seq!['-'] + b
}

/// A unique identifier for a package, formatted as `namespace-name`.
///
/// The text is either an owned `String` or a string literal; the name starts
/// at byte `name_start`, just past the first delimiter.
#[derive(Debug, Eq)]
pub struct PackageIdent {
    pub(crate) repr: Cow<'static, str>,
    pub(crate) name_start: usize,
}

impl View for PackageIdent {
    /// The namespace and the name.
    type V = (Seq<char>, Seq<char>);

    closed spec fn view(&self) -> (Seq<char>, Seq<char>) {
        let b = encode_utf8(self.repr@);
        (
            decode_utf8(b.subrange(0, self.name_start - 1)),
            decode_utf8(b.subrange(self.name_start as int, b.len() as int)),
        )
    }
}

impl PackageIdent {
    #[verifier::type_invariant]
    pub(crate) open spec fn wf(&self) -> bool {
        let b = encode_utf8(self.repr@);
        &&& 1 <= self.name_start <= b.len()
        &&& b[self.name_start - 1] == DASH
    }

    /// Whether the buffer is a shared string literal rather than an owned
    /// `String`.
    pub closed spec fn shares_literal(&self) -> bool {
        self.repr is Borrowed
    }

    /// The canonical text, `namespace-name`.
    pub open spec fn text(&self) -> Seq<char> {
        joined(self@.0, self@.1)
    }

    /// The buffer is the namespace, the delimiter and the name, and the
    /// offsets on either side of the delimiter start characters.
    proof fn lemma_layout(&self)
        requires
            self.wf(),
        ensures
            self.repr@ == self.text(),
            is_char_boundary(encode_utf8(self.repr@), self.name_start - 1),
            is_char_boundary(encode_utf8(self.repr@), self.name_start as int),
    {
        lemma_split_at_dash(encode_utf8(self.repr@), self.name_start - 1);
    }

    /// An identifier over `repr` whose name starts at byte `name_start`.
    pub(crate) fn from_raw(repr: Cow<'static, str>, name_start: usize) -> (r: Self)
        requires
            1 <= name_start <= encode_utf8(repr@).len(),
            encode_utf8(repr@)[name_start - 1] == DASH,
        ensures
            r.repr == repr,
            r.shares_literal() == repr is Borrowed,
            r@ == (
                decode_utf8(encode_utf8(repr@).subrange(0, name_start - 1)),
                decode_utf8(encode_utf8(repr@).subrange(name_start as int, encode_utf8(repr@).len() as int)),
            ),
    {
        PackageIdent { repr, name_start }
    }

    /// Creates a new identifier from its namespace and name, copied into one
    /// freshly allocated `String` and delimited by `-`.
    pub fn new(namespace: &str, name: &str) -> (r: Self)
        ensures
            r@ == (namespace@, name@),
            !r.shares_literal(),
    {
        proof {
            reveal_strlit("-");
        }
        let (s, name_start) = join_with(namespace, "-", name);
        proof {
            let b = encode_utf8(s@);
            let n = name_start as int;
            assert(b.subrange(0, n - 1) =~= encode_utf8(namespace@));
            assert(b.subrange(n, b.len() as int) =~= encode_utf8(name@));
        }
        PackageIdent::from_raw(Cow::Owned(s), name_start)
    }

    /// The outcome of parsing `value`: the name starts one byte past the
    /// first `-`, and the buffer is `value` itself.
    pub closed spec fn parse_spec(value: Cow<'static, str>) -> Result<PackageIdent> {
        match first_byte_from(encode_utf8(value@), DASH, 0) {
            Some(i) => Ok(PackageIdent { repr: value, name_start: (i + 1) as usize }),
            None => Err(Error::InvalidIdent),
        }
    }

    /// Parses `namespace-name`: the name starts after the first `-`, and the
    /// text is kept as it is, without copying.
    pub fn parse_cow(value: Cow<'static, str>) -> (r: Result<Self>)
        ensures
            r == Self::parse_spec(value),
            match r {
                Ok(id) => id.text() == value@ && dash_free(id@.0),
                Err(e) => e == Error::InvalidIdent && dash_free(value@),
            },
    {
        let found = find_byte(cow_str(&value).as_bytes(), DASH, 0);
        match found {
            None => {
                proof {
                    lemma_no_dash_byte_no_dash(value@);
                }
                Err(Error::InvalidIdent)
            },
            Some(i) => {
                let id = PackageIdent { repr: value, name_start: i + 1 };
                proof {
                    id.lemma_layout();
                    let b = encode_utf8(value@);
                    let head = b.subrange(0, i as int);
                    assert(encode_utf8(decode_utf8(head)) == head);
                    lemma_no_dash_byte_no_dash(id@.0);
                }
                Ok(id)
            },
        }
    }

    /// The namespace, a view into the buffer.
    pub fn namespace(&self) -> (r: &str)
        ensures
            r@ == self@.0,
    {
        proof {
            use_type_invariant(self);
            self.lemma_layout();
        }
        let (ns, _) = cow_str(&self.repr).split_at(self.name_start - 1);
        ns
    }

    /// The name, a view into the buffer.
    pub fn name(&self) -> (r: &str)
        ensures
            r@ == self@.1,
    {
        proof {
            use_type_invariant(self);
            self.lemma_layout();
        }
        let (_, name) = cow_str(&self.repr).split_at(self.name_start);
        name
    }

    /// A value that renders the URL path `namespace/name` on demand.
    pub fn path(&self) -> (r: PackageIdentPath<'_>)
        ensures
            r.ident() == self,
    {
        PackageIdentPath::new(self)
    }

    /// Unwraps the underlying text, `namespace-name`.
    pub fn into_cow(self) -> (r: Cow<'static, str>)
        ensures
            r@ == self.text(),
            r is Borrowed == self.shares_literal(),
    {
        proof {
            use_type_invariant(&self);
            self.lemma_layout();
        }
        self.repr
    }

    /// Unwraps the underlying text, `namespace-name`, copying it if it was
    /// a string literal.
    pub fn into_string(self) -> (r: String)
        ensures
            r@ == self.text(),
    {
        proof {
            use_type_invariant(&self);
            self.lemma_layout();
        }
        match self.repr {
            Cow::Borrowed(s) => s.to_string(),
            Cow::Owned(s) => s,
        }
    }

    /// The underlying text, `namespace-name`.
    pub fn as_str(&self) -> (r: &str)
        ensures
            r@ == self.text(),
    {
        proof {
            use_type_invariant(&self);
            self.lemma_layout();
        }
        cow_str(&self.repr)
    }

    /// A copy of the identifier with a version appended: `namespace-name-version`.
    pub fn with_version(&self, version: &str) -> (r: VersionIdent)
        ensures
            r@ == (self@.0, self@.1, version@),
            !r.shares_literal(),
    {
        proof {
            use_type_invariant(self);
            self.lemma_layout();
        }
        let base = cow_str(&self.repr);
        proof {
            reveal_strlit("-");
        }
        let (s, version_start) = join_with(base, "-", version);
        proof {
            let b = encode_utf8(s@);
            let p = encode_utf8(base@);
            let n = self.name_start as int;
            assert(b.subrange(0, n - 1) =~= p.subrange(0, n - 1));
            assert(b.subrange(n, version_start - 1) =~= p.subrange(n, p.len() as int));
            assert(b.subrange(version_start as int, b.len() as int) =~= encode_utf8(version@));
        }
        VersionIdent::from_raw(Cow::Owned(s), self.name_start, version_start)
    }
}

impl Clone for PackageIdent {
    /// A literal stays shared; an owned text is copied.
    fn clone(&self) -> (r: PackageIdent)
        ensures
            r@ == self@,
            r.shares_literal() == self.shares_literal(),
    {
        proof {
            use_type_invariant(self);
        }
        let repr: Cow<'static, str> = match &self.repr {
            Cow::Borrowed(s) => Cow::Borrowed(*s),
            Cow::Owned(s) => Cow::Owned(s.clone()),
        };
        PackageIdent { repr, name_start: self.name_start }
    }
}

impl PartialEq for PackageIdent {
    /// Identifiers are equal when their texts are, whatever their offsets.
    fn eq(&self, other: &PackageIdent) -> (r: bool) {
        str_eq(self.as_str(), other.as_str())
    }
}

impl vstd::std_specs::cmp::PartialEqSpecImpl for PackageIdent {
    open spec fn obeys_eq_spec() -> bool {
        true
    }

    open spec fn eq_spec(&self, other: &PackageIdent) -> bool {
        self.text() == other.text()
    }
}

impl PartialOrd for PackageIdent {
    /// Identifiers are ordered as their texts are, byte by byte.
    fn partial_cmp(&self, other: &PackageIdent) -> (r: Option<core::cmp::Ordering>) {
        Some(str_cmp(self.as_str(), other.as_str()))
    }
}

impl vstd::std_specs::cmp::PartialOrdSpecImpl for PackageIdent {
    open spec fn obeys_partial_cmp_spec() -> bool {
        true
    }

    open spec fn partial_cmp_spec(&self, other: &PackageIdent) -> Option<core::cmp::Ordering> {
        Some(lex_cmp(encode_utf8(self.text()), encode_utf8(other.text())))
    }
}

impl core::hash::Hash for PackageIdent {
    /// Relies on `<Cow<str> as Hash>::hash`: hashes the text alone, as
    /// `==` compares it, so equal identifiers hash alike.
    #[verifier::external_body]
    fn hash<H: core::hash::Hasher>(&self, state: &mut H) {
        self.repr.hash(state);
    }
}

impl PackageIdent {
    /// Parses an owned `namespace-name`, reusing its allocation.
    pub fn try_from_string(value: String) -> (r: Result<Self>)
        ensures
            r == Self::parse_spec(Cow::Owned(value)),
            r is Ok ==> !r->Ok_0.shares_literal(),
            match r {
                Ok(id) => id.text() == value@ && dash_free(id@.0),
                Err(e) => e == Error::InvalidIdent && dash_free(value@),
            },
    {
        PackageIdent::parse_cow(Cow::Owned(value))
    }

    /// Parses a literal `namespace-name`, which stays shared.
    pub fn try_from_static(value: &'static str) -> (r: Result<Self>)
        ensures
            r == Self::parse_spec(Cow::Borrowed(value)),
            r is Ok ==> r->Ok_0.shares_literal(),
            match r {
                Ok(id) => id.text() == value@ && dash_free(id@.0),
                Err(e) => e == Error::InvalidIdent && dash_free(value@),
            },
    {
        PackageIdent::parse_cow(Cow::Borrowed(value))
    }

    /// Parses a borrowed `namespace-name` into a fresh copy.
    pub fn parse_str(value: &str) -> (r: Result<Self>)
        ensures
            match r {
                Ok(id) => id.text() == value@ && dash_free(id@.0),
                Err(e) => e == Error::InvalidIdent && dash_free(value@),
            },
    {
        PackageIdent::parse_cow(Cow::Owned(String::from_str(value)))
    }

    /// The text, `namespace-name`, in a new `String`.
    pub fn to_string(&self) -> (r: String)
        ensures
            r@ == self.text(),
    {
        String::from_str(self.as_str())
    }
}

impl core::str::FromStr for PackageIdent {
    type Err = Error;

    fn from_str(s: &str) -> Result<Self> {
        PackageIdent::parse_str(s)
    }
}

impl TryFrom<Cow<'static, str>> for PackageIdent {
    type Error = Error;

    fn try_from(value: Cow<'static, str>) -> Result<Self> {
        PackageIdent::parse_cow(value)
    }
}

impl vstd::std_specs::convert::TryFromSpecImpl<Cow<'static, str>> for PackageIdent {
    open spec fn obeys_try_from_spec() -> bool {
        true
    }

    open spec fn try_from_spec(value: Cow<'static, str>) -> Result<Self> {
        PackageIdent::parse_spec(value)
    }
}

impl TryFrom<String> for PackageIdent {
    type Error = Error;

    fn try_from(value: String) -> Result<Self> {
        PackageIdent::try_from_string(value)
    }
}

impl vstd::std_specs::convert::TryFromSpecImpl<String> for PackageIdent {
    open spec fn obeys_try_from_spec() -> bool {
        true
    }

    open spec fn try_from_spec(value: String) -> Result<Self> {
        PackageIdent::parse_spec(Cow::Owned(value))
    }
}

impl TryFrom<&'static str> for PackageIdent {
    type Error = Error;

    fn try_from(value: &'static str) -> Result<Self> {
        PackageIdent::try_from_static(value)
    }
}

impl vstd::std_specs::convert::TryFromSpecImpl<&'static str> for PackageIdent {
    open spec fn obeys_try_from_spec() -> bool {
        true
    }

    open spec fn try_from_spec(value: &'static str) -> Result<Self> {
        PackageIdent::parse_spec(Cow::Borrowed(value))
    }
}

impl<'a, 'b> From<(&'a str, &'b str)> for PackageIdent {
    fn from(parts: (&'a str, &'b str)) -> Self {
        PackageIdent::new(parts.0, parts.1)
    }
}

impl<'a, 'b> vstd::std_specs::convert::FromSpecImpl<(&'a str, &'b str)> for PackageIdent {
    /// The exact buffer that `new` allocates has no spec-level name; what the
    /// result holds is stated by `PackageIdent::new`.
    open spec fn obeys_from_spec() -> bool {
        false
    }

    open spec fn from_spec(parts: (&'a str, &'b str)) -> Self {
        arbitrary()
    }
}

impl<'a> From<&'a VersionIdent> for PackageIdent {
    fn from(id: &'a VersionIdent) -> Self {
        id.package_id()
    }
}

impl<'a> vstd::std_specs::convert::FromSpecImpl<&'a VersionIdent> for PackageIdent {
    /// What the result holds is stated by `VersionIdent::package_id`.
    open spec fn obeys_from_spec() -> bool {
        false
    }

    open spec fn from_spec(id: &'a VersionIdent) -> Self {
        arbitrary()
    }
}

/// A fallible conversion to a [`PackageIdent`] that may borrow.
///
/// Call sites that need a package identifier accept any of: an identifier
/// (a reference is passed through without copying), its text as a `String`
/// or `&str` (parsed), a `(namespace, name)` pair, or a version identifier
/// (its package part).
pub trait IntoPackageIdent<'a>: Sized {
    /// Whether `id`, a namespace and a name, is what `self` stands for.
    spec fn names(&self, id: (Seq<char>, Seq<char>)) -> bool;

    /// The identifier that `self` refers to, when it is a reference to one:
    /// the conversion then passes it through without copying. `None` when
    /// the conversion builds a fresh, owned identifier.
    spec fn borrowed(&self) -> Option<&'a PackageIdent>;

    fn into_id(self) -> (r: Result<Cow<'a, PackageIdent>>)
        ensures
            match r {
                Ok(id) => self.names(id@) && match self.borrowed() {
                    Some(b) => id == Cow::<'a, PackageIdent>::Borrowed(b),
                    None => id is Owned,
                },
                Err(e) => e == Error::InvalidIdent && forall|v: (Seq<char>, Seq<char>)| !self.names(v),
            },
    ;
}

impl<'a> IntoPackageIdent<'a> for PackageIdent {
    open spec fn names(&self, id: (Seq<char>, Seq<char>)) -> bool {
        id == self@
    }

    open spec fn borrowed(&self) -> Option<&'a PackageIdent> {
        None
    }

    fn into_id(self) -> (r: Result<Cow<'a, PackageIdent>>) {
        Ok(Cow::Owned(self))
    }
}

impl<'a> IntoPackageIdent<'a> for &'a PackageIdent {
    open spec fn names(&self, id: (Seq<char>, Seq<char>)) -> bool {
        id == (*self)@
    }

    open spec fn borrowed(&self) -> Option<&'a PackageIdent> {
        Some(*self)
    }

    fn into_id(self) -> (r: Result<Cow<'a, PackageIdent>>) {
        Ok(Cow::Borrowed(self))
    }
}

impl<'a> IntoPackageIdent<'a> for String {
    open spec fn names(&self, id: (Seq<char>, Seq<char>)) -> bool {
        self@ == joined(id.0, id.1) && dash_free(id.0)
    }

    open spec fn borrowed(&self) -> Option<&'a PackageIdent> {
        None
    }

    fn into_id(self) -> (r: Result<Cow<'a, PackageIdent>>) {
        proof {
            lemma_dash_free_not_joined(self@);
        }
        match PackageIdent::try_from_string(self) {
            Ok(id) => {
                Ok(Cow::Owned(id))
            },
            Err(e) => Err(e),
        }
    }
}

impl<'a, 'b> IntoPackageIdent<'a> for &'b str {
    open spec fn names(&self, id: (Seq<char>, Seq<char>)) -> bool {
        (*self)@ == joined(id.0, id.1) && dash_free(id.0)
    }

    open spec fn borrowed(&self) -> Option<&'a PackageIdent> {
        None
    }

    fn into_id(self) -> (r: Result<Cow<'a, PackageIdent>>) {
        proof {
            lemma_dash_free_not_joined(self@);
        }
        match PackageIdent::parse_str(self) {
            Ok(id) => {
                Ok(Cow::Owned(id))
            },
            Err(e) => Err(e),
        }
    }
}

impl<'a, 'b, 'c> IntoPackageIdent<'a> for (&'b str, &'c str) {
    open spec fn names(&self, id: (Seq<char>, Seq<char>)) -> bool {
        id == (self.0@, self.1@)
    }

    open spec fn borrowed(&self) -> Option<&'a PackageIdent> {
        None
    }

    fn into_id(self) -> (r: Result<Cow<'a, PackageIdent>>) {
        Ok(Cow::Owned(PackageIdent::new(self.0, self.1)))
    }
}

impl<'a> IntoPackageIdent<'a> for (String, String) {
    open spec fn names(&self, id: (Seq<char>, Seq<char>)) -> bool {
        id == (self.0@, self.1@)
    }

    open spec fn borrowed(&self) -> Option<&'a PackageIdent> {
        None
    }

    fn into_id(self) -> (r: Result<Cow<'a, PackageIdent>>) {
        Ok(Cow::Owned(PackageIdent::new(self.0.as_str(), self.1.as_str())))
    }
}

impl<'a, 'b> IntoPackageIdent<'a> for &'b VersionIdent {
    open spec fn names(&self, id: (Seq<char>, Seq<char>)) -> bool {
        id == ((*self)@.0, (*self)@.1)
    }

    open spec fn borrowed(&self) -> Option<&'a PackageIdent> {
        None
    }

    fn into_id(self) -> (r: Result<Cow<'a, PackageIdent>>) {
        Ok(Cow::Owned(self.package_id()))
    }
}

/// Splitting at the first `-` is unique: two joins whose first parts hold
/// no `-` are equal only if their parts are.
pub proof fn lemma_joined_unique(a: Seq<char>, b: Seq<char>, c: Seq<char>, d: Seq<char>)
    requires
        dash_free(a),
        dash_free(c),
        joined(a, b) == joined(c, d),
    ensures
        a == c,
        b == d,
{
    let s = joined(a, b);
    if a.len() < c.len() {
        assert(s[a.len() as int] == '-');
        assert(c[a.len() as int] == '-');
    } else if a.len() > c.len() {
        assert(s[c.len() as int] == '-');
        assert(a[c.len() as int] == '-');
    } else {
        assert(a =~= s.subrange(0, a.len() as int));
        assert(c =~= s.subrange(0, c.len() as int));
        assert(b =~= s.subrange(a.len() as int + 1, s.len() as int));
        assert(d =~= s.subrange(c.len() as int + 1, s.len() as int));
    }
}

/// Text without `-` is not two fields joined by the delimiter.
pub proof fn lemma_dash_free_not_joined(s: Seq<char>)
    ensures
        dash_free(s) ==> forall|v: (Seq<char>, Seq<char>)| s != joined(v.0, v.1),
{
    if dash_free(s) {
        assert forall|v: (Seq<char>, Seq<char>)| s != joined(v.0, v.1) by {
            if s == joined(v.0, v.1) {
                assert(s[v.0.len() as int] == '-');
            }
        }
    }
}

/// A rendering of a [`PackageIdent`] as the URL path `namespace/name`.
pub struct PackageIdentPath<'a> {
    id: &'a PackageIdent,
}

impl<'a> PackageIdentPath<'a> {
    /// The identifier that is rendered.
    pub closed spec fn ident(&self) -> &'a PackageIdent {
        self.id
    }

    pub fn new(id: &'a PackageIdent) -> (r: Self)
        ensures
            r.ident() == id,
    {
        PackageIdentPath { id }
    }

    /// The path, `namespace/name`.
    pub fn to_string(&self) -> (r: String)
        ensures
            r@ == self.ident()@.0 + seq!['/'] + self.ident()@.1,
    {
        let mut s = self.id.namespace().to_string();
        s.append("/");
        s.append(self.id.name());
        proof {
            reveal_strlit("/");
        }
        s
    }
}

} // verus!
