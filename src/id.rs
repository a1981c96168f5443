//! The earlier names of the identifier types, `PackageId` and `VersionId`,
//! kept for callers written against them. Each wraps the corresponding
//! identifier and shares its representation and rules.
use std::borrow::Cow;

use vstd::prelude::*;
use vstd::utf8::*;

use crate::error::{Error, Result};
use crate::ident::package::{dash_free, joined, PackageIdent};
use crate::ident::version::{at_most_one_dash, VersionIdent};
use crate::text::{lex_cmp, str_cmp};

verus! {

/// A unique identifier for a package, formatted as `namespace-name`.
#[derive(Debug)]
pub struct PackageId {
    ident: PackageIdent,
}

/// A unique identifier for a package version, formatted as
/// `namespace-name-version` (a dependency string).
#[derive(Debug)]
pub struct VersionId {
    ident: VersionIdent,
}

impl View for PackageId {
    /// The namespace and the name.
    type V = (Seq<char>, Seq<char>);

    closed spec fn view(&self) -> (Seq<char>, Seq<char>) {
        self.ident@
    }
}

impl View for VersionId {
    /// The namespace, the name and the version.
    type V = (Seq<char>, Seq<char>, Seq<char>);

    closed spec fn view(&self) -> (Seq<char>, Seq<char>, Seq<char>) {
        self.ident@
    }
}

impl PackageId {
    /// The canonical text, `namespace-name`.
    pub open spec fn text(&self) -> Seq<char> {
        joined(self@.0, self@.1)
    }

    /// Creates a new identifier from its namespace and name.
    pub fn new(namespace: &str, name: &str) -> (r: Self)
        ensures
            r@ == (namespace@, name@),
    {
        PackageId { ident: PackageIdent::new(namespace, name) }
    }

    /// Parses `namespace-name`; the name starts after the first `-`.
    pub fn parse_str(value: &str) -> (r: Result<Self>)
        ensures
            match r {
                Ok(id) => id.text() == value@ && dash_free(id@.0),
                Err(e) => e == Error::InvalidIdent && dash_free(value@),
            },
    {
        match PackageIdent::parse_str(value) {
            Ok(ident) => Ok(PackageId { ident }),
            Err(e) => Err(e),
        }
    }

    /// Parses an owned `namespace-name`, reusing its allocation.
    pub fn try_from_string(value: String) -> (r: Result<Self>)
        ensures
            match r {
                Ok(id) => id.text() == value@ && dash_free(id@.0),
                Err(e) => e == Error::InvalidIdent && dash_free(value@),
            },
    {
        match PackageIdent::try_from_string(value) {
            Ok(ident) => Ok(PackageId { ident }),
            Err(e) => Err(e),
        }
    }

    /// The namespace, a view into the buffer.
    pub fn namespace(&self) -> (r: &str)
        ensures
            r@ == self@.0,
    {
        self.ident.namespace()
    }

    /// The name, a view into the buffer.
    pub fn name(&self) -> (r: &str)
        ensures
            r@ == self@.1,
    {
        self.ident.name()
    }

    /// A value that renders the URL path `namespace/name` on demand.
    pub fn path(&self) -> (r: PackageIdPath<'_>)
        ensures
            r.ident() == self,
    {
        PackageIdPath::new(self)
    }

    /// Unwraps the underlying text, `namespace-name`.
    pub fn into_cow(self) -> (r: Cow<'static, str>)
        ensures
            r@ == self.text(),
    {
        self.ident.into_cow()
    }

    /// Unwraps the underlying text, `namespace-name`, as a `String`.
    pub fn into_string(self) -> (r: String)
        ensures
            r@ == self.text(),
    {
        self.ident.into_string()
    }

    /// The underlying text, `namespace-name`.
    pub fn as_str(&self) -> (r: &str)
        ensures
            r@ == self.text(),
    {
        self.ident.as_str()
    }

    /// The text, `namespace-name`, in a new `String`.
    pub fn to_string(&self) -> (r: String)
        ensures
            r@ == self.text(),
    {
        self.ident.to_string()
    }

    /// A copy of the identifier with a version appended.
    pub fn with_version(&self, version: &str) -> (r: VersionId)
        ensures
            r@ == (self@.0, self@.1, version@),
    {
        VersionId { ident: self.ident.with_version(version) }
    }
}

impl VersionId {
    /// The canonical text, `namespace-name-version`.
    pub open spec fn text(&self) -> Seq<char> {
        joined(joined(self@.0, self@.1), self@.2)
    }

    /// Creates a new identifier from its three fields.
    pub fn new(namespace: &str, name: &str, version: &str) -> (r: Self)
        ensures
            r@ == (namespace@, name@, version@),
    {
        VersionId { ident: VersionIdent::new(namespace, name, version) }
    }

    /// Parses `namespace-name-version`; only the first two `-` delimit fields.
    pub fn parse_str(value: &str) -> (r: Result<Self>)
        ensures
            match r {
                Ok(id) => id.text() == value@ && dash_free(id@.0) && dash_free(id@.1),
                Err(e) => e == Error::InvalidIdent && at_most_one_dash(value@),
            },
    {
        match VersionIdent::parse_str(value) {
            Ok(ident) => Ok(VersionId { ident }),
            Err(e) => Err(e),
        }
    }

    /// Parses an owned `namespace-name-version`, reusing its allocation.
    pub fn try_from_string(value: String) -> (r: Result<Self>)
        ensures
            match r {
                Ok(id) => id.text() == value@ && dash_free(id@.0) && dash_free(id@.1),
                Err(e) => e == Error::InvalidIdent && at_most_one_dash(value@),
            },
    {
        match VersionIdent::try_from_string(value) {
            Ok(ident) => Ok(VersionId { ident }),
            Err(e) => Err(e),
        }
    }

    /// The namespace, a view into the buffer.
    pub fn namespace(&self) -> (r: &str)
        ensures
            r@ == self@.0,
    {
        self.ident.namespace()
    }

    /// The name, a view into the buffer.
    pub fn name(&self) -> (r: &str)
        ensures
            r@ == self@.1,
    {
        self.ident.name()
    }

    /// The version, a view into the buffer.
    pub fn version(&self) -> (r: &str)
        ensures
            r@ == self@.2,
    {
        self.ident.version()
    }

    /// A value that renders the URL path `namespace/name/version` on demand.
    pub fn path(&self) -> (r: VersionIdPath<'_>)
        ensures
            r.ident() == self,
    {
        VersionIdPath::new(self)
    }

    /// Unwraps the underlying text, `namespace-name-version`.
    pub fn into_cow(self) -> (r: Cow<'static, str>)
        ensures
            r@ == self.text(),
    {
        self.ident.into_cow()
    }

    /// Unwraps the underlying text, `namespace-name-version`, as a `String`.
    pub fn into_string(self) -> (r: String)
        ensures
            r@ == self.text(),
    {
        self.ident.into_string()
    }

    /// The underlying text, `namespace-name-version`.
    pub fn as_str(&self) -> (r: &str)
        ensures
            r@ == self.text(),
    {
        self.ident.as_str()
    }

    /// The text, `namespace-name-version`, in a new `String`.
    pub fn to_string(&self) -> (r: String)
        ensures
            r@ == self.text(),
    {
        self.ident.to_string()
    }

    /// The identifier of the package, without the version.
    pub fn package_id(&self) -> (r: PackageId)
        ensures
            r@ == (self@.0, self@.1),
    {
        PackageId { ident: self.ident.package_id() }
    }
}

impl Clone for PackageId {
    fn clone(&self) -> (r: PackageId)
        ensures
            r@ == self@,
    {
        PackageId { ident: self.ident.clone() }
    }
}

impl Clone for VersionId {
    fn clone(&self) -> (r: VersionId)
        ensures
            r@ == self@,
    {
        VersionId { ident: self.ident.clone() }
    }
}

impl PartialEq for PackageId {
    /// Identifiers are equal when their texts are.
    fn eq(&self, other: &PackageId) -> (r: bool) {
        self.ident == other.ident
    }
}

impl vstd::std_specs::cmp::PartialEqSpecImpl for PackageId {
    open spec fn obeys_eq_spec() -> bool {
        true
    }

    open spec fn eq_spec(&self, other: &PackageId) -> bool {
        self.text() == other.text()
    }
}

impl Eq for PackageId {

}

impl PartialOrd for PackageId {
    /// Identifiers are ordered as their texts are, byte by byte.
    fn partial_cmp(&self, other: &PackageId) -> (r: Option<core::cmp::Ordering>) {
        Some(str_cmp(self.as_str(), other.as_str()))
    }
}

impl vstd::std_specs::cmp::PartialOrdSpecImpl for PackageId {
    open spec fn obeys_partial_cmp_spec() -> bool {
        true
    }

    open spec fn partial_cmp_spec(&self, other: &PackageId) -> Option<core::cmp::Ordering> {
        Some(lex_cmp(encode_utf8(self.text()), encode_utf8(other.text())))
    }
}

impl PartialEq for VersionId {
    /// Identifiers are equal when their texts are.
    fn eq(&self, other: &VersionId) -> (r: bool) {
        self.ident == other.ident
    }
}

impl vstd::std_specs::cmp::PartialEqSpecImpl for VersionId {
    open spec fn obeys_eq_spec() -> bool {
        true
    }

    open spec fn eq_spec(&self, other: &VersionId) -> bool {
        self.text() == other.text()
    }
}

impl Eq for VersionId {

}

impl PartialOrd for VersionId {
    /// Identifiers are ordered as their texts are, byte by byte.
    fn partial_cmp(&self, other: &VersionId) -> (r: Option<core::cmp::Ordering>) {
        Some(str_cmp(self.as_str(), other.as_str()))
    }
}

impl vstd::std_specs::cmp::PartialOrdSpecImpl for VersionId {
    open spec fn obeys_partial_cmp_spec() -> bool {
        true
    }

    open spec fn partial_cmp_spec(&self, other: &VersionId) -> Option<core::cmp::Ordering> {
        Some(lex_cmp(encode_utf8(self.text()), encode_utf8(other.text())))
    }
}

impl core::hash::Hash for PackageId {
    /// Relies on the wrapped identifier's `hash`, which hashes the text
    /// alone, as `==` compares it.
    #[verifier::external_body]
    fn hash<H: core::hash::Hasher>(&self, state: &mut H) {
        self.ident.hash(state);
    }
}

impl core::hash::Hash for VersionId {
    /// Relies on the wrapped identifier's `hash`, which hashes the text
    /// alone, as `==` compares it.
    #[verifier::external_body]
    fn hash<H: core::hash::Hasher>(&self, state: &mut H) {
        self.ident.hash(state);
    }
}

impl core::str::FromStr for PackageId {
    type Err = Error;

    fn from_str(s: &str) -> Result<Self> {
        PackageId::parse_str(s)
    }
}

impl core::str::FromStr for VersionId {
    type Err = Error;

    fn from_str(s: &str) -> Result<Self> {
        VersionId::parse_str(s)
    }
}

impl<'a, 'b> From<(&'a str, &'b str)> for PackageId {
    fn from(parts: (&'a str, &'b str)) -> Self {
        PackageId::new(parts.0, parts.1)
    }
}

impl<'a, 'b> vstd::std_specs::convert::FromSpecImpl<(&'a str, &'b str)> for PackageId {
    /// What the result holds is stated by `PackageId::new`.
    open spec fn obeys_from_spec() -> bool {
        false
    }

    open spec fn from_spec(parts: (&'a str, &'b str)) -> Self {
        arbitrary()
    }
}

impl<'a, 'b, 'c> From<(&'a str, &'b str, &'c str)> for VersionId {
    fn from(parts: (&'a str, &'b str, &'c str)) -> Self {
        VersionId::new(parts.0, parts.1, parts.2)
    }
}

impl<'a, 'b, 'c> vstd::std_specs::convert::FromSpecImpl<(&'a str, &'b str, &'c str)> for VersionId {
    /// What the result holds is stated by `VersionId::new`.
    open spec fn obeys_from_spec() -> bool {
        false
    }

    open spec fn from_spec(parts: (&'a str, &'b str, &'c str)) -> Self {
        arbitrary()
    }
}

impl PackageId {
    /// The outcome of parsing `value`, as for [`PackageIdent`].
    pub closed spec fn parse_spec(value: Cow<'static, str>) -> Result<PackageId> {
        match PackageIdent::parse_spec(value) {
            Ok(ident) => Ok(PackageId { ident }),
            Err(e) => Err(e),
        }
    }

    /// Parses a text that is shared or owned, keeping it without copying.
    pub fn parse_cow(value: Cow<'static, str>) -> (r: Result<Self>)
        ensures
            r == Self::parse_spec(value),
    {
        match PackageIdent::parse_cow(value) {
            Ok(ident) => Ok(PackageId { ident }),
            Err(e) => Err(e),
        }
    }
}

impl TryFrom<Cow<'static, str>> for PackageId {
    type Error = Error;

    fn try_from(value: Cow<'static, str>) -> Result<Self> {
        PackageId::parse_cow(value)
    }
}

impl vstd::std_specs::convert::TryFromSpecImpl<Cow<'static, str>> for PackageId {
    open spec fn obeys_try_from_spec() -> bool {
        true
    }

    open spec fn try_from_spec(value: Cow<'static, str>) -> Result<Self> {
        PackageId::parse_spec(value)
    }
}

impl TryFrom<String> for PackageId {
    type Error = Error;

    fn try_from(value: String) -> Result<Self> {
        PackageId::parse_cow(Cow::Owned(value))
    }
}

impl vstd::std_specs::convert::TryFromSpecImpl<String> for PackageId {
    open spec fn obeys_try_from_spec() -> bool {
        true
    }

    open spec fn try_from_spec(value: String) -> Result<Self> {
        PackageId::parse_spec(Cow::Owned(value))
    }
}

impl TryFrom<&'static str> for PackageId {
    type Error = Error;

    fn try_from(value: &'static str) -> Result<Self> {
        PackageId::parse_cow(Cow::Borrowed(value))
    }
}

impl vstd::std_specs::convert::TryFromSpecImpl<&'static str> for PackageId {
    open spec fn obeys_try_from_spec() -> bool {
        true
    }

    open spec fn try_from_spec(value: &'static str) -> Result<Self> {
        PackageId::parse_spec(Cow::Borrowed(value))
    }
}

impl VersionId {
    /// The outcome of parsing `value`, as for [`VersionIdent`].
    pub closed spec fn parse_spec(value: Cow<'static, str>) -> Result<VersionId> {
        match VersionIdent::parse_spec(value) {
            Ok(ident) => Ok(VersionId { ident }),
            Err(e) => Err(e),
        }
    }

    /// Parses a text that is shared or owned, keeping it without copying.
    pub fn parse_cow(value: Cow<'static, str>) -> (r: Result<Self>)
        ensures
            r == Self::parse_spec(value),
    {
        match VersionIdent::parse_cow(value) {
            Ok(ident) => Ok(VersionId { ident }),
            Err(e) => Err(e),
        }
    }
}

impl TryFrom<Cow<'static, str>> for VersionId {
    type Error = Error;

    fn try_from(value: Cow<'static, str>) -> Result<Self> {
        VersionId::parse_cow(value)
    }
}

impl vstd::std_specs::convert::TryFromSpecImpl<Cow<'static, str>> for VersionId {
    open spec fn obeys_try_from_spec() -> bool {
        true
    }

    open spec fn try_from_spec(value: Cow<'static, str>) -> Result<Self> {
        VersionId::parse_spec(value)
    }
}

impl TryFrom<String> for VersionId {
    type Error = Error;

    fn try_from(value: String) -> Result<Self> {
        VersionId::parse_cow(Cow::Owned(value))
    }
}

impl vstd::std_specs::convert::TryFromSpecImpl<String> for VersionId {
    open spec fn obeys_try_from_spec() -> bool {
        true
    }

    open spec fn try_from_spec(value: String) -> Result<Self> {
        VersionId::parse_spec(Cow::Owned(value))
    }
}

impl TryFrom<&'static str> for VersionId {
    type Error = Error;

    fn try_from(value: &'static str) -> Result<Self> {
        VersionId::parse_cow(Cow::Borrowed(value))
    }
}

impl vstd::std_specs::convert::TryFromSpecImpl<&'static str> for VersionId {
    open spec fn obeys_try_from_spec() -> bool {
        true
    }

    open spec fn try_from_spec(value: &'static str) -> Result<Self> {
        VersionId::parse_spec(Cow::Borrowed(value))
    }
}

/// A rendering of a [`PackageId`] as the URL path `namespace/name`.
pub struct PackageIdPath<'a> {
    id: &'a PackageId,
}

impl<'a> PackageIdPath<'a> {
    /// The identifier that is rendered.
    pub closed spec fn ident(&self) -> &'a PackageId {
        self.id
    }

    pub fn new(id: &'a PackageId) -> (r: Self)
        ensures
            r.ident() == id,
    {
        PackageIdPath { id }
    }

    /// The path, `namespace/name`.
    pub fn to_string(&self) -> (r: String)
        ensures
            r@ == self.ident()@.0 + seq!['/'] + self.ident()@.1,
    {
        self.id.ident.path().to_string()
    }
}

/// A rendering of a [`VersionId`] as the URL path `namespace/name/version`.
pub struct VersionIdPath<'a> {
    id: &'a VersionId,
}

impl<'a> VersionIdPath<'a> {
    /// The identifier that is rendered.
    pub closed spec fn ident(&self) -> &'a VersionId {
        self.id
    }

    pub fn new(id: &'a VersionId) -> (r: Self)
        ensures
            r.ident() == id,
    {
        VersionIdPath { id }
    }

    /// The path, `namespace/name/version`.
    pub fn to_string(&self) -> (r: String)
        ensures
            r@ == self.ident()@.0 + seq!['/'] + self.ident()@.1 + seq!['/'] + self.ident()@.2,
    {
        self.id.ident.path().to_string()
    }
}

/// A fallible conversion to a [`PackageId`] that may borrow.
pub trait IntoPackageId<'a>: Sized {
    /// Whether `id`, a namespace and a name, is what `self` stands for.
    spec fn names(&self, id: (Seq<char>, Seq<char>)) -> bool;

    /// The identifier that `self` refers to, when it is a reference to one:
    /// the conversion then passes it through without copying. `None` when
    /// the conversion builds a fresh, owned identifier.
    spec fn borrowed(&self) -> Option<&'a PackageId>;

    fn into_id(self) -> (r: Result<Cow<'a, PackageId>>)
        ensures
            match r {
                Ok(id) => self.names(id@) && match self.borrowed() {
                    Some(b) => id == Cow::<'a, PackageId>::Borrowed(b),
                    None => id is Owned,
                },
                Err(e) => e == Error::InvalidIdent && forall|v: (Seq<char>, Seq<char>)| !self.names(v),
            },
    ;
}

impl<'a> IntoPackageId<'a> for PackageId {
    open spec fn names(&self, id: (Seq<char>, Seq<char>)) -> bool {
        id == self@
    }

    open spec fn borrowed(&self) -> Option<&'a PackageId> {
        None
    }

    fn into_id(self) -> (r: Result<Cow<'a, PackageId>>) {
        Ok(Cow::Owned(self))
    }
}

impl<'a> IntoPackageId<'a> for &'a PackageId {
    open spec fn names(&self, id: (Seq<char>, Seq<char>)) -> bool {
        id == (*self)@
    }

    open spec fn borrowed(&self) -> Option<&'a PackageId> {
        Some(*self)
    }

    fn into_id(self) -> (r: Result<Cow<'a, PackageId>>) {
        Ok(Cow::Borrowed(self))
    }
}

impl<'a> IntoPackageId<'a> for String {
    open spec fn names(&self, id: (Seq<char>, Seq<char>)) -> bool {
        self@ == joined(id.0, id.1) && dash_free(id.0)
    }

    open spec fn borrowed(&self) -> Option<&'a PackageId> {
        None
    }

    fn into_id(self) -> (r: Result<Cow<'a, PackageId>>) {
        proof {
            crate::ident::package::lemma_dash_free_not_joined(self@);
        }
        match PackageId::try_from_string(self) {
            Ok(id) => Ok(Cow::Owned(id)),
            Err(e) => Err(e),
        }
    }
}

impl<'a, 'b> IntoPackageId<'a> for &'b str {
    open spec fn names(&self, id: (Seq<char>, Seq<char>)) -> bool {
        (*self)@ == joined(id.0, id.1) && dash_free(id.0)
    }

    open spec fn borrowed(&self) -> Option<&'a PackageId> {
        None
    }

    fn into_id(self) -> (r: Result<Cow<'a, PackageId>>) {
        proof {
            crate::ident::package::lemma_dash_free_not_joined(self@);
        }
        match PackageId::parse_str(self) {
            Ok(id) => Ok(Cow::Owned(id)),
            Err(e) => Err(e),
        }
    }
}

impl<'a, 'b, 'c> IntoPackageId<'a> for (&'b str, &'c str) {
    open spec fn names(&self, id: (Seq<char>, Seq<char>)) -> bool {
        id == (self.0@, self.1@)
    }

    open spec fn borrowed(&self) -> Option<&'a PackageId> {
        None
    }

    fn into_id(self) -> (r: Result<Cow<'a, PackageId>>) {
        Ok(Cow::Owned(PackageId::new(self.0, self.1)))
    }
}

impl<'a, 'b> IntoPackageId<'a> for &'b VersionId {
    open spec fn names(&self, id: (Seq<char>, Seq<char>)) -> bool {
        id == ((*self)@.0, (*self)@.1)
    }

    open spec fn borrowed(&self) -> Option<&'a PackageId> {
        None
    }

    fn into_id(self) -> (r: Result<Cow<'a, PackageId>>) {
        Ok(Cow::Owned(self.package_id()))
    }
}

/// A fallible conversion to a [`VersionId`] that may borrow.
pub trait IntoVersionId<'a>: Sized {
    /// Whether `id`, a namespace, a name and a version, is what `self`
    /// stands for.
    spec fn names(&self, id: (Seq<char>, Seq<char>, Seq<char>)) -> bool;

    /// The identifier that `self` refers to, when it is a reference to one:
    /// the conversion then passes it through without copying. `None` when
    /// the conversion builds a fresh, owned identifier.
    spec fn borrowed(&self) -> Option<&'a VersionId>;

    fn into_id(self) -> (r: Result<Cow<'a, VersionId>>)
        ensures
            match r {
                Ok(id) => self.names(id@) && match self.borrowed() {
                    Some(b) => id == Cow::<'a, VersionId>::Borrowed(b),
                    None => id is Owned,
                },
                Err(e) => e == Error::InvalidIdent && forall|v: (Seq<char>, Seq<char>, Seq<char>)|
                    !self.names(v),
            },
    ;
}

impl<'a> IntoVersionId<'a> for VersionId {
    open spec fn names(&self, id: (Seq<char>, Seq<char>, Seq<char>)) -> bool {
        id == self@
    }

    open spec fn borrowed(&self) -> Option<&'a VersionId> {
        None
    }

    fn into_id(self) -> (r: Result<Cow<'a, VersionId>>) {
        Ok(Cow::Owned(self))
    }
}

impl<'a> IntoVersionId<'a> for &'a VersionId {
    open spec fn names(&self, id: (Seq<char>, Seq<char>, Seq<char>)) -> bool {
        id == (*self)@
    }

    open spec fn borrowed(&self) -> Option<&'a VersionId> {
        Some(*self)
    }

    fn into_id(self) -> (r: Result<Cow<'a, VersionId>>) {
        Ok(Cow::Borrowed(self))
    }
}

impl<'a> IntoVersionId<'a> for String {
    open spec fn names(&self, id: (Seq<char>, Seq<char>, Seq<char>)) -> bool {
        crate::ident::version::parses_as(self@, id)
    }

    open spec fn borrowed(&self) -> Option<&'a VersionId> {
        None
    }

    fn into_id(self) -> (r: Result<Cow<'a, VersionId>>) {
        proof {
            crate::ident::version::lemma_at_most_one_dash_not_triple(self@);
        }
        match VersionId::try_from_string(self) {
            Ok(id) => Ok(Cow::Owned(id)),
            Err(e) => Err(e),
        }
    }
}

impl<'a, 'b> IntoVersionId<'a> for &'b str {
    open spec fn names(&self, id: (Seq<char>, Seq<char>, Seq<char>)) -> bool {
        crate::ident::version::parses_as((*self)@, id)
    }

    open spec fn borrowed(&self) -> Option<&'a VersionId> {
        None
    }

    fn into_id(self) -> (r: Result<Cow<'a, VersionId>>) {
        proof {
            crate::ident::version::lemma_at_most_one_dash_not_triple(self@);
        }
        match VersionId::parse_str(self) {
            Ok(id) => Ok(Cow::Owned(id)),
            Err(e) => Err(e),
        }
    }
}

impl<'a, 'b, 'c, 'd> IntoVersionId<'a> for (&'b str, &'c str, &'d str) {
    open spec fn names(&self, id: (Seq<char>, Seq<char>, Seq<char>)) -> bool {
        id == (self.0@, self.1@, self.2@)
    }

    open spec fn borrowed(&self) -> Option<&'a VersionId> {
        None
    }

    fn into_id(self) -> (r: Result<Cow<'a, VersionId>>) {
        Ok(Cow::Owned(VersionId::new(self.0, self.1, self.2)))
    }
}

} // verus!
