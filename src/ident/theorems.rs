//! What holds across the identifier operations, proved from their contracts.
use vstd::prelude::*;
use vstd::std_specs::cmp::{PartialEqSpec, PartialOrdSpec};
use vstd::utf8::*;

use super::package::{dash_free, joined, lemma_dash_free_not_joined, lemma_joined_unique, PackageIdent};
use super::version::{lemma_at_most_one_dash_not_triple, VersionIdent};
use crate::error::Result;
use crate::text::{lemma_encode_injective, lemma_lex_cmp_equal};

verus! {

/// Building a package identifier from any namespace and name and reading its
/// fields back gives that namespace and that name, whatever they hold.
pub proof fn package_fields_round_trip(
    namespace: &str,
    name: &str,
    id: PackageIdent,
    namespace_out: &str,
    name_out: &str,
)
    requires
        call_ensures(PackageIdent::new, (namespace, name), id),
        call_ensures(PackageIdent::namespace, (&id,), namespace_out),
        call_ensures(PackageIdent::name, (&id,), name_out),
    ensures
        namespace_out@ == namespace@,
        name_out@ == name@,
{
}

/// Building a version identifier from any namespace, name and version and
/// reading its fields back gives those three, whatever they hold.
pub proof fn version_fields_round_trip(
    namespace: &str,
    name: &str,
    version: &str,
    id: VersionIdent,
    namespace_out: &str,
    name_out: &str,
    version_out: &str,
)
    requires
        call_ensures(VersionIdent::new, (namespace, name, version), id),
        call_ensures(VersionIdent::namespace, (&id,), namespace_out),
        call_ensures(VersionIdent::name, (&id,), name_out),
        call_ensures(VersionIdent::version, (&id,), version_out),
    ensures
        namespace_out@ == namespace@,
        name_out@ == name@,
        version_out@ == version@,
{
}

/// Parsing the text of a package identifier succeeds and gives an equal
/// identifier; where the namespace holds no `-`, it has the same fields too.
proof fn package_reparse(id: PackageIdent, text: Seq<char>, back: Result<PackageIdent>)
    requires
        text == id.text(),
        match back {
            Ok(p) => p.text() == text && dash_free(p@.0),
            Err(_) => dash_free(text),
        },
    ensures
        back is Ok,
        back->Ok_0.eq_spec(&id),
        dash_free(id@.0) ==> back->Ok_0@ == id@,
{
    lemma_dash_free_not_joined(text);
    if dash_free(id@.0) {
        let p = back->Ok_0;
        lemma_joined_unique(p@.0, p@.1, id@.0, id@.1);
    }
}

/// Parsing the text of a version identifier succeeds and gives an equal
/// identifier; where the namespace and the name hold no `-`, it has the same
/// fields too.
proof fn version_reparse(id: VersionIdent, text: Seq<char>, back: Result<VersionIdent>)
    requires
        text == id.text(),
        match back {
            Ok(v) => v.text() == text && dash_free(v@.0) && dash_free(v@.1),
            Err(_) => super::version::at_most_one_dash(text),
        },
    ensures
        back is Ok,
        back->Ok_0.eq_spec(&id),
        dash_free(id@.0) && dash_free(id@.1) ==> back->Ok_0@ == id@,
{
    lemma_at_most_one_dash_not_triple(text);
    if dash_free(id@.0) && dash_free(id@.1) {
        let v = back->Ok_0;
        assert(joined(joined(v@.0, v@.1), v@.2) =~= joined(v@.0, joined(v@.1, v@.2)));
        assert(joined(joined(id@.0, id@.1), id@.2) =~= joined(id@.0, joined(id@.1, id@.2)));
        lemma_joined_unique(v@.0, joined(v@.1, v@.2), id@.0, joined(id@.1, id@.2));
        lemma_joined_unique(v@.1, v@.2, id@.1, id@.2);
    }
}

/// Parsing the rendered text of any package identifier gives back an equal
/// identifier (same text); where the namespace holds no `-`, the same
/// namespace and name as well.
pub proof fn package_text_round_trip(id: PackageIdent, text: String, back: Result<PackageIdent>)
    requires
        call_ensures(PackageIdent::to_string, (&id,), text),
        call_ensures(PackageIdent::try_from_string, (text,), back),
    ensures
        back is Ok,
        back->Ok_0.eq_spec(&id),
        dash_free(id@.0) ==> back->Ok_0@ == id@,
{
    package_reparse(id, text@, back);
}

/// Parsing the rendered text of any version identifier gives back an equal
/// identifier (same text); where the namespace and the name hold no `-`,
/// the same three fields as well.
pub proof fn version_text_round_trip(id: VersionIdent, text: String, back: Result<VersionIdent>)
    requires
        call_ensures(VersionIdent::to_string, (&id,), text),
        call_ensures(VersionIdent::try_from_string, (text,), back),
    ensures
        back is Ok,
        back->Ok_0.eq_spec(&id),
        dash_free(id@.0) && dash_free(id@.1) ==> back->Ok_0@ == id@,
{
    version_reparse(id, text@, back);
}

/// The serialized form of a package identifier is its text as a `String`,
/// and reading that form back gives an equal identifier.
pub proof fn package_serialized_round_trip(id: PackageIdent, form: String, back: Result<PackageIdent>)
    requires
        call_ensures(PackageIdent::into_string, (id,), form),
        call_ensures(PackageIdent::try_from_string, (form,), back),
    ensures
        back is Ok,
        back->Ok_0.eq_spec(&id),
{
    package_reparse(id, form@, back);
}

/// The serialized form of a version identifier is its text as a `String`,
/// and reading that form back gives an equal identifier.
pub proof fn version_serialized_round_trip(id: VersionIdent, form: String, back: Result<VersionIdent>)
    requires
        call_ensures(VersionIdent::into_string, (id,), form),
        call_ensures(VersionIdent::try_from_string, (form,), back),
    ensures
        back is Ok,
        back->Ok_0.eq_spec(&id),
{
    version_reparse(id, form@, back);
}

/// Dropping the version of an identifier and appending that same version
/// again gives back the same namespace, name and version.
pub proof fn package_then_same_version(
    id: VersionIdent,
    package: PackageIdent,
    version: &str,
    back: VersionIdent,
)
    requires
        call_ensures(VersionIdent::package_id, (&id,), package),
        call_ensures(PackageIdent::with_version, (&package, version), back),
        version@ == id@.2,
    ensures
        back@ == id@,
        back.eq_spec(&id),
{
}

/// Package identifiers compare as `Equal` exactly when they are `==`, that
/// is, when their texts are byte for byte the same.
pub proof fn package_order_agrees_with_eq(a: PackageIdent, b: PackageIdent)
    ensures
        (a.partial_cmp_spec(&b) == Some(core::cmp::Ordering::Equal)) == a.eq_spec(&b),
        a.eq_spec(&b) == (encode_utf8(a.text()) == encode_utf8(b.text())),
{
    lemma_lex_cmp_equal(encode_utf8(a.text()), encode_utf8(b.text()));
    lemma_encode_injective(a.text(), b.text());
}

/// Version identifiers compare as `Equal` exactly when they are `==`, that
/// is, when their texts are byte for byte the same.
pub proof fn version_order_agrees_with_eq(a: VersionIdent, b: VersionIdent)
    ensures
        (a.partial_cmp_spec(&b) == Some(core::cmp::Ordering::Equal)) == a.eq_spec(&b),
        a.eq_spec(&b) == (encode_utf8(a.text()) == encode_utf8(b.text())),
{
    lemma_lex_cmp_equal(encode_utf8(a.text()), encode_utf8(b.text()));
    lemma_encode_injective(a.text(), b.text());
}

/// A package identifier built from parts and one parsed from the same
/// canonical text are equal and compare as `Equal`.
pub proof fn package_construction_paths_agree(
    namespace: &str,
    name: &str,
    built: PackageIdent,
    text: &str,
    parsed: Result<PackageIdent>,
)
    requires
        call_ensures(PackageIdent::new, (namespace, name), built),
        call_ensures(PackageIdent::parse_str, (text,), parsed),
        text@ == joined(namespace@, name@),
    ensures
        parsed is Ok,
        parsed->Ok_0.eq_spec(&built),
        parsed->Ok_0.partial_cmp_spec(&built) == Some(core::cmp::Ordering::Equal),
{
    package_reparse(built, text@, parsed);
    package_order_agrees_with_eq(parsed->Ok_0, built);
}

/// A version identifier built from parts and one parsed from the same
/// canonical text are equal and compare as `Equal`.
pub proof fn version_construction_paths_agree(
    namespace: &str,
    name: &str,
    version: &str,
    built: VersionIdent,
    text: &str,
    parsed: Result<VersionIdent>,
)
    requires
        call_ensures(VersionIdent::new, (namespace, name, version), built),
        call_ensures(VersionIdent::parse_str, (text,), parsed),
        text@ == joined(joined(namespace@, name@), version@),
    ensures
        parsed is Ok,
        parsed->Ok_0.eq_spec(&built),
        parsed->Ok_0.partial_cmp_spec(&built) == Some(core::cmp::Ordering::Equal),
{
    version_reparse(built, text@, parsed);
    version_order_agrees_with_eq(parsed->Ok_0, built);
}

} // verus!
