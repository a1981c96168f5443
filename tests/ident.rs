use std::borrow::Cow;
use std::collections::hash_map::DefaultHasher;
use std::hash::{Hash, Hasher};

use thunderstore::{Error, IntoPackageIdent, IntoVersionIdent, PackageIdent, VersionIdent};

fn hash_of<T: Hash>(value: &T) -> u64 {
    let mut hasher = DefaultHasher::new();
    value.hash(&mut hasher);
    hasher.finish()
}

#[test]
fn mod_version_id_new() {
    let id = VersionIdent::new("Kesomannen", "GaleModManager", "0.6.0");
    assert_eq!(id.namespace(), "Kesomannen");
    assert_eq!(id.name(), "GaleModManager");
    assert_eq!(id.version(), "0.6.0");
}

#[test]
fn mod_version_id_path() {
    let id = VersionIdent::new("notnotnotswipez", "MoreCompany", "1.9.1");
    assert_eq!(id.path().to_string(), "notnotnotswipez/MoreCompany/1.9.1");
}

#[test]
fn mod_parse_version_id() {
    let id: VersionIdent = "Evaisa-LethalLib-0.16.0".parse().unwrap();
    assert_eq!(id.namespace(), "Evaisa");
    assert_eq!(id.name(), "LethalLib");
    assert_eq!(id.version(), "0.16.0");
}

#[test]
fn mod_version_id_from_tuple() {
    let id: VersionIdent = ("A", "B", "1.2.3").into();
    assert_eq!(id.namespace(), "A");
    assert_eq!(id.name(), "B");
    assert_eq!(id.version(), "1.2.3");
}

#[test]
fn mod_package_id_new_and_parts() {
    let id = PackageIdent::new("X", "Y");
    assert_eq!(id.namespace(), "X");
    assert_eq!(id.name(), "Y");
    assert_eq!(id.to_string(), "X-Y");
}

#[test]
fn mod_package_id_from_str() {
    let id: PackageIdent = "Author-Mod".parse().unwrap();
    assert_eq!(id.namespace(), "Author");
    assert_eq!(id.name(), "Mod");
}

#[test]
fn mod_package_id_path() {
    let id = PackageIdent::new("NS", "Mod");
    assert_eq!(id.path().to_string(), "NS/Mod");
}

#[test]
fn mod_version_id_into_package_id() {
    let vid = VersionIdent::new("N", "M", "0.0.1");
    let pid: PackageIdent = vid.package_id();
    assert_eq!(pid.namespace(), "N");
    assert_eq!(pid.name(), "M");
}

#[test]
fn mod_version_id_serde_roundtrip() {
    let original = VersionIdent::new("TestAuthor", "TestMod", "1.2.3");
    let json = serde_json::to_string(&original.clone().into_string()).unwrap();
    let text: String = serde_json::from_str(&json).unwrap();
    let deserialized = VersionIdent::try_from_string(text).unwrap();
    assert_eq!(original, deserialized);
}

#[test]
fn mod_package_id_serde_roundtrip() {
    let original = PackageIdent::new("TestAuthor", "TestMod");
    let json = serde_json::to_string(&original.clone().into_string()).unwrap();
    let text: String = serde_json::from_str(&json).unwrap();
    let deserialized = PackageIdent::try_from_string(text).unwrap();
    assert_eq!(original, deserialized);
}

#[test]
fn mod_version_id_serde_from_string() {
    let json = r#""SomeAuthor-SomeMod-0.0.5""#;
    let text: String = serde_json::from_str(json).unwrap();
    let id = VersionIdent::try_from_string(text).unwrap();
    assert_eq!(id.namespace(), "SomeAuthor");
    assert_eq!(id.name(), "SomeMod");
    assert_eq!(id.version(), "0.0.5");
}

#[test]
fn mod_package_id_serde_from_string() {
    let json = r#""CoolGuy-ModPack""#;
    let text: String = serde_json::from_str(json).unwrap();
    let id = PackageIdent::try_from_string(text).unwrap();
    assert_eq!(id.namespace(), "CoolGuy");
    assert_eq!(id.name(), "ModPack");
}

#[test]
fn package_new_keeps_fields_with_dashes() {
    let id = PackageIdent::new("a-b", "c-d");
    assert_eq!(id.namespace(), "a-b");
    assert_eq!(id.name(), "c-d");
    assert_eq!(id.as_str(), "a-b-c-d");
}

#[test]
fn version_new_keeps_fields_with_dashes_and_unicode() {
    let id = VersionIdent::new("Ünï-cødé", "näme", "1.0.0-β");
    assert_eq!(id.namespace(), "Ünï-cødé");
    assert_eq!(id.name(), "näme");
    assert_eq!(id.version(), "1.0.0-β");
}

#[test]
fn package_path_renders_slash() {
    let id = PackageIdent::new("BepInEx", "BepInExPack");
    assert_eq!(id.path().to_string(), "BepInEx/BepInExPack");
}

#[test]
fn version_path_renders_slashes() {
    let id = VersionIdent::new("BepInEx", "BepInExPack", "5.4.2100");
    assert_eq!(id.path().to_string(), "BepInEx/BepInExPack/5.4.2100");
}

#[test]
fn version_keeps_dashes_after_second_delimiter() {
    let id: VersionIdent = "NS-Name-1.0.0-beta".parse().unwrap();
    assert_eq!(id.namespace(), "NS");
    assert_eq!(id.name(), "Name");
    assert_eq!(id.version(), "1.0.0-beta");
}

#[test]
fn parse_without_dash_fails() {
    assert_eq!("onlyonepart".parse::<PackageIdent>().unwrap_err(), Error::InvalidIdent);
    assert_eq!("onlyonepart".parse::<VersionIdent>().unwrap_err(), Error::InvalidIdent);
}

#[test]
fn version_parse_with_one_dash_fails() {
    assert_eq!("ns-name".parse::<VersionIdent>().unwrap_err(), Error::InvalidIdent);
    let package: PackageIdent = "ns-name".parse().unwrap();
    assert_eq!(package.name(), "name");
}

#[test]
fn empty_fields_are_accepted() {
    let id: PackageIdent = "-".parse().unwrap();
    assert_eq!(id.namespace(), "");
    assert_eq!(id.name(), "");
    let id: PackageIdent = "-foo".parse().unwrap();
    assert_eq!(id.namespace(), "");
    assert_eq!(id.name(), "foo");
    let id: VersionIdent = "--".parse().unwrap();
    assert_eq!(id.namespace(), "");
    assert_eq!(id.name(), "");
    assert_eq!(id.version(), "");
}

#[test]
fn text_round_trip_keeps_fields() {
    let id = VersionIdent::new("Evaisa", "LethalLib", "0.16.0");
    let back = VersionIdent::try_from_string(id.to_string()).unwrap();
    assert_eq!(back, id);
    assert_eq!(back.namespace(), "Evaisa");
    assert_eq!(back.name(), "LethalLib");
    assert_eq!(back.version(), "0.16.0");
    let package = PackageIdent::new("Evaisa", "LethalLib");
    let back = PackageIdent::try_from_string(package.to_string()).unwrap();
    assert_eq!(back, package);
    assert_eq!(back.name(), "LethalLib");
}

#[test]
fn text_round_trip_with_dash_in_namespace_is_equal_text() {
    let id = PackageIdent::new("a-b", "c");
    let back = PackageIdent::try_from_string(id.to_string()).unwrap();
    assert_eq!(back, id);
    assert_eq!(back.namespace(), "a");
    assert_eq!(back.name(), "b-c");
}

#[test]
fn package_then_version_recovers_original() {
    let id = VersionIdent::new("BepInEx", "BepInExPack", "5.4.2100");
    let again = id.package_id().with_version(id.version());
    assert_eq!(again, id);
    assert_eq!(again.version(), "5.4.2100");
    assert_eq!(again.as_str(), "BepInEx-BepInExPack-5.4.2100");
}

#[test]
fn package_id_of_literal_and_owned_agree() {
    let literal = VersionIdent::try_from_static("Ns-Name-1.0.0").unwrap();
    let owned = VersionIdent::try_from_string(String::from("Ns-Name-1.0.0")).unwrap();
    assert_eq!(literal.package_id().as_str(), "Ns-Name");
    assert_eq!(owned.package_id().as_str(), "Ns-Name");
    assert!(matches!(literal.into_cow(), Cow::Borrowed(_)));
    assert!(matches!(owned.into_cow(), Cow::Owned(_)));
}

#[test]
fn equal_texts_compare_and_hash_equal() {
    let built = PackageIdent::new("Author", "Mod");
    let parsed: PackageIdent = "Author-Mod".parse().unwrap();
    let tuple: PackageIdent = ("Author", "Mod").into();
    assert_eq!(built, parsed);
    assert_eq!(built, tuple);
    assert_eq!(hash_of(&built), hash_of(&parsed));
    assert_eq!(built.partial_cmp(&parsed), Some(std::cmp::Ordering::Equal));

    let built = VersionIdent::new("Author", "Mod", "1.0.0");
    let parsed: VersionIdent = "Author-Mod-1.0.0".parse().unwrap();
    assert_eq!(built, parsed);
    assert_eq!(hash_of(&built), hash_of(&parsed));
}

#[test]
fn same_text_with_other_offsets_is_equal() {
    let built = PackageIdent::new("a-b", "c");
    let parsed: PackageIdent = "a-b-c".parse().unwrap();
    assert_ne!(built.namespace(), parsed.namespace());
    assert_eq!(built, parsed);
    assert_eq!(hash_of(&built), hash_of(&parsed));
}

#[test]
fn ordering_is_bytewise() {
    let a = PackageIdent::new("Alpha", "Mod");
    let b = PackageIdent::new("Beta", "Mod");
    let lower = PackageIdent::new("alpha", "Mod");
    assert!(a < b);
    assert!(b < lower);
    assert_ne!(a, b);
    let v1 = VersionIdent::new("A", "B", "1.0.0");
    let v2 = VersionIdent::new("A", "B", "1.0.0-beta");
    assert!(v1 < v2);
}

#[test]
fn eq_package_compares_fields() {
    let id = VersionIdent::new("Author", "Mod", "1.0.0");
    assert!(id.eq_package(&PackageIdent::new("Author", "Mod")));
    assert!(!id.eq_package(&PackageIdent::new("Author", "Other")));
    assert!(!id.eq_package(&PackageIdent::new("Other", "Mod")));
}

#[test]
fn parsed_version_reads_semver() {
    let id: VersionIdent = "BepInEx-BepInExPack-5.4.2100".parse().unwrap();
    let version = id.parsed_version().unwrap();
    assert_eq!(version.major, 5);
    assert_eq!(version.minor, 4);
    assert_eq!(version.patch, 2100);
    assert_eq!(version.pre, "");
    assert_eq!(version.build, "");
    let id = VersionIdent::new("A", "B", "1.0.0-beta.1+exp.sha");
    let version = id.parsed_version().unwrap();
    assert_eq!((version.major, version.minor, version.patch), (1, 0, 0));
    assert_eq!(version.pre, "beta.1");
    assert_eq!(version.build, "exp.sha");
}

#[test]
fn parsed_version_reports_bad_syntax() {
    let id = VersionIdent::new("A", "B", "not-a-version");
    assert_eq!(id.parsed_version().unwrap_err(), Error::InvalidVersion);
    let id = VersionIdent::new("A", "B", "");
    assert_eq!(id.parsed_version().unwrap_err(), Error::InvalidVersion);
}

#[test]
fn into_package_ident_accepts_many_shapes() {
    let id = PackageIdent::new("Author", "Mod");
    let borrowed = IntoPackageIdent::into_id(&id).unwrap();
    assert!(matches!(borrowed, Cow::Borrowed(_)));
    assert_eq!(borrowed.as_str(), "Author-Mod");
    assert_eq!(IntoPackageIdent::into_id("Author-Mod").unwrap().name(), "Mod");
    assert_eq!(IntoPackageIdent::into_id(String::from("Author-Mod")).unwrap().namespace(), "Author");
    assert_eq!(IntoPackageIdent::into_id(("Author", "Mod")).unwrap().as_str(), "Author-Mod");
    let version = VersionIdent::new("Author", "Mod", "2.0.0");
    assert_eq!(IntoPackageIdent::into_id(&version).unwrap().as_str(), "Author-Mod");
    assert_eq!(IntoPackageIdent::into_id("nodash").unwrap_err(), Error::InvalidIdent);
}

#[test]
fn into_version_ident_accepts_many_shapes() {
    let id = VersionIdent::new("Author", "Mod", "1.0.0");
    let borrowed = IntoVersionIdent::into_id(&id).unwrap();
    assert!(matches!(borrowed, Cow::Borrowed(_)));
    assert_eq!(IntoVersionIdent::into_id("Author-Mod-1.0.0").unwrap().version(), "1.0.0");
    assert_eq!(
        IntoVersionIdent::into_id(String::from("Author-Mod-1.0.0")).unwrap().name(),
        "Mod"
    );
    assert_eq!(IntoVersionIdent::into_id(("Author", "Mod", "1.0.0")).unwrap().as_str(), "Author-Mod-1.0.0");
    assert_eq!(IntoVersionIdent::into_id("Author-Mod").unwrap_err(), Error::InvalidIdent);
}

#[test]
fn try_from_std_traits() {
    let id = PackageIdent::try_from("Author-Mod").unwrap();
    assert_eq!(id.name(), "Mod");
    let id = VersionIdent::try_from(String::from("Author-Mod-1.0")).unwrap();
    assert_eq!(id.version(), "1.0");
    let id = VersionIdent::try_from(Cow::Borrowed("A-B-C")).unwrap();
    assert_eq!(id.into_string(), "A-B-C");
    assert_eq!(PackageIdent::try_from("nodash").unwrap_err(), Error::InvalidIdent);
    let from_version: PackageIdent = (&VersionIdent::new("A", "B", "1")).into();
    assert_eq!(from_version.as_str(), "A-B");
}

#[test]
fn clones_keep_text_and_sharing() {
    let literal = PackageIdent::try_from_static("Ns-Name").unwrap();
    let copy = literal.clone();
    assert_eq!(copy, literal);
    assert_eq!(copy.name(), "Name");
    assert!(matches!(copy.into_cow(), Cow::Borrowed(_)));
    let owned = VersionIdent::new("a-b", "c", "1");
    let copy = owned.clone();
    assert_eq!(copy.namespace(), "a-b");
    assert!(matches!(copy.into_cow(), Cow::Owned(_)));
}

#[test]
fn conversions_own_what_they_build() {
    assert!(matches!(IntoPackageIdent::into_id(("A", "B")).unwrap(), Cow::Owned(_)));
    assert!(matches!(IntoPackageIdent::into_id("A-B").unwrap(), Cow::Owned(_)));
    assert!(matches!(IntoVersionIdent::into_id(("A", "B", "1")).unwrap(), Cow::Owned(_)));
    let id = VersionIdent::new("A", "B", "1");
    let passed = IntoVersionIdent::into_id(&id).unwrap();
    assert!(std::ptr::eq(&*passed, &id));
}
