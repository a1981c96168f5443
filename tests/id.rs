use std::borrow::Cow;

use thunderstore::{Error, IntoPackageId, IntoVersionId, PackageId, VersionId};

#[test]
fn id_version_id_new() {
    let id = VersionId::new("Kesomannen", "GaleModManager", "0.6.0");
    assert_eq!(id.namespace(), "Kesomannen");
    assert_eq!(id.name(), "GaleModManager");
    assert_eq!(id.version(), "0.6.0");
}

#[test]
fn id_version_id_path() {
    let id = VersionId::new("notnotnotswipez", "MoreCompany", "1.9.1");
    assert_eq!(id.path().to_string(), "notnotnotswipez/MoreCompany/1.9.1");
}

#[test]
fn id_parse_version_id() {
    let id: VersionId = "Evaisa-LethalLib-0.16.0".parse().unwrap();
    assert_eq!(id.namespace(), "Evaisa");
    assert_eq!(id.name(), "LethalLib");
    assert_eq!(id.version(), "0.16.0");
}

#[test]
fn id_version_id_from_tuple() {
    let id: VersionId = ("A", "B", "1.2.3").into();
    assert_eq!(id.namespace(), "A");
    assert_eq!(id.name(), "B");
    assert_eq!(id.version(), "1.2.3");
}

#[test]
fn id_package_id_new_and_parts() {
    let id = PackageId::new("X", "Y");
    assert_eq!(id.namespace(), "X");
    assert_eq!(id.name(), "Y");
    assert_eq!(id.to_string(), "X-Y");
}

#[test]
fn id_package_id_from_str() {
    let id: PackageId = "Author-Mod".parse().unwrap();
    assert_eq!(id.namespace(), "Author");
    assert_eq!(id.name(), "Mod");
}

#[test]
fn id_package_id_path() {
    let id = PackageId::new("NS", "Mod");
    assert_eq!(id.path().to_string(), "NS/Mod");
}

#[test]
fn id_version_id_into_package_id() {
    let vid = VersionId::new("N", "M", "0.0.1");
    let pid: PackageId = vid.package_id();
    assert_eq!(pid.namespace(), "N");
    assert_eq!(pid.name(), "M");
}

#[test]
fn id_version_id_serde_roundtrip() {
    let original = VersionId::new("TestAuthor", "TestMod", "1.2.3");
    let json = serde_json::to_string(&original.clone().into_string()).unwrap();
    let text: String = serde_json::from_str(&json).unwrap();
    let deserialized = VersionId::try_from_string(text).unwrap();
    assert_eq!(original, deserialized);
}

#[test]
fn id_package_id_serde_roundtrip() {
    let original = PackageId::new("TestAuthor", "TestMod");
    let json = serde_json::to_string(&original.clone().into_string()).unwrap();
    let text: String = serde_json::from_str(&json).unwrap();
    let deserialized = PackageId::try_from_string(text).unwrap();
    assert_eq!(original, deserialized);
}

#[test]
fn id_version_id_serde_from_string() {
    let json = r#""SomeAuthor-SomeMod-0.0.5""#;
    let text: String = serde_json::from_str(json).unwrap();
    let id = VersionId::try_from_string(text).unwrap();
    assert_eq!(id.namespace(), "SomeAuthor");
    assert_eq!(id.name(), "SomeMod");
    assert_eq!(id.version(), "0.0.5");
}

#[test]
fn id_package_id_serde_from_string() {
    let json = r#""CoolGuy-ModPack""#;
    let text: String = serde_json::from_str(json).unwrap();
    let id = PackageId::try_from_string(text).unwrap();
    assert_eq!(id.namespace(), "CoolGuy");
    assert_eq!(id.name(), "ModPack");
}

#[test]
fn version_id_new_works() {
    let id = VersionId::new("Kesomannen", "GaleModManager", "0.6.0");
    assert_eq!(id.namespace(), "Kesomannen");
    assert_eq!(id.name(), "GaleModManager");
    assert_eq!(id.version(), "0.6.0");
}

#[test]
fn version_id_path_works() {
    let id = VersionId::new("notnotnotswipez", "MoreCompany", "1.9.1");
    assert_eq!(id.path().to_string(), "notnotnotswipez/MoreCompany/1.9.1");
}

#[test]
fn parse_version_id_works() {
    let id: VersionId = "Evaisa-LethalLib-0.16.0".parse().unwrap();
    assert_eq!(id.namespace(), "Evaisa");
    assert_eq!(id.name(), "LethalLib");
    assert_eq!(id.version(), "0.16.0");
}

#[test]
fn id_with_version_and_errors() {
    let package = PackageId::new("Author", "Mod");
    let version = package.with_version("1.0.0");
    assert_eq!(version.as_str(), "Author-Mod-1.0.0");
    assert_eq!(version.package_id(), package);
    assert_eq!("nodash".parse::<PackageId>().unwrap_err(), Error::InvalidIdent);
    assert_eq!("one-dash".parse::<VersionId>().unwrap_err(), Error::InvalidIdent);
}

#[test]
fn id_conversions_accept_many_shapes() {
    let id = PackageId::new("Author", "Mod");
    assert!(matches!(IntoPackageId::into_id(&id).unwrap(), Cow::Borrowed(_)));
    assert_eq!(IntoPackageId::into_id("Author-Mod").unwrap().name(), "Mod");
    assert_eq!(IntoPackageId::into_id(("Author", "Mod")).unwrap().as_str(), "Author-Mod");
    let version = VersionId::new("Author", "Mod", "1.0.0");
    assert_eq!(IntoPackageId::into_id(&version).unwrap().as_str(), "Author-Mod");
    assert_eq!(IntoVersionId::into_id("Author-Mod-1.0.0").unwrap().version(), "1.0.0");
    assert_eq!(IntoVersionId::into_id("Author-Mod").unwrap_err(), Error::InvalidIdent);
    assert!(PackageId::new("A", "B") < PackageId::new("A", "C"));
    assert_eq!(id.clone().into_cow(), "Author-Mod");
}

#[test]
fn id_try_from_std_traits() {
    let id = PackageId::try_from("Author-Mod").unwrap();
    assert!(matches!(id.into_cow(), Cow::Borrowed(_)));
    let id = VersionId::try_from(String::from("Author-Mod-1.0")).unwrap();
    assert_eq!(id.version(), "1.0");
    let id = VersionId::try_from(Cow::Borrowed("A-B-C")).unwrap();
    assert_eq!(id.name(), "B");
    assert_eq!(PackageId::try_from("nodash").unwrap_err(), Error::InvalidIdent);
    assert_eq!(VersionId::try_from("one-dash").unwrap_err(), Error::InvalidIdent);
}
