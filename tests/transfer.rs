use thunderstore::metadata::PackageMetadata;
use thunderstore::profile::{
    base64_text, decode_profile, encode_profile, frame_profile, profile_data_prefix, strip_profile_prefix,
    ProfileError,
};
use thunderstore::transfer::{
    classify_status, cursor_from_query, find_cursor, part_bounds, CursorState, ResponseFailure,
};

#[test]
fn profile_payload_is_prefixed_base64() {
    assert_eq!(encode_profile(b"hello"), "#r2modman\naGVsbG8=");
    assert_eq!(encode_profile(b""), "#r2modman\n");
    assert_eq!(frame_profile("abc"), "#r2modman\nabc");
    assert_eq!(profile_data_prefix(), "#r2modman\n");
}

#[test]
fn profile_payload_decodes_back() {
    assert_eq!(decode_profile(b"#r2modman\naGVsbG8=").unwrap(), b"hello".to_vec());
    let data: Vec<u8> = (0..=255).collect();
    let payload = encode_profile(&data);
    assert_eq!(decode_profile(payload.as_bytes()).unwrap(), data);
}

#[test]
fn profile_without_prefix_is_invalid() {
    assert!(matches!(decode_profile(b"aGVsbG8="), Err(ProfileError::InvalidProfileData)));
    assert!(matches!(decode_profile(b"#r2mod"), Err(ProfileError::InvalidProfileData)));
    assert_eq!(strip_profile_prefix(b"#r2modman\nxyz"), Some(&b"xyz"[..]));
    assert_eq!(strip_profile_prefix(b"#R2modman\nxyz"), None);
}

#[test]
fn profile_with_bad_base64_fails() {
    assert!(matches!(decode_profile(b"#r2modman\n!!!!"), Err(ProfileError::Base64(_))));
}

#[test]
fn statuses_are_classified() {
    assert_eq!(classify_status(200), None);
    assert_eq!(classify_status(399), None);
    assert_eq!(classify_status(401), Some(ResponseFailure::ApiTokenInvalid));
    assert_eq!(classify_status(404), Some(ResponseFailure::NotFound));
    assert_eq!(classify_status(400), Some(ResponseFailure::Other));
    assert_eq!(classify_status(503), Some(ResponseFailure::Other));
    assert_eq!(classify_status(600), None);
}

#[test]
fn upload_parts_must_lie_inside_the_data() {
    assert_eq!(part_bounds(0, 5, 10), Some((0, 5)));
    assert_eq!(part_bounds(5, 5, 10), Some((5, 10)));
    assert_eq!(part_bounds(8, 5, 10), None);
    assert_eq!(part_bounds(u64::MAX, 1, 10), None);
}

#[test]
fn cursor_state_holds_cursors() {
    let state = CursorState { next: Some(String::from("abc")), prev: None };
    let copy = state.clone();
    assert_eq!(copy.next.as_deref(), Some("abc"));
    assert!(copy.prev.is_none());
}

#[test]
fn metadata_builder_merges_community_categories() {
    let metadata = PackageMetadata::new(
        String::from("Kesomannen"),
        vec![String::from("lethal-company"), String::from("content-warning")],
    )
    .with_global_categories(vec![String::from("mods")])
    .with_categories(String::from("lethal-company"), vec![String::from("audio")])
    .with_categories(String::from("content-warning"), vec![String::from("audio")])
    .with_categories(String::from("lethal-company"), vec![String::from("serverside")])
    .in_community(String::from("riskofrain2"))
    .has_nsfw_content(true)
    .with_upload_uuid(7);
    assert_eq!(metadata.author(), "Kesomannen");
    assert_eq!(metadata.global_categories(), &vec![String::from("mods")]);
    assert_eq!(
        metadata.categories(),
        &vec![
            (
                String::from("lethal-company"),
                vec![String::from("audio"), String::from("serverside")]
            ),
            (String::from("content-warning"), vec![String::from("audio")]),
        ]
    );
    assert_eq!(metadata.communities().len(), 3);
    assert_eq!(metadata.communities()[2], "riskofrain2");
    assert!(metadata.nsfw());
    assert_eq!(metadata.upload_uuid(), Some(7));
}

#[test]
fn metadata_starts_empty() {
    let metadata = PackageMetadata::new(String::from("author"), Vec::new())
        .in_communities(vec![String::from("a"), String::from("b")]);
    assert_eq!(metadata.communities(), &vec![String::from("a"), String::from("b")]);
    assert!(metadata.global_categories().is_empty());
    assert!(metadata.categories().is_empty());
    assert!(!metadata.nsfw());
    assert_eq!(metadata.upload_uuid(), None);
}

#[test]
fn cursor_is_read_from_query() {
    assert_eq!(cursor_from_query("a=1&cursor=abc%20d&cursor=x"), Some(String::from("abc d")));
    assert_eq!(cursor_from_query("cursor=a+b"), Some(String::from("a b")));
    assert_eq!(cursor_from_query("page=2"), None);
    assert_eq!(cursor_from_query(""), None);
}

#[test]
fn cursor_is_the_first_matching_pair() {
    let pairs = vec![
        (String::from("Cursor"), String::from("no")),
        (String::from("cursor"), String::from("yes")),
        (String::from("cursor"), String::from("later")),
    ];
    assert_eq!(find_cursor(&pairs), Some(String::from("yes")));
    assert_eq!(find_cursor(&Vec::new()), None);
}

#[test]
fn base64_text_encodes() {
    assert_eq!(base64_text(b"hi"), "aGk=");
    assert_eq!(base64_text(b""), "");
}
