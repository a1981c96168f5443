use thunderstore::lines::LineSplitter;
use thunderstore::records::PackageArraySplitter;

#[test]
fn lines_are_cut_at_newlines() {
    let mut splitter = LineSplitter::new();
    let lines = splitter.push("{\"a\":1}\n{\"b\"");
    assert_eq!(lines, vec![String::from("{\"a\":1}")]);
    assert_eq!(splitter.pending(), "{\"b\"");
    let lines = splitter.push(":2}\n\n{\"c\":3}");
    assert_eq!(lines, vec![String::from("{\"b\":2}"), String::new()]);
    assert_eq!(splitter.pending(), "{\"c\":3}");
}

#[test]
fn lines_without_newline_stay_pending() {
    let mut splitter = LineSplitter::new();
    assert!(splitter.push("abc").is_empty());
    assert!(splitter.push("déf").is_empty());
    assert_eq!(splitter.pending(), "abcdéf");
    assert_eq!(splitter.push("\n"), vec![String::from("abcdéf")]);
    assert_eq!(splitter.pending(), "");
}

#[test]
fn array_records_are_cut_after_version_lists() {
    let mut splitter = PackageArraySplitter::new();
    let records = splitter.push(b"[{\"name\":\"a\",\"versions\":[{\"v\":1}]},{\"name\":\"b\"");
    assert_eq!(records, vec![String::from("{\"name\":\"a\",\"versions\":[{\"v\":1}]}")]);
    let records = splitter.push(b",\"versions\":[{\"v\":2}]},{\"name\":\"c\",\"versions\":[]}]");
    assert_eq!(records, vec![String::from("{\"name\":\"b\",\"versions\":[{\"v\":2}]}")]);
}

#[test]
fn array_waits_for_split_characters() {
    let mut splitter = PackageArraySplitter::new();
    let text = "[{\"n\":\"é\",\"versions\":[{}]},{".as_bytes();
    let cut = 8;
    assert_eq!(text[cut - 1], 0xc3);
    assert!(splitter.push(&text[..cut]).is_empty());
    let records = splitter.push(&text[cut..]);
    assert_eq!(records, vec![String::from("{\"n\":\"é\",\"versions\":[{}]}")]);
}

#[test]
fn array_drops_only_the_opening_bracket() {
    let mut splitter = PackageArraySplitter::new();
    assert!(splitter.push(b"[").is_empty());
    let records = splitter.push(b"{\"versions\":[{}]},");
    assert_eq!(records, vec![String::from("{\"versions\":[{}]}")]);
}

#[test]
fn array_with_one_package_yields_it() {
    let mut splitter = PackageArraySplitter::new();
    let records = splitter.push(b"[{\"v\":[{}]}]");
    assert_eq!(records, vec![String::from("{\"v\":[{}]}")]);
}

#[test]
fn array_yields_every_package_in_any_chunks() {
    let listing = "[{\"n\":\"a\",\"versions\":[{\"v\":1}]},{\"n\":\"é\",\"versions\":[{\"v\":2}]},{\"n\":\"c\",\"versions\":[{\"v\":3}]}]";
    let expected = vec![
        String::from("{\"n\":\"a\",\"versions\":[{\"v\":1}]}"),
        String::from("{\"n\":\"é\",\"versions\":[{\"v\":2}]}"),
        String::from("{\"n\":\"c\",\"versions\":[{\"v\":3}]}"),
    ];
    let bytes = listing.as_bytes();
    for size in 1..=bytes.len() {
        let mut splitter = PackageArraySplitter::new();
        let mut records = Vec::new();
        for chunk in bytes.chunks(size) {
            records.extend(splitter.push(chunk));
        }
        assert_eq!(records, expected, "chunk size {}", size);
    }
}
