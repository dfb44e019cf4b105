use markov_bot::credentials::{parse_credentials, DecodeFault};
use markov_bot::drive::{blob_key, get_id_by_name, update_or_create_file, FileEntry, Upload};

fn file(name: Option<&str>, id: Option<&str>) -> FileEntry {
    FileEntry { name: name.map(|s| s.to_string()), id: id.map(|s| s.to_string()) }
}

#[test]
fn keys_are_decimal_ids() {
    for id in [0i64, 7, 10, 42, 99, 100, 1_234_567_890, -1, -10, -305, i64::MAX, i64::MIN].iter() {
        assert_eq!(blob_key(*id), id.to_string());
    }
    assert_eq!(blob_key(-9_223_372_036_854_775_808), "-9223372036854775808");
}

#[test]
fn the_first_file_of_a_name_is_meant() {
    let listing = vec![
        file(Some("41"), Some("a")),
        file(Some("42"), Some("b")),
        file(None, Some("c")),
        file(Some("42"), Some("d")),
    ];
    assert_eq!(get_id_by_name(Ok(Some(listing)), "42"), Ok(Some("b".to_string())));
}

#[test]
fn a_name_that_no_file_has() {
    let listing = vec![file(Some("41"), Some("a")), file(None, None)];
    assert_eq!(get_id_by_name(Ok(Some(listing)), "42"), Ok(None));
    assert_eq!(get_id_by_name(Ok(Some(Vec::new())), "42"), Ok(None));
}

#[test]
fn a_file_without_a_name_goes_by_the_empty_one() {
    let listing = vec![file(Some("x"), Some("a")), file(None, Some("nameless"))];
    assert_eq!(get_id_by_name(Ok(Some(listing)), ""), Ok(Some("nameless".to_string())));
}

#[test]
fn a_found_file_may_have_no_id() {
    let listing = vec![file(Some("42"), None), file(Some("42"), Some("later"))];
    assert_eq!(get_id_by_name(Ok(Some(listing)), "42"), Ok(None));
}

#[test]
fn listing_errors() {
    assert_eq!(
        get_id_by_name(Err("list_folder_contents failed: 503".to_string()), "42"),
        Err("list_folder_contents failed: 503".to_string())
    );
    assert_eq!(
        get_id_by_name(Ok(None), "42"),
        Err("list_folder_contents.files is None".to_string())
    );
}

#[test]
fn bytes_replace_a_found_file_and_else_make_one() {
    assert!(matches!(update_or_create_file(Ok(Some("id7".to_string()))), Upload::Replace(id) if id == "id7"));
    assert!(matches!(update_or_create_file(Ok(None)), Upload::Create));
    assert!(matches!(update_or_create_file(Err("down".to_string())), Upload::Create));
}

#[test]
fn credentials_are_decoded() {
    assert_eq!(parse_credentials("aGVsbG8gd29ybGQ="), Ok(b"hello world".to_vec()));
    assert_eq!(parse_credentials("eyJrIjoidiJ9"), Ok(b"{\"k\":\"v\"}".to_vec()));
    assert_eq!(parse_credentials(""), Ok(Vec::new()));
}

#[test]
fn credentials_that_are_no_base64() {
    assert_eq!(parse_credentials("aGVs!G8="), Err(DecodeFault::InvalidByte(4, b'!')));
    assert_eq!(parse_credentials("a"), Err(DecodeFault::InvalidLength));
    assert_eq!(parse_credentials("YR=="), Err(DecodeFault::InvalidLastSymbol(1, b'R')));
}
