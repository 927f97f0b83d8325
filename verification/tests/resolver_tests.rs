use axum_asset::conditional::respond;
use axum_asset::http_date::parse_http_date;
use axum_asset::{
    ConditionalRequest, EmbeddedFile, EmbeddedFileMetadata, FileInfo, format_http_date, resolve,
};

fn sample_record() -> EmbeddedFile {
    EmbeddedFile {
        route: "/index.html".to_string(),
        path: "index.html".to_string(),
        contents: b"<html>sample</html>".to_vec(),
        metadata: EmbeddedFileMetadata {
            content_hash: "abc123".to_string(),
            last_modified: 1_700_000_000,
            mime_type: "text/html".to_string(),
            size: 19,
        },
    }
}

#[test]
fn scenario_matching_etag_gives_not_modified() {
    let file = sample_record();
    let response = respond(Some("\"abc123\""), None, &file);
    assert_eq!(response.status.code(), 304);
    assert!(response.body.is_empty());
    assert_eq!(response.headers.etag, "\"abc123\"");
    assert!(response.headers.content_type.is_none());
}

#[test]
fn scenario_wrong_etag_gives_full_content() {
    let file = sample_record();
    let response = respond(Some("\"wrong\""), None, &file);
    assert_eq!(response.status.code(), 200);
    assert_eq!(response.body, b"<html>sample</html>".to_vec());
    assert_eq!(response.headers.etag, "\"abc123\"");
    assert_eq!(response.headers.content_type.as_deref(), Some("text/html"));
}

#[test]
fn scenario_if_modified_since_at_timestamp_gives_not_modified() {
    let file = sample_record();
    let date = format_http_date(1_700_000_000);
    assert_eq!(date, "Tue, 14 Nov 2023 22:13:20 GMT");
    let response = respond(None, Some(&date), &file);
    assert_eq!(response.status.code(), 304);
    assert!(response.body.is_empty());
}

#[test]
fn scenario_if_modified_since_one_second_earlier_gives_full_content() {
    let file = sample_record();
    let date = format_http_date(1_699_999_999);
    assert_eq!(date, "Tue, 14 Nov 2023 22:13:19 GMT");
    let response = respond(None, Some(&date), &file);
    assert_eq!(response.status.code(), 200);
    assert_eq!(response.body, file.contents);
}

#[test]
fn unconditional_request_always_serves_full_content() {
    let file = sample_record();
    let response = resolve(&file, &ConditionalRequest::unconditional());
    assert_eq!(response.status.code(), 200);
    assert_eq!(response.body, file.contents);
    assert_eq!(response.headers.vary, "Accept-Encoding");
    assert_eq!(response.headers.cache_control, "no-cache, public");
    assert_eq!(
        response.headers.last_modified,
        "Tue, 14 Nov 2023 22:13:20 GMT"
    );
}

#[test]
fn repeated_resolution_is_byte_identical() {
    let file = sample_record();
    let req = ConditionalRequest::from_headers(Some("\"abc123\", \"other\""), Some("nonsense"));
    let first = resolve(&file, &req);
    let second = resolve(&file, &req);
    assert_eq!(first, second);
    let third = respond(Some("\"zzz\""), Some("Thu, 01 Jan 1970 00:00:01 GMT"), &file);
    let fourth = respond(Some("\"zzz\""), Some("Thu, 01 Jan 1970 00:00:01 GMT"), &file);
    assert_eq!(third, fourth);
}

#[test]
fn wildcard_if_none_match_always_matches() {
    let file = sample_record();
    let response = respond(Some("*"), None, &file);
    assert_eq!(response.status.code(), 304);
    let padded = respond(Some("  *  "), None, &file);
    assert_eq!(padded.status.code(), 304);
}

#[test]
fn etag_list_matches_any_member() {
    let file = sample_record();
    let response = respond(Some("\"first\", \"abc123\" , \"last\""), None, &file);
    assert_eq!(response.status.code(), 304);
    let miss = respond(Some("\"first\", \"second\""), None, &file);
    assert_eq!(miss.status.code(), 200);
}

#[test]
fn weak_entity_tags_match_by_opaque_part() {
    let file = sample_record();
    // Weak comparison: a W/ prefix on the client's tag is ignored.
    let response = respond(Some("W/\"abc123\""), None, &file);
    assert_eq!(response.status.code(), 304);
    let listed = respond(Some("\"first\", W/\"abc123\""), None, &file);
    assert_eq!(listed.status.code(), 304);
    // The opaque parts must still be identical.
    let wrong = respond(Some("W/\"wrong\""), None, &file);
    assert_eq!(wrong.status.code(), 200);
    // The weakness prefix is exactly `W/`, case included.
    let lowercase = respond(Some("w/\"abc123\""), None, &file);
    assert_eq!(lowercase.status.code(), 200);
}

#[test]
fn empty_if_none_match_counts_as_absent() {
    let file = sample_record();
    // With the tag list empty, If-Modified-Since decides again.
    let date = format_http_date(1_700_000_000);
    let response = respond(Some(""), Some(&date), &file);
    assert_eq!(response.status.code(), 304);
    let commas = respond(Some(" , , "), Some(&date), &file);
    assert_eq!(commas.status.code(), 304);
}

#[test]
fn malformed_if_modified_since_counts_as_absent() {
    let file = sample_record();
    let response = respond(None, Some("not a date at all"), &file);
    assert_eq!(response.status.code(), 200);
    let response = respond(None, Some("Tue, 14 Nov 2023 22:13:20 UTC"), &file);
    assert_eq!(response.status.code(), 200);
}

#[test]
fn format_known_dates() {
    assert_eq!(format_http_date(0), "Thu, 01 Jan 1970 00:00:00 GMT");
    assert_eq!(format_http_date(1), "Thu, 01 Jan 1970 00:00:01 GMT");
    assert_eq!(format_http_date(951_782_400), "Tue, 29 Feb 2000 00:00:00 GMT");
    assert_eq!(
        format_http_date(253_402_300_799),
        "Fri, 31 Dec 9999 23:59:59 GMT"
    );
}

#[test]
fn parse_round_trips_formatted_dates() {
    for t in [
        0u64,
        1,
        86_399,
        86_400,
        951_782_400,
        1_700_000_000,
        253_402_300_799,
    ] {
        let date = format_http_date(t);
        assert_eq!(parse_http_date(&date), Some(t));
    }
}

#[test]
fn parse_accepts_obsolete_date_forms() {
    // The same instant in the three forms a recipient accepts.
    assert_eq!(
        parse_http_date("Sun, 06 Nov 1994 08:49:37 GMT"),
        Some(784_111_777)
    );
    assert_eq!(
        parse_http_date("Sunday, 06-Nov-94 08:49:37 GMT"),
        Some(784_111_777)
    );
    assert_eq!(parse_http_date("Sun Nov  6 08:49:37 1994"), Some(784_111_777));
    assert_eq!(parse_http_date("Sun Nov 06 08:49:37 1994"), Some(784_111_777));
    // Two-digit years: below 70 fall in the 2000s, the rest in the 1900s.
    assert_eq!(parse_http_date("Thursday, 01-Jan-70 00:00:00 GMT"), Some(0));
    assert_eq!(
        parse_http_date("Tuesday, 01-Jan-69 00:00:00 GMT"),
        Some(3_124_224_000)
    );
    assert_eq!(parse_http_date("Thu Jan  1 00:00:00 1970"), Some(0));
    assert_eq!(parse_http_date("Tue Nov 14 22:13:20 2023"), Some(1_700_000_000));
}

#[test]
fn parse_rejects_wrong_obsolete_dates() {
    // Wrong weekday for the date.
    assert_eq!(parse_http_date("Monday, 06-Nov-94 08:49:37 GMT"), None);
    assert_eq!(parse_http_date("Mon Nov  6 08:49:37 1994"), None);
    // No such calendar day.
    assert_eq!(parse_http_date("Sunday, 31-Nov-94 08:49:37 GMT"), None);
    // Wrong zone suffix.
    assert_eq!(parse_http_date("Sunday, 06-Nov-94 08:49:37 UTC"), None);
}

#[test]
fn if_modified_since_in_obsolete_form_gives_not_modified() {
    let info = FileInfo::new("notes.txt".to_string(), b"notes".to_vec(), 784_111_777);
    let file = info.into_embedded();
    let response = respond(None, Some("Sunday, 06-Nov-94 08:49:37 GMT"), &file);
    assert_eq!(response.status.code(), 304);
    let asctime = respond(None, Some("Sun Nov  6 08:49:37 1994"), &file);
    assert_eq!(asctime.status.code(), 304);
}

#[test]
fn parse_rejects_non_canonical_dates() {
    // Wrong shape.
    assert_eq!(parse_http_date(""), None);
    assert_eq!(parse_http_date("nonsense"), None);
    // Wrong weekday name for the date.
    assert_eq!(parse_http_date("Mon, 14 Nov 2023 22:13:20 GMT"), None);
    // No such calendar day.
    assert_eq!(parse_http_date("Thu, 31 Nov 2023 22:13:20 GMT"), None);
    // Out-of-range time of day.
    assert_eq!(parse_http_date("Tue, 14 Nov 2023 25:13:20 GMT"), None);
    // Wrong zone suffix.
    assert_eq!(parse_http_date("Tue, 14 Nov 2023 22:13:20 UTC"), None);
    // Years before the epoch are not timestamps.
    assert_eq!(parse_http_date("Thu, 01 Jan 1969 00:00:00 GMT"), None);
}

#[test]
fn file_info_hashes_contents() {
    let info = FileInfo::new("empty.txt".to_string(), Vec::new(), 42);
    assert_eq!(
        info.content_hash,
        "e3b0c44298fc1c149afbf4c8996fb92427ae41e4649b934ca495991b7852b855"
    );
    let info = FileInfo::new("abc.txt".to_string(), b"abc".to_vec(), 42);
    assert_eq!(
        info.content_hash,
        "ba7816bf8f01cfea414140de5dae2223b00361a396177a9cb410ff61f20015ad"
    );
}

#[test]
fn identical_contents_give_identical_hashes() {
    let a = FileInfo::new("a.bin".to_string(), b"same bytes".to_vec(), 1);
    let b = FileInfo::new("b.bin".to_string(), b"same bytes".to_vec(), 2);
    assert_eq!(a.content_hash, b.content_hash);
    let c = FileInfo::new("c.bin".to_string(), b"other bytes".to_vec(), 3);
    assert_ne!(a.content_hash, c.content_hash);
}

#[test]
fn file_info_guesses_mime_types() {
    let cases: Vec<(&str, &str)> = vec![
        ("index.html", "text/html"),
        ("data.json", "application/json"),
        ("style.css", "text/css"),
        ("script.js", "text/javascript"),
        ("notes.txt", "text/plain"),
        ("no-extension", "application/octet-stream"),
    ];
    for (path, expected) in cases {
        let info = FileInfo::new(path.to_string(), b"x".to_vec(), 0);
        assert_eq!(info.mime_type, expected, "for {path}");
    }
}

#[test]
fn into_embedded_builds_route_and_size() {
    let info = FileInfo::new(
        "nested/deep/file.txt".to_string(),
        b"deep down".to_vec(),
        1_700_000_000,
    );
    let hash = info.content_hash.clone();
    let file = info.into_embedded();
    assert_eq!(file.route, "/nested/deep/file.txt");
    assert_eq!(file.path, "nested/deep/file.txt");
    assert_eq!(file.metadata.size, 9);
    assert_eq!(file.metadata.content_hash, hash);
    assert_eq!(file.metadata.last_modified, 1_700_000_000);
    assert_eq!(file.contents, b"deep down".to_vec());
}
