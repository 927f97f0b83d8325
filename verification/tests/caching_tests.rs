use axum_asset::{EmbeddedFile, FileInfo, ResolvedResponse};
use axum_asset::conditional::respond;

fn table() -> Vec<EmbeddedFile> {
    let entries: Vec<(&str, &[u8])> = vec![
        ("index.html", b"<html><body>hello</body></html>"),
        ("empty.txt", b""),
        ("data.json", b"{\"answer\": 42}"),
        ("no-extension", b"plain bytes"),
        ("script.js", b"console.log('hi');"),
        ("style.css", b"body { margin: 0; }"),
        ("nested/deep/file.txt", b"deep down"),
    ];
    entries
        .into_iter()
        .enumerate()
        .map(|(k, (path, contents))| {
            FileInfo::new(path.to_string(), contents.to_vec(), 1_700_000_000 + k as u64)
                .into_embedded()
        })
        .collect()
}

fn get_file<'a>(files: &'a [EmbeddedFile], path: &str) -> &'a EmbeddedFile {
    files.iter().find(|f| f.path == path).unwrap()
}

fn check_not_modified(cached: &ResolvedResponse, baseline: &ResolvedResponse) {
    assert_eq!(cached.status.code(), 304);
    assert_eq!(cached.headers.etag, baseline.headers.etag);
    assert_eq!(cached.headers.last_modified, baseline.headers.last_modified);
    assert_eq!(cached.headers.cache_control, "no-cache, public");
    assert!(cached.headers.content_type.is_none());
    assert!(cached.body.is_empty());
}

fn check_full(response: &ResolvedResponse, file: &EmbeddedFile) {
    assert_eq!(response.status.code(), 200);
    assert_eq!(
        response.headers.etag,
        format!("\"{}\"", file.metadata.content_hash)
    );
    assert_eq!(
        response.headers.content_type.as_deref(),
        Some(file.metadata.mime_type.as_str())
    );
    assert!(!response.headers.last_modified.is_empty());
    assert_eq!(response.body.len() as u64, file.metadata.size);
    assert_eq!(response.headers.cache_control, "no-cache, public");
    assert_eq!(response.body, file.contents);
}

const ALL_FILES: [&str; 7] = [
    "index.html",
    "empty.txt",
    "data.json",
    "no-extension",
    "script.js",
    "style.css",
    "nested/deep/file.txt",
];

#[test]
fn test_all_files() {
    let files = table();
    for path in ALL_FILES {
        let file = get_file(&files, path);
        let response = respond(None, None, file);
        check_full(&response, file);
    }
}

#[test]
fn test_all_files_with_if_none_match() {
    let files = table();
    for path in ALL_FILES {
        let file = get_file(&files, path);
        let baseline = respond(None, None, file);
        let etag = baseline.headers.etag.clone();
        let cached = respond(Some(&etag), None, file);
        check_not_modified(&cached, &baseline);
    }
}

#[test]
fn test_all_files_with_incorrect_if_none_match() {
    let files = table();
    for path in ALL_FILES {
        let file = get_file(&files, path);
        let response = respond(Some("\"incorrect-etag\""), None, file);
        check_full(&response, file);
    }
}

#[test]
fn test_all_files_with_if_modified_since() {
    let files = table();
    for path in ALL_FILES {
        let file = get_file(&files, path);
        let baseline = respond(None, None, file);
        let last_modified = baseline.headers.last_modified.clone();
        let cached = respond(None, Some(&last_modified), file);
        check_not_modified(&cached, &baseline);
    }
}

#[test]
fn test_all_files_with_incorrect_if_modified_since() {
    let files = table();
    for path in ALL_FILES {
        let file = get_file(&files, path);
        let response = respond(None, Some("Thu, 01 Jan 1970 00:00:01 GMT"), file);
        check_full(&response, file);
    }
}

#[test]
fn test_all_files_with_if_none_match_and_if_modified_since() {
    let files = table();
    for path in ALL_FILES {
        let file = get_file(&files, path);
        let baseline = respond(None, None, file);
        let etag = baseline.headers.etag.clone();
        let last_modified = baseline.headers.last_modified.clone();
        let cached = respond(Some(&etag), Some(&last_modified), file);
        check_not_modified(&cached, &baseline);
    }
}

#[test]
fn test_all_files_with_incorrect_if_none_match_and_if_modified_since() {
    let files = table();
    for path in ALL_FILES {
        let file = get_file(&files, path);
        let baseline = respond(None, None, file);
        let last_modified = baseline.headers.last_modified.clone();
        let response = respond(Some("incorrect-etag"), Some(&last_modified), file);
        check_full(&response, file);
    }
}

#[test]
fn test_all_files_with_if_none_match_and_incorrect_if_modified_since() {
    let files = table();
    for path in ALL_FILES {
        let file = get_file(&files, path);
        let baseline = respond(None, None, file);
        let etag = baseline.headers.etag.clone();
        // Not Modified even so: If-None-Match takes precedence over
        // If-Modified-Since.
        let cached = respond(Some(&etag), Some("Thu, 01 Jan 1970 00:00:01 GMT"), file);
        check_not_modified(&cached, &baseline);
    }
}

#[test]
fn test_all_files_with_incorrect_if_none_match_and_incorrect_if_modified_since() {
    let files = table();
    for path in ALL_FILES {
        let file = get_file(&files, path);
        let response = respond(
            Some("\"incorrect-etag\""),
            Some("Thu, 01 Jan 1970 00:00:01 GMT"),
            file,
        );
        check_full(&response, file);
    }
}
