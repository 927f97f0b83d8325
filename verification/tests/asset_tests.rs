use axum_asset::{Asset, EmbeddedFile, FileInfo};

fn asset_table() -> Vec<EmbeddedFile> {
    let entries: Vec<(&str, &[u8])> = vec![
        ("index.html", b"<html></html>"),
        ("style.css", b"body {}"),
        ("nested/deep/file.txt", b"deep"),
    ];
    entries
        .into_iter()
        .map(|(path, contents)| {
            FileInfo::new(path.to_string(), contents.to_vec(), 1_700_000_000).into_embedded()
        })
        .collect()
}

struct StaticAssets;

impl Asset for StaticAssets {
    fn get(path: &str) -> Option<EmbeddedFile> {
        asset_table().into_iter().find(|f| f.path == path)
    }

    fn iter() -> Vec<String> {
        asset_table().into_iter().map(|f| f.path).collect()
    }

    fn len() -> usize {
        asset_table().len()
    }
}

#[test]
fn asset_lookup_finds_every_listed_path() {
    assert_eq!(StaticAssets::len(), 3);
    assert!(!StaticAssets::is_empty());
    for path in StaticAssets::iter() {
        let file = StaticAssets::get(&path).unwrap();
        assert_eq!(file.path, path);
        assert_eq!(file.route, format!("/{path}"));
    }
    assert!(StaticAssets::get("missing.txt").is_none());
}
