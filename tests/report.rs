use modrinther::fetch::FetchError;
use modrinther::manifest::{
    dependency_version, detect_loader, loader_version, validate, Loader, ManifestError, ModFile,
    ModrinthIndex,
};
use modrinther::report::{artifact_file_name, describe_error, entry_line, summary_text};
use modrinther::text::append_decimal;

fn deps(pairs: &[(&str, &str)]) -> Vec<(String, String)> {
    pairs.iter().map(|(k, v)| (k.to_string(), v.to_string())).collect()
}

#[test]
fn decimal_rendering() {
    let mut s = String::from("n=");
    append_decimal(&mut s, 0);
    assert_eq!(s, "n=0");
    let mut t = String::new();
    append_decimal(&mut t, 1234567890);
    assert_eq!(t, "1234567890");
    let mut u = String::new();
    append_decimal(&mut u, u64::MAX);
    assert_eq!(u, "18446744073709551615");
}

#[test]
fn loader_detection_order() {
    assert_eq!(detect_loader(&deps(&[("minecraft", "1.20.1"), ("forge", "47.1.0")])), Loader::Forge);
    assert_eq!(
        detect_loader(&deps(&[("quilt-loader", "0.2"), ("fabric-loader", "0.15.0")])),
        Loader::Fabric
    );
    assert_eq!(detect_loader(&deps(&[("quilt-loader", "0.2")])), Loader::Quilt);
    assert_eq!(detect_loader(&deps(&[("minecraft", "1.20.1")])), Loader::Unknown);
    assert_eq!(Loader::Quilt.label(), "Quilt");
}

#[test]
fn loader_version_lookup() {
    assert_eq!(loader_version(&deps(&[("fabric-loader", "0.15.0")])), "0.15.0");
    assert_eq!(loader_version(&deps(&[("minecraft", "1.20.1")])), "unknown");
    assert_eq!(dependency_version(&deps(&[("minecraft", "1.20.1")]), "minecraft"), Some("1.20.1".to_string()));
    assert_eq!(dependency_version(&deps(&[]), "minecraft"), None);
}

#[test]
fn summary_with_loader() {
    let index = ModrinthIndex {
        dependencies: deps(&[("minecraft", "1.20.1"), ("fabric-loader", "0.15.0")]),
        files: vec![ModFile {
            downloads: vec!["https://cdn/x.jar".to_string()],
            env: vec![],
            file_size: 0,
            hashes: vec![],
            path: "mods/x.jar".to_string(),
        }],
        format_version: 1,
        game: "minecraft".to_string(),
        name: "My/Pack".to_string(),
        version_id: "2".to_string(),
    };
    assert_eq!(
        summary_text(&index),
        "Modpack: My/Pack\nMinecraft version: 1.20.1\nLoader: Fabric 0.15.0\nTotal mods: 1\n\n\
         Installed mods:\n- x.jar (0 bytes)\n"
    );
    assert_eq!(validate(&index), Ok(()));
}

#[test]
fn validation_names_first_artifact_without_url() {
    let f = |urls: Vec<String>| ModFile { downloads: urls, env: vec![], file_size: 1, hashes: vec![], path: "a".to_string() };
    let index = ModrinthIndex {
        dependencies: vec![],
        files: vec![f(vec!["u".to_string()]), f(vec![]), f(vec![])],
        format_version: 1,
        game: "minecraft".to_string(),
        name: "P".to_string(),
        version_id: "1".to_string(),
    };
    assert_eq!(validate(&index), Err(ManifestError::NoDownloadUrl(1)));
}

#[test]
fn file_names_of_artifacts() {
    assert_eq!(artifact_file_name("mods/sodium.jar"), "sodium.jar");
    assert_eq!(artifact_file_name("a.jar"), "a.jar");
    assert_eq!(artifact_file_name(".."), "");
    let f = ModFile { downloads: vec![], env: vec![], file_size: 42, hashes: vec![], path: "resourcepacks/r.zip".to_string() };
    assert_eq!(entry_line(&f), "- r.zip (42 bytes)\n");
}

#[test]
fn error_reasons() {
    assert_eq!(describe_error(&FetchError::HttpStatus(404)), "HTTP 404");
    assert_eq!(describe_error(&FetchError::Transport("dns".to_string())), "transport error: dns");
    assert_eq!(describe_error(&FetchError::LocalIO("denied".to_string())), "file error: denied");
    assert_eq!(describe_error(&FetchError::PathEscape), "path leads outside the output directory");
}
