use mdbook_typst_doc::cache::{
    artifact_name, cache_key, cached_key, image_reference, output_path_for, RenderCache,
    RenderJob,
};
use mdbook_typst_doc::highlight::Mode;

fn job(key: &str) -> RenderJob {
    RenderJob {
        source: format!("program {key}"),
        mode: Mode::Markup,
        key: key.to_string(),
        output_path: format!("cache/{key}.svg"),
    }
}

#[test]
fn cache_key_is_the_start_of_the_digest() {
    assert_eq!(cache_key(""), "d41d8");
    assert_eq!(cache_key("a"), "0cc17");
    assert_eq!(cache_key("hello world"), "5eb63");
    assert_eq!(cache_key("#{\n 1 + 1 \n}"), "58ef1");
}

#[test]
fn cache_key_is_the_same_for_the_same_source() {
    let source = String::from("= Title");
    assert_eq!(cache_key(&source), cache_key("= Title"));
    assert_eq!(cache_key(&source), "e2427");
}

#[test]
fn cache_key_tells_whitespace_apart() {
    assert_eq!(cache_key("a b"), "0cc9c");
    assert_eq!(cache_key("a  b"), "b5cf5");
    assert_ne!(cache_key("a b"), cache_key("a  b"));
}

#[test]
fn artifact_paths_are_built_from_the_key() {
    assert_eq!(artifact_name("d41d8"), "d41d8.svg");
    assert_eq!(output_path_for("book/cache", "d41d8"), "book/cache/d41d8.svg");
    assert_eq!(image_reference("/mdbook-typst-doc", "d41d8.svg"), "![](/mdbook-typst-doc/d41d8.svg)");
}

#[test]
fn cache_knows_the_keys_on_disk() {
    let cache = RenderCache::new(vec!["d41d8".to_string(), "0cc17".to_string()]);
    assert!(cache.has_cached("d41d8"));
    assert!(cache.has_cached("0cc17"));
    assert!(!cache.has_cached("5eb63"));
    assert!(!cache.has_cached(""));
    assert!(cache.jobs().is_empty());
}

#[test]
fn request_drops_a_job_whose_key_is_held() {
    let mut cache = RenderCache::new(vec!["aaaaa".to_string()]);
    cache.request(job("aaaaa"));
    assert!(cache.jobs().is_empty());
    cache.request(job("bbbbb"));
    cache.request(job("ccccc"));
    cache.request(job("bbbbb"));
    assert_eq!(cache.jobs(), &vec![job("bbbbb"), job("ccccc")]);
    assert!(cache.has_cached("bbbbb"));
    assert!(cache.has_cached("ccccc"));
}

#[test]
fn cached_key_reads_the_name_of_an_image() {
    assert_eq!(cached_key("d41d8.svg"), Some("d41d8".to_string()));
    assert_eq!(cached_key(&artifact_name("0cc17")), Some("0cc17".to_string()));
    assert_eq!(cached_key(".svg"), Some(String::new()));
    assert_eq!(cached_key("a.b.svg"), Some("a.b".to_string()));
    assert_eq!(cached_key("\u{e9}\u{1f600}.svg"), Some("\u{e9}\u{1f600}".to_string()));
    assert_eq!(cached_key("d41d8.png"), None);
    assert_eq!(cached_key("d41d8.SVG"), None);
    assert_eq!(cached_key("svg"), None);
    assert_eq!(cached_key(""), None);
    assert_eq!(cached_key("d41d8.svg "), None);
}

#[test]
fn cache_is_filled_from_the_files_of_a_directory() {
    let files = vec![
        "d41d8.svg".to_string(),
        "README.md".to_string(),
        "0cc17.svg".to_string(),
        "5eb63.svg.bak".to_string(),
    ];
    let cache = RenderCache::from_files(&files);
    assert!(cache.has_cached("d41d8"));
    assert!(cache.has_cached("0cc17"));
    assert!(!cache.has_cached("5eb63"));
    assert!(!cache.has_cached("README"));
    assert!(cache.jobs().is_empty());
}
