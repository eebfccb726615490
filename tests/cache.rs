use std::collections::HashMap;

use docker_cache::error::CacheError;
use docker_cache::record::CachedDockerImage;
use docker_cache::store::DockerCache;

fn image(sha256: &str, name: &str) -> CachedDockerImage {
    CachedDockerImage { sha256: sha256.to_string(), name: name.to_string() }
}

/// A stand-in for the disk: record files by path.
struct Disk {
    files: HashMap<String, String>,
}

impl Disk {
    fn new() -> Disk {
        Disk { files: HashMap::new() }
    }

    fn save(&mut self, cache: &DockerCache, key: &str, value: &CachedDockerImage) {
        let (path, text) = cache.record_file_for(key, value).unwrap();
        self.files.insert(path, text);
    }

    fn get(&self, cache: &DockerCache, key: &str) -> Result<Option<CachedDockerImage>, CacheError> {
        let path = cache.get_cache_path(key);
        DockerCache::value_from_contents(self.files.get(&path).map(|s| s.as_str()))
    }
}

#[test]
fn saved_record_is_found_by_a_new_reader_and_other_keys_miss() {
    let mut disk = Disk::new();
    let writer = DockerCache::new("/tmp/c");
    disk.save(&writer, "abc123", &image("sha256:deadbeef", "myimage:latest"));

    let reader = DockerCache::new("/tmp/c");
    let found = disk.get(&reader, "abc123").unwrap().unwrap();
    assert_eq!(found.sha256, "sha256:deadbeef");
    assert_eq!(found.name, "myimage:latest");
    assert!(disk.get(&reader, "other").unwrap().is_none());
}

#[test]
fn record_path_joins_root_key_and_suffix() {
    assert_eq!(DockerCache::new("/tmp/c").get_cache_path("abc123"), "/tmp/c/abc123.json");
    assert_eq!(DockerCache::new("/tmp/c/").get_cache_path("abc123"), "/tmp/c/abc123.json");
    assert_eq!(DockerCache::new("").get_cache_path("abc123"), "abc123.json");
    assert_eq!(DockerCache::new("cache").get_cache_path("k"), "cache/k.json");
}

#[test]
fn distinct_keys_have_distinct_paths() {
    let cache = DockerCache::new("/tmp/c");
    assert_ne!(cache.get_cache_path("a"), cache.get_cache_path("b"));
    assert_ne!(cache.get_cache_path("a"), cache.get_cache_path("a.json"));
}

#[test]
fn record_text_is_pretty_json() {
    let text = image("sha256:deadbeef", "myimage:latest").to_record_text().unwrap();
    assert_eq!(text, "{\n  \"sha256\": \"sha256:deadbeef\",\n  \"name\": \"myimage:latest\"\n}");
}

#[test]
fn record_text_escapes_strings() {
    let text = image("sha256:1", "a\"b\\c\nd").to_record_text().unwrap();
    assert_eq!(text, "{\n  \"sha256\": \"sha256:1\",\n  \"name\": \"a\\\"b\\\\c\\nd\"\n}");
    let back = CachedDockerImage::from_record_text(&text).unwrap();
    assert_eq!(back.name, "a\"b\\c\nd");
}

#[test]
fn save_then_get_round_trips() {
    let mut disk = Disk::new();
    let cache = DockerCache::new("root");
    let v = image("sha256:0123", "app:v1 ünïcödé");
    disk.save(&cache, "k1", &v);
    let got = disk.get(&cache, "k1").unwrap().unwrap();
    assert_eq!(got.sha256, v.sha256);
    assert_eq!(got.name, v.name);
}

#[test]
fn never_saved_key_is_a_miss() {
    let mut disk = Disk::new();
    let cache = DockerCache::new("root");
    assert!(disk.get(&cache, "nothing").unwrap().is_none());
    disk.save(&cache, "something", &image("sha256:1", "x"));
    assert!(disk.get(&cache, "nothing").unwrap().is_none());
    assert!(DockerCache::value_from_contents(None).unwrap().is_none());
}

#[test]
fn second_save_overwrites_first() {
    let mut disk = Disk::new();
    let cache = DockerCache::new("root");
    disk.save(&cache, "k", &image("sha256:first-long-digest", "first:tag"));
    disk.save(&cache, "k", &image("sha256:2", "second"));
    let got = disk.get(&cache, "k").unwrap().unwrap();
    assert_eq!(got.sha256, "sha256:2");
    assert_eq!(got.name, "second");
    assert_eq!(disk.files.len(), 1);
}

#[test]
fn empty_field_reads_back_as_missing_field() {
    let mut disk = Disk::new();
    let cache = DockerCache::new("root");
    disk.save(&cache, "d", &image("", "name"));
    disk.save(&cache, "n", &image("sha256:1", ""));
    assert_eq!(disk.get(&cache, "d").unwrap_err(), CacheError::MissingField);
    assert_eq!(disk.get(&cache, "n").unwrap_err(), CacheError::MissingField);
}

#[test]
fn absent_field_is_missing_field() {
    let r = DockerCache::value_from_contents(Some("{\"sha256\": \"sha256:1\"}"));
    assert_eq!(r.unwrap_err(), CacheError::MissingField);
    let r = DockerCache::value_from_contents(Some("{\"name\": \"x\"}"));
    assert_eq!(r.unwrap_err(), CacheError::MissingField);
    let r = DockerCache::value_from_contents(Some("{}"));
    assert_eq!(r.unwrap_err(), CacheError::MissingField);
}

#[test]
fn malformed_contents_are_an_error_not_a_miss() {
    for text in ["", "not json", "{\"sha256\": \"a\", \"name\": 3}", "[\"a\", \"b\"]", "{\"sha256\": \"a\""] {
        let r = DockerCache::value_from_contents(Some(text));
        assert_eq!(r.unwrap_err(), CacheError::Malformed, "{text}");
    }
}

#[test]
fn compact_and_reordered_records_are_read() {
    let r = CachedDockerImage::from_record_text("{\"name\":\"n\",\"sha256\":\"d\",\"extra\":\"e\"}").unwrap();
    assert_eq!(r.sha256, "d");
    assert_eq!(r.name, "n");
}
