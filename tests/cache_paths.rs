use wl::cache::{bytes_to_hex, cache_context, hash_string, path_join};

#[test]
fn hex_is_two_lower_digits_per_byte() {
    assert_eq!(bytes_to_hex(&[0x00, 0x0f, 0xa0, 0xff]), "000fa0ff");
    assert_eq!(bytes_to_hex(&[]), "");
}

#[test]
fn hash_is_sha256_in_hex() {
    assert_eq!(
        hash_string(""),
        "e3b0c44298fc1c149afbf4c8996fb92427ae41e4649b934ca495991b7852b855"
    );
    assert_eq!(
        hash_string("abc"),
        "ba7816bf8f01cfea414140de5dae2223b00361a396177a9cb410ff61f20015ad"
    );
}

#[test]
fn paths_join_with_one_separator() {
    assert_eq!(path_join("/work", "tmp"), "/work/tmp");
    assert_eq!(path_join("/", "tmp"), "/tmp");
}

#[test]
fn cache_layout_is_keyed_by_hashes() {
    let cache = cache_context("abc", "/work");
    assert_eq!(
        cache.config_hash,
        "ba7816bf8f01cfea414140de5dae2223b00361a396177a9cb410ff61f20015ad"
    );
    assert_eq!(cache.base_dir, "/work/tmp_workspace");
    assert_eq!(cache.source_dir, "/work/tmp_workspace/source");
    assert_eq!(cache.url_dir, "/work/tmp_workspace/url");
    let h = hash_string("https://example.com/main.py");
    assert_eq!(
        cache.url_source_path("https://example.com/main.py", "py"),
        format!("/work/tmp_workspace/url/{}/source.py", h)
    );
    assert_eq!(
        cache.config_source_path("https://example.com/main.py", "py"),
        format!("/work/tmp_workspace/source/{}/source.py", h)
    );
    let b = hash_string("runtimes/golang/main.go");
    assert_eq!(
        cache.build_path_for_source("runtimes/golang/main.go"),
        format!("/work/tmp_workspace/source/{}/build", b)
    );
}
