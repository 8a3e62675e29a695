use lite_room::paths::{preview_path, thumbnail_path};

#[test]
fn preview_path_uses_cache_root_and_id() {
    let path = preview_path("cache-dir", 15);
    assert_eq!(path, "cache-dir/previews/15.jpg");
}

#[test]
fn thumbnail_path_uses_cache_root_and_id() {
    let path = thumbnail_path("cache-dir", 15);
    assert_eq!(path, "cache-dir/thumbs/15.jpg");
}

#[test]
fn cache_paths_write_ids_in_decimal() {
    assert_eq!(thumbnail_path("c", 1234567890123), "c/thumbs/1234567890123.jpg");
    assert_eq!(preview_path("/var/cache", -8), "/var/cache/previews/-8.jpg");
}
