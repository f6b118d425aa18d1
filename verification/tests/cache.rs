use eso_addons::cache::{AddonCache, CacheError, FindStep};
use eso_addons::percent::percent_encode;

fn test_cache() -> (AddonCache, tempfile::TempDir) {
    let dir = tempfile::tempdir().unwrap();
    let cache = AddonCache::new_with_dir(dir.path().to_path_buf());
    (cache, dir)
}

/// Writes what an operation handed back into the simulated cache file.
fn write(file: &mut Option<String>, text: Option<String>) {
    if let Some(t) = text {
        *file = Some(t);
    }
}

#[test]
fn test_get_cached_missing() {
    let (cache, _dir) = test_cache();
    let file: Option<String> = None;
    let result = cache.get_cached(file.as_deref(), "SomeAddon").unwrap();
    assert_eq!(result, None);
}

#[test]
fn test_insert_and_get_cached() {
    let (cache, _dir) = test_cache();
    let mut file: Option<String> = None;
    let text = cache
        .insert(
            file.as_deref(),
            "SomeAddon",
            "https://www.esoui.com/downloads/info1-SomeAddon.html",
        )
        .unwrap();
    write(&mut file, Some(text));

    let result = cache.get_cached(file.as_deref(), "SomeAddon").unwrap();
    assert_eq!(
        result,
        Some("https://www.esoui.com/downloads/info1-SomeAddon.html".to_owned())
    );
}

#[test]
fn test_insert_overwrites_existing_entry() {
    let (cache, _dir) = test_cache();
    let mut file: Option<String> = None;
    let text = cache
        .insert(
            file.as_deref(),
            "SomeAddon",
            "https://www.esoui.com/downloads/info1-Old.html",
        )
        .unwrap();
    write(&mut file, Some(text));
    let text = cache
        .insert(
            file.as_deref(),
            "SomeAddon",
            "https://www.esoui.com/downloads/info1-New.html",
        )
        .unwrap();
    write(&mut file, Some(text));

    let result = cache.get_cached(file.as_deref(), "SomeAddon").unwrap();
    assert_eq!(
        result,
        Some("https://www.esoui.com/downloads/info1-New.html".to_owned())
    );
}

#[test]
fn test_insert_persists_across_instances() {
    let dir = tempfile::tempdir().unwrap();
    let mut file: Option<String> = None;

    let cache = AddonCache::new_with_dir(dir.path().to_path_buf());
    let text = cache
        .insert(
            file.as_deref(),
            "SomeAddon",
            "https://www.esoui.com/downloads/info1-SomeAddon.html",
        )
        .unwrap();
    write(&mut file, Some(text));

    let cache2 = AddonCache::new_with_dir(dir.path().to_path_buf());
    assert_eq!(cache2.dir(), cache.dir());
    let result = cache2.get_cached(file.as_deref(), "SomeAddon").unwrap();
    assert_eq!(
        result,
        Some("https://www.esoui.com/downloads/info1-SomeAddon.html".to_owned())
    );
}

#[test]
fn test_invalidate_removes_entry() {
    let (cache, _dir) = test_cache();
    let mut file: Option<String> = None;
    let text = cache
        .insert(
            file.as_deref(),
            "SomeAddon",
            "https://www.esoui.com/downloads/info1-SomeAddon.html",
        )
        .unwrap();
    write(&mut file, Some(text));

    let saved = cache.invalidate(file.as_deref(), "SomeAddon").unwrap();
    assert!(saved.is_some());
    write(&mut file, saved);

    let result = cache.get_cached(file.as_deref(), "SomeAddon").unwrap();
    assert_eq!(result, None);
}

#[test]
fn test_invalidate_missing_entry_is_noop() {
    let (cache, _dir) = test_cache();
    let mut file: Option<String> = None;
    // Should not error even though the entry doesn't exist.
    let saved = cache.invalidate(file.as_deref(), "DoesNotExist").unwrap();
    assert_eq!(saved, None);
    write(&mut file, saved);

    let result = cache.get_cached(file.as_deref(), "DoesNotExist").unwrap();
    assert_eq!(result, None);
}

#[test]
fn test_invalidate_only_removes_named_entry() {
    let (cache, _dir) = test_cache();
    let mut file: Option<String> = None;
    let text = cache
        .insert(
            file.as_deref(),
            "AddonA",
            "https://www.esoui.com/downloads/info1-AddonA.html",
        )
        .unwrap();
    write(&mut file, Some(text));
    let text = cache
        .insert(
            file.as_deref(),
            "AddonB",
            "https://www.esoui.com/downloads/info2-AddonB.html",
        )
        .unwrap();
    write(&mut file, Some(text));

    let saved = cache.invalidate(file.as_deref(), "AddonA").unwrap();
    write(&mut file, saved);

    assert_eq!(cache.get_cached(file.as_deref(), "AddonA").unwrap(), None);
    assert_eq!(
        cache.get_cached(file.as_deref(), "AddonB").unwrap(),
        Some("https://www.esoui.com/downloads/info2-AddonB.html".to_owned())
    );
}

#[test]
fn test_find_addon_uses_cache_when_present() {
    let (cache, _dir) = test_cache();
    let mut file: Option<String> = None;
    let text = cache
        .insert(
            file.as_deref(),
            "SomeAddon",
            "https://www.esoui.com/downloads/info1-SomeAddon.html",
        )
        .unwrap();
    write(&mut file, Some(text));

    // Since the addon is already cached, find_addon must not ask for a
    // search; it should just return the cached value.
    let result = cache.find_addon(file.as_deref(), "SomeAddon", None).unwrap();
    assert_eq!(
        result,
        FindStep::Done {
            url: Some("https://www.esoui.com/downloads/info1-SomeAddon.html".to_owned()),
            save: None,
        }
    );
}

#[test]
fn test_percent_encode() {
    assert_eq!(percent_encode("LibLazyCrafting"), "LibLazyCrafting");
    assert_eq!(percent_encode("Lib Lazy Crafting"), "Lib%20Lazy%20Crafting");
    assert_eq!(percent_encode("a&b"), "a%26b");
}

#[test]
fn percent_encode_multibyte_and_reserved() {
    assert_eq!(percent_encode(""), "");
    assert_eq!(percent_encode("-_.~"), "-_.~");
    assert_eq!(percent_encode("é"), "%C3%A9");
    assert_eq!(percent_encode("/?#"), "%2F%3F%23");
    assert_eq!(percent_encode("\u{7f}"), "%7F");
}

#[test]
fn find_addon_asks_for_search_then_stores_result() {
    let (cache, _dir) = test_cache();
    let mut file: Option<String> = None;
    let first = cache.find_addon(file.as_deref(), "Other", None).unwrap();
    assert_eq!(first, FindStep::Search);

    let url = "https://www.esoui.com/downloads/info9-Other.html".to_owned();
    let second = cache
        .find_addon(file.as_deref(), "Other", Some(Some(url.clone())))
        .unwrap();
    match second {
        FindStep::Done { url: found, save } => {
            assert_eq!(found, Some(url.clone()));
            assert!(save.is_some());
            write(&mut file, save);
        }
        FindStep::Search => panic!("search asked for twice"),
    }
    assert_eq!(cache.get_cached(file.as_deref(), "Other").unwrap(), Some(url));
}

#[test]
fn find_addon_not_found_changes_nothing() {
    let (cache, _dir) = test_cache();
    let step = cache.find_addon(None, "Nowhere", Some(None)).unwrap();
    assert_eq!(step, FindStep::Done { url: None, save: None });
}

#[test]
fn cache_file_text_is_read_as_json() {
    let (cache, _dir) = test_cache();
    let file = r#"{"A": "https://example/a", "B": "https://example/b"}"#;
    assert_eq!(
        cache.get_cached(Some(file), "B").unwrap(),
        Some("https://example/b".to_owned())
    );
    assert_eq!(cache.get_cached(Some(file), "C").unwrap(), None);
    let text = cache.insert(Some(file), "C", "https://example/c").unwrap();
    assert_ne!(text, file);
    assert_eq!(
        cache.get_cached(Some(&text), "A").unwrap(),
        Some("https://example/a".to_owned())
    );
    assert_eq!(
        cache.get_cached(Some(&text), "C").unwrap(),
        Some("https://example/c".to_owned())
    );
}

#[test]
fn unreadable_json_is_an_error() {
    let (cache, _dir) = test_cache();
    assert!(matches!(
        cache.get_cached(Some("not json"), "A"),
        Err(CacheError::Decode(_))
    ));
    assert!(matches!(
        cache.insert(Some("[1, 2]"), "A", "u"),
        Err(CacheError::Decode(_))
    ));
    assert!(matches!(
        cache.invalidate(Some(r#"{"A": 1}"#), "A"),
        Err(CacheError::Decode(_))
    ));
    assert!(matches!(
        cache.find_addon(Some("{"), "A", None),
        Err(CacheError::Decode(_))
    ));
}

#[test]
fn names_and_urls_with_quotes_survive_the_file() {
    let (cache, _dir) = test_cache();
    let name = "Odd \"name\" \\ with\nlines é";
    let url = "https://www.esoui.com/downloads/info3-\"x\".html";
    let text = cache.insert(None, name, url).unwrap();
    assert_eq!(cache.get_cached(Some(&text), name).unwrap(), Some(url.to_owned()));
}

#[test]
fn invalidate_undoes_insert_of_new_name() {
    let (cache, _dir) = test_cache();
    let before = cache.insert(None, "Keep", "https://example/keep").unwrap();
    let inserted = cache.insert(Some(&before), "New", "https://example/new").unwrap();
    let removed = cache.invalidate(Some(&inserted), "New").unwrap().unwrap();
    assert_eq!(cache.get_cached(Some(&removed), "New").unwrap(), None);
    assert_eq!(
        cache.get_cached(Some(&removed), "Keep").unwrap(),
        Some("https://example/keep".to_owned())
    );
}

#[test]
fn percent_encoding_is_query_safe() {
    let out = percent_encode("Ünïcödé & spaces/slashes?x=1#frag~");
    assert!(out
        .chars()
        .all(|c| c.is_ascii_alphanumeric() || "-_.~%".contains(c)));
}
