use hotmart_downloader::keys::KeyCache;

#[test]
fn new_cache_is_empty() {
    let cache = KeyCache::new();
    assert!(!cache.contains("https://k/1"));
    assert_eq!(cache.get("https://k/1"), None);
}

#[test]
fn inserted_key_is_found() {
    let mut cache = KeyCache::new();
    cache.insert("https://k/1".to_string(), vec![1, 2, 3]);
    cache.insert("https://k/2".to_string(), vec![4]);
    assert!(cache.contains("https://k/1"));
    assert_eq!(cache.get("https://k/1"), Some(&vec![1, 2, 3]));
    assert_eq!(cache.get("https://k/2"), Some(&vec![4]));
    assert_eq!(cache.get("https://k/3"), None);
    assert_eq!(cache.get("https://k/"), None);
}

#[test]
fn second_insert_replaces_the_key() {
    let mut cache = KeyCache::new();
    cache.insert("u".to_string(), vec![1]);
    cache.insert("v".to_string(), vec![2]);
    cache.insert("u".to_string(), vec![9, 9]);
    assert_eq!(cache.get("u"), Some(&vec![9, 9]));
    assert_eq!(cache.get("v"), Some(&vec![2]));
}

#[test]
fn addresses_are_compared_exactly() {
    let mut cache = KeyCache::new();
    cache.insert("https://k/A".to_string(), vec![1]);
    assert!(!cache.contains("https://k/a"));
    assert!(!cache.contains("https://k/A "));
    assert!(cache.contains("https://k/A"));
}
