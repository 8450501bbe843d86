use notedeck::image_cache::{
    check_body_size, check_cache, check_declared_size, content_type_or_default, hex_hash,
    is_data_file, locate, meta_name_of, plan_eviction, waiter_outcome, CacheEntry, CacheLocation,
    CacheProbe, CachedFile, FetchRole, FetchStep, ImageCache, CACHE_TTL_SECS, DEFAULT_CONTENT_TYPE,
    MAX_CACHE_SIZE, MAX_FILE_SIZE,
};
use sha2::{Digest, Sha256};

fn sha256_hex(input: &str) -> String {
    let mut hasher = Sha256::new();
    hasher.update(input.as_bytes());
    format!("{:x}", hasher.finalize())
}

fn fresh() -> CacheProbe {
    CacheProbe {
        data_exists: true,
        meta_exists: true,
        age: Some((60, 0)),
        content_type: Some("image/png".to_string()),
    }
}

fn miss() -> CacheProbe {
    CacheProbe { data_exists: false, meta_exists: false, age: None, content_type: None }
}

#[test]
fn single_flight_image_scenario() {
    let url = "https://img/x.png";
    let location = locate(url).unwrap();
    assert_eq!(location.data_name, format!("{}.dat", sha256_hex(url)));
    let path = format!("/cache/{}", location.data_name);

    let mut cache = ImageCache::new();
    let mut fetches = 0;
    let mut waits = 0;
    for _ in 0..50 {
        match cache.get_or_fetch(&location, &path, &miss()) {
            FetchStep::Fetch => fetches += 1,
            FetchStep::Wait => waits += 1,
            FetchStep::Hit(_) => panic!("nothing is kept yet"),
        }
    }
    assert_eq!((fetches, waits), (1, 49));

    // the leader publishes; every waiter returns what was published
    let published = CacheEntry { path: path.clone(), content_type: "image/png".to_string() };
    for _ in 0..49 {
        let got = waiter_outcome(Some(Ok(published.duplicate()))).unwrap();
        assert!(got.path.ends_with(&format!("{}.dat", sha256_hex(url))));
        assert_eq!(got, published);
    }
    cache.finish(&location.hash);
    // later callers find the entry on disk
    assert_eq!(cache.get_or_fetch(&location, &path, &fresh()), FetchStep::Hit(published));
}

#[test]
fn hash_is_the_sha256_of_the_address() {
    for url in ["", "https://img/x.png", "https://例え.example/画像.png"] {
        assert_eq!(hex_hash(url), sha256_hex(url));
        assert_eq!(hex_hash(url).len(), 64);
    }
    assert_eq!(
        hex_hash("abc"),
        "ba7816bf8f01cfea414140de5dae2223b00361a396177a9cb410ff61f20015ad"
    );
}

#[test]
fn only_https_addresses_are_located() {
    for url in ["http://img/x.png", "ftp://img/x", "", "HTTPS://img/x.png", " https://img/x.png", "https:/"] {
        assert_eq!(locate(url), Err("Only HTTPS URLs are allowed".to_string()), "{:?}", url);
    }
    let h = sha256_hex("https://");
    assert_eq!(
        locate("https://"),
        Ok(CacheLocation {
            hash: h.clone(),
            data_name: format!("{}.dat", h),
            meta_name: format!("{}.meta", h),
        })
    );
}

#[test]
fn leader_and_waiters() {
    let mut cache = ImageCache::new();
    assert_eq!(cache.claim("a"), FetchRole::Leader);
    assert_eq!(cache.claim("a"), FetchRole::Waiter);
    assert_eq!(cache.claim("b"), FetchRole::Leader);
    assert_eq!(cache.claim("a"), FetchRole::Waiter);
    cache.finish("a");
    assert_eq!(cache.claim("b"), FetchRole::Waiter);
    assert_eq!(cache.claim("a"), FetchRole::Leader);
    cache.finish("zzz");
    cache.finish("a");
    cache.finish("a");
    cache.finish("b");
    assert_eq!(cache.claim("b"), FetchRole::Leader);
}

#[test]
fn a_failed_fetch_is_shared_too() {
    assert_eq!(waiter_outcome(Some(Err("HTTP 404 Not Found".to_string()))), Err("HTTP 404 Not Found".to_string()));
    assert_eq!(waiter_outcome(None), Err("Inflight request dropped".to_string()));
}

#[test]
fn entries_older_than_a_day_are_misses() {
    assert_eq!(CACHE_TTL_SECS, 24 * 60 * 60);
    let at = |age| CacheProbe { age, ..fresh() };
    let hit = Some(CacheEntry { path: "p".to_string(), content_type: "image/png".to_string() });
    assert_eq!(check_cache("p", &at(Some((0, 0)))), hit);
    assert_eq!(check_cache("p", &at(Some((86399, 999_999_999)))), hit);
    assert_eq!(check_cache("p", &at(Some((86400, 0)))), hit);
    assert_eq!(check_cache("p", &at(Some((86400, 1)))), None);
    assert_eq!(check_cache("p", &at(Some((86401, 0)))), None);
    assert_eq!(check_cache("p", &at(Some((u64::MAX, 0)))), None);
    assert_eq!(check_cache("p", &at(None)), None);
}

#[test]
fn incomplete_entries_are_misses() {
    assert_eq!(check_cache("p", &CacheProbe { data_exists: false, ..fresh() }), None);
    assert_eq!(check_cache("p", &CacheProbe { meta_exists: false, ..fresh() }), None);
    assert_eq!(check_cache("p", &CacheProbe { content_type: None, ..fresh() }), None);
    assert_eq!(
        check_cache("p", &CacheProbe { content_type: Some(String::new()), ..fresh() }),
        Some(CacheEntry { path: "p".to_string(), content_type: String::new() })
    );
    let mut cache = ImageCache::new();
    let location = locate("https://img/y.png").unwrap();
    let stale = CacheProbe { age: Some((90000, 0)), ..fresh() };
    assert_eq!(cache.get_or_fetch(&location, "p", &stale), FetchStep::Fetch);
    assert_eq!(cache.get_or_fetch(&location, "p", &stale), FetchStep::Wait);
}

#[test]
fn images_over_twenty_mebibytes_are_refused() {
    assert_eq!(MAX_FILE_SIZE, 20 * 1024 * 1024);
    assert_eq!(check_declared_size(None), Ok(()));
    assert_eq!(check_declared_size(Some(MAX_FILE_SIZE)), Ok(()));
    assert_eq!(check_declared_size(Some(MAX_FILE_SIZE + 1)), Err("File too large".to_string()));
    assert_eq!(check_body_size(0), Ok(()));
    assert_eq!(check_body_size(MAX_FILE_SIZE as usize), Ok(()));
    assert_eq!(check_body_size(MAX_FILE_SIZE as usize + 1), Err("File too large".to_string()));
    assert_eq!(check_body_size(usize::MAX), Err("File too large".to_string()));
}

#[test]
fn content_type_defaults() {
    assert_eq!(content_type_or_default(Some("image/webp")), "image/webp");
    assert_eq!(content_type_or_default(None), "application/octet-stream");
    assert_eq!(DEFAULT_CONTENT_TYPE, "application/octet-stream");
}

#[test]
fn names_of_cache_files() {
    assert!(is_data_file("abc.dat"));
    assert!(is_data_file("..dat"));
    assert!(!is_data_file(".dat"));
    assert!(!is_data_file("abc.meta"));
    assert!(!is_data_file("abc.dat.tmp"));
    assert!(!is_data_file("dat"));
    assert_eq!(meta_name_of("abc.dat"), "abc.meta");
    assert_eq!(meta_name_of("a.b.dat"), "a.b.meta");
}

fn file(name: &str, modified: i128, size: u64) -> CachedFile {
    CachedFile { name: name.to_string(), modified, size }
}

const MIB: u64 = 1024 * 1024;

#[test]
fn nothing_is_evicted_within_the_limit() {
    assert_eq!(MAX_CACHE_SIZE, 500 * MIB);
    assert_eq!(plan_eviction(&vec![]), Vec::<usize>::new());
    assert_eq!(plan_eviction(&vec![file("a", 1, 500 * MIB)]), Vec::<usize>::new());
    assert_eq!(
        plan_eviction(&vec![file("a", 1, 250 * MIB), file("b", 2, 250 * MIB)]),
        Vec::<usize>::new()
    );
}

#[test]
fn oldest_files_are_evicted_first_until_the_cache_fits() {
    let files = vec![
        file("newest", 40, 200 * MIB),
        file("oldest", 10, 100 * MIB),
        file("middle", 30, 200 * MIB),
        file("older", 20, 100 * MIB),
    ];
    // 600 MiB: the oldest goes, and 500 MiB fit
    assert_eq!(plan_eviction(&files), vec![1]);
    let mut more = files.clone();
    more.push(file("extra", 35, 150 * MIB));
    // 750 MiB: oldest (650), older (550), middle (350)
    assert_eq!(plan_eviction(&more), vec![1, 3, 2]);
}

#[test]
fn files_of_the_same_age_go_in_listing_order() {
    let files = vec![
        file("a", 5, 300 * MIB),
        file("b", 5, 300 * MIB),
        file("c", 5, 300 * MIB),
        file("d", 1, 0),
    ];
    assert_eq!(plan_eviction(&files), vec![3, 0, 1]);
}

#[test]
fn one_byte_over_the_limit() {
    let files = vec![file("a", 2, MAX_CACHE_SIZE), file("b", 1, 1)];
    assert_eq!(plan_eviction(&files), vec![1]);
    let files = vec![file("a", 1, MAX_CACHE_SIZE + 1)];
    assert_eq!(plan_eviction(&files), vec![0]);
    let files = vec![file("a", -5, u64::MAX), file("b", -7, u64::MAX), file("c", 0, 7)];
    assert_eq!(plan_eviction(&files), vec![1, 0]);
}
