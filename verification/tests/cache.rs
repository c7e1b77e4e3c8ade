//! The cache's rules: keys, freshness, reads, writes and prunes.

use unixd::cache::{
    default_root, entry_digest, header_prefix, is_temporary, live, temporary_digest, Cache, Fate, Header,
    Limits, Listed, Lookup, Maintenance, Prune, Pruning, Usage, Verdict,
};
use unixd::error::Error;
use unixd::install::Platform;
use unixd::key::{hex, Key};
use unixd::naming::forbidden;
use unixd::policy::{Failure, Policy, Source};

const START_MS: u64 = 1_000_000;

fn key(query: &str) -> Key {
    Key::builder("search").part("query", query).unwrap().build()
}

fn minute_then_hour() -> Policy {
    Policy::new(60_000, 3_600_000)
}

fn cache(schema: u32) -> Cache {
    Cache::open("/tmp/cache", schema, Limits::default())
}

#[test]
fn only_transient_failures_serve_stale() {
    for failure in [
        Failure::Timeout,
        Failure::Network,
        Failure::Status(429),
        Failure::Status(500),
        Failure::Status(503),
        Failure::Status(599),
    ] {
        assert!(failure.serves_stale(), "{failure:?}");
    }
    for failure in [
        Failure::Status(401),
        Failure::Status(403),
        Failure::Status(404),
        Failure::Status(400),
        Failure::Status(200),
        Failure::InvalidJson,
        Failure::SchemaMismatch,
    ] {
        assert!(!failure.serves_stale(), "{failure:?}");
    }
}

#[test]
fn duplicate_part_is_refused() {
    let duplicate = Key::builder("search")
        .part("query", "a")
        .unwrap()
        .part("query", "b");
    assert!(matches!(duplicate, Err(Error::DuplicateKeyPart(_))));
}

#[test]
fn part_order_does_not_change_the_key() {
    let first = Key::builder("search")
        .part("query", "rust")
        .unwrap()
        .part("limit", "10")
        .unwrap()
        .build();
    let second = Key::builder("search")
        .part("limit", "10")
        .unwrap()
        .part("query", "rust")
        .unwrap()
        .build();
    assert_eq!(first, second);
    assert_eq!(first.digest().len(), 64);
}

#[test]
fn part_boundaries_and_namespaces_change_the_key() {
    let joined = Key::builder("n").part("a", "bc").unwrap().build();
    let split = Key::builder("n").part("ab", "c").unwrap().build();
    assert_ne!(joined, split);
    assert_ne!(
        key("rust"),
        Key::builder("fetch").part("query", "rust").unwrap().build()
    );
}

#[test]
fn the_digest_is_the_sha256_of_the_length_prefixed_fields() {
    let bare = Key::builder("n").build();
    assert_eq!(bare.namespace(), "n");
    assert_eq!(
        bare.digest(),
        "e607c7b8b16f6bf86a4a164745578055853dfb9b7f3132f0c11f07afcc54ce3a"
    );
    assert_eq!(
        key("rust").digest(),
        "e15017c1502030cf235f754c0aefdd6ace37740809d00c416e55846866cfac3c"
    );
    let two = Key::builder("search")
        .part("query", "rust")
        .unwrap()
        .part("limit", "10")
        .unwrap()
        .build();
    assert_eq!(
        two.digest(),
        "b1046a56615829183a337b213c238a46f18be473d8bd132421a05de4de877f5c"
    );
}

#[test]
fn forbidden_names_are_refused() {
    for name in [
        "token",
        "api_key",
        "apiKey",
        "APIToken",
        "accessToken",
        "ACCESSKEY",
        "access-key",
        "x.sessionid",
        "Authorization",
        "user_password",
        "output_format",
        "format",
        "Path",
        "requestId",
        "client secret",
    ] {
        assert!(forbidden(name), "{name}");
        let refused = Key::builder("search").part(name, "v");
        assert!(matches!(refused, Err(Error::ForbiddenKeyPart(n)) if n == name), "{name}");
    }
    for name in ["query", "limit", "url", "tokenizer_version", "format_version", "paths"] {
        assert!(!forbidden(name), "{name}");
    }
}

#[test]
fn hex_writes_two_lowercase_digits_per_byte() {
    assert_eq!(hex(&vec![0x00, 0x0f, 0xa5, 0xff]), "000fa5ff");
    assert_eq!(hex(&vec![]), "");
}

#[test]
fn entry_and_temporary_names_are_recognized() {
    let digest = "a".repeat(64);
    assert_eq!(entry_digest(&format!("{digest}.json")), Some(digest.clone()));
    assert_eq!(entry_digest(&format!("{digest}.lock")), None);
    assert_eq!(entry_digest(&format!("{}.json", "g".repeat(64))), None);
    assert_eq!(entry_digest(&format!("{}.json", "a".repeat(63))), None);
    let temporary = format!(".{digest}.abc123.tmp");
    assert!(is_temporary(&temporary));
    assert_eq!(temporary_digest(&temporary), Some(digest.clone()));
    assert_eq!(temporary_digest(&format!(".{digest}x.tmp")), None);
    assert!(!is_temporary(&format!("{digest}.json")));
    assert!(!is_temporary("entries"));
}

#[test]
fn paths_live_under_the_root() {
    let cache = Cache::open("/tmp/cache", 1, Limits::default());
    let key = key("rust");
    assert_eq!(cache.root(), "/tmp/cache");
    assert_eq!(
        cache.entry_path(&key),
        format!("/tmp/cache/entries/{}.json", key.digest())
    );
    assert_eq!(
        cache.lock_path(key.digest()),
        format!("/tmp/cache/locks/{}.lock", key.digest())
    );
    let slashed = Cache::open("/tmp/cache/", 1, Limits::default());
    assert_eq!(slashed.entries_dir(), "/tmp/cache/entries");
}

#[test]
fn the_default_root_follows_the_platform() {
    assert_eq!(
        default_root(Platform::MacOs, Some("/Users/ann"), Some("/xdg"), "tool").as_deref(),
        Some("/Users/ann/Library/Caches/tool")
    );
    assert_eq!(default_root(Platform::MacOs, Some("relative"), None, "tool"), None);
    assert_eq!(
        default_root(Platform::Linux, Some("/home/ann"), Some("/xdg/cache"), "tool").as_deref(),
        Some("/xdg/cache/tool")
    );
    assert_eq!(
        default_root(Platform::Linux, Some("/home/ann"), Some("xdg"), "tool").as_deref(),
        Some("/home/ann/.cache/tool")
    );
    assert_eq!(
        default_root(Platform::Linux, Some("/home/ann/"), None, "tool").as_deref(),
        Some("/home/ann/.cache/tool")
    );
    assert_eq!(default_root(Platform::Linux, None, None, "tool"), None);
}

fn stored(cache: &Cache, key: &Key, policy: Policy, now: u64) -> Header {
    cache.entry_header(key, policy, now)
}

#[test]
fn fresh_then_stale_then_miss() {
    let cache = cache(1);
    let key = key("rust");
    let header = stored(&cache, &key, minute_then_hour(), START_MS);
    assert!(header.consistent());
    let at = |now: u64| {
        cache.read(&key, Some((header.clone(), START_MS)), Some("result".to_owned()), now, true)
    };
    match at(START_MS).lookup {
        Lookup::Fresh(cached) => assert_eq!(cached.age_ms, 0),
        other => panic!("expected fresh, got {other:?}"),
    }
    match at(START_MS + 60_000).lookup {
        Lookup::Fresh(cached) => {
            assert_eq!(cached.value, "result");
            assert_eq!(cached.age_ms, 60_000);
            assert_eq!(cached.source, Source::CallerDefault);
        }
        other => panic!("expected fresh, got {other:?}"),
    }
    match at(START_MS + 60_001).lookup {
        Lookup::Stale(cached) => {
            assert_eq!(cached.stored_at_ms, START_MS);
            assert_eq!(cached.age_ms, 60_001);
        }
        other => panic!("expected stale, got {other:?}"),
    }
    assert!(matches!(at(START_MS + 3_660_000).lookup, Lookup::Stale(_)));
    let gone = at(START_MS + 3_660_001);
    assert!(matches!(gone.lookup, Lookup::Miss));
    assert!(gone.remove);
    let unlocked = cache.read(
        &key,
        Some((header.clone(), START_MS)),
        Some("result".to_owned()),
        START_MS + 3_660_001,
        false,
    );
    assert!(matches!(unlocked.lookup, Lookup::Miss));
    assert!(!unlocked.remove);
}

#[test]
fn an_entry_written_after_the_count_is_still_settled() {
    let cache = Cache::open("/tmp/cache", 1, prune_limits());
    let mut pruning = cache.prune(0, Usage { entries: 1, bytes: 10 }, START_MS);
    let expired = pruning.fate(false, START_MS);
    pruning.settle(expired, "new".to_owned(), START_MS, 10);
    pruning.settle(expired, "old".to_owned(), START_MS, 10);
    let prune = pruning.finish();
    assert_eq!(prune.expired_removed, 2);
    assert_eq!(prune.after_entries, 0);
    assert_eq!(prune.after_bytes, 0);
}

#[test]
fn cache_control_source_is_kept() {
    let cache = cache(1);
    let key = key("rust");
    let header = stored(&cache, &key, Policy::from_cache_control(60_000, 0), START_MS);
    let read = cache.read(&key, Some((header, START_MS)), Some("result"), START_MS, false);
    match read.lookup {
        Lookup::Fresh(cached) => assert_eq!(cached.source, Source::CacheControl),
        other => panic!("expected fresh, got {other:?}"),
    }
}

#[test]
fn older_schema_is_stale_and_newer_schema_is_ignored() {
    let key = key("rust");
    let old = stored(&cache(1), &key, minute_then_hour(), START_MS);
    let read = cache(2).read(&key, Some((old, START_MS)), Some(1u8), START_MS, true);
    assert!(matches!(read.lookup, Lookup::Stale(_)));
    assert!(!read.remove);
    let new = stored(&cache(3), &key, minute_then_hour(), START_MS);
    assert_eq!(cache(2).judge(&key, &Some((new.clone(), START_MS)), START_MS), Verdict::Ignore);
    let read = cache(2).read(&key, Some((new, START_MS)), None::<u8>, START_MS, true);
    assert!(matches!(read.lookup, Lookup::Miss));
    assert!(!read.remove);
}

#[test]
fn unlocked_lookup_keeps_and_locked_lookup_removes_invalid_entries() {
    let cache = cache(1);
    let key = key("rust");
    let other = key_for("other");
    let header = stored(&cache, &other, minute_then_hour(), START_MS);
    for locked in [false, true] {
        let read = cache.read(&key, Some((header.clone(), START_MS)), Some(1u8), START_MS, locked);
        assert!(matches!(read.lookup, Lookup::Miss));
        assert_eq!(read.remove, locked);
        let missing = cache.read::<u8>(&key, None, None, START_MS, locked);
        assert_eq!(missing.remove, locked);
        let undecodable = stored(&cache, &key, minute_then_hour(), START_MS);
        let read = cache.read::<u8>(&key, Some((undecodable, START_MS)), None, START_MS, locked);
        assert!(matches!(read.lookup, Lookup::Miss));
        assert_eq!(read.remove, locked);
    }
}

fn key_for(query: &str) -> Key {
    key(query)
}

#[test]
fn a_hit_records_its_use_at_most_hourly() {
    let cache = cache(1);
    let key = key("rust");
    let header = stored(&cache, &key, Policy::new(10_000_000, 0), START_MS);
    let soon = cache.read(&key, Some((header.clone(), START_MS)), Some(1u8), START_MS + 3_600_000, false);
    assert!(!soon.touch);
    let later = cache.read(&key, Some((header, START_MS)), Some(1u8), START_MS + 3_600_001, false);
    assert!(later.touch);
}

#[test]
fn horizons_saturate() {
    let cache = cache(1);
    let header = cache.entry_header(&key("rust"), Policy::new(u64::MAX, 5), 10);
    assert_eq!(header.fresh_until_ms, u64::MAX);
    assert_eq!(header.stale_until_ms, u64::MAX);
}

#[test]
fn oversized_entry_is_not_stored() {
    let limits = Limits { max_entry_bytes: 256, ..Limits::default() };
    let cache = Cache::open("/tmp/cache", 1, limits);
    assert!(cache.admits(256));
    assert!(!cache.admits(257));
}

#[test]
fn write_under_the_cap_needs_no_prune() {
    let cache = cache(1);
    let under = Usage { entries: 1, bytes: 100 };
    assert_eq!(cache.after_write(Ok(under), false), Some(Maintenance::NotNeeded));
    assert_eq!(cache.after_write(Ok(under), true), None);
    let over = Usage { entries: 10_001, bytes: 100 };
    assert_eq!(cache.after_write(Ok(over), false), None);
    assert_eq!(
        cache.after_write(Err(Error::Lock), false),
        Some(Maintenance::Deferred(Error::Lock))
    );
    assert_eq!(Maintenance::of_prune(Err(Error::Lock)), Maintenance::Deferred(Error::Lock));
}

#[test]
fn a_sweep_is_due_after_a_day() {
    let cache = cache(1);
    assert!(!cache.sweep_due(Some(START_MS), START_MS + 86_400_000));
    assert!(cache.sweep_due(Some(START_MS), START_MS + 86_400_001));
    assert!(!cache.sweep_due(None, u64::MAX));
}

#[test]
fn usage_counts_entry_files_only() {
    let cache = cache(1);
    let digest = "b".repeat(64);
    let listing = vec![
        Listed { name: format!("{digest}.json"), file_bytes: Some(10) },
        Listed { name: format!("{}.json", "c".repeat(64)), file_bytes: Some(u64::MAX) },
        Listed { name: format!(".{digest}.x.tmp"), file_bytes: Some(5) },
        Listed { name: format!("{}.json", "d".repeat(64)), file_bytes: None },
        Listed { name: "CACHEDIR.TAG".to_owned(), file_bytes: Some(7) },
    ];
    assert_eq!(cache.usage(&listing), Usage { entries: 2, bytes: u64::MAX });
    let mut usage = Usage { entries: 1, bytes: 3 };
    usage.remove(10);
    assert_eq!(usage, Usage { entries: 0, bytes: 0 });
}

#[test]
fn a_header_is_read_up_to_the_value() {
    let bytes = br#"{"format":1,"schema":1,"value":{"value":2}}"#;
    assert_eq!(
        header_prefix(bytes),
        Some(br#"{"format":1,"schema":1}"#.to_vec())
    );
    assert_eq!(header_prefix(br#"{"format":1}"#), None);
}

#[test]
fn only_a_consistent_unexpired_matching_header_is_live() {
    let cache = cache(1);
    let key = key("rust");
    let header = stored(&cache, &key, minute_then_hour(), START_MS);
    let name = format!("{}.json", key.digest());
    assert!(live(&Some(header.clone()), &name, START_MS + 3_660_000));
    assert!(!live(&Some(header.clone()), &name, START_MS + 3_660_001));
    assert!(!live(&Some(header.clone()), &format!("{}.json", "e".repeat(64)), START_MS));
    assert!(!live(&None, &name, START_MS));
    let broken = Header { fresh_until_ms: START_MS - 1, ..header };
    assert!(!live(&Some(broken), &name, START_MS));
}

fn prune_limits() -> Limits {
    Limits {
        hard_entries: 3,
        target_entries: 10,
        hard_bytes: 1_000,
        target_bytes: 1_000,
        unused_after_ms: 1_000,
        ..Limits::default()
    }
}

#[test]
fn a_target_above_its_hard_cap_prunes_to_the_cap() {
    let cache = Cache::open("/tmp/cache", 1, prune_limits());
    let mut pruning = cache.prune(0, Usage { entries: 5, bytes: 50 }, START_MS);
    assert_eq!(pruning.targets(), (3, 1_000));
    for (index, used) in [40u64, 10, 30, 20, 50].iter().enumerate() {
        let fate = pruning.fate(true, START_MS - used);
        assert_eq!(fate, Fate::Keep);
        pruning.settle(fate, format!("{index}"), START_MS - used, 10);
    }
    let mut removed = Vec::new();
    while let Some(victim) = pruning.next_victim() {
        removed.push(victim.digest.clone());
        pruning.capacity_removed();
    }
    // Least recently used first: the oldest use is the largest age.
    assert_eq!(removed, vec!["4".to_owned(), "0".to_owned()]);
    let prune = pruning.finish();
    assert_eq!(prune.after_entries, 3);
    assert_eq!(prune.capacity_removed, 2);
}

#[test]
fn prune_counts_each_fate_once() {
    let cache = Cache::open("/tmp/cache", 1, prune_limits());
    let mut pruning = cache.prune(2, Usage { entries: 4, bytes: 40 }, START_MS);
    let expired = pruning.fate(false, START_MS);
    assert_eq!(expired, Fate::Expired);
    pruning.settle(expired, "e".to_owned(), START_MS, 10);
    let unused = pruning.fate(true, START_MS - 1_001);
    assert_eq!(unused, Fate::Unused);
    pruning.settle(unused, "u".to_owned(), START_MS - 1_001, 10);
    pruning.settle(Fate::Keep, "k".to_owned(), START_MS - 500, 10);
    assert!(Pruning::removes_temporary(None));
    assert!(!Pruning::removes_temporary(Some(true)));
    pruning.temporary_removed();
    assert!(pruning.next_victim().is_none());
    let prune = pruning.finish();
    assert_eq!(
        prune,
        Prune {
            before_entries: 4,
            before_bytes: 40,
            after_entries: 2,
            after_bytes: 20,
            expired_removed: 1,
            unused_removed: 1,
            capacity_removed: 0,
            temporary_removed: 1,
            locks_removed: 2,
        }
    );
}

#[test]
fn ties_in_use_go_to_the_smaller_digest() {
    let cache = Cache::open("/tmp/cache", 1, prune_limits());
    let mut pruning = cache.prune(0, Usage { entries: 4, bytes: 40 }, START_MS);
    for digest in ["b", "a", "c"] {
        pruning.settle(Fate::Keep, digest.to_owned(), START_MS, 10);
    }
    assert_eq!(pruning.next_victim().map(|k| k.digest), Some("a".to_owned()));
    pruning.capacity_removed();
    assert!(pruning.next_victim().is_none());
}

#[test]
fn cache_limits_read_from_a_config_with_defaults_for_the_rest() {
    let limits = Limits::from_config(r#"{"hard_entries": 5, "unused_after": "1h"}"#).unwrap();
    assert_eq!(limits.hard_entries, 5);
    assert_eq!(limits.unused_after_ms, 3_600_000);
    assert_eq!(limits.target_entries, Limits::default().target_entries);
    assert!(Limits::from_config(r#"{"hard_entries": "5"}"#).is_err());
    assert!(Limits::from_config(r#"{"hard_entrys": 5}"#).is_err());
}

#[test]
fn a_capacity_pass_takes_the_least_recently_used_first() {
    let limits = Limits { target_entries: 1, target_bytes: 1_000, ..prune_limits() };
    let cache = Cache::open("/tmp/cache", 1, limits);
    let mut pruning = cache.prune(0, Usage { entries: 20, bytes: 40 }, START_MS);
    for (digest, used) in [("d", 40), ("b", 20), ("e", 50), ("a", 10), ("c", 30)] {
        pruning.settle(Fate::Keep, digest.to_owned(), START_MS - used, 1);
    }
    let mut taken = Vec::new();
    while let Some(victim) = pruning.next_victim() {
        taken.push(victim.digest);
        pruning.capacity_removed();
    }
    assert_eq!(taken, ["e", "d", "c", "b", "a"]);
}

#[test]
fn prune_removes_leftover_temporary_files() {
    let cache = Cache::open("/tmp/cache", 1, Limits::default());
    let key = key("rust");
    let leftover = format!(".{}.abc123.tmp", key.digest());
    assert!(is_temporary(&leftover));
    assert_eq!(temporary_digest(&leftover).as_deref(), Some(key.digest()));
    let mut pruning = cache.prune(0, Usage { entries: 1, bytes: 10 }, START_MS);
    assert!(Pruning::removes_temporary(Some(false)));
    assert!(Pruning::removes_temporary(None));
    assert!(!Pruning::removes_temporary(Some(true)));
    pruning.temporary_removed();
    let prune = pruning.finish();
    assert_eq!(prune.temporary_removed, 1);
    assert_eq!(prune.after_entries, 1);
}

#[test]
fn prune_removes_expired_before_oldest() {
    let limits = Limits { hard_entries: 10, target_entries: 8, ..Limits::default() };
    let cache = Cache::open("/tmp/cache", 1, limits);
    let size = 100u64;
    let expiring = key("expiring");
    let expiring_header = cache.entry_header(&expiring, Policy::new(1, 0), START_MS);
    let mut now = START_MS + 10;
    let keys: Vec<Key> = (0..10).map(|index| key(&format!("q{index}"))).collect();
    let mut headers = Vec::new();
    let mut listing =
        vec![Listed { name: format!("{}.json", expiring.digest()), file_bytes: Some(size) }];
    let mut last = None;
    for key in &keys {
        now += 1;
        headers.push(cache.entry_header(key, minute_then_hour(), now));
        listing.push(Listed { name: format!("{}.json", key.digest()), file_bytes: Some(size) });
        last = Some(cache.after_write(Ok(cache.usage(&listing)), false));
    }
    // Only the write that takes the cache to eleven entries prunes.
    assert_eq!(last, Some(None));

    let before = cache.usage(&listing);
    assert_eq!(before, Usage { entries: 11, bytes: 11 * size });
    let mut pruning = cache.prune(0, before, now);
    let entries = std::iter::once((&expiring, &expiring_header)).chain(keys.iter().zip(headers.iter()));
    for (key, header) in entries {
        let name = format!("{}.json", key.digest());
        let fate = pruning.fate(live(&Some(header.clone()), &name, now), header.stored_at_ms);
        pruning.settle(fate, key.digest().to_owned(), header.stored_at_ms, size);
    }
    let mut removed = Vec::new();
    while let Some(victim) = pruning.next_victim() {
        removed.push(victim.digest);
        pruning.capacity_removed();
    }
    let prune = pruning.finish();
    assert_eq!(prune.before_entries, 11);
    assert_eq!(prune.expired_removed, 1);
    assert_eq!(prune.capacity_removed, 2);
    assert_eq!(prune.after_entries, 8);
    assert_eq!(removed, vec![keys[0].digest().to_owned(), keys[1].digest().to_owned()]);
    for gone in &keys[..2] {
        assert_eq!(cache.read::<String>(gone, None, None, now, false).lookup, Lookup::Miss);
    }
    for (kept, header) in keys[2..].iter().zip(headers[2..].iter()) {
        let stored = Some((header.clone(), header.stored_at_ms));
        let reading = cache.read(kept, stored, Some("value".to_owned()), now, false);
        assert!(matches!(reading.lookup, Lookup::Fresh(_)));
    }
}
