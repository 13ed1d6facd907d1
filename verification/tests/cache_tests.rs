use blazingjj::commit_show_cache::CommitShowCache;
use blazingjj::commit_show_cache::CommitShowKey;
use blazingjj::commit_show_cache::CommitShowValue;
use blazingjj::env::DiffFormat;
use blazingjj::ids::ChangeId;
use blazingjj::ids::CommitId;
use blazingjj::ids::Head;

fn head(commit: &[u8], change: &[u8]) -> Head {
    Head::new(CommitId::new(commit.to_vec()), ChangeId::new(change.to_vec()))
}

fn content_of(value: &CommitShowValue) -> Vec<u8> {
    let text = value.value();
    let lines = text.lines();
    text.window(0, lines)
}

#[test]
fn idempotent_miss_computes_once() {
    let mut cache = CommitShowCache::new();
    let key = CommitShowKey::new(head(b"c1", b"ch1"), DiffFormat::Git, 0);

    let first = {
        let k = key.clone();
        let v = cache.get_or_insert(&key, move || {
            CommitShowValue::new(k, "first computation\n".to_string())
        });
        content_of(v)
    };
    // A second identical request must be served from the store: the
    // computation must not run again.
    let second = {
        let v = cache.get_or_insert(&key, || -> CommitShowValue {
            panic!("compute ran twice for the same key");
        });
        content_of(v)
    };
    assert_eq!(first, b"first computation\n".to_vec());
    assert_eq!(first, second);
}

#[test]
fn width_normalization_on_keys() {
    let format = DiffFormat::Git;
    let k1 = CommitShowKey::new(head(b"c1", b"ch1"), format.clone(), 80);
    let k2 = CommitShowKey::new(head(b"c1", b"ch1"), format, 120);
    assert_eq!(k1, k2);

    let tool = DiffFormat::DiffTool(Some("meld".to_string()));
    let t1 = CommitShowKey::new(head(b"c1", b"ch1"), tool.clone(), 80);
    let t2 = CommitShowKey::new(head(b"c1", b"ch1"), tool, 120);
    assert_ne!(t1, t2);
}

#[test]
fn divergent_commits_hold_independent_entries() {
    // Two distinct commit identities share one change identity and are
    // both active: their entries must not collide.
    let mut cache = CommitShowCache::new();
    let h1 = head(b"c1", b"shared");
    let h2 = head(b"c2", b"shared");
    let template = CommitShowKey::new(head(b"c1", b"shared"), DiffFormat::ColorWords, 0);
    cache.set_active(vec![head(b"c1", b"shared"), head(b"c2", b"shared")], &template);

    let k1 = CommitShowKey::new(h1, DiffFormat::ColorWords, 0);
    let k2 = CommitShowKey::new(h2, DiffFormat::ColorWords, 0);
    cache.insert_document(CommitShowValue::new(k1.clone(), "variant one\n".to_string()));
    cache.insert_document(CommitShowValue::new(k2.clone(), "variant two\n".to_string()));

    let v1 = cache.get(&k1).expect("first variant present");
    assert_eq!(content_of(v1), b"variant one\n".to_vec());
    let v2 = cache.get(&k2).expect("second variant present");
    assert_eq!(content_of(v2), b"variant two\n".to_vec());
    assert!(cache.has_exact_match(&k1));
    assert!(cache.has_exact_match(&k2));
}

#[test]
fn stale_fallback_then_eviction() {
    let mut cache = CommitShowCache::new();
    let template = CommitShowKey::new(head(b"c1", b"chg"), DiffFormat::Git, 0);

    // Insert content for change C under head H1 while H1 is active.
    cache.set_active(vec![head(b"h1", b"chg")], &template);
    let k1 = CommitShowKey::new(head(b"h1", b"chg"), DiffFormat::Git, 0);
    cache.insert_document(CommitShowValue::new(k1.clone(), "old content\n".to_string()));

    // Rebuild the visible set: H1 is gone, change C stays visible via H2.
    cache.set_active(vec![head(b"h2", b"chg")], &template);
    let k2 = CommitShowKey::new(head(b"h2", b"chg"), DiffFormat::Git, 0);

    // H2's key has no exact entry, but H1's value serves as the fallback.
    assert!(!cache.has_exact_match(&k2));
    let fallback = cache.get(&k2).expect("stale fallback served");
    assert_eq!(content_of(fallback), b"old content\n".to_vec());

    // Fresh content for H2 arrives: H1's entry is evicted.
    cache.insert_document(CommitShowValue::new(k2.clone(), "new content\n".to_string()));
    assert!(!cache.has_exact_match(&k1));
    assert!(cache.get(&k1).is_none());
    let fresh = cache.get(&k2).expect("fresh entry present");
    assert_eq!(content_of(fresh), b"new content\n".to_vec());
}

#[test]
fn get_miss_is_not_found() {
    let cache = CommitShowCache::new();
    let key = CommitShowKey::new(head(b"c1", b"ch1"), DiffFormat::Git, 0);
    assert!(cache.get(&key).is_none());
    assert!(!cache.has_exact_match(&key));
}

#[test]
fn value_keeps_key_and_content() {
    let key = CommitShowKey::new(head(b"c9", b"ch9"), DiffFormat::ColorWords, 0);
    let value = CommitShowValue::new(key, "x\ny\n".to_string());
    assert_eq!(value.value().lines(), 2);
    assert_eq!(value.value().window(0, 2), b"x\ny\n".to_vec());
}
