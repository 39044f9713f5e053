use prosodia::voice_cache::{VoiceCache, VOICE_CACHE_LIMIT};

#[test]
fn test_lru_cache_eviction() {
    let mut cache: VoiceCache<Vec<f32>> = VoiceCache::new();
    for i in 0..16 {
        if cache.get(&i.to_string()).is_none() {
            cache.insert(i.to_string(), vec![i as f32, i as f32]);
        }
    }
    let order = cache.order();
    assert_eq!(order.len(), 16);
    assert_eq!(order[0], "0");
    assert_eq!(order[15], "15");

    assert_eq!(cache.get("0"), Some(vec![0.0, 0.0]));
    let order = cache.order();
    assert_eq!(order.len(), 16);
    assert_eq!(order[15], "0");
    assert_eq!(order[0], "1");

    if cache.get("16").is_none() {
        cache.insert("16".to_string(), vec![16.0, 16.0]);
    }
    let order = cache.order();
    assert_eq!(order.len(), 16);
    assert!(!cache.contains("1"));
    assert!(cache.contains("0"));
    assert_eq!(order[15], "16");
}

#[test]
fn reinserting_replaces_and_refreshes() {
    let mut cache: VoiceCache<u32> = VoiceCache::new();
    cache.insert("a".to_string(), 1);
    cache.insert("b".to_string(), 2);
    cache.insert("a".to_string(), 3);
    assert_eq!(cache.order(), vec!["b".to_string(), "a".to_string()]);
    assert_eq!(cache.get("a"), Some(3));
    assert_eq!(cache.get("zzz"), None);
    cache.clear();
    assert!(cache.order().is_empty());
    assert_eq!(VOICE_CACHE_LIMIT, 16);
}
