use himalaya_cache::layout::{message_path, meta_path};
use himalaya_cache::ordering::order_by_rank;
use himalaya_cache::model::Envelope;
use himalaya_cache::sync::{envelope_step, EnvelopeStep};
use std::collections::BTreeMap;

struct Work {
    id: &'static str,
    meta_ok: bool,
    body: Option<&'static [u8]>,
}

/// Replays the work on a folder's envelopes against an in-memory cache,
/// returning the cache and how many bodies were fetched.
fn replay(cache: &mut BTreeMap<Vec<String>, Vec<u8>>, works: &[Work]) -> usize {
    let mut fetches = 0;
    for w in works {
        let meta_written = w.meta_ok;
        if meta_written {
            cache.insert(meta_path("a", "f", w.id), format!("meta {}", w.id).into_bytes());
        }
        let body_path = message_path("a", "f", w.id);
        if envelope_step(meta_written, cache.contains_key(&body_path)) == EnvelopeStep::FetchBody {
            fetches += 1;
            if let Some(b) = w.body {
                cache.insert(body_path, b.to_vec());
            }
        }
    }
    fetches
}

fn works() -> Vec<Work> {
    vec![
        Work { id: "1", meta_ok: true, body: Some(b"one") },
        Work { id: "2", meta_ok: false, body: Some(b"two") },
        Work { id: "3", meta_ok: true, body: None },
        Work { id: "4", meta_ok: true, body: Some(b"four") },
    ]
}

#[test]
fn bodies_present_after_sync() {
    let mut cache = BTreeMap::new();
    replay(&mut cache, &works());
    assert!(cache.contains_key(&message_path("a", "f", "1")));
    assert!(cache.contains_key(&message_path("a", "f", "4")));
    assert!(!cache.contains_key(&message_path("a", "f", "2")));
    assert!(!cache.contains_key(&message_path("a", "f", "3")));
}

#[test]
fn second_sync_fetches_no_cached_body() {
    let mut cache = BTreeMap::new();
    let first = replay(&mut cache, &works());
    assert_eq!(first, 3);
    let before = cache.clone();
    let second = replay(&mut cache, &[
        Work { id: "1", meta_ok: true, body: Some(b"changed") },
        Work { id: "4", meta_ok: true, body: Some(b"changed") },
    ]);
    assert_eq!(second, 0);
    assert_eq!(cache, before);
}

#[test]
fn shuffled_order_gives_same_cache() {
    let mut forward = BTreeMap::new();
    replay(&mut forward, &works());
    let mut backward = BTreeMap::new();
    let mut reversed = works();
    reversed.reverse();
    replay(&mut backward, &reversed);
    assert_eq!(forward, backward);
}

#[test]
fn order_by_given_ranks() {
    let e = |id: &str| Envelope {
        id: id.to_string(),
        flags: None,
        subject: None,
        from: None,
        to: None,
        date: None,
        has_attachment: None,
    };
    let (out, ranks) = order_by_rank(vec![e("x"), e("y"), e("z")], vec![Some(1), None, Some(5)]);
    let ids: Vec<&str> = out.iter().map(|e| e.id.as_str()).collect();
    assert_eq!(ids, vec!["z", "x", "y"]);
    assert_eq!(ranks, vec![Some(5), Some(1), None]);
}
