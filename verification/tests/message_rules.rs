use rzmq::message::{clear_last, copy_frames, mark_frames, same_bytes, Msg};
use rzmq::text::{bytes_text, contains_text, decimal, strip_prefix};
use rzmq::time::{Duration, Instant};

fn frames(list: &[(&str, bool)]) -> Vec<Msg> {
    let mut v = Vec::new();
    for (data, more) in list {
        let mut m = Msg::from_vec(data.as_bytes().to_vec());
        m.set_more(*more);
        v.push(m);
    }
    v
}

fn mores(v: &Vec<Msg>) -> Vec<bool> {
    v.iter().map(|m| m.is_more()).collect()
}

#[test]
fn marking_sets_more_on_all_but_the_last() {
    let marked = mark_frames(frames(&[("a", false), ("b", false), ("c", true)]));
    assert_eq!(mores(&marked), vec![true, true, false]);
    let again = mark_frames(copy_frames(&marked));
    assert_eq!(mores(&again), mores(&marked));
    assert_eq!(again[1].data, b"b".to_vec());
}

#[test]
fn clearing_touches_only_the_last() {
    let cleared = clear_last(frames(&[("a", false), ("b", true)]));
    assert_eq!(mores(&cleared), vec![false, false]);
    assert!(clear_last(Vec::new()).is_empty());
}

#[test]
fn bytes_are_compared_by_content() {
    assert!(same_bytes(&vec![1, 2], &vec![1, 2]));
    assert!(!same_bytes(&vec![1, 2], &vec![1, 3]));
    assert!(!same_bytes(&vec![1], &vec![1, 2]));
}

#[test]
fn numbers_are_written_in_decimal() {
    assert_eq!(decimal(0), "0");
    assert_eq!(decimal(10), "10");
    assert_eq!(decimal(65535), "65535");
    assert_eq!(bytes_text(&vec![1, 20, 255]), "[1, 20, 255]");
    assert_eq!(bytes_text(&Vec::new()), "[]");
}

#[test]
fn texts_are_searched() {
    assert!(contains_text("Connecter shutdown by event", "shutdown by"));
    assert!(!contains_text("Shutdown By", "shutdown by"));
    assert!(contains_text("abc", ""));
    assert!(!contains_text("ab", "abc"));
    assert!(contains_text("abc", "bc"));
    assert_eq!(strip_prefix("inproc://x", "inproc://"), Some("x"));
    assert_eq!(strip_prefix("tcp://x", "inproc://"), None);
}

#[test]
fn spans_of_time_saturate() {
    assert_eq!(Duration::from_millis(3).nanos(), 3_000_000);
    assert_eq!(Duration::from_secs(2).saturating_mul(3).nanos(), 6_000_000_000);
    let longest = Duration::from_secs(u64::MAX).saturating_mul(2);
    assert_eq!(longest.nanos(), rzmq::time::MAX_DURATION_NANOS);
    let start = Instant::from_nanos(5);
    let later = start.checked_add(Duration::from_nanos(7)).unwrap();
    assert!(later.reached(start));
    assert!(!start.reached(later));
    assert!(later.checked_add(longest).is_none());
}
