use poly_ob::scheduler::{batch_for, batch_len, tick_interval_ns, Scheduler, SchedulerError};

fn toks(n: usize) -> Vec<String> {
    (0..n).map(|i| format!("T{}", i)).collect()
}

#[test]
fn no_fetchers_rejected() {
    assert_eq!(Scheduler::new(toks(3), 0, 0).err(), Some(SchedulerError::NoFetchers));
}

#[test]
fn interval_and_batch() {
    assert_eq!(tick_interval_ns(1), 50_000_000);
    assert_eq!(tick_interval_ns(2), 25_000_000);
    assert_eq!(tick_interval_ns(3), 16_666_667);
    assert_eq!(batch_len(100, 2), 4);
    assert_eq!(batch_len(0, 2), 1);
    assert_eq!(batch_len(40, 2), 2);
    assert_eq!(batch_len(41, 2), 3);
}

#[test]
fn batch_wraps_around() {
    let t = toks(5);
    let b = batch_for(&t, 4, 1, 12);
    assert_eq!(b, vec!["T3", "T4", "T0", "T1"]);
    let b = batch_for(&t, 7, 0, 0);
    assert_eq!(b, vec!["T0", "T1", "T2", "T3", "T4", "T0", "T1"]);
    assert!(batch_for(&Vec::new(), 3, 0, 9).is_empty());
}

#[test]
fn pacing_two_fetchers_hundred_tokens() {
    let start: u64 = 1_000_000_000;
    let mut s = Scheduler::new(toks(100), 2, start).unwrap();
    assert_eq!(s.delta_ns(), 25_000_000);
    assert_eq!(s.batch_len(), 4);
    // Command k is released at the tick before it; command 0 at start.
    let mut releases: Vec<u64> = vec![start];
    let mut fetchers: Vec<usize> = Vec::new();
    for _ in 0..200 {
        let d = s.next_dispatch(7);
        assert_eq!(d.tokens.len(), 4);
        fetchers.push(d.fetcher);
        releases.push(d.deadline_ns);
    }
    releases.pop();
    assert_eq!(releases[1], start + 200_000_000);
    for w in releases[1..].windows(2) {
        assert_eq!(w[1] - w[0], 25_000_000);
    }
    assert_eq!(&fetchers[..4], &[0, 1, 0, 1]);
    let first = releases[1];
    let in_second = releases.iter().filter(|&&r| r >= first && r < first + 1_000_000_000).count();
    assert_eq!(in_second, 40);
    for &w in &releases {
        let n = releases.iter().filter(|&&r| r >= w && r < w + 1_000_000_000).count();
        assert!(n <= 41);
    }
}

#[test]
fn batches_rotate_with_epoch_and_fetcher() {
    let mut s = Scheduler::new(toks(10), 2, 0).unwrap();
    let d0 = s.next_dispatch(3);
    let d1 = s.next_dispatch(3);
    assert_eq!(d0.fetcher, 0);
    assert_eq!(d0.tokens, vec!["T3", "T4"]);
    assert_eq!(d1.fetcher, 1);
    assert_eq!(d1.tokens, vec!["T4", "T5"]);
}

#[test]
fn full_batch_covers_every_token() {
    let t = toks(2);
    let mut s = Scheduler::new(t.clone(), 1, 0).unwrap();
    assert_eq!(s.batch_len(), 2);
    for e in 0..5 {
        let d = s.next_dispatch(e);
        for tok in &t {
            assert!(d.tokens.contains(tok));
        }
    }
}

#[test]
fn empty_universe_still_ticks() {
    let mut s = Scheduler::new(Vec::new(), 1, 0).unwrap();
    let a = s.next_dispatch(1);
    let b = s.next_dispatch(1);
    assert!(a.tokens.is_empty());
    assert_eq!(b.deadline_ns - a.deadline_ns, 50_000_000);
}

#[test]
fn rotation_reaches_every_token() {
    let t = toks(5);
    let mut seen: Vec<String> = Vec::new();
    for e in 10..15 {
        seen.extend(batch_for(&t, 1, 0, e));
    }
    for tok in &t {
        assert!(seen.contains(tok));
    }
}
