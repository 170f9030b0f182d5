use ashuffle::shuffle::{
    shuffle_add, shuffle_chain, shuffle_draws_needed, shuffle_free, shuffle_init, shuffle_length,
    shuffle_pick,
};

fn chain(window: u32, songs: &[&str]) -> shuffle_chain {
    let mut s = shuffle_init(window);
    for x in songs {
        shuffle_add(&mut s, x.as_bytes().to_vec());
    }
    s
}

struct Lcg(u64);

impl Lcg {
    fn next(&mut self) -> u32 {
        self.0 = self.0.wrapping_mul(6364136223846793005).wrapping_add(1442695040888963407);
        (self.0 >> 33) as u32
    }
}

fn pick_random(s: &mut shuffle_chain, rng: &mut Lcg) -> Option<Vec<u8>> {
    let n = shuffle_draws_needed(s);
    let draws: Vec<u32> = (0..n).map(|_| rng.next()).collect();
    shuffle_pick(s, &draws)
}

#[test]
fn empty_chain_picks_nothing() {
    let mut s = shuffle_init(7);
    assert_eq!(shuffle_length(&s), 0);
    assert_eq!(shuffle_draws_needed(&s), 0);
    assert_eq!(shuffle_pick(&mut s, &[]), None);
    assert_eq!(shuffle_length(&s), 0);
}

#[test]
fn add_counts_songs() {
    let s = chain(7, &["a", "b", "c"]);
    assert_eq!(shuffle_length(&s), 3);
}

#[test]
fn pick_fills_window_with_draws_in_order() {
    let mut s = chain(7, &["a", "b", "c"]);
    assert_eq!(shuffle_draws_needed(&s), 3);
    // draws 0,0,0 move a, b, c in turn; the window's first song is a.
    assert_eq!(shuffle_pick(&mut s, &[0, 0, 0]), Some(b"a".to_vec()));
    assert_eq!(shuffle_length(&s), 3);
    // window is [b, c], pool [a]: one draw fills it.
    assert_eq!(shuffle_draws_needed(&s), 1);
    assert_eq!(shuffle_pick(&mut s, &[5]), Some(b"b".to_vec()));
    assert_eq!(shuffle_pick(&mut s, &[9]), Some(b"c".to_vec()));
    assert_eq!(shuffle_pick(&mut s, &[9]), Some(b"a".to_vec()));
}

#[test]
fn draw_selects_pool_position_modulo() {
    let mut s = chain(0, &["a", "b", "c"]);
    // window limit 0: one song is moved, then picked; 4 % 3 == 1 picks b.
    assert_eq!(shuffle_draws_needed(&s), 1);
    assert_eq!(shuffle_pick(&mut s, &[4]), Some(b"b".to_vec()));
    // pool is now [a, c, b]; 2 % 3 == 2 picks b again (window of 0).
    assert_eq!(shuffle_pick(&mut s, &[2]), Some(b"b".to_vec()));
    assert_eq!(shuffle_length(&s), 3);
}

#[test]
fn pick_keeps_window_size() {
    let mut s = chain(2, &["a", "b", "c", "d", "e"]);
    let mut rng = Lcg(3);
    for _ in 0..20 {
        assert!(pick_random(&mut s, &mut rng).is_some());
        // after each pick the window holds min(2, 5 - 1) songs, so the next
        // pick needs exactly one draw
        assert_eq!(shuffle_draws_needed(&s), 1);
        assert_eq!(shuffle_length(&s), 5);
    }
}

#[test]
fn no_repeat_within_window() {
    let names: Vec<String> = (0..20).map(|i| format!("song{}", i)).collect();
    let refs: Vec<&str> = names.iter().map(|s| s.as_str()).collect();
    let mut s = chain(7, &refs);
    let mut rng = Lcg(42);
    let mut history: Vec<Vec<u8>> = Vec::new();
    for _ in 0..500 {
        let x = pick_random(&mut s, &mut rng).unwrap();
        let start = history.len().saturating_sub(7);
        assert!(!history[start..].contains(&x));
        history.push(x);
    }
    assert_eq!(shuffle_length(&s), 20);
}

#[test]
fn small_chain_alternates() {
    let mut s = chain(7, &["a", "b"]);
    let mut rng = Lcg(7);
    let first = pick_random(&mut s, &mut rng).unwrap();
    let mut last = first;
    for _ in 0..10 {
        let x = pick_random(&mut s, &mut rng).unwrap();
        assert_ne!(x, last);
        last = x;
    }
}

#[test]
fn free_empties_chain() {
    let mut s = chain(7, &["a", "b"]);
    let mut rng = Lcg(1);
    pick_random(&mut s, &mut rng);
    shuffle_free(&mut s);
    assert_eq!(shuffle_length(&s), 0);
    assert_eq!(pick_random(&mut s, &mut rng), None);
}
