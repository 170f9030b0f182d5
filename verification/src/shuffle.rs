//! The shuffle chain: songs wait in a pool; a window of upcoming songs is
//! kept full by moving randomly chosen songs from the pool to its end, and
//! each pick takes the window's first song and puts it back at the end of
//! the pool. A song that was just picked thus comes again only after the
//! songs that were in the window before it.
//!
//! The random numbers come from outside, as "draws": the draw `d` chooses
//! the pool position `d % pool length`.
use vstd::prelude::*;
use crate::list::{list, list_at, list_free, list_init, list_pop_push, list_push, node_from};

verus! {

broadcast use vstd::seq_lib::group_to_multiset_ensures, vstd::multiset::group_multiset_axioms;

/// The window and the pool after the window was filled with `draws`: while
/// the window holds at most `max_window` songs and the pool is not empty,
/// the next draw moves the pool's song at `draw % pool length` to the end
/// of the window. Filling stops early when the draws run out.
pub open spec fn fill<T>(window: Seq<T>, pool: Seq<T>, max_window: u32, draws: Seq<u32>) -> (Seq<
    T,
>, Seq<T>)
    decreases pool.len(),
{
    if window.len() <= max_window && pool.len() > 0 && draws.len() > 0 {
        let k = draws[0] as int % pool.len() as int;
        fill(window.push(pool[k]), pool.remove(k), max_window, draws.drop_first())
    } else {
        (window, pool)
    }
}

/// How many draws filling the window takes.
pub open spec fn needed_draws(window_len: nat, pool_len: nat, max_window: u32) -> nat {
    if window_len <= max_window {
        vstd::math::min(max_window + 1 - window_len, pool_len as int) as nat
    } else {
        0
    }
}

/// One pick: fill the window, then move its first song to the end of the
/// pool and hand it out. With an empty window after filling, nothing moves.
pub open spec fn pick<T>(window: Seq<T>, pool: Seq<T>, max_window: u32, draws: Seq<u32>) -> (Seq<
    T,
>, Seq<T>, Option<T>) {
    let (w, p) = fill(window, pool, max_window, draws);
    if w.len() == 0 {
        (w, p, None)
    } else {
        (w.drop_first(), p.push(w[0]), Some(w[0]))
    }
}

/// What a run of picks hands out, one pick for each entry of `runs`.
pub open spec fn picks<T>(window: Seq<T>, pool: Seq<T>, max_window: u32, runs: Seq<Seq<u32>>) -> Seq<
    Option<T>,
>
    decreases runs.len(),
{
    if runs.len() == 0 {
        Seq::empty()
    } else {
        let (w, p, r) = pick(window, pool, max_window, runs[0]);
        seq![r] + picks(w, p, max_window, runs.drop_first())
    }
}

/// A chain of songs: the upcoming window and the pool.
#[allow(non_camel_case_types)]
pub struct shuffle_chain {
    max_window: u32,
    window: list<Vec<u8>>,
    pool: list<Vec<u8>>,
}

impl shuffle_chain {
    #[verifier::type_invariant]
    spec fn sizes_fit(self) -> bool {
        &&& self.window@.len() + self.pool@.len() <= u32::MAX
        &&& self.window@.len() <= self.max_window
    }

    /// The songs of the window, the next to be picked first.
    pub closed spec fn window_songs(self) -> Seq<Vec<u8>> {
        self.window@
    }

    /// The songs of the pool.
    pub closed spec fn pool_songs(self) -> Seq<Vec<u8>> {
        self.pool@
    }

    /// The number of songs the window holds between picks at most.
    pub closed spec fn window_limit(self) -> u32 {
        self.max_window
    }

    /// All songs of the chain.
    pub open spec fn songs(self) -> Seq<Vec<u8>> {
        self.window_songs() + self.pool_songs()
    }
}

/// An empty chain whose window holds `window_size` songs between picks.
pub fn shuffle_init(window_size: u32) -> (s: shuffle_chain)
    ensures
        s.window_songs() == Seq::<Vec<u8>>::empty(),
        s.pool_songs() == Seq::<Vec<u8>>::empty(),
        s.window_limit() == window_size,
{
    shuffle_chain { max_window: window_size, window: list_init(), pool: list_init() }
}

/// Adds a song to the pool.
pub fn shuffle_add(s: &mut shuffle_chain, data: Vec<u8>)
    requires
        old(s).songs().len() < u32::MAX,
    ensures
        final(s).window_songs() == old(s).window_songs(),
        final(s).pool_songs() == old(s).pool_songs().push(data),
        final(s).window_limit() == old(s).window_limit(),
{
    proof {
        use_type_invariant(&*s);
    }
    let mut taken = shuffle_init(0);
    std::mem::swap(s, &mut taken);
    let shuffle_chain { max_window, window, mut pool } = taken;
    list_push(&mut pool, node_from(data));
    *s = shuffle_chain { max_window, window, pool };
}

/// The number of songs in the chain.
pub fn shuffle_length(s: &shuffle_chain) -> (r: u32)
    ensures
        r == s.songs().len(),
{
    proof {
        use_type_invariant(s);
    }
    s.pool.length() + s.window.length()
}

/// How many draws the next pick uses.
pub fn shuffle_draws_needed(s: &shuffle_chain) -> (r: u32)
    ensures
        r == needed_draws(s.window_songs().len(), s.pool_songs().len(), s.window_limit()),
{
    proof {
        use_type_invariant(s);
    }
    let w = s.window.length();
    let p = s.pool.length();
    if w > s.max_window {
        return 0;
    }
    let room: u64 = s.max_window as u64 + 1 - w as u64;
    if room < p as u64 {
        room as u32
    } else {
        p
    }
}

/// Fills the window from the pool with `draws`, as `fill` says.
fn fill_window(
    max_window: u32,
    window: &mut list<Vec<u8>>,
    pool: &mut list<Vec<u8>>,
    draws: &[u32],
)
    requires
        old(window)@.len() + old(pool)@.len() <= u32::MAX,
    ensures
        (final(window)@, final(pool)@) == fill(old(window)@, old(pool)@, max_window, draws@),
{
    let mut k: usize = 0;
    assert(draws@.skip(0) =~= draws@);
    while window.length() <= max_window && pool.length() > 0 && k < draws.len()
        invariant
            k <= draws@.len(),
            window@.len() + pool@.len() == old(window)@.len() + old(pool)@.len(),
            old(window)@.len() + old(pool)@.len() <= u32::MAX,
            fill(window@, pool@, max_window, draws@.skip(k as int)) == fill(
                old(window)@,
                old(pool)@,
                max_window,
                draws@,
            ),
        decreases pool@.len(),
    {
        let index = draws[k] % pool.length();
        assert(draws@.skip(k as int).drop_first() =~= draws@.skip(k + 1));
        list_pop_push(pool, window, index);
        k = k + 1;
    }
}

/// Fills the window with `draws` (as many as `shuffle_draws_needed` counts),
/// then moves the window's first song to the end of the pool and returns a
/// copy of it. Returns `None` exactly when the chain holds no song.
pub fn shuffle_pick(s: &mut shuffle_chain, draws: &[u32]) -> (r: Option<Vec<u8>>)
    requires
        draws@.len() >= needed_draws(
            old(s).window_songs().len(),
            old(s).pool_songs().len(),
            old(s).window_limit(),
        ),
    ensures
        final(s).songs().len() == old(s).songs().len(),
        old(s).songs().len() == 0 ==> r is None,
        old(s).songs().len() > 0 ==> r is Some && final(s).window_songs().len() == vstd::math::min(
            old(s).window_limit() as int,
            old(s).songs().len() - 1,
        ),
        ({
            let (w, p, picked) = pick(
                old(s).window_songs(),
                old(s).pool_songs(),
                old(s).window_limit(),
                draws@,
            );
            &&& final(s).window_songs() == w
            &&& final(s).pool_songs() == p
            &&& final(s).window_limit() == old(s).window_limit()
            &&& old(s).window_songs().len() <= old(s).window_limit()
            &&& old(s).songs().len() <= u32::MAX
            &&& picked is None ==> r is None
            &&& picked matches Some(x) ==> r matches Some(y) && y@ == x@
        }),
{
    proof {
        use_type_invariant(&*s);
        lemma_fill_sizes(s.window@, s.pool@, s.max_window, draws@);
        lemma_fill_full(s.window@, s.pool@, s.max_window, draws@);
    }
    let mut taken = shuffle_init(0);
    std::mem::swap(s, &mut taken);
    let shuffle_chain { max_window, mut window, mut pool } = taken;
    fill_window(max_window, &mut window, &mut pool, draws);
    let data = match list_at(&window, 0) {
        None => {
            *s = shuffle_chain { max_window, window, pool };
            return None;
        },
        Some(d) => d.clone(),
    };
    list_pop_push(&mut window, &mut pool, 0);
    *s = shuffle_chain { max_window, window, pool };
    Some(data)
}

/// Drops every song of the chain.
pub fn shuffle_free(s: &mut shuffle_chain)
    ensures
        final(s).window_songs() == Seq::<Vec<u8>>::empty(),
        final(s).pool_songs() == Seq::<Vec<u8>>::empty(),
        final(s).window_limit() == old(s).window_limit(),
{
    let max_window = s.max_window;
    *s = shuffle_init(max_window);
}

/// Filling keeps the number of songs; the window grows by the songs moved,
/// and never beyond `max_window + 1` songs when it started with at most
/// `max_window`.
proof fn lemma_fill_sizes<T>(window: Seq<T>, pool: Seq<T>, max_window: u32, draws: Seq<u32>)
    ensures
        ({
            let (w, p) = fill(window, pool, max_window, draws);
            &&& w.len() + p.len() == window.len() + pool.len()
            &&& w.len() >= window.len()
            &&& window.len() <= max_window ==> w.len() <= max_window + 1
        }),
    decreases pool.len(),
{
    if window.len() <= max_window && pool.len() > 0 && draws.len() > 0 {
        let k = draws[0] as int % pool.len() as int;
        lemma_fill_sizes(window.push(pool[k]), pool.remove(k), max_window, draws.drop_first());
    }
}

/// Filling only appends to the window: the window before filling is the
/// start of the window after it.
proof fn lemma_fill_keeps_window<T>(window: Seq<T>, pool: Seq<T>, max_window: u32, draws: Seq<u32>)
    ensures
        ({
            let (w, p) = fill(window, pool, max_window, draws);
            &&& w.len() >= window.len()
            &&& forall|i: int| 0 <= i < window.len() ==> w[i] == window[i]
        }),
    decreases pool.len(),
{
    if window.len() <= max_window && pool.len() > 0 && draws.len() > 0 {
        let k = draws[0] as int % pool.len() as int;
        lemma_fill_keeps_window(window.push(pool[k]), pool.remove(k), max_window, draws.drop_first());
    }
}

/// Filling moves songs and neither adds nor drops one.
proof fn lemma_fill_conserves<T>(window: Seq<T>, pool: Seq<T>, max_window: u32, draws: Seq<u32>)
    ensures
        ({
            let (w, p) = fill(window, pool, max_window, draws);
            (w + p).to_multiset() =~= (window + pool).to_multiset()
        }),
    decreases pool.len(),
{
    if window.len() <= max_window && pool.len() > 0 && draws.len() > 0 {
        let k = draws[0] as int % pool.len() as int;
        let x = pool[k];
        lemma_fill_conserves(window.push(x), pool.remove(k), max_window, draws.drop_first());
        vstd::seq_lib::lemma_multiset_commutative(window.push(x), pool.remove(k));
        vstd::seq_lib::lemma_multiset_commutative(window, pool);
        assert(pool.to_multiset().count(x) > 0) by {
            assert(pool.contains(x));
        }
        assert((window.push(x) + pool.remove(k)).to_multiset() =~= (window + pool).to_multiset());
    }
}

/// With enough draws, a window that held at most `max_window` songs is
/// filled to `max_window + 1` songs, or with every song there is.
proof fn lemma_fill_full<T>(window: Seq<T>, pool: Seq<T>, max_window: u32, draws: Seq<u32>)
    ensures
        window.len() <= max_window && draws.len() >= needed_draws(
            window.len(),
            pool.len(),
            max_window,
        ) ==> fill(window, pool, max_window, draws).0.len() == vstd::math::min(
            max_window + 1,
            (window.len() + pool.len()) as int,
        ),
    decreases pool.len(),
{
    if window.len() <= max_window && pool.len() > 0 && draws.len() > 0 {
        let k = draws[0] as int % pool.len() as int;
        let w1 = window.push(pool[k]);
        let p1 = pool.remove(k);
        lemma_fill_full(w1, p1, max_window, draws.drop_first());
        assert(fill(window, pool, max_window, draws) == fill(w1, p1, max_window, draws.drop_first()));
        if w1.len() > max_window {
            assert(fill(w1, p1, max_window, draws.drop_first()) == (w1, p1));
        }
    }
}

/// A pick neither adds nor drops a song, and the song it hands out is one
/// of the chain's songs.
pub proof fn law_pick_conserves_songs<T>(window: Seq<T>, pool: Seq<T>, max_window: u32, draws: Seq<u32>)
    ensures
        ({
            let (w, p, picked) = pick(window, pool, max_window, draws);
            &&& (w + p).to_multiset() =~= (window + pool).to_multiset()
            &&& (w + p).len() == (window + pool).len()
            &&& picked matches Some(x) ==> (window + pool).contains(x)
        }),
{
    let (fw, fp) = fill(window, pool, max_window, draws);
    lemma_fill_conserves(window, pool, max_window, draws);
    lemma_fill_sizes(window, pool, max_window, draws);
    if fw.len() > 0 {
        let x = fw[0];
        vstd::seq_lib::lemma_multiset_commutative(fw.drop_first(), fp.push(x));
        vstd::seq_lib::lemma_multiset_commutative(fw, fp);
        assert(fw.drop_first() =~= fw.remove(0));
        assert((fw.drop_first() + fp.push(x)).to_multiset() =~= (fw + fp).to_multiset());
        assert((fw + fp)[0] == x);
        assert((fw + fp).to_multiset().count(x) > 0);
    }
}

/// With enough draws, a chain that holds a song hands one out, and the
/// window keeps `min(max_window, songs - 1)` songs after the pick.
pub proof fn law_pick_yields_when_not_empty<T>(
    window: Seq<T>,
    pool: Seq<T>,
    max_window: u32,
    draws: Seq<u32>,
)
    requires
        window.len() <= max_window,
        draws.len() >= needed_draws(window.len(), pool.len(), max_window),
        window.len() + pool.len() > 0,
    ensures
        ({
            let (w, p, picked) = pick(window, pool, max_window, draws);
            &&& picked is Some
            &&& w.len() == vstd::math::min(max_window as int, window.len() + pool.len() - 1)
        }),
{
    lemma_fill_full(window, pool, max_window, draws);
}

/// The picks hand out the songs of the window in order: the next `n` picks,
/// for `n` up to the window's size, return its first `n` songs, whatever the
/// draws.
pub proof fn law_picks_follow_window<T>(
    window: Seq<T>,
    pool: Seq<T>,
    max_window: u32,
    runs: Seq<Seq<u32>>,
)
    requires
        runs.len() <= window.len(),
    ensures
        picks(window, pool, max_window, runs).len() == runs.len(),
        forall|i: int|
            0 <= i < runs.len() ==> #[trigger] picks(window, pool, max_window, runs)[i] == Some(
                window[i],
            ),
    decreases runs.len(),
{
    if runs.len() > 0 {
        lemma_fill_keeps_window(window, pool, max_window, runs[0]);
        let (fw, fp) = fill(window, pool, max_window, runs[0]);
        let (w1, p1, r) = pick(window, pool, max_window, runs[0]);
        law_picks_follow_window(w1, p1, max_window, runs.drop_first());
        let rest = picks(w1, p1, max_window, runs.drop_first());
        assert(picks(window, pool, max_window, runs) == seq![r] + rest);
        assert forall|i: int| 0 <= i < runs.len() implies #[trigger] picks(
            window,
            pool,
            max_window,
            runs,
        )[i] == Some(window[i]) by {
            if i > 0 {
                assert(rest[i - 1] == Some(w1[i - 1]));
                assert(w1[i - 1] == fw[i]);
            }
        }
    }
}

/// A picked song does not come again soon: when the chain's songs are
/// distinct and the pick had enough draws, none of the next
/// `min(max_window, songs - 1)` picks hands out the song just picked,
/// whatever their draws.
pub proof fn law_no_repeat_within_window<T>(
    window: Seq<T>,
    pool: Seq<T>,
    max_window: u32,
    draws: Seq<u32>,
    runs: Seq<Seq<u32>>,
)
    requires
        (window + pool).no_duplicates(),
        window.len() <= max_window,
        draws.len() >= needed_draws(window.len(), pool.len(), max_window),
        runs.len() <= vstd::math::min(max_window as int, window.len() + pool.len() - 1),
    ensures
        ({
            let (w, p, picked) = pick(window, pool, max_window, draws);
            forall|i: int|
                0 <= i < runs.len() ==> #[trigger] picks(w, p, max_window, runs)[i] != picked
        }),
{
    let (fw, fp) = fill(window, pool, max_window, draws);
    let (w1, p1, picked) = pick(window, pool, max_window, draws);
    lemma_fill_full(window, pool, max_window, draws);
    lemma_fill_conserves(window, pool, max_window, draws);
    if runs.len() > 0 {
        (window + pool).lemma_multiset_has_no_duplicates();
        (fw + fp).lemma_multiset_has_no_duplicates_conv();
        law_picks_follow_window(w1, p1, max_window, runs);
        assert forall|i: int| 0 <= i < runs.len() implies #[trigger] picks(
            w1,
            p1,
            max_window,
            runs,
        )[i] != picked by {
            assert(picks(w1, p1, max_window, runs)[i] == Some(w1[i]));
            assert(w1[i] == (fw + fp)[i + 1]);
            assert(fw[0] == (fw + fp)[0]);
        }
    }
}

/// The entries of a chain part, each song with its own number: the song
/// at position `i` gets number `first + i`.
pub open spec fn label<T>(s: Seq<T>, first: int) -> Seq<(int, T)> {
    Seq::new(s.len(), |i: int| (first + i, s[i]))
}

/// The songs of numbered entries.
pub open spec fn unlabel<T>(s: Seq<(int, T)>) -> Seq<T> {
    Seq::new(s.len(), |i: int| s[i].1)
}

/// The song of a numbered entry, if there is one.
pub open spec fn entry_song<T>(e: Option<(int, T)>) -> Option<T> {
    match e {
        Some(x) => Some(x.1),
        None => None,
    }
}

/// Filling does not look at the songs: filling numbered entries and then
/// dropping the numbers fills the songs.
proof fn lemma_fill_unlabel<T>(window: Seq<(int, T)>, pool: Seq<(int, T)>, max_window: u32, draws: Seq<u32>)
    ensures
        ({
            let (w, p) = fill(window, pool, max_window, draws);
            fill(unlabel(window), unlabel(pool), max_window, draws) == (unlabel(w), unlabel(p))
        }),
    decreases pool.len(),
{
    if window.len() <= max_window && pool.len() > 0 && draws.len() > 0 {
        let k = draws[0] as int % pool.len() as int;
        lemma_fill_unlabel(window.push(pool[k]), pool.remove(k), max_window, draws.drop_first());
        assert(unlabel(window.push(pool[k])) =~= unlabel(window).push(unlabel(pool)[k]));
        assert(unlabel(pool.remove(k)) =~= unlabel(pool).remove(k));
    }
}

/// Picking does not look at the songs: picking numbered entries and then
/// dropping the numbers picks the songs.
proof fn lemma_pick_unlabel<T>(window: Seq<(int, T)>, pool: Seq<(int, T)>, max_window: u32, draws: Seq<u32>)
    ensures
        ({
            let (w, p, e) = pick(window, pool, max_window, draws);
            pick(unlabel(window), unlabel(pool), max_window, draws) == (unlabel(w), unlabel(p), entry_song(e))
        }),
{
    lemma_fill_unlabel(window, pool, max_window, draws);
    let (fw, fp) = fill(window, pool, max_window, draws);
    if fw.len() > 0 {
        assert(unlabel(fw.drop_first()) =~= unlabel(fw).drop_first());
        assert(unlabel(fp.push(fw[0])) =~= unlabel(fp).push(unlabel(fw)[0]));
    }
}

/// A run of picks on numbered entries, with the numbers dropped, is the run
/// of picks on the songs.
proof fn lemma_picks_unlabel<T>(window: Seq<(int, T)>, pool: Seq<(int, T)>, max_window: u32, runs: Seq<Seq<u32>>)
    ensures
        picks(unlabel(window), unlabel(pool), max_window, runs).len() == runs.len(),
        picks(window, pool, max_window, runs).len() == runs.len(),
        forall|i: int|
            0 <= i < runs.len() ==> #[trigger] picks(unlabel(window), unlabel(pool), max_window, runs)[i]
                == entry_song(picks(window, pool, max_window, runs)[i]),
    decreases runs.len(),
{
    if runs.len() > 0 {
        lemma_pick_unlabel(window, pool, max_window, runs[0]);
        let (w1, p1, e) = pick(window, pool, max_window, runs[0]);
        lemma_picks_unlabel(w1, p1, max_window, runs.drop_first());
        let lrest = picks(w1, p1, max_window, runs.drop_first());
        let rest = picks(unlabel(w1), unlabel(p1), max_window, runs.drop_first());
        assert(picks(window, pool, max_window, runs) == seq![e] + lrest);
        assert(picks(unlabel(window), unlabel(pool), max_window, runs) == seq![entry_song(e)] + rest);
        assert forall|i: int| 0 <= i < runs.len() implies #[trigger] picks(
            unlabel(window),
            unlabel(pool),
            max_window,
            runs,
        )[i] == entry_song(picks(window, pool, max_window, runs)[i]) by {
            if i > 0 {
                assert(rest[i - 1] == entry_song(lrest[i - 1]));
            }
        }
    }
}

/// The entry just picked does not come again soon, whatever the songs (equal
/// songs included): number the chain's entries; a pick of the songs is the
/// pick of the numbered entries with the numbers dropped, and none of the
/// next `min(max_window, songs - 1)` picks, whatever their draws, hands out
/// the entry just picked, provided the pick had enough draws.
pub proof fn law_no_entry_repeats_within_window<T>(
    window: Seq<T>,
    pool: Seq<T>,
    max_window: u32,
    draws: Seq<u32>,
    runs: Seq<Seq<u32>>,
)
    requires
        window.len() <= max_window,
        draws.len() >= needed_draws(window.len(), pool.len(), max_window),
        runs.len() <= vstd::math::min(max_window as int, window.len() + pool.len() - 1),
    ensures
        ({
            let lw = label(window, 0);
            let lp = label(pool, window.len() as int);
            let (lw1, lp1, entry) = pick(lw, lp, max_window, draws);
            let (w1, p1, picked) = pick(window, pool, max_window, draws);
            &&& picked == entry_song(entry)
            &&& w1 == unlabel(lw1)
            &&& p1 == unlabel(lp1)
            &&& forall|i: int|
                0 <= i < runs.len() ==> #[trigger] picks(w1, p1, max_window, runs)[i] == entry_song(
                    picks(lw1, lp1, max_window, runs)[i],
                )
            &&& forall|i: int|
                0 <= i < runs.len() ==> #[trigger] picks(lw1, lp1, max_window, runs)[i] != entry
        }),
{
    let lw = label(window, 0);
    let lp = label(pool, window.len() as int);
    assert(unlabel(lw) =~= window);
    assert(unlabel(lp) =~= pool);
    assert((lw + lp).no_duplicates()) by {
        assert forall|i: int, j: int| 0 <= i < (lw + lp).len() && 0 <= j < (lw + lp).len() && i != j
            implies (lw + lp)[i] != (lw + lp)[j] by {
            assert((lw + lp)[i].0 == i);
            assert((lw + lp)[j].0 == j);
        }
    }
    lemma_pick_unlabel(lw, lp, max_window, draws);
    let (lw1, lp1, entry) = pick(lw, lp, max_window, draws);
    lemma_picks_unlabel(lw1, lp1, max_window, runs);
    law_no_repeat_within_window(lw, lp, max_window, draws, runs);
}

/// Each draw chooses the pool's song at the draw modulo the pool's length:
/// when the window has room and the pool holds songs, the first draw moves
/// that song to the end of the window, and the next pick still hands out the
/// window's first song.
pub proof fn law_draw_chooses_pool_song<T>(window: Seq<T>, pool: Seq<T>, max_window: u32, draws: Seq<u32>)
    requires
        window.len() <= max_window,
        pool.len() > 0,
        draws.len() > 0,
    ensures
        ({
            let (w, p) = fill(window, pool, max_window, draws);
            &&& w.len() > window.len()
            &&& w[window.len() as int] == pool[draws[0] as int % pool.len() as int]
        }),
{
    let k = draws[0] as int % pool.len() as int;
    lemma_fill_keeps_window(window.push(pool[k]), pool.remove(k), max_window, draws.drop_first());
}

/// Filling keeps the order of the songs left in the pool: what remains is
/// the pool with the moved songs taken out, each other song still after the
/// ones before it.
pub proof fn law_fill_keeps_pool_order<T>(window: Seq<T>, pool: Seq<T>, max_window: u32, draws: Seq<u32>)
    ensures
        ({
            let (w, p) = fill(window, pool, max_window, draws);
            exists|idx: Seq<int>|
                {
                    &&& #[trigger] idx.len() == p.len()
                    &&& forall|i: int| 0 <= i < idx.len() ==> 0 <= #[trigger] idx[i] < pool.len() && p[i] == pool[idx[i]]
                    &&& forall|i: int, j: int| 0 <= i < j < idx.len() ==> #[trigger] idx[i] < #[trigger] idx[j]
                }
        }),
    decreases pool.len(),
{
    let (w, p) = fill(window, pool, max_window, draws);
    if window.len() <= max_window && pool.len() > 0 && draws.len() > 0 {
        let k = draws[0] as int % pool.len() as int;
        law_fill_keeps_pool_order(window.push(pool[k]), pool.remove(k), max_window, draws.drop_first());
        let pr = pool.remove(k);
        let idx0 = choose|idx: Seq<int>|
            {
                &&& #[trigger] idx.len() == p.len()
                &&& forall|i: int| 0 <= i < idx.len() ==> 0 <= #[trigger] idx[i] < pr.len() && p[i] == pr[idx[i]]
                &&& forall|i: int, j: int| 0 <= i < j < idx.len() ==> #[trigger] idx[i] < #[trigger] idx[j]
            };
        let idx = Seq::new(idx0.len(), |i: int| if idx0[i] < k { idx0[i] } else { idx0[i] + 1 });
        assert forall|i: int| 0 <= i < idx.len() implies 0 <= #[trigger] idx[i] < pool.len() && p[i] == pool[idx[i]] by {
            assert(p[i] == pr[idx0[i]]);
        }
        assert forall|i: int, j: int| 0 <= i < j < idx.len() implies #[trigger] idx[i] < #[trigger] idx[j] by {
            assert(idx0[i] < idx0[j]);
        }
        assert(idx.len() == p.len());
    } else {
        let idx = Seq::new(pool.len(), |i: int| i);
        assert(idx.len() == p.len());
        assert forall|i: int, j: int| 0 <= i < j < idx.len() implies #[trigger] idx[i] < #[trigger] idx[j] by {}
    }
}

} // verus!
