//! The client's decisions: which songs join the shuffle, when to queue and
//! start songs, how to answer idle events and password replies, and how to
//! read the daemon's host setting.
use vstd::prelude::*;
use crate::args::{ashuffle_options, ARGS_QUEUE_BUFFER_NONE};
use crate::cstr::{parse_long, strtol_spec};
use crate::list::{list, list_at};
use crate::mpd::{
    mpd_error,
    mpd_host,
    mpd_idle,
    mpd_server_error,
    mpd_song,
    mpd_status,
    MPD_ERROR_SERVER,
    MPD_ERROR_SUCCESS,
    MPD_IDLE_DATABASE,
    MPD_IDLE_PLAYER,
    MPD_IDLE_QUEUE,
    MPD_SERVER_ERROR_PASSWORD,
    MPD_SERVER_ERROR_PERMISSION,
    MPD_STATE_PLAY,
};
use crate::rule::{rule_match, song_rule, song_rule_passes};
use crate::shuffle::{shuffle_add, shuffle_chain};

verus! {

/// A song passes a rule set when it passes every rule of it.
pub open spec fn ruleset_accepts(rules: Seq<song_rule>, song: mpd_song) -> bool {
    forall|i: int| 0 <= i < rules.len() ==> #[trigger] song_rule_passes(rules[i], song)
}

/// Whether `song` passes every rule of `ruleset`.
pub fn ruleset_accepts_song(ruleset: &list<song_rule>, song: &mpd_song) -> (r: bool)
    ensures
        r == ruleset_accepts(ruleset@, *song),
{
    let n = ruleset.length();
    let mut i: u32 = 0;
    while i < n
        invariant
            n == ruleset@.len(),
            i <= n,
            forall|k: int| 0 <= k < i ==> #[trigger] song_rule_passes(ruleset@[k], *song),
        decreases n - i,
    {
        let rule = list_at(ruleset, i).unwrap();
        if !rule_match(rule, song) {
            return false;
        }
        i = i + 1;
    }
    true
}

/// Whether the song that a search for a URI found passes the rule set;
/// `found` is `None` when the daemon knows no song with that URI, and such
/// a URI is not accepted.
pub fn ruleset_accepts_uri(ruleset: &list<song_rule>, found: &Option<mpd_song>) -> (r: bool)
    ensures
        r == (*found matches Some(song) && ruleset_accepts(ruleset@, song)),
{
    match found {
        None => false,
        Some(song) => ruleset_accepts_song(ruleset, song),
    }
}

/// The byte contents of each URI of a list.
pub open spec fn uri_views(uris: Seq<Vec<u8>>) -> Seq<Seq<u8>> {
    uris.map_values(|u: Vec<u8>| u@)
}

/// The URIs of the songs that pass the rule set, in order.
pub open spec fn accepted_uris(rules: Seq<song_rule>, songs: Seq<mpd_song>) -> Seq<Seq<u8>>
    decreases songs.len(),
{
    if songs.len() == 0 {
        Seq::empty()
    } else {
        let rest = accepted_uris(rules, songs.drop_last());
        if ruleset_accepts(rules, songs.last()) {
            rest.push(songs.last().uri@)
        } else {
            rest
        }
    }
}

/// Adds to the pool of `chain` the URI of every song of the library listing
/// `songs` that passes the rule set, in order.
pub fn build_songs_mpd(ruleset: &list<song_rule>, songs: &Vec<mpd_song>, chain: &mut shuffle_chain)
    requires
        old(chain).songs().len() + songs@.len() <= u32::MAX,
    ensures
        final(chain).window_songs() == old(chain).window_songs(),
        final(chain).window_limit() == old(chain).window_limit(),
        uri_views(final(chain).pool_songs()) == uri_views(old(chain).pool_songs()) + accepted_uris(
            ruleset@,
            songs@,
        ),
        final(chain).pool_songs().len() <= old(chain).pool_songs().len() + songs@.len(),
{
    let mut i: usize = 0;
    let ghost base = chain.pool_songs();
    while i < songs.len()
        invariant
            i <= songs@.len(),
            chain.window_songs() == old(chain).window_songs(),
            chain.window_limit() == old(chain).window_limit(),
            base == old(chain).pool_songs(),
            uri_views(chain.pool_songs()) == uri_views(base) + accepted_uris(
                ruleset@,
                songs@.subrange(0, i as int),
            ),
            chain.pool_songs().len() <= base.len() + i,
            old(chain).songs().len() + songs@.len() <= u32::MAX,
        decreases songs@.len() - i,
    {
        let ghost before = chain.pool_songs();
        assert(songs@.subrange(0, i + 1).drop_last() =~= songs@.subrange(0, i as int));
        let song = &songs[i];
        if ruleset_accepts_song(ruleset, song) {
            let uri = song.uri.clone();
            assert(uri@ =~= song.uri@);
            shuffle_add(chain, uri);
            assert(uri_views(chain.pool_songs()) =~= uri_views(before).push(uri@));
        }
        i = i + 1;
    }
    assert(songs@.subrange(0, songs@.len() as int) =~= songs@);
}

/// A line read from the input file ends with its newline.
pub open spec fn ends_line(record: Seq<u8>) -> bool {
    record.len() > 0 && record.last() == 10
}

/// The URI a line holds: the line without its newline; a last line that
/// the end of the file cut off has none and is the URI whole.
pub open spec fn record_uri(record: Seq<u8>) -> Seq<u8> {
    if ends_line(record) {
        record.drop_last()
    } else {
        record
    }
}

/// The URIs that the input file contributes: the URI of each record, up to
/// the first empty record (not a URI), kept when URIs are not checked or
/// when the song found for it passes the rule set. `found[i]` is what the
/// search for the URI of record `i` found.
pub open spec fn file_uris(
    rules: Seq<song_rule>,
    records: Seq<Vec<u8>>,
    found: Seq<Option<mpd_song>>,
    check: bool,
) -> Seq<Seq<u8>>
    decreases records.len(),
{
    if records.len() == 0 || records[0]@.len() == 0 {
        Seq::empty()
    } else {
        let uri = record_uri(records[0]@);
        let keep = !check || (found[0] matches Some(song) && ruleset_accepts(rules, song));
        let rest = file_uris(rules, records.drop_first(), found.drop_first(), check);
        if keep {
            seq![uri] + rest
        } else {
            rest
        }
    }
}

/// The first `n` bytes of `record`.
fn copy_prefix(record: &Vec<u8>, n: usize) -> (r: Vec<u8>)
    requires
        n <= record@.len(),
    ensures
        r@ == record@.subrange(0, n as int),
{
    let mut r: Vec<u8> = Vec::new();
    let mut i: usize = 0;
    while i < n
        invariant
            n <= record@.len(),
            i <= n,
            r@ == record@.subrange(0, i as int),
        decreases n - i,
    {
        r.push(record[i]);
        i = i + 1;
        assert(r@ =~= record@.subrange(0, i as int));
    }
    r
}

/// The URI that an input record holds, its newline cut off; `None` for an
/// empty record, which is no URI.
pub fn uri_from_record(record: &Vec<u8>) -> (r: Option<Vec<u8>>)
    ensures
        record@.len() == 0 ==> r is None,
        record@.len() > 0 ==> (r matches Some(u) && u@ == record_uri(record@)),
{
    let n = record.len();
    if n == 0 {
        None
    } else if record[n - 1] == 10 {
        let u = copy_prefix(record, n - 1);
        assert(u@ =~= record@.drop_last());
        Some(u)
    } else {
        let u = copy_prefix(record, n);
        assert(u@ =~= record@);
        Some(u)
    }
}

/// Adds to the pool of `chain` the URIs of the input file, as `file_uris`
/// says. `records` are the file's lines as read, each with its newline but
/// a last one that the end of the file cut off; `found` holds, for each
/// record, what the search for its URI found (it is only looked at when
/// `check` is set). Returns -1 when a record is empty (no URI; reading
/// stops there), otherwise 0.
pub fn build_songs_file(
    ruleset: &list<song_rule>,
    records: &Vec<Vec<u8>>,
    found: &Vec<Option<mpd_song>>,
    check: bool,
    chain: &mut shuffle_chain,
) -> (r: i32)
    requires
        found@.len() == records@.len(),
        old(chain).songs().len() + records@.len() <= u32::MAX,
    ensures
        final(chain).window_songs() == old(chain).window_songs(),
        final(chain).window_limit() == old(chain).window_limit(),
        uri_views(final(chain).pool_songs()) == uri_views(old(chain).pool_songs()) + file_uris(
            ruleset@,
            records@,
            found@,
            check,
        ),
        r == -1 <==> exists|k: int| 0 <= k < records@.len() && records@[k]@.len() == 0,
        r == 0 || r == -1,
{
    let mut i: usize = 0;
    let ghost base = chain.pool_songs();
    assert(records@.skip(0) =~= records@);
    assert(found@.skip(0) =~= found@);
    while i < records.len()
        invariant
            i <= records@.len(),
            found@.len() == records@.len(),
            chain.window_songs() == old(chain).window_songs(),
            chain.window_limit() == old(chain).window_limit(),
            base == old(chain).pool_songs(),
            uri_views(chain.pool_songs()) + file_uris(
                ruleset@,
                records@.skip(i as int),
                found@.skip(i as int),
                check,
            ) == uri_views(base) + file_uris(ruleset@, records@, found@, check),
            chain.pool_songs().len() <= base.len() + i,
            old(chain).songs().len() + records@.len() <= u32::MAX,
            forall|k: int| 0 <= k < i ==> records@[k]@.len() > 0,
        decreases records@.len() - i,
    {
        let ghost before = chain.pool_songs();
        let ghost rs = records@.skip(i as int);
        let ghost fs = found@.skip(i as int);
        assert(rs[0] == records@[i as int]);
        assert(rs.drop_first() =~= records@.skip(i + 1));
        assert(fs.drop_first() =~= found@.skip(i + 1));
        match uri_from_record(&records[i]) {
            None => {
                assert(file_uris(ruleset@, rs, fs, check) =~= Seq::<Seq<u8>>::empty());
                assert(uri_views(chain.pool_songs()) + Seq::<Seq<u8>>::empty() =~= uri_views(
                    chain.pool_songs(),
                ));
                assert(records@[i as int]@.len() == 0);
                return -1;
            },
            Some(uri) => {
                assert(fs[0] == found@[i as int]);
                let keep = !check || ruleset_accepts_uri(ruleset, &found[i]);
                if keep {
                    shuffle_add(chain, uri);
                    assert(uri_views(chain.pool_songs()) =~= uri_views(before).push(uri@));
                    assert(seq![uri@] + file_uris(ruleset@, rs.drop_first(), fs.drop_first(), check)
                        =~= file_uris(ruleset@, rs, fs, check));
                    assert(uri_views(before) + file_uris(ruleset@, rs, fs, check) =~= uri_views(
                        chain.pool_songs(),
                    ) + file_uris(ruleset@, rs.drop_first(), fs.drop_first(), check));
                }
            },
        }
        i = i + 1;
    }
    assert(records@.skip(i as int) =~= Seq::<Vec<u8>>::empty());
    0
}

/// Whether the first pick should queue a song and start playing it: when
/// the player is not playing.
pub fn try_first(status: &mpd_status) -> (r: bool)
    ensures
        r == (status.state != MPD_STATE_PLAY),
{
    status.state != MPD_STATE_PLAY
}

/// What to do with the queue after a status was read.
#[allow(non_camel_case_types)]
#[derive(Debug)]
pub struct enqueue_plan {
    /// How many random songs to add to the queue.
    pub add: u32,
    /// Whether to start playing the first added song, which sits at the
    /// status's queue length.
    pub play: bool,
    /// Whether to pause right after starting (single mode is on).
    pub pause: bool,
}

/// The number of songs queued after the current one:
/// queue length - (position + 1), modulo 2^32.
pub open spec fn songs_remaining(status: mpd_status) -> u32 {
    if status.song_pos == -1 {
        0
    } else {
        ((status.queue_length - (status.song_pos + 1)) % 0x1_0000_0000) as u32
    }
}

/// Whether songs are to be added: always when playback went past the last
/// song or the queue is empty, and, with a queue buffer, while fewer songs
/// than the buffer wait after the current one.
pub open spec fn should_add(status: mpd_status, queue_buffer: u32) -> bool {
    ||| status.song_pos == -1
    ||| (queue_buffer != ARGS_QUEUE_BUFFER_NONE && songs_remaining(status) < queue_buffer)
    ||| status.queue_length == 0
}

/// How many songs a plan adds: with a queue buffer, enough to bring the
/// songs after the current one up to the buffer's length, otherwise one;
/// none when `should_add` does not hold.
pub open spec fn planned_add(status: mpd_status, queue_buffer: u32) -> u32 {
    let rem = songs_remaining(status);
    if !should_add(status, queue_buffer) {
        0
    } else if queue_buffer == ARGS_QUEUE_BUFFER_NONE {
        1
    } else if rem < queue_buffer {
        (queue_buffer - rem) as u32
    } else {
        0
    }
}

/// Decides how to keep the queue going: add `planned_add` songs; when songs
/// are added after playback stopped past the last song or on an empty
/// queue, play the first added song, and pause at once in single mode.
pub fn try_enqueue(status: &mpd_status, options: &ashuffle_options) -> (r: enqueue_plan)
    ensures
        r.add == planned_add(*status, options.queue_buffer),
        r.play == (should_add(*status, options.queue_buffer) && (status.song_pos == -1
            || status.queue_length == 0)),
        r.pause == (r.play && status.single),
        r.play == (status.song_pos == -1 || status.queue_length == 0),
{
    let past_last = status.song_pos == -1;
    let queue_empty = status.queue_length == 0;
    let mut remaining: u32 = 0;
    if !past_last {
        let next: i64 = status.song_pos as i64 + 1;
        let diff: i64 = status.queue_length as i64 - next;
        let wrapped: i64 = if diff < 0 {
            diff + 0x1_0000_0000
        } else if diff >= 0x1_0000_0000 {
            diff - 0x1_0000_0000
        } else {
            diff
        };
        remaining = wrapped as u32;
    }
    let qb = options.queue_buffer;
    let add = past_last || (qb != ARGS_QUEUE_BUFFER_NONE && remaining < qb) || queue_empty;
    let mut count: u32 = 0;
    if add {
        if qb != ARGS_QUEUE_BUFFER_NONE {
            if remaining < qb {
                count = qb - remaining;
            }
        } else {
            count = 1;
        }
    }
    let play = add && (past_last || queue_empty);
    enqueue_plan { add: count, play: play, pause: play && status.single }
}

/// The idle events the shuffle waits for.
pub const SHUFFLE_IDLE_MASK: mpd_idle = MPD_IDLE_DATABASE | MPD_IDLE_QUEUE | MPD_IDLE_PLAYER;

/// How to answer an idle event.
#[allow(non_camel_case_types)]
#[derive(Debug)]
pub enum idle_action {
    /// The library changed: build the song pool anew.
    Rebuild,
    /// The queue or the player changed: keep the queue going.
    Enqueue,
    /// Nothing of interest: wait for the next event.
    Wait,
}

/// Answers the idle events `event`: a library change comes first, then a
/// change of queue or player.
pub fn shuffle_idle(event: mpd_idle) -> (r: idle_action)
    ensures
        event & MPD_IDLE_DATABASE != 0 ==> r is Rebuild,
        event & MPD_IDLE_DATABASE == 0 && (event & MPD_IDLE_QUEUE != 0 || event & MPD_IDLE_PLAYER
            != 0) ==> r is Enqueue,
        event & MPD_IDLE_DATABASE == 0 && event & MPD_IDLE_QUEUE == 0 && event & MPD_IDLE_PLAYER
            == 0 ==> r is Wait,
{
    if event & MPD_IDLE_DATABASE != 0 {
        idle_action::Rebuild
    } else if event & MPD_IDLE_QUEUE != 0 || event & MPD_IDLE_PLAYER != 0 {
        idle_action::Enqueue
    } else {
        idle_action::Wait
    }
}

/// What to do after a request that may need a password.
#[allow(non_camel_case_types)]
#[derive(Debug)]
pub enum password_action {
    /// No password is needed, or it was accepted.
    Done,
    /// Send the password that came with the host setting.
    SendPassword,
    /// Ask the user for a password and send it.
    AskPassword,
    /// The password was wrong: say so and ask again.
    Retry,
    /// Any other error: report it and stop.
    Fatal,
}

/// After a status request: done when it worked; when the server denied
/// permission, send the given password or ask for one; otherwise fatal.
pub fn check_mpd_password(err: mpd_error, server_err: mpd_server_error, has_password: bool) -> (r:
    password_action)
    ensures
        err == MPD_ERROR_SUCCESS ==> r is Done,
        err == MPD_ERROR_SERVER && server_err == MPD_SERVER_ERROR_PERMISSION ==> (if has_password {
            r is SendPassword
        } else {
            r is AskPassword
        }),
        err != MPD_ERROR_SUCCESS && !(err == MPD_ERROR_SERVER && server_err
            == MPD_SERVER_ERROR_PERMISSION) ==> r is Fatal,
{
    if err == MPD_ERROR_SUCCESS {
        password_action::Done
    } else if err == MPD_ERROR_SERVER && server_err == MPD_SERVER_ERROR_PERMISSION {
        if has_password {
            password_action::SendPassword
        } else {
            password_action::AskPassword
        }
    } else {
        password_action::Fatal
    }
}

/// After an asked-for password was sent: done when it was accepted, ask
/// again when the server calls it wrong, otherwise fatal.
pub fn get_mpd_password(err: mpd_error, server_err: mpd_server_error) -> (r: password_action)
    ensures
        err == MPD_ERROR_SUCCESS ==> r is Done,
        err == MPD_ERROR_SERVER && server_err == MPD_SERVER_ERROR_PASSWORD ==> r is Retry,
        err != MPD_ERROR_SUCCESS && !(err == MPD_ERROR_SERVER && server_err
            == MPD_SERVER_ERROR_PASSWORD) ==> r is Fatal,
{
    if err == MPD_ERROR_SUCCESS {
        password_action::Done
    } else if err == MPD_ERROR_SERVER && server_err == MPD_SERVER_ERROR_PASSWORD {
        password_action::Retry
    } else {
        password_action::Fatal
    }
}

/// The port a setting names, read as `atoi` reads it: the C reading of a
/// signed long, cut to 32 bits.
pub open spec fn port_value(s: Seq<u8>) -> u32 {
    (strtol_spec(s) as int % 0x1_0000_0000) as u32
}

/// The port to reach the daemon on: the port setting when there is one,
/// otherwise 6600.
pub fn parse_mpd_port(setting: Option<&[u8]>) -> (r: u32)
    ensures
        setting is None ==> r == 6600,
        setting matches Some(s) ==> r == port_value(s@),
{
    match setting {
        None => 6600,
        Some(s) => {
            let v = parse_long(s);
            let shifted: u64 = (v as i128 + 0x8000_0000_0000_0000i128) as u64;
            proof {
                vstd::arithmetic::div_mod::lemma_mod_multiples_vanish(
                    0x8000_0000,
                    v as int,
                    0x1_0000_0000,
                );
                assert(0x8000_0000 * 0x1_0000_0000 == 0x8000_0000_0000_0000) by (nonlinear_arith);
            }
            (shifted % 0x1_0000_0000) as u32
        },
    }
}

/// Splits a host setting of the form `password@host` at its last `@`; a
/// setting without `@` is a host alone.
pub fn parse_mpd_host(mpd_host_raw: &[u8]) -> (r: mpd_host)
    ensures
        (forall|i: int| 0 <= i < mpd_host_raw@.len() ==> mpd_host_raw@[i] != 64) ==> {
            &&& r.host@ == mpd_host_raw@
            &&& r.password is None
        },
        (exists|i: int| 0 <= i < mpd_host_raw@.len() && mpd_host_raw@[i] == 64) ==> exists|k: int|
            {
                &&& 0 <= k < mpd_host_raw@.len()
                &&& mpd_host_raw@[k] == 64
                &&& (forall|j: int| k < j < mpd_host_raw@.len() ==> mpd_host_raw@[j] != 64)
                &&& r.host@ == mpd_host_raw@.subrange(k + 1, mpd_host_raw@.len() as int)
                &&& r.password matches Some(pw) && pw@ == mpd_host_raw@.subrange(0, k)
            },
{
    let n = mpd_host_raw.len();
    let mut i: usize = n;
    while i > 0
        invariant
            i <= n,
            n == mpd_host_raw@.len(),
            forall|j: int| i <= j < n ==> mpd_host_raw@[j] != 64,
        decreases i,
    {
        if mpd_host_raw[i - 1] == 64 {
            let k = i - 1;
            let host = copy_range(mpd_host_raw, k + 1, n);
            let password = copy_range(mpd_host_raw, 0, k);
            let r = mpd_host { host: host, password: Some(password) };
            assert({
                &&& 0 <= k < mpd_host_raw@.len()
                &&& mpd_host_raw@[k as int] == 64
                &&& (forall|j: int| k < j < mpd_host_raw@.len() ==> mpd_host_raw@[j] != 64)
                &&& r.host@ == mpd_host_raw@.subrange(k + 1, mpd_host_raw@.len() as int)
                &&& r.password matches Some(pw) && pw@ == mpd_host_raw@.subrange(0, k as int)
            });
            return r;
        }
        i = i - 1;
    }
    mpd_host { host: copy_range(mpd_host_raw, 0, n), password: None }
}

/// A copy of the bytes of `s` from `start` up to `end`.
fn copy_range(s: &[u8], start: usize, end: usize) -> (r: Vec<u8>)
    requires
        start <= end <= s@.len(),
    ensures
        r@ == s@.subrange(start as int, end as int),
{
    let mut r: Vec<u8> = Vec::new();
    let mut i: usize = start;
    while i < end
        invariant
            start <= i <= end,
            end <= s@.len(),
            r@ == s@.subrange(start as int, i as int),
        decreases end - i,
    {
        r.push(s[i]);
        i = i + 1;
        assert(r@ =~= s@.subrange(start as int, i as int));
    }
    r
}

/// A rule set without rules turns no song away.
pub proof fn law_empty_ruleset_accepts_all(song: mpd_song)
    ensures
        ruleset_accepts(Seq::<song_rule>::empty(), song),
{
}

/// Adding a rule never lets more songs in: a song that passes the larger
/// rule set passes the smaller one.
pub proof fn law_more_rules_accept_fewer(rules: Seq<song_rule>, rule: song_rule, song: mpd_song)
    ensures
        ruleset_accepts(rules.push(rule), song) ==> ruleset_accepts(rules, song),
{
    if ruleset_accepts(rules.push(rule), song) {
        assert forall|i: int| 0 <= i < rules.len() implies #[trigger] song_rule_passes(
            rules[i],
            song,
        ) by {
            assert(rules.push(rule)[i] == rules[i]);
        }
    }
}

/// With a queue buffer, a plan that adds songs brings the songs after the
/// current one up to at least the buffer's length.
pub proof fn law_enqueue_fills_buffer(status: mpd_status, queue_buffer: u32)
    requires
        queue_buffer != ARGS_QUEUE_BUFFER_NONE,
        should_add(status, queue_buffer),
    ensures
        songs_remaining(status) + planned_add(status, queue_buffer) >= queue_buffer,
{
}

/// A plan adds songs only when `should_add` holds, and then at least one
/// song unless the buffer is already full.
pub proof fn law_enqueue_adds_only_when_needed(status: mpd_status, queue_buffer: u32)
    ensures
        !should_add(status, queue_buffer) ==> planned_add(status, queue_buffer) == 0,
        should_add(status, queue_buffer) && (queue_buffer == ARGS_QUEUE_BUFFER_NONE
            || songs_remaining(status) < queue_buffer) ==> planned_add(status, queue_buffer) >= 1,
{
}

/// Without a queue buffer, one song is added exactly when playback went
/// past the last song (no current song) or the queue is empty; while a song
/// of a non-empty queue plays, nothing is added.
pub proof fn law_enqueue_without_buffer(status: mpd_status)
    ensures
        should_add(status, ARGS_QUEUE_BUFFER_NONE) == (status.song_pos == -1 || status.queue_length
            == 0),
        planned_add(status, ARGS_QUEUE_BUFFER_NONE) == (if status.song_pos == -1
            || status.queue_length == 0 {
            1u32
        } else {
            0u32
        }),
{
}

/// With a queue buffer of `queue_buffer` songs: past the last song the
/// whole buffer is queued; while the song at `song_pos` of a queue of
/// `queue_length` songs plays, with `queue_length - song_pos - 1` songs
/// after it, the songs after it are brought up to the buffer's length, and
/// nothing is added when there are enough.
pub proof fn law_enqueue_with_buffer(status: mpd_status, queue_buffer: u32)
    requires
        queue_buffer != ARGS_QUEUE_BUFFER_NONE,
    ensures
        status.song_pos == -1 ==> planned_add(status, queue_buffer) == queue_buffer,
        0 <= status.song_pos < status.queue_length ==> {
            let after = status.queue_length - status.song_pos - 1;
            planned_add(status, queue_buffer) == (if after < queue_buffer {
                queue_buffer - after
            } else {
                0
            })
        },
{
}

/// With URIs checked, every URI taken from the input file is the URI of a
/// record for which the search found a song that passes the rule set
/// (whatever the rule set, the empty one too): a URI the daemon does not
/// know is never taken.
pub proof fn law_checked_file_uris_are_known_and_accepted(
    rules: Seq<song_rule>,
    records: Seq<Vec<u8>>,
    found: Seq<Option<mpd_song>>,
)
    requires
        found.len() == records.len(),
    ensures
        forall|j: int|
            0 <= j < file_uris(rules, records, found, true).len() ==> exists|i: int|
                0 <= i < records.len() && (#[trigger] found[i] matches Some(song) && ruleset_accepts(
                    rules,
                    song,
                )) && #[trigger] file_uris(rules, records, found, true)[j] == record_uri(records[i]@),
    decreases records.len(),
{
    if records.len() > 0 && records[0]@.len() > 0 {
        let rs = records.drop_first();
        let fs = found.drop_first();
        law_checked_file_uris_are_known_and_accepted(rules, rs, fs);
        let rest = file_uris(rules, rs, fs, true);
        let all = file_uris(rules, records, found, true);
        let keep = found[0] matches Some(song) && ruleset_accepts(rules, song);
        if keep {
            assert(all == seq![record_uri(records[0]@)] + rest);
        } else {
            assert(all == rest);
        }
        assert forall|j: int| 0 <= j < all.len() implies exists|i: int|
            0 <= i < records.len() && (#[trigger] found[i] matches Some(song) && ruleset_accepts(
                rules,
                song,
            )) && #[trigger] all[j] == record_uri(records[i]@) by {
            let jr = if keep { j - 1 } else { j };
            if keep && j == 0 {
                assert(all[0] == record_uri(records[0]@));
            } else {
                assert(all[j] == rest[jr]);
                let i = choose|i: int|
                    0 <= i < rs.len() && (#[trigger] fs[i] matches Some(song) && ruleset_accepts(
                        rules,
                        song,
                    )) && #[trigger] rest[jr] == record_uri(rs[i]@);
                assert(fs[i] == found[i + 1]);
                assert(rs[i] == records[i + 1]);
            }
        }
    }
}

/// With URIs not checked and no empty record, the input file gives the URI
/// of every record, in order.
pub proof fn law_unchecked_file_uris_take_every_line(
    rules: Seq<song_rule>,
    records: Seq<Vec<u8>>,
    found: Seq<Option<mpd_song>>,
)
    requires
        forall|i: int| 0 <= i < records.len() ==> (#[trigger] records[i])@.len() > 0,
    ensures
        file_uris(rules, records, found, false) == Seq::new(
            records.len(),
            |i: int| record_uri(records[i]@),
        ),
    decreases records.len(),
{
    if records.len() > 0 {
        let rs = records.drop_first();
        assert(records[0]@.len() > 0);
        assert forall|i: int| 0 <= i < rs.len() implies (#[trigger] rs[i])@.len() > 0 by {
            assert(rs[i] == records[i + 1]);
        }
        law_unchecked_file_uris_take_every_line(rules, rs, found.drop_first());
        assert(file_uris(rules, records, found, false) =~= Seq::new(
            records.len(),
            |i: int| record_uri(records[i]@),
        ));
    } else {
        assert(file_uris(rules, records, found, false) =~= Seq::new(
            records.len(),
            |i: int| record_uri(records[i]@),
        ));
    }
}

/// The library listing gives the URIs of exactly the songs that pass the
/// rule set, in their order: filter the songs by the rules, then take each
/// one's URI.
pub proof fn law_library_uris_are_accepted(rules: Seq<song_rule>, songs: Seq<mpd_song>)
    ensures
        accepted_uris(rules, songs) == songs.filter(|s: mpd_song| ruleset_accepts(rules, s)).map_values(
            |s: mpd_song| s.uri@,
        ),
    decreases songs.len(),
{
    reveal(Seq::filter);
    let pred = |s: mpd_song| ruleset_accepts(rules, s);
    if songs.len() > 0 {
        law_library_uris_are_accepted(rules, songs.drop_last());
        let sub = songs.drop_last().filter(pred);
        if pred(songs.last()) {
            assert(sub.push(songs.last()).map_values(|s: mpd_song| s.uri@) =~= sub.map_values(
                |s: mpd_song| s.uri@,
            ).push(songs.last().uri@));
        }
    }
    assert(accepted_uris(rules, songs) =~= songs.filter(pred).map_values(|s: mpd_song| s.uri@));
}

/// Without rules, the library listing gives the URI of every song, in
/// order.
pub proof fn law_library_without_rules_takes_all(songs: Seq<mpd_song>)
    ensures
        accepted_uris(Seq::<song_rule>::empty(), songs) == Seq::new(
            songs.len(),
            |i: int| songs[i].uri@,
        ),
    decreases songs.len(),
{
    if songs.len() > 0 {
        law_library_without_rules_takes_all(songs.drop_last());
        law_empty_ruleset_accepts_all(songs.last());
    }
    assert(accepted_uris(Seq::<song_rule>::empty(), songs) =~= Seq::new(
        songs.len(),
        |i: int| songs[i].uri@,
    ));
}

} // verus!
