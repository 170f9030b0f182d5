use ashuffle::args::ashuffle_init;
use ashuffle::ashuffle::{
    build_songs_file, build_songs_mpd, check_mpd_password, get_mpd_password, parse_mpd_host, parse_mpd_port,
    password_action, shuffle_idle, idle_action, try_enqueue, try_first, uri_from_record,
    SHUFFLE_IDLE_MASK,
};
use ashuffle::list::{list_init, list_push, node_from};
use ashuffle::mpd::{
    mpd_host, mpd_song, mpd_status, MPD_ERROR_CLOSED, MPD_ERROR_SERVER, MPD_ERROR_SUCCESS,
    MPD_IDLE_DATABASE, MPD_IDLE_MIXER, MPD_IDLE_PLAYER, MPD_IDLE_QUEUE, MPD_SERVER_ERROR_PASSWORD,
    MPD_SERVER_ERROR_PERMISSION, MPD_STATE_PAUSE, MPD_STATE_PLAY, MPD_STATE_STOP, MPD_TAG_ARTIST,
    MPD_TAG_COUNT,
};
use ashuffle::rule::{rule_add_criteria, rule_init, song_rule, RULE_EXCLUDE};
use ashuffle::shuffle::{shuffle_init, shuffle_length, shuffle_pick};

fn song(uri: &str, artist: &str) -> mpd_song {
    let mut t: Vec<Option<Vec<u8>>> = vec![None; MPD_TAG_COUNT as usize];
    t[MPD_TAG_ARTIST as usize] = Some(artist.as_bytes().to_vec());
    mpd_song { uri: uri.as_bytes().to_vec(), tags: t }
}

fn exclude_artist(a: &str) -> song_rule {
    let mut r = rule_init(RULE_EXCLUDE);
    rule_add_criteria(&mut r, MPD_TAG_ARTIST, a.as_bytes());
    r
}

fn drain(s: &mut ashuffle::shuffle::shuffle_chain) -> Vec<Vec<u8>> {
    // window limit 0 and draw 0: each pick takes the pool's first song.
    let n = shuffle_length(s);
    let mut out = Vec::new();
    for _ in 0..n {
        out.push(shuffle_pick(s, &[0]).unwrap());
    }
    out
}

fn status(state: u32, queue_length: u32, song_pos: i32, single: bool) -> mpd_status {
    mpd_status { state, queue_length, song_pos, single }
}

#[test]
fn build_from_library_filters() {
    let mut rules = list_init();
    list_push(&mut rules, node_from(exclude_artist("mouse")));
    let songs = vec![song("1.mp3", "Beck"), song("2.mp3", "Modest Mouse"), song("3.mp3", "Low")];
    let mut chain = shuffle_init(0);
    build_songs_mpd(&rules, &songs, &mut chain);
    assert_eq!(shuffle_length(&chain), 2);
    assert_eq!(drain(&mut chain), vec![b"1.mp3".to_vec(), b"3.mp3".to_vec()]);
}

#[test]
fn build_from_library_without_rules_takes_all() {
    let rules = list_init();
    let songs = vec![song("1.mp3", "Beck"), song("2.mp3", "Modest Mouse")];
    let mut chain = shuffle_init(0);
    build_songs_mpd(&rules, &songs, &mut chain);
    assert_eq!(shuffle_length(&chain), 2);
}

#[test]
fn record_uri_strips_newline() {
    assert_eq!(uri_from_record(&b"a/b.mp3\n".to_vec()), Some(b"a/b.mp3".to_vec()));
    assert_eq!(uri_from_record(&b"\n".to_vec()), Some(Vec::new()));
    assert_eq!(uri_from_record(&b"cut".to_vec()), Some(b"cut".to_vec()));
    assert_eq!(uri_from_record(&Vec::new()), None);
}

#[test]
fn build_from_file_unchecked() {
    let rules = list_init();
    let records = vec![b"x.mp3\n".to_vec(), b"y.mp3\n".to_vec(), b"z.mp3".to_vec()];
    let found = vec![None, None, None];
    let mut chain = shuffle_init(0);
    build_songs_file(&rules, &records, &found, false, &mut chain);
    // the last line has no newline and is read whole
    assert_eq!(drain(&mut chain), vec![b"x.mp3".to_vec(), b"y.mp3".to_vec(), b"z.mp3".to_vec()]);
}

#[test]
fn build_from_file_last_line_without_newline() {
    let rules = list_init();
    let records = vec![b"a\n".to_vec(), b"b".to_vec()];
    let found = vec![None, None];
    let mut chain = shuffle_init(7);
    assert_eq!(build_songs_file(&rules, &records, &found, false, &mut chain), 0);
    assert_eq!(shuffle_length(&chain), 2);
}

#[test]
fn build_from_file_empty_record_is_invalid() {
    let rules = list_init();
    let records = vec![b"a\n".to_vec(), Vec::new(), b"b\n".to_vec()];
    let found = vec![None, None, None];
    let mut chain = shuffle_init(0);
    assert_eq!(build_songs_file(&rules, &records, &found, false, &mut chain), -1);
    assert_eq!(drain(&mut chain), vec![b"a".to_vec()]);
}

#[test]
fn port_setting() {
    assert_eq!(parse_mpd_port(None), 6600);
    assert_eq!(parse_mpd_port(Some(&b"6601"[..])), 6601);
    assert_eq!(parse_mpd_port(Some(&b"bad"[..])), 0);
    assert_eq!(parse_mpd_port(Some(&b"-1"[..])), u32::MAX);
    assert_eq!(parse_mpd_port(Some(&b"4294967297"[..])), 1);
}

#[test]
fn build_from_file_checked() {
    let mut rules = list_init();
    list_push(&mut rules, node_from(exclude_artist("beck")));
    let records = vec![b"x.mp3\n".to_vec(), b"y.mp3\n".to_vec(), b"w.mp3\n".to_vec()];
    let found = vec![Some(song("x.mp3", "Low")), Some(song("y.mp3", "Beck")), None];
    let mut chain = shuffle_init(0);
    build_songs_file(&rules, &records, &found, true, &mut chain);
    assert_eq!(drain(&mut chain), vec![b"x.mp3".to_vec()]);
}

#[test]
fn first_pick_only_when_not_playing() {
    assert!(try_first(&status(MPD_STATE_STOP, 3, 0, false)));
    assert!(try_first(&status(MPD_STATE_PAUSE, 3, 0, false)));
    assert!(!try_first(&status(MPD_STATE_PLAY, 3, 0, false)));
}

#[test]
fn enqueue_past_last_song() {
    let o = ashuffle_init();
    let p = try_enqueue(&status(MPD_STATE_STOP, 4, -1, false), &o);
    assert_eq!(p.add, 1);
    assert!(p.play);
    assert!(!p.pause);
    let p = try_enqueue(&status(MPD_STATE_STOP, 4, -1, true), &o);
    assert!(p.play && p.pause);
}

#[test]
fn enqueue_empty_queue() {
    let o = ashuffle_init();
    let p = try_enqueue(&status(MPD_STATE_STOP, 0, -1, false), &o);
    assert_eq!(p.add, 1);
    assert!(p.play);
}

#[test]
fn enqueue_nothing_while_songs_remain() {
    let o = ashuffle_init();
    let p = try_enqueue(&status(MPD_STATE_PLAY, 5, 2, false), &o);
    assert_eq!(p.add, 0);
    assert!(!p.play);
    assert!(!p.pause);
}

#[test]
fn enqueue_fills_queue_buffer() {
    let mut o = ashuffle_init();
    o.queue_buffer = 3;
    // 5 songs, playing the fourth: one song remains, two more are needed
    let p = try_enqueue(&status(MPD_STATE_PLAY, 5, 3, true), &o);
    assert_eq!(p.add, 2);
    assert!(!p.play);
    assert!(!p.pause);
    // buffer already full
    let p = try_enqueue(&status(MPD_STATE_PLAY, 10, 3, false), &o);
    assert_eq!(p.add, 0);
    // past the last song: the whole buffer
    let p = try_enqueue(&status(MPD_STATE_STOP, 10, -1, false), &o);
    assert_eq!(p.add, 3);
    assert!(p.play);
}

#[test]
fn enqueue_remaining_wraps() {
    let mut o = ashuffle_init();
    o.queue_buffer = 3;
    // a position beyond the queue wraps around to a large remainder
    let p = try_enqueue(&status(MPD_STATE_PLAY, 1, 5, false), &o);
    assert_eq!(p.add, 0);
    assert!(!p.play);
}

#[test]
fn idle_reactions() {
    assert_eq!(SHUFFLE_IDLE_MASK, MPD_IDLE_DATABASE | MPD_IDLE_QUEUE | MPD_IDLE_PLAYER);
    assert!(matches!(shuffle_idle(MPD_IDLE_DATABASE), idle_action::Rebuild));
    assert!(matches!(shuffle_idle(MPD_IDLE_DATABASE | MPD_IDLE_QUEUE), idle_action::Rebuild));
    assert!(matches!(shuffle_idle(MPD_IDLE_QUEUE), idle_action::Enqueue));
    assert!(matches!(shuffle_idle(MPD_IDLE_PLAYER), idle_action::Enqueue));
    assert!(matches!(shuffle_idle(MPD_IDLE_MIXER), idle_action::Wait));
    assert!(matches!(shuffle_idle(0), idle_action::Wait));
}

#[test]
fn password_on_first_request() {
    assert!(matches!(check_mpd_password(MPD_ERROR_SUCCESS, 0, false), password_action::Done));
    assert!(matches!(
        check_mpd_password(MPD_ERROR_SERVER, MPD_SERVER_ERROR_PERMISSION, true),
        password_action::SendPassword
    ));
    assert!(matches!(
        check_mpd_password(MPD_ERROR_SERVER, MPD_SERVER_ERROR_PERMISSION, false),
        password_action::AskPassword
    ));
    assert!(matches!(
        check_mpd_password(MPD_ERROR_SERVER, MPD_SERVER_ERROR_PASSWORD, false),
        password_action::Fatal
    ));
    assert!(matches!(check_mpd_password(MPD_ERROR_CLOSED, 0, true), password_action::Fatal));
}

#[test]
fn password_after_asking() {
    assert!(matches!(get_mpd_password(MPD_ERROR_SUCCESS, 0), password_action::Done));
    assert!(matches!(
        get_mpd_password(MPD_ERROR_SERVER, MPD_SERVER_ERROR_PASSWORD),
        password_action::Retry
    ));
    assert!(matches!(
        get_mpd_password(MPD_ERROR_SERVER, MPD_SERVER_ERROR_PERMISSION),
        password_action::Fatal
    ));
    assert!(matches!(get_mpd_password(MPD_ERROR_CLOSED, 0), password_action::Fatal));
}

#[test]
fn host_without_password() {
    let h = parse_mpd_host(b"localhost");
    assert_eq!(h.host, b"localhost".to_vec());
    assert_eq!(h.password, None);
}

#[test]
fn host_with_password_splits_at_last_at() {
    let h = parse_mpd_host(b"se@cret@music.local");
    assert_eq!(h.host, b"music.local".to_vec());
    assert_eq!(h.password, Some(b"se@cret".to_vec()));
    let h = parse_mpd_host(b"@host");
    assert_eq!(h.host, b"host".to_vec());
    assert_eq!(h.password, Some(Vec::new()));
}

#[test]
fn hostname_as_text() {
    let h = mpd_host { host: b"music.local".to_vec(), password: None };
    assert_eq!(h.hostname().unwrap(), "music.local");
    let bad = mpd_host { host: vec![0xff, 0xfe], password: None };
    assert!(bad.hostname().is_err());
}
