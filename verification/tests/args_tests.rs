use ashuffle::args::{
    ashuffle_init, ashuffle_options, ashuffle_options_finish, ashuffle_options_step, check_flags,
    flush_rule, options_parser_init, parse_action, rule_type_from_flag, state_can_trans,
    ARGS_QUEUE_BUFFER_NONE, IFILE, NO_STATE, QUEUE, QUEUE_BUFFER, RULE, RULE_VALUE,
};
use ashuffle::list::list_at;
use ashuffle::mpd::{mpd_tag_type, MPD_TAG_ALBUM, MPD_TAG_ARTIST, MPD_TAG_GENRE, MPD_TAG_UNKNOWN};
use ashuffle::rule::{rule_add_criteria, rule_init, RULE_EXCLUDE};

fn tag_of(arg: &str) -> mpd_tag_type {
    match arg.to_ascii_lowercase().as_str() {
        "artist" => MPD_TAG_ARTIST,
        "album" => MPD_TAG_ALBUM,
        "genre" => MPD_TAG_GENRE,
        _ => MPD_TAG_UNKNOWN,
    }
}

#[derive(Debug)]
enum Outcome {
    Stopped(String),
    NoValue(Vec<u8>),
}

/// Runs the parser over `args`; files open when their name does not start
/// with "missing".
fn parse(args: &[&str]) -> Result<(ashuffle_options, Vec<Vec<u8>>), Outcome> {
    let mut opts = ashuffle_init();
    let mut p = options_parser_init();
    let mut opened = Vec::new();
    for a in args {
        match ashuffle_options_step(&mut p, &mut opts, a.as_bytes(), tag_of(a)) {
            parse_action::Continue => {}
            parse_action::OpenStdin => {
                opts.file_in = true;
                opened.push(b"-".to_vec());
            }
            parse_action::OpenFile(path) => {
                if !path.starts_with(b"missing") {
                    opts.file_in = true;
                }
                opened.push(path);
            }
            other => return Err(Outcome::Stopped(format!("{:?}", other))),
        }
    }
    match ashuffle_options_finish(&mut p, &mut opts) {
        Ok(()) => Ok((opts, opened)),
        Err(field) => Err(Outcome::NoValue(field)),
    }
}

fn rule_criteria(opts: &ashuffle_options, i: u32) -> Vec<(mpd_tag_type, Vec<u8>)> {
    let r = list_at(&opts.ruleset, i).unwrap();
    assert_eq!(r.type_0, RULE_EXCLUDE);
    let mut out = Vec::new();
    let mut k = 0;
    while let Some(f) = list_at(&r.matchers, k) {
        out.push((f.tag, f.value.clone()));
        k += 1;
    }
    out
}

#[test]
fn init_defaults() {
    let o = ashuffle_init();
    assert_eq!(o.ruleset.length(), 0);
    assert_eq!(o.queue_only, 0);
    assert!(!o.file_in);
    assert!(o.check_uris);
    assert_eq!(o.queue_buffer, ARGS_QUEUE_BUFFER_NONE);
}

#[test]
fn check_flags_ignores_case() {
    assert!(check_flags(b"--HELP", &["--help", "-h", "-?"]));
    assert!(check_flags(b"-?", &["--help", "-h", "-?"]));
    assert!(!check_flags(b"-x", &["--help", "-h", "-?"]));
    assert!(!check_flags(b"-h", &[]));
}

#[test]
fn rule_type_flags() {
    assert_eq!(rule_type_from_flag(b"-e"), RULE_EXCLUDE as i32);
    assert_eq!(rule_type_from_flag(b"--EXCLUDE"), RULE_EXCLUDE as i32);
    assert_eq!(rule_type_from_flag(b"--include"), -1);
}

#[test]
fn transitions_allowed_from_idle_and_rule() {
    assert!(state_can_trans(NO_STATE));
    assert!(state_can_trans(RULE));
    assert!(!state_can_trans(RULE_VALUE));
    assert!(!state_can_trans(QUEUE));
    assert!(!state_can_trans(IFILE));
    assert!(!state_can_trans(QUEUE_BUFFER));
}

#[test]
fn flush_rule_only_in_rule_state_with_criteria() {
    let mut opts = ashuffle_init();
    let mut r = rule_init(RULE_EXCLUDE);
    flush_rule(RULE, &mut opts, &mut r);
    assert_eq!(opts.ruleset.length(), 0);
    rule_add_criteria(&mut r, MPD_TAG_ARTIST, b"beck");
    flush_rule(NO_STATE, &mut opts, &mut r);
    assert_eq!(opts.ruleset.length(), 0);
    assert_eq!(r.matchers.length(), 1);
    flush_rule(RULE, &mut opts, &mut r);
    assert_eq!(opts.ruleset.length(), 1);
    assert_eq!(r.matchers.length(), 1);
    assert_eq!(rule_criteria(&opts, 0), vec![(MPD_TAG_ARTIST, b"beck".to_vec())]);
}

#[test]
fn no_arguments() {
    let (o, opened) = parse(&[]).unwrap();
    assert_eq!(o.ruleset.length(), 0);
    assert!(o.check_uris);
    assert!(opened.is_empty());
}

#[test]
fn help_stops() {
    assert!(matches!(parse(&["-h"]), Err(Outcome::Stopped(_))));
    assert!(matches!(parse(&["-e", "artist", "x", "--HELP"]), Err(Outcome::Stopped(_))));
    // help is recognised even where a value is expected
    assert!(matches!(parse(&["-o", "-?"]), Err(Outcome::Stopped(_))));
}

#[test]
fn exclude_rule_with_criteria() {
    let (o, _) = parse(&["-e", "artist", "modest mouse", "album", "live"]).unwrap();
    assert_eq!(o.ruleset.length(), 1);
    assert_eq!(
        rule_criteria(&o, 0),
        vec![(MPD_TAG_ARTIST, b"modest mouse".to_vec()), (MPD_TAG_ALBUM, b"live".to_vec())]
    );
}

#[test]
fn two_exclude_rules() {
    let (o, _) = parse(&["--exclude", "artist", "a", "-E", "genre", "b"]).unwrap();
    assert_eq!(o.ruleset.length(), 2);
    assert_eq!(rule_criteria(&o, 0), vec![(MPD_TAG_ARTIST, b"a".to_vec())]);
    assert_eq!(rule_criteria(&o, 1), vec![(MPD_TAG_GENRE, b"b".to_vec())]);
}

#[test]
fn empty_rule_is_dropped() {
    let (o, _) = parse(&["-e", "-n"]).unwrap();
    assert_eq!(o.ruleset.length(), 0);
    assert!(!o.check_uris);
}

#[test]
fn unknown_field_is_skipped() {
    let (o, _) = parse(&["-e", "colour", "blue", "artist", "x"]).unwrap();
    assert_eq!(o.ruleset.length(), 1);
    assert_eq!(rule_criteria(&o, 0), vec![(MPD_TAG_ARTIST, b"x".to_vec())]);
}

#[test]
fn missing_rule_value() {
    match parse(&["-e", "artist"]) {
        Err(Outcome::NoValue(f)) => assert_eq!(f, b"artist".to_vec()),
        other => panic!("unexpected {:?}", other.map(|_| ())),
    }
}

#[test]
fn only_and_queue_buffer() {
    let (o, _) = parse(&["-o", "5", "--queue_buffer", "3"]).unwrap();
    assert_eq!(o.queue_only, 5);
    assert_eq!(o.queue_buffer, 3);
}

#[test]
fn only_twice_is_invalid_unless_zero() {
    assert!(matches!(parse(&["-o", "5", "-o", "6"]), Err(Outcome::Stopped(_))));
    let (o, _) = parse(&["-o", "0", "-o", "6"]).unwrap();
    assert_eq!(o.queue_only, 6);
}

#[test]
fn only_value_read_like_strtoul() {
    let (o, _) = parse(&["-o", "abc"]).unwrap();
    assert_eq!(o.queue_only, 0);
    let (o, _) = parse(&["-o", "4294967297"]).unwrap();
    assert_eq!(o.queue_only, 1);
    assert!(matches!(parse(&["-o", "99999999999999999999"]), Err(Outcome::Stopped(_))));
    assert!(matches!(parse(&["--queue_buffer", "99999999999999999999"]), Err(Outcome::Stopped(_))));
}

#[test]
fn file_and_stdin() {
    let (o, opened) = parse(&["-f", "songs.txt"]).unwrap();
    assert!(o.file_in);
    assert_eq!(opened, vec![b"songs.txt".to_vec()]);
    let (o, opened) = parse(&["--file", "-"]).unwrap();
    assert!(o.file_in);
    assert_eq!(opened, vec![b"-".to_vec()]);
}

#[test]
fn second_file_only_after_failed_open() {
    assert!(matches!(parse(&["-f", "a.txt", "-f", "b.txt"]), Err(Outcome::Stopped(_))));
    let (o, opened) = parse(&["-f", "missing.txt", "-f", "b.txt"]).unwrap();
    assert!(o.file_in);
    assert_eq!(opened, vec![b"missing.txt".to_vec(), b"b.txt".to_vec()]);
}

#[test]
fn invalid_option() {
    match parse(&["--bogus"]) {
        Err(Outcome::Stopped(s)) => assert!(s.contains("InvalidOption")),
        other => panic!("unexpected {:?}", other.map(|_| ())),
    }
}

#[test]
fn flag_after_rule_flushes_it() {
    let (o, _) = parse(&["-e", "artist", "x", "-o", "2"]).unwrap();
    assert_eq!(o.ruleset.length(), 1);
    assert_eq!(o.queue_only, 2);
}
