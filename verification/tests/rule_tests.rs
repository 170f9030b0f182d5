use ashuffle::list::{list_at, list_init, list_push, node_from};
use ashuffle::mpd::{
    mpd_song, mpd_song_get_tag, MPD_TAG_ALBUM, MPD_TAG_ARTIST, MPD_TAG_COUNT, MPD_TAG_GENRE,
    MPD_TAG_UNKNOWN,
};
use ashuffle::rule::{
    bytes_dup, rule_add_criteria, rule_copy, rule_free, rule_init, rule_match, song_rule, RULE_EXCLUDE,
};
use ashuffle::ashuffle::{ruleset_accepts_song, ruleset_accepts_uri};

fn song(uri: &str, tags: &[(i32, &str)]) -> mpd_song {
    let mut t: Vec<Option<Vec<u8>>> = vec![None; MPD_TAG_COUNT as usize];
    for &(k, v) in tags {
        t[k as usize] = Some(v.as_bytes().to_vec());
    }
    mpd_song { uri: uri.as_bytes().to_vec(), tags: t }
}

fn exclude(criteria: &[(i32, &str)]) -> song_rule {
    let mut r = rule_init(RULE_EXCLUDE);
    for &(tag, value) in criteria {
        assert_eq!(rule_add_criteria(&mut r, tag, value.as_bytes()), 0);
    }
    r
}

#[test]
fn get_tag_reads_first_value() {
    let s = song("a.mp3", &[(MPD_TAG_ARTIST, "De La Soul")]);
    assert_eq!(mpd_song_get_tag(&s, MPD_TAG_ARTIST), Some(&b"De La Soul".to_vec()));
    assert_eq!(mpd_song_get_tag(&s, MPD_TAG_ALBUM), None);
    assert_eq!(mpd_song_get_tag(&s, MPD_TAG_UNKNOWN), None);
    assert_eq!(mpd_song_get_tag(&s, 100), None);
}

#[test]
fn bytes_dup_copies() {
    assert_eq!(bytes_dup(b"modest mouse"), b"modest mouse".to_vec());
    assert_eq!(bytes_dup(b""), Vec::<u8>::new());
}

#[test]
fn add_criteria_unknown_tag_refused() {
    let mut r = rule_init(RULE_EXCLUDE);
    assert_eq!(rule_add_criteria(&mut r, MPD_TAG_UNKNOWN, b"x"), -1);
    assert_eq!(r.matchers.length(), 0);
    assert_eq!(rule_add_criteria(&mut r, MPD_TAG_GENRE, b"rock"), 0);
    assert_eq!(r.matchers.length(), 1);
    let f = list_at(&r.matchers, 0).unwrap();
    assert_eq!(f.tag, MPD_TAG_GENRE);
    assert_eq!(f.value, b"rock".to_vec());
}

#[test]
fn exclude_rule_substring_ignoring_case() {
    // "de" matches "De La Soul"
    let r = exclude(&[(MPD_TAG_ARTIST, "de")]);
    assert!(!rule_match(&r, &song("x", &[(MPD_TAG_ARTIST, "De La Soul")])));
    assert!(rule_match(&r, &song("y", &[(MPD_TAG_ARTIST, "Low")])));
}

#[test]
fn missing_tag_never_matches() {
    let r = exclude(&[(MPD_TAG_ALBUM, "live")]);
    assert!(rule_match(&r, &song("x", &[(MPD_TAG_ARTIST, "Live")])));
}

#[test]
fn any_criterion_excludes() {
    let r = exclude(&[(MPD_TAG_ARTIST, "mouse"), (MPD_TAG_GENRE, "jazz")]);
    assert!(!rule_match(&r, &song("a", &[(MPD_TAG_GENRE, "Acid Jazz")])));
    assert!(!rule_match(&r, &song("b", &[(MPD_TAG_ARTIST, "Modest Mouse")])));
    assert!(rule_match(&r, &song("c", &[(MPD_TAG_ARTIST, "Beck"), (MPD_TAG_GENRE, "Rock")])));
}

#[test]
fn other_rule_kind_passes_on_positive_match() {
    let mut r = rule_init(1);
    rule_add_criteria(&mut r, MPD_TAG_ARTIST, b"beck");
    assert!(rule_match(&r, &song("a", &[(MPD_TAG_ARTIST, "Beck")])));
    assert!(!rule_match(&r, &song("b", &[(MPD_TAG_ARTIST, "Low")])));
    assert!(!rule_match(&r, &song("c", &[])));
    rule_add_criteria(&mut r, MPD_TAG_GENRE, b"jazz");
    assert!(rule_match(&r, &song("d", &[(MPD_TAG_GENRE, "Jazz")])));
}

#[test]
fn rule_copy_keeps_criteria() {
    let r = exclude(&[(MPD_TAG_ARTIST, "mouse"), (MPD_TAG_GENRE, "jazz")]);
    let c = rule_copy(&r);
    assert_eq!(c.type_0, r.type_0);
    assert_eq!(c.matchers.length(), 2);
    let f = list_at(&c.matchers, 1).unwrap();
    assert_eq!(f.tag, MPD_TAG_GENRE);
    assert_eq!(f.value, b"jazz".to_vec());
    assert_eq!(r.matchers.length(), 2);
}

#[test]
fn rule_free_drops_criteria() {
    let mut r = exclude(&[(MPD_TAG_ARTIST, "beck")]);
    rule_free(&mut r);
    assert_eq!(r.matchers.length(), 0);
    assert_eq!(r.type_0, RULE_EXCLUDE);
    assert!(rule_match(&r, &song("a", &[(MPD_TAG_ARTIST, "Beck")])));
}

#[test]
fn ruleset_accepts_song_needs_every_rule() {
    let mut rs = list_init();
    let beck = song("beck.mp3", &[(MPD_TAG_ARTIST, "Beck")]);
    let mouse = song("mouse.mp3", &[(MPD_TAG_ARTIST, "Modest Mouse")]);
    assert!(ruleset_accepts_song(&rs, &beck));
    list_push(&mut rs, node_from(exclude(&[(MPD_TAG_ARTIST, "mouse")])));
    assert!(ruleset_accepts_song(&rs, &beck));
    assert!(!ruleset_accepts_song(&rs, &mouse));
    list_push(&mut rs, node_from(exclude(&[(MPD_TAG_ARTIST, "BECK")])));
    assert!(!ruleset_accepts_song(&rs, &beck));
}

#[test]
fn ruleset_accepts_uri_needs_a_song() {
    let rs = list_init();
    assert!(!ruleset_accepts_uri(&rs, &None));
    assert!(ruleset_accepts_uri(&rs, &Some(song("a", &[]))));
}
