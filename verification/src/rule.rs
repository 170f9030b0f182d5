//! Rules on song tags. A rule holds criteria, each a tag kind and a value;
//! an exclude rule turns a song away when one of its criteria finds the
//! value, ignoring case, inside the song's first value of that tag.
use vstd::prelude::*;
use crate::cstr::{contains_ignore_case, str_contains_ignore_case};
use crate::list::{list, list_at, list_free, list_init, list_push, node_from};
use crate::mpd::{mpd_song, mpd_song_get_tag, mpd_tag_type, song_tag, MPD_TAG_UNKNOWN};

verus! {

/// The kind of a rule.
#[allow(non_camel_case_types)]
pub type rule_type = u32;

/// A rule that turns away the songs it matches.
pub const RULE_EXCLUDE: rule_type = 0;

/// One criterion: a tag kind and the value to look for in it.
#[allow(non_camel_case_types)]
pub struct rule_field {
    pub tag: mpd_tag_type,
    pub value: Vec<u8>,
}

/// A rule: its kind and its criteria.
#[allow(non_camel_case_types)]
pub struct song_rule {
    pub type_0: rule_type,
    pub matchers: list<rule_field>,
}

/// The criterion finds its value inside the song's first value of its tag.
pub open spec fn field_hits(f: rule_field, song: mpd_song) -> bool {
    match song_tag(song, f.tag) {
        Some(v) => contains_ignore_case(v, f.value@),
        None => false,
    }
}

/// One of the criteria finds its value in the song.
pub open spec fn rule_hits(matchers: Seq<rule_field>, song: mpd_song) -> bool {
    exists|i: int| 0 <= i < matchers.len() && #[trigger] field_hits(matchers[i], song)
}

/// Whether a rule of kind `type_0` with criteria `matchers` lets `song`
/// pass: an exclude rule when none of its criteria hits, any other rule
/// when one of them hits (a positive match).
pub open spec fn rule_passes(type_0: rule_type, matchers: Seq<rule_field>, song: mpd_song) -> bool {
    if type_0 == RULE_EXCLUDE {
        !rule_hits(matchers, song)
    } else {
        rule_hits(matchers, song)
    }
}

/// Whether `rule` lets `song` pass.
pub open spec fn song_rule_passes(rule: song_rule, song: mpd_song) -> bool {
    rule_passes(rule.type_0, rule.matchers@, song)
}

/// A rule of kind `type_0` with no criteria yet.
pub fn rule_init(type_0: rule_type) -> (r: song_rule)
    ensures
        r.type_0 == type_0,
        r.matchers@ == Seq::<rule_field>::empty(),
{
    song_rule { type_0: type_0, matchers: list_init() }
}

/// A copy of the bytes of `s`.
pub fn bytes_dup(s: &[u8]) -> (r: Vec<u8>)
    ensures
        r@ == s@,
{
    let mut r: Vec<u8> = Vec::new();
    let mut i: usize = 0;
    while i < s.len()
        invariant
            i <= s@.len(),
            r@ == s@.subrange(0, i as int),
        decreases s@.len() - i,
    {
        r.push(s[i]);
        i = i + 1;
        assert(r@ =~= s@.subrange(0, i as int));
    }
    assert(s@.subrange(0, s@.len() as int) =~= s@);
    r
}

/// Adds the criterion "tag `tag` holds `expected_value`" to `rule`.
/// `tag` is the tag kind that the criterion's field name was read as;
/// when that is `MPD_TAG_UNKNOWN` nothing is added and -1 is returned,
/// otherwise 0.
pub fn rule_add_criteria(rule: &mut song_rule, tag: mpd_tag_type, expected_value: &[u8]) -> (r: i32)
    requires
        old(rule).matchers@.len() < u32::MAX,
    ensures
        final(rule).type_0 == old(rule).type_0,
        tag == MPD_TAG_UNKNOWN ==> r == -1 && *final(rule) == *old(rule),
        tag != MPD_TAG_UNKNOWN ==> {
            &&& r == 0
            &&& final(rule).matchers@.len() == old(rule).matchers@.len() + 1
            &&& final(rule).matchers@.drop_last() == old(rule).matchers@
            &&& final(rule).matchers@.last().tag == tag
            &&& final(rule).matchers@.last().value@ == expected_value@
        },
{
    if tag == MPD_TAG_UNKNOWN {
        return -1;
    }
    let matcher = rule_field { tag: tag, value: bytes_dup(expected_value) };
    list_push(&mut rule.matchers, node_from(matcher));
    assert(rule.matchers@.drop_last() =~= old(rule).matchers@);
    0
}

/// Whether `rule` lets `song` pass: an exclude rule when none of its
/// criteria finds its value in the song's tag, any other rule when one does.
pub fn rule_match(rule: &song_rule, song: &mpd_song) -> (r: bool)
    ensures
        r == song_rule_passes(*rule, *song),
{
    let n = rule.matchers.length();
    let mut i: u32 = 0;
    while i < n
        invariant
            n == rule.matchers@.len(),
            i <= n,
            forall|k: int| 0 <= k < i ==> !#[trigger] field_hits(rule.matchers@[k], *song),
        decreases n - i,
    {
        let current_matcher = list_at(&rule.matchers, i).unwrap();
        match mpd_song_get_tag(song, current_matcher.tag) {
            None => {},
            Some(tag_value) => {
                if str_contains_ignore_case(tag_value.as_slice(), current_matcher.value.as_slice()) {
                    assert(field_hits(rule.matchers@[i as int], *song));
                    return rule.type_0 != RULE_EXCLUDE;
                }
            },
        }
        i = i + 1;
    }
    rule.type_0 == RULE_EXCLUDE
}

/// A criterion as plain values: its tag kind and the bytes of its value.
pub open spec fn field_view(f: rule_field) -> (mpd_tag_type, Seq<u8>) {
    (f.tag, f.value@)
}

/// Criteria as plain values, in order.
pub open spec fn fields_view(fields: Seq<rule_field>) -> Seq<(mpd_tag_type, Seq<u8>)> {
    Seq::new(fields.len(), |i: int| field_view(fields[i]))
}

/// A rule as plain values: its kind and its criteria in order.
pub open spec fn rule_view(r: song_rule) -> (rule_type, Seq<(mpd_tag_type, Seq<u8>)>) {
    (r.type_0, fields_view(r.matchers@))
}

/// A copy of `rule`, with copies of its criteria.
pub fn rule_copy(rule: &song_rule) -> (r: song_rule)
    ensures
        rule_view(r) == rule_view(*rule),
        r.matchers@.len() == rule.matchers@.len(),
{
    let mut copy = rule_init(rule.type_0);
    let n = rule.matchers.length();
    let mut i: u32 = 0;
    while i < n
        invariant
            n == rule.matchers@.len(),
            i <= n,
            copy.type_0 == rule.type_0,
            copy.matchers@.len() == i,
            forall|k: int|
                0 <= k < i ==> #[trigger] field_view(copy.matchers@[k]) == field_view(
                    rule.matchers@[k],
                ),
        decreases n - i,
    {
        let f = list_at(&rule.matchers, i).unwrap();
        let field = rule_field { tag: f.tag, value: bytes_dup(f.value.as_slice()) };
        list_push(&mut copy.matchers, node_from(field));
        i = i + 1;
    }
    assert(fields_view(copy.matchers@) =~= fields_view(rule.matchers@));
    copy
}

/// Rules with the same plain values let the same songs pass.
pub proof fn lemma_rule_view_passes(a: song_rule, b: song_rule, song: mpd_song)
    requires
        rule_view(a) == rule_view(b),
    ensures
        song_rule_passes(a, song) == song_rule_passes(b, song),
{
    assert(a.matchers@.len() == fields_view(a.matchers@).len());
    assert forall|i: int| 0 <= i < a.matchers@.len() implies #[trigger] field_hits(a.matchers@[i], song)
        == field_hits(b.matchers@[i], song) by {
        assert(fields_view(a.matchers@)[i] == field_view(a.matchers@[i]));
        assert(fields_view(b.matchers@)[i] == field_view(b.matchers@[i]));
    }
    if rule_hits(a.matchers@, song) {
        let i = choose|i: int| 0 <= i < a.matchers@.len() && #[trigger] field_hits(a.matchers@[i], song);
        assert(field_hits(b.matchers@[i], song));
    }
    if rule_hits(b.matchers@, song) {
        let i = choose|i: int| 0 <= i < b.matchers@.len() && #[trigger] field_hits(b.matchers@[i], song);
        assert(field_hits(a.matchers@[i], song));
    }
}

/// Drops the criteria of `rule`.
pub fn rule_free(rule: &mut song_rule)
    ensures
        final(rule).type_0 == old(rule).type_0,
        final(rule).matchers@ == Seq::<rule_field>::empty(),
{
    list_free(&mut rule.matchers);
}

/// An exclude rule turns a song away as soon as one of its criteria finds
/// its value, ignoring case, in the song's first value of the criterion's
/// tag; a rule of another kind lets that song pass.
pub proof fn law_hit_decides(type_0: rule_type, matchers: Seq<rule_field>, song: mpd_song, i: int, v: Seq<u8>)
    requires
        0 <= i < matchers.len(),
        song_tag(song, matchers[i].tag) == Some(v),
        contains_ignore_case(v, matchers[i].value@),
    ensures
        type_0 == RULE_EXCLUDE ==> !rule_passes(type_0, matchers, song),
        type_0 != RULE_EXCLUDE ==> rule_passes(type_0, matchers, song),
{
    assert(field_hits(matchers[i], song));
}

/// A criterion whose tag the song lacks, or whose value its tag does not
/// hold, decides nothing: when no criterion finds its value, an exclude
/// rule lets the song pass and a rule of another kind does not.
pub proof fn law_no_hit_decides(type_0: rule_type, matchers: Seq<rule_field>, song: mpd_song)
    requires
        forall|i: int|
            0 <= i < matchers.len() ==> match #[trigger] song_tag(song, matchers[i].tag) {
                None => true,
                Some(v) => !contains_ignore_case(v, matchers[i].value@),
            },
    ensures
        type_0 == RULE_EXCLUDE ==> rule_passes(type_0, matchers, song),
        type_0 != RULE_EXCLUDE ==> !rule_passes(type_0, matchers, song),
{
    assert forall|i: int| 0 <= i < matchers.len() implies !#[trigger] field_hits(matchers[i], song) by {
        assert(match song_tag(song, matchers[i].tag) {
            None => true,
            Some(v) => !contains_ignore_case(v, matchers[i].value@),
        });
    }
}

/// A criterion added to an exclude rule can only turn more songs away.
pub proof fn law_more_criteria_exclude_more(matchers: Seq<rule_field>, f: rule_field, song: mpd_song)
    ensures
        rule_passes(RULE_EXCLUDE, matchers.push(f), song) ==> rule_passes(RULE_EXCLUDE, matchers, song),
{
    if rule_hits(matchers, song) {
        let i = choose|i: int| 0 <= i < matchers.len() && #[trigger] field_hits(matchers[i], song);
        assert(matchers.push(f)[i] == matchers[i]);
        assert(field_hits(matchers.push(f)[i], song));
    }
}

} // verus!
