//! The command line. The arguments are read one at a time by a small state
//! machine: flags switch state, and the states that expect a value take the
//! next argument as that value.
//!
//! Two things the parser needs come from outside: the tag kind that each
//! argument names (for the field of a rule criterion), and whether an input
//! file could be opened. The caller hands in the first with each argument,
//! and is asked, by the returned action, to open the second.
use vstd::prelude::*;
use vstd::string::StringSliceAdditionalSpecFns;
use crate::cstr::{eq_ignore_case, parse_ulong, str_eq_ignore_case, strtoul_spec};
use crate::list::{list, list_init, list_push, node_from};
use crate::mpd::mpd_tag_type;
use crate::rule::{rule_add_criteria, fields_view, rule_copy, rule_init, rule_type, rule_view, song_rule, RULE_EXCLUDE};

verus! {

/// What the parser expects next.
#[allow(non_camel_case_types)]
pub type parse_state = u32;

/// Ready for anything.
pub const NO_STATE: parse_state = 0;
/// Expecting a rule's field (like "artist").
pub const RULE: parse_state = 1;
/// Expecting a rule's value (like "modest mouse").
pub const RULE_VALUE: parse_state = 2;
/// Expecting the number of songs to queue.
pub const QUEUE: parse_state = 3;
/// Expecting the input file of song URIs.
pub const IFILE: parse_state = 4;
/// Expecting the length of the queue buffer.
pub const QUEUE_BUFFER: parse_state = 5;

/// The queue buffer length that means "no queue buffer".
pub const ARGS_QUEUE_BUFFER_NONE: u32 = 0;

/// The options of a run.
#[allow(non_camel_case_types)]
pub struct ashuffle_options {
    /// The rules a song has to pass.
    pub ruleset: list<song_rule>,
    /// Queue this many songs and stop; 0 means: keep queueing.
    pub queue_only: u32,
    /// Whether an input file of song URIs is open.
    pub file_in: bool,
    /// Whether URIs read from a file are held to the rules.
    pub check_uris: bool,
    /// How many songs to keep queued after the current one.
    pub queue_buffer: u32,
}

/// The options before any argument is read.
pub fn ashuffle_init() -> (opts: ashuffle_options)
    ensures
        opts.ruleset@ == Seq::<song_rule>::empty(),
        opts.queue_only == 0,
        !opts.file_in,
        opts.check_uris,
        opts.queue_buffer == ARGS_QUEUE_BUFFER_NONE,
{
    ashuffle_options {
        ruleset: list_init(),
        queue_only: 0,
        file_in: false,
        check_uris: true,
        queue_buffer: ARGS_QUEUE_BUFFER_NONE,
    }
}

/// `arg` equals one of `flags`, ignoring ASCII case.
pub open spec fn is_flag(arg: Seq<u8>, flags: Seq<&str>) -> bool {
    exists|i: int| 0 <= i < flags.len() && #[trigger] eq_ignore_case(arg, flags[i].spec_bytes())
}

/// Whether `to_check` equals one of `items`, ignoring ASCII case.
pub fn check_flags(to_check: &[u8], items: &[&str]) -> (r: bool)
    ensures
        r == is_flag(to_check@, items@),
{
    let mut out = false;
    let mut i: usize = 0;
    while i < items.len()
        invariant
            i <= items@.len(),
            out == exists|k: int|
                0 <= k < i && #[trigger] eq_ignore_case(to_check@, items@[k].spec_bytes()),
        decreases items@.len() - i,
    {
        if str_eq_ignore_case(to_check, items[i].as_bytes()) {
            out = true;
        }
        i = i + 1;
    }
    out
}

pub open spec fn help_flags() -> Seq<&'static str> {
    seq!["--help", "-h", "-?"]
}

pub open spec fn exclude_flags() -> Seq<&'static str> {
    seq!["--exclude", "-e"]
}

pub open spec fn nocheck_flags() -> Seq<&'static str> {
    seq!["--nocheck", "-n"]
}

pub open spec fn queue_buffer_flags() -> Seq<&'static str> {
    seq!["--queue_buffer"]
}

pub open spec fn only_flags() -> Seq<&'static str> {
    seq!["--only", "-o"]
}

pub open spec fn file_flags() -> Seq<&'static str> {
    seq!["--file", "-f"]
}

pub open spec fn stdin_flags() -> Seq<&'static str> {
    seq!["-"]
}

/// The rule kind that `option` asks for: `RULE_EXCLUDE` for `--exclude` and
/// `-e`, otherwise -1.
pub fn rule_type_from_flag(option: &[u8]) -> (r: i32)
    ensures
        is_flag(option@, exclude_flags()) ==> r == RULE_EXCLUDE,
        !is_flag(option@, exclude_flags()) ==> r == -1,
{
    let items = vec!["--exclude", "-e"];
    assert(items@ == exclude_flags());
    if check_flags(option, items.as_slice()) {
        RULE_EXCLUDE as i32
    } else {
        -1
    }
}

/// From these states a new flag may start.
pub open spec fn can_trans(state: parse_state) -> bool {
    state == NO_STATE || state == RULE
}

/// Whether a new top-level flag may start in `state`.
pub fn state_can_trans(state: parse_state) -> (r: bool)
    ensures
        r == can_trans(state),
{
    state == NO_STATE || state == RULE
}

/// The rule set `new_rules` is `old_rules` with a copy of `rule` added:
/// same kind, same criteria.
pub open spec fn pushed_copy(old_rules: Seq<song_rule>, new_rules: Seq<song_rule>, rule: song_rule) -> bool {
    &&& new_rules.len() == old_rules.len() + 1
    &&& new_rules.drop_last() == old_rules
    &&& rule_view(new_rules.last()) == rule_view(rule)
}

/// What flushing `rule` in `state` does to the rule set: when the parser
/// was building a rule (`state` is `RULE`) that has at least one criterion,
/// a copy of it is added; otherwise the set stays as it was.
pub open spec fn flush_effect(
    state: parse_state,
    rule: song_rule,
    old_rules: Seq<song_rule>,
    new_rules: Seq<song_rule>,
) -> bool {
    if state == RULE && rule.matchers@.len() > 0 {
        pushed_copy(old_rules, new_rules, rule)
    } else {
        new_rules == old_rules
    }
}

/// Adds a copy of `rule` to the rule set when the parser was building a
/// rule (`state` is `RULE`) that has at least one criterion. `rule` itself
/// stays as it was.
pub fn flush_rule(state: parse_state, opts: &mut ashuffle_options, rule: &mut song_rule)
    requires
        old(opts).ruleset@.len() < u32::MAX,
    ensures
        final(opts).queue_only == old(opts).queue_only,
        final(opts).file_in == old(opts).file_in,
        final(opts).check_uris == old(opts).check_uris,
        final(opts).queue_buffer == old(opts).queue_buffer,
        flush_effect(state, *old(rule), old(opts).ruleset@, final(opts).ruleset@),
        *final(rule) == *old(rule),
{
    if state == RULE && rule.matchers.length() > 0 {
        let copy = rule_copy(rule);
        list_push(&mut opts.ruleset, node_from(copy));
        assert(opts.ruleset@.drop_last() =~= old(opts).ruleset@);
    }
}

/// Every rule of the set is an exclude rule with at least one criterion.
pub open spec fn rules_well_built(rules: Seq<song_rule>) -> bool {
    forall|i: int|
        0 <= i < rules.len() ==> (#[trigger] rules[i]).type_0 == RULE_EXCLUDE
            && rules[i].matchers@.len() > 0
}

/// Flushing an exclude rule keeps every rule of the set an exclude rule
/// with at least one criterion.
pub proof fn lemma_flush_keeps_well_built(
    state: parse_state,
    rule: song_rule,
    old_rules: Seq<song_rule>,
    new_rules: Seq<song_rule>,
)
    requires
        flush_effect(state, rule, old_rules, new_rules),
        rules_well_built(old_rules),
        rule.type_0 == RULE_EXCLUDE,
    ensures
        rules_well_built(new_rules),
{
    if state == RULE && rule.matchers@.len() > 0 {
        let last = new_rules.last();
        assert(fields_view(last.matchers@).len() == fields_view(rule.matchers@).len());
        assert forall|i: int| 0 <= i < new_rules.len() implies (#[trigger] new_rules[i]).type_0
            == RULE_EXCLUDE && new_rules[i].matchers@.len() > 0 by {
            if i < old_rules.len() {
                assert(new_rules[i] == new_rules.drop_last()[i]);
            }
        }
    }
}

/// The parser's own state between arguments.
#[allow(non_camel_case_types)]
pub struct options_parser {
    /// What the parser expects next.
    pub state: parse_state,
    /// The field of the criterion being read, and the tag kind it names.
    pub match_field: Option<(Vec<u8>, mpd_tag_type)>,
    /// The rule being built.
    pub rule: song_rule,
}

/// A parser before the first argument.
pub fn options_parser_init() -> (p: options_parser)
    ensures
        p.state == NO_STATE,
        p.match_field is None,
        p.rule.type_0 == RULE_EXCLUDE,
        p.rule.matchers@.len() == 0,
{
    options_parser { state: NO_STATE, match_field: None, rule: rule_init(RULE_EXCLUDE) }
}

/// What the caller is to do after an argument was read.
#[allow(non_camel_case_types)]
#[derive(Debug)]
pub enum parse_action {
    /// Go on with the next argument.
    Continue,
    /// Help was asked for: stop parsing, unsuccessfully.
    Help,
    /// Read songs from standard input: set `file_in`.
    OpenStdin,
    /// Open this file for songs, and set `file_in` when that worked.
    OpenFile(Vec<u8>),
    /// The queue length is not a number that fits: stop, unsuccessfully.
    BadQueueLength,
    /// The queue buffer length is not a number that fits: stop, unsuccessfully.
    BadQueueBuffer,
    /// This argument means nothing here: stop, unsuccessfully.
    InvalidOption(Vec<u8>),
}

/// The number a count argument is read as: the C reading of an unsigned
/// long, cut to 32 bits.
pub open spec fn count_value(v: u64) -> u32 {
    (v as int % 0x1_0000_0000) as u32
}

/// Cuts a 64-bit count to 32 bits.
fn cut_count(v: u64) -> (r: u32)
    ensures
        r == count_value(v),
{
    (v % 0x1_0000_0000) as u32
}

/// The parse state, the options and the rule set after a flag that is not
/// a rule flag switched the state: the rule being built is flushed, and
/// stays as it was.
pub open spec fn flushed(
    old_p: options_parser,
    old_opts: ashuffle_options,
    p: options_parser,
    opts: ashuffle_options,
) -> bool {
    &&& flush_effect(old_p.state, old_p.rule, old_opts.ruleset@, opts.ruleset@)
    &&& p.rule == old_p.rule
}

pub const STEP_HELP: u8 = 0;
pub const STEP_EXCLUDE: u8 = 1;
pub const STEP_NOCHECK: u8 = 2;
pub const STEP_QUEUE_BUFFER: u8 = 3;
pub const STEP_ONLY: u8 = 4;
pub const STEP_FILE: u8 = 5;
pub const STEP_RULE_FIELD: u8 = 6;
pub const STEP_RULE_VALUE: u8 = 7;
pub const STEP_QUEUE: u8 = 8;
pub const STEP_IFILE: u8 = 9;
pub const STEP_QUEUE_BUFFER_VALUE: u8 = 10;
pub const STEP_INVALID: u8 = 11;

/// Which way the parser takes with argument `a` in state `state`, the
/// options having `queue_only` and `file_in`: help is checked first, then
/// the flags that may start in this state (and `--only` only while no queue
/// length was given, `--file` only while no file is open), then the value
/// that the state expects.
pub open spec fn step_kind(state: parse_state, queue_only: u32, file_in: bool, a: Seq<u8>) -> u8 {
    let trans = can_trans(state);
    if is_flag(a, help_flags()) {
        STEP_HELP
    } else if trans && is_flag(a, exclude_flags()) {
        STEP_EXCLUDE
    } else if trans && is_flag(a, nocheck_flags()) {
        STEP_NOCHECK
    } else if trans && is_flag(a, queue_buffer_flags()) {
        STEP_QUEUE_BUFFER
    } else if trans && queue_only == 0 && is_flag(a, only_flags()) {
        STEP_ONLY
    } else if trans && !file_in && is_flag(a, file_flags()) {
        STEP_FILE
    } else if state == RULE {
        STEP_RULE_FIELD
    } else if state == RULE_VALUE {
        STEP_RULE_VALUE
    } else if state == QUEUE {
        STEP_QUEUE
    } else if state == IFILE {
        STEP_IFILE
    } else if state == QUEUE_BUFFER {
        STEP_QUEUE_BUFFER_VALUE
    } else {
        STEP_INVALID
    }
}

/// What one step does, for the parser `old_p` and options `old_opts`
/// before it, the argument `a` naming tag kind `arg_tag`, the action `r`,
/// and the parser `p` and options `opts` after it; by way of `step_kind`.
pub open spec fn step_outcome(
    old_p: options_parser,
    old_opts: ashuffle_options,
    a: Seq<u8>,
    arg_tag: mpd_tag_type,
    r: parse_action,
    p: options_parser,
    opts: ashuffle_options,
) -> bool {
    let k = step_kind(old_p.state, old_opts.queue_only, old_opts.file_in, a);
    let unchanged_opts = opts.ruleset@ == old_opts.ruleset@ && opts.queue_only
        == old_opts.queue_only && opts.check_uris == old_opts.check_uris
        && opts.queue_buffer == old_opts.queue_buffer;
    let same_rule = p.rule == old_p.rule;
    &&& k == STEP_HELP ==> r is Help && unchanged_opts && p == old_p
    &&& k == STEP_EXCLUDE ==> {
        &&& r is Continue
        &&& p.state == RULE
        &&& p.match_field == old_p.match_field
        &&& p.rule.type_0 == RULE_EXCLUDE
        &&& p.rule.matchers@.len() == 0
        &&& flush_effect(old_p.state, old_p.rule, old_opts.ruleset@, opts.ruleset@)
        &&& opts.queue_only == old_opts.queue_only
        &&& opts.check_uris == old_opts.check_uris
        &&& opts.queue_buffer == old_opts.queue_buffer
    }
    &&& STEP_NOCHECK <= k <= STEP_FILE ==> {
        &&& r is Continue
        &&& flushed(old_p, old_opts, p, opts)
        &&& p.match_field == old_p.match_field
        &&& opts.queue_only == old_opts.queue_only
        &&& opts.queue_buffer == old_opts.queue_buffer
        &&& opts.check_uris == (k != STEP_NOCHECK && old_opts.check_uris)
        &&& k == STEP_NOCHECK ==> p.state == NO_STATE
        &&& k == STEP_QUEUE_BUFFER ==> p.state == QUEUE_BUFFER
        &&& k == STEP_ONLY ==> p.state == QUEUE
        &&& k == STEP_FILE ==> p.state == IFILE
    }
    &&& k == STEP_RULE_FIELD ==> {
        &&& r is Continue
        &&& unchanged_opts
        &&& same_rule
        &&& p.state == RULE_VALUE
        &&& p.match_field matches Some(mf) && mf.0@ == a && mf.1 == arg_tag
    }
    &&& k == STEP_RULE_VALUE ==> {
        &&& r is Continue
        &&& unchanged_opts
        &&& p.state == RULE
        &&& p.match_field is None
        &&& p.rule.type_0 == old_p.rule.type_0
        &&& old_p.match_field is None ==> same_rule
        &&& old_p.match_field matches Some(mf) ==> {
            &&& (mf.1 == crate::mpd::MPD_TAG_UNKNOWN ==> same_rule)
            &&& (mf.1 != crate::mpd::MPD_TAG_UNKNOWN ==> {
                &&& p.rule.matchers@.drop_last() == old_p.rule.matchers@
                &&& p.rule.matchers@.len() == old_p.rule.matchers@.len() + 1
                &&& p.rule.matchers@.last().tag == mf.1
                &&& p.rule.matchers@.last().value@ == a
            })
        }
    }
    &&& k == STEP_QUEUE ==> {
        &&& opts.ruleset@ == old_opts.ruleset@
        &&& opts.check_uris == old_opts.check_uris
        &&& opts.queue_buffer == old_opts.queue_buffer
        &&& same_rule
        &&& p.match_field == old_p.match_field
        &&& strtoul_spec(a) is None ==> r is BadQueueLength && opts.queue_only
            == u32::MAX
        &&& strtoul_spec(a) matches Some(v) ==> r is Continue && opts.queue_only
            == count_value(v) && p.state == NO_STATE
    }
    &&& k == STEP_IFILE ==> {
        &&& unchanged_opts
        &&& same_rule
        &&& p.match_field == old_p.match_field
        &&& p.state == NO_STATE
        &&& is_flag(a, stdin_flags()) ==> r is OpenStdin
        &&& !is_flag(a, stdin_flags()) ==> (r matches parse_action::OpenFile(path)
            && path@ == a)
    }
    &&& k == STEP_QUEUE_BUFFER_VALUE ==> {
        &&& opts.ruleset@ == old_opts.ruleset@
        &&& opts.check_uris == old_opts.check_uris
        &&& opts.queue_only == old_opts.queue_only
        &&& same_rule
        &&& p.match_field == old_p.match_field
        &&& strtoul_spec(a) is None ==> r is BadQueueBuffer && opts.queue_buffer
            == u32::MAX
        &&& strtoul_spec(a) matches Some(v) ==> r is Continue && opts.queue_buffer
            == count_value(v) && p.state == NO_STATE
    }
    &&& k == STEP_INVALID ==> (r matches parse_action::InvalidOption(bad) && bad@ == a
        && unchanged_opts && p == old_p)
}

/// Reads one argument. `arg_tag` is the tag kind that `arg` names, as the
/// player's client library reads tag names (`MPD_TAG_UNKNOWN` when it names
/// none); it is used when `arg` is the field of a rule criterion.
pub fn ashuffle_options_step(
    p: &mut options_parser,
    opts: &mut ashuffle_options,
    arg: &[u8],
    arg_tag: mpd_tag_type,
) -> (r: parse_action)
    requires
        old(opts).ruleset@.len() < u32::MAX,
        old(p).rule.matchers@.len() < u32::MAX,
    ensures
        final(opts).file_in == old(opts).file_in,
        rules_well_built(old(opts).ruleset@) && old(p).rule.type_0 == RULE_EXCLUDE ==> rules_well_built(
            final(opts).ruleset@,
        ) && final(p).rule.type_0 == RULE_EXCLUDE,
        step_outcome(*old(p), *old(opts), arg@, arg_tag, r, *final(p), *final(opts)),
{
    let state = p.state;
    let transable = state_can_trans(state);
    let mut type_flag: i32 = -1;
    if transable {
        type_flag = rule_type_from_flag(arg);
    }
    let help = vec!["--help", "-h", "-?"];
    let nocheck = vec!["--nocheck", "-n"];
    let queue = vec!["--queue_buffer"];
    let only = vec!["--only", "-o"];
    let file = vec!["--file", "-f"];
    assert(help@ == help_flags());
    assert(nocheck@ == nocheck_flags());
    assert(queue@ == queue_buffer_flags());
    assert(only@ == only_flags());
    assert(file@ == file_flags());
    if check_flags(arg, help.as_slice()) {
        return parse_action::Help;
    }
    if type_flag != -1 {
        let ghost rules_before = opts.ruleset@;
        flush_rule(state, opts, &mut p.rule);
        proof {
            if rules_well_built(rules_before) && p.rule.type_0 == RULE_EXCLUDE {
                lemma_flush_keeps_well_built(state, p.rule, rules_before, opts.ruleset@);
            }
        }
        p.rule = rule_init(type_flag as rule_type);
        p.state = RULE;
        parse_action::Continue
    } else if transable && check_flags(arg, nocheck.as_slice()) {
        let ghost rules_before = opts.ruleset@;
        flush_rule(state, opts, &mut p.rule);
        proof {
            if rules_well_built(rules_before) && p.rule.type_0 == RULE_EXCLUDE {
                lemma_flush_keeps_well_built(state, p.rule, rules_before, opts.ruleset@);
            }
        }
        opts.check_uris = false;
        p.state = NO_STATE;
        parse_action::Continue
    } else if transable && check_flags(arg, queue.as_slice()) {
        let ghost rules_before = opts.ruleset@;
        flush_rule(state, opts, &mut p.rule);
        proof {
            if rules_well_built(rules_before) && p.rule.type_0 == RULE_EXCLUDE {
                lemma_flush_keeps_well_built(state, p.rule, rules_before, opts.ruleset@);
            }
        }
        p.state = QUEUE_BUFFER;
        parse_action::Continue
    } else if transable && opts.queue_only == 0 && check_flags(arg, only.as_slice()) {
        let ghost rules_before = opts.ruleset@;
        flush_rule(state, opts, &mut p.rule);
        proof {
            if rules_well_built(rules_before) && p.rule.type_0 == RULE_EXCLUDE {
                lemma_flush_keeps_well_built(state, p.rule, rules_before, opts.ruleset@);
            }
        }
        p.state = QUEUE;
        parse_action::Continue
    } else if transable && !opts.file_in && check_flags(arg, file.as_slice()) {
        let ghost rules_before = opts.ruleset@;
        flush_rule(state, opts, &mut p.rule);
        proof {
            if rules_well_built(rules_before) && p.rule.type_0 == RULE_EXCLUDE {
                lemma_flush_keeps_well_built(state, p.rule, rules_before, opts.ruleset@);
            }
        }
        p.state = IFILE;
        parse_action::Continue
    } else if state == RULE {
        p.match_field = Some((copy_bytes(arg), arg_tag));
        p.state = RULE_VALUE;
        parse_action::Continue
    } else if state == RULE_VALUE {
        match &p.match_field {
            Some(mf) => {
                let tag = mf.1;
                rule_add_criteria(&mut p.rule, tag, arg);
            },
            None => {},
        }
        p.match_field = None;
        p.state = RULE;
        parse_action::Continue
    } else if state == QUEUE {
        match parse_ulong(arg) {
            None => {
                opts.queue_only = u32::MAX;
                parse_action::BadQueueLength
            },
            Some(v) => {
                opts.queue_only = cut_count(v);
                p.state = NO_STATE;
                parse_action::Continue
            },
        }
    } else if state == IFILE {
        let stdin_name = vec!["-"];
        assert(stdin_name@ == stdin_flags());
        p.state = NO_STATE;
        if check_flags(arg, stdin_name.as_slice()) {
            parse_action::OpenStdin
        } else {
            parse_action::OpenFile(copy_bytes(arg))
        }
    } else if state == QUEUE_BUFFER {
        match parse_ulong(arg) {
            None => {
                opts.queue_buffer = u32::MAX;
                parse_action::BadQueueBuffer
            },
            Some(v) => {
                opts.queue_buffer = cut_count(v);
                p.state = NO_STATE;
                parse_action::Continue
            },
        }
    } else {
        parse_action::InvalidOption(copy_bytes(arg))
    }
}

/// A copy of the bytes of `s`.
fn copy_bytes(s: &[u8]) -> (r: Vec<u8>)
    ensures
        r@ == s@,
{
    crate::rule::bytes_dup(s)
}

/// Ends parsing: an error holding the field when a rule criterion still
/// waits for its value; otherwise the rule being built is flushed.
pub fn ashuffle_options_finish(p: &mut options_parser, opts: &mut ashuffle_options) -> (r: Result<
    (),
    Vec<u8>,
>)
    requires
        old(opts).ruleset@.len() < u32::MAX,
    ensures
        final(opts).queue_only == old(opts).queue_only,
        final(opts).file_in == old(opts).file_in,
        final(opts).check_uris == old(opts).check_uris,
        final(opts).queue_buffer == old(opts).queue_buffer,
        old(p).state == RULE_VALUE ==> {
            &&& r is Err
            &&& (old(p).match_field matches Some(mf) ==> r matches Err(f) && f@ == mf.0@)
            &&& final(opts).ruleset@ == old(opts).ruleset@
        },
        old(p).state != RULE_VALUE ==> r is Ok && flushed(*old(p), *old(opts), *final(p), *final(opts)),
        rules_well_built(old(opts).ruleset@) && old(p).rule.type_0 == RULE_EXCLUDE ==> rules_well_built(
            final(opts).ruleset@,
        ),
{
    if p.state == RULE_VALUE {
        let field = match &p.match_field {
            Some(mf) => copy_bytes(mf.0.as_slice()),
            None => Vec::new(),
        };
        return Err(field);
    }
    let state = p.state;
    let ghost rules_before = opts.ruleset@;
    flush_rule(state, opts, &mut p.rule);
    proof {
        if rules_well_built(rules_before) && p.rule.type_0 == RULE_EXCLUDE {
            lemma_flush_keeps_well_built(state, p.rule, rules_before, opts.ruleset@);
        }
    }
    Ok(())
}

/// The bytes of the command-line words.
proof fn lemma_word_bytes()
    ensures
        "--help".spec_bytes() =~= seq![45u8, 45, 104, 101, 108, 112],
        "-h".spec_bytes() =~= seq![45u8, 104],
        "-?".spec_bytes() =~= seq![45u8, 63],
        "--exclude".spec_bytes() =~= seq![45u8, 45, 101, 120, 99, 108, 117, 100, 101],
        "-e".spec_bytes() =~= seq![45u8, 101],
        "--nocheck".spec_bytes() =~= seq![45u8, 45, 110, 111, 99, 104, 101, 99, 107],
        "-n".spec_bytes() =~= seq![45u8, 110],
        "--queue_buffer".spec_bytes() =~= seq![45u8, 45, 113, 117, 101, 117, 101, 95, 98, 117, 102, 102, 101, 114],
        "--only".spec_bytes() =~= seq![45u8, 45, 111, 110, 108, 121],
        "-o".spec_bytes() =~= seq![45u8, 111],
        "--file".spec_bytes() =~= seq![45u8, 45, 102, 105, 108, 101],
        "-f".spec_bytes() =~= seq![45u8, 102],
        "-".spec_bytes() =~= seq![45u8],
{
    reveal_strlit("--help");
    reveal_strlit("-h");
    reveal_strlit("-?");
    reveal_strlit("--exclude");
    reveal_strlit("-e");
    reveal_strlit("--nocheck");
    reveal_strlit("-n");
    reveal_strlit("--queue_buffer");
    reveal_strlit("--only");
    reveal_strlit("-o");
    reveal_strlit("--file");
    reveal_strlit("-f");
    reveal_strlit("-");
    vstd::string::is_ascii_spec_bytes("--help");
    vstd::string::is_ascii_spec_bytes("-h");
    vstd::string::is_ascii_spec_bytes("-?");
    vstd::string::is_ascii_spec_bytes("--exclude");
    vstd::string::is_ascii_spec_bytes("-e");
    vstd::string::is_ascii_spec_bytes("--nocheck");
    vstd::string::is_ascii_spec_bytes("-n");
    vstd::string::is_ascii_spec_bytes("--queue_buffer");
    vstd::string::is_ascii_spec_bytes("--only");
    vstd::string::is_ascii_spec_bytes("-o");
    vstd::string::is_ascii_spec_bytes("--file");
    vstd::string::is_ascii_spec_bytes("-f");
    vstd::string::is_ascii_spec_bytes("-");
}

/// An argument that reads as one word, ignoring case, does not read as a
/// word of the same length that differs from it at `k`.
proof fn lemma_words_differ(a: Seq<u8>, x: Seq<u8>, y: Seq<u8>, k: int)
    requires
        eq_ignore_case(a, x),
        0 <= k < x.len(),
        k < y.len(),
        crate::cstr::ascii_lower(x[k]) != crate::cstr::ascii_lower(y[k]),
    ensures
        !eq_ignore_case(a, y),
{
    assert(crate::cstr::ascii_lower(a[k]) == crate::cstr::ascii_lower(x[k]));
}

/// In a state where a flag may start (idle, or building a rule), with no
/// input file open, an argument that reads `-f` or `--file` (ignoring case)
/// is the file flag: the rule being built is flushed and the parser
/// expects the file's name. With a file open it is no flag.
pub proof fn law_file_flag(state: parse_state, queue_only: u32, file_in: bool, a: Seq<u8>)
    requires
        can_trans(state),
        eq_ignore_case(a, "-f".spec_bytes()) || eq_ignore_case(a, "--file".spec_bytes()),
    ensures
        !file_in ==> step_kind(state, queue_only, file_in, a) == STEP_FILE,
        file_in ==> step_kind(state, queue_only, file_in, a) != STEP_FILE,
{
    lemma_word_bytes();
    if eq_ignore_case(a, "-f".spec_bytes()) {
        let f = "-f".spec_bytes();
        lemma_words_differ(a, f, "-h".spec_bytes(), 1);
        lemma_words_differ(a, f, "-?".spec_bytes(), 1);
        lemma_words_differ(a, f, "-e".spec_bytes(), 1);
        lemma_words_differ(a, f, "-n".spec_bytes(), 1);
        lemma_words_differ(a, f, "-o".spec_bytes(), 1);
        assert(file_flags()[1] == "-f");
    } else {
        let f = "--file".spec_bytes();
        lemma_words_differ(a, f, "--help".spec_bytes(), 2);
        lemma_words_differ(a, f, "--only".spec_bytes(), 2);
        assert(file_flags()[0] == "--file");
    }
    assert(!is_flag(a, help_flags()));
    assert(!is_flag(a, exclude_flags()));
    assert(!is_flag(a, nocheck_flags()));
    assert(!is_flag(a, queue_buffer_flags()));
    assert(!is_flag(a, only_flags()));
}

/// An argument reads as `word`, ignoring ASCII case.
pub open spec fn reads_as(a: Seq<u8>, word: &str) -> bool {
    eq_ignore_case(a, word.spec_bytes())
}

/// An argument reads as one of the documented flags.
pub open spec fn reads_as_a_flag(a: Seq<u8>) -> bool {
    ||| reads_as(a, "--help")
    ||| reads_as(a, "-h")
    ||| reads_as(a, "-?")
    ||| reads_as(a, "--exclude")
    ||| reads_as(a, "-e")
    ||| reads_as(a, "--nocheck")
    ||| reads_as(a, "-n")
    ||| reads_as(a, "--queue_buffer")
    ||| reads_as(a, "--only")
    ||| reads_as(a, "-o")
    ||| reads_as(a, "--file")
    ||| reads_as(a, "-f")
}

/// `-h`, `-?` and `--help` ask for help in every state, even where a value
/// is expected.
pub proof fn law_help_flag(state: parse_state, queue_only: u32, file_in: bool, a: Seq<u8>)
    requires
        reads_as(a, "--help") || reads_as(a, "-h") || reads_as(a, "-?"),
    ensures
        step_kind(state, queue_only, file_in, a) == STEP_HELP,
{
    lemma_word_bytes();
    assert(help_flags()[0] == "--help");
    assert(help_flags()[1] == "-h");
    assert(help_flags()[2] == "-?");
}

/// In a state where a flag may start, `-e` and `--exclude` start a new
/// exclude rule (flushing the one being built).
pub proof fn law_exclude_flag(state: parse_state, queue_only: u32, file_in: bool, a: Seq<u8>)
    requires
        can_trans(state),
        reads_as(a, "-e") || reads_as(a, "--exclude"),
    ensures
        step_kind(state, queue_only, file_in, a) == STEP_EXCLUDE,
{
    lemma_word_bytes();
    if reads_as(a, "-e") {
        let w = "-e".spec_bytes();
        lemma_words_differ(a, w, "-h".spec_bytes(), 1);
        lemma_words_differ(a, w, "-?".spec_bytes(), 1);
        assert(exclude_flags()[1] == "-e");
    } else {
        assert(exclude_flags()[0] == "--exclude");
    }
    assert(!is_flag(a, help_flags()));
}

/// In a state where a flag may start, `-n` and `--nocheck` turn URI
/// checking off.
pub proof fn law_nocheck_flag(state: parse_state, queue_only: u32, file_in: bool, a: Seq<u8>)
    requires
        can_trans(state),
        reads_as(a, "-n") || reads_as(a, "--nocheck"),
    ensures
        step_kind(state, queue_only, file_in, a) == STEP_NOCHECK,
{
    lemma_word_bytes();
    if reads_as(a, "-n") {
        let w = "-n".spec_bytes();
        lemma_words_differ(a, w, "-h".spec_bytes(), 1);
        lemma_words_differ(a, w, "-?".spec_bytes(), 1);
        lemma_words_differ(a, w, "-e".spec_bytes(), 1);
        assert(nocheck_flags()[1] == "-n");
    } else {
        let w = "--nocheck".spec_bytes();
        lemma_words_differ(a, w, "--exclude".spec_bytes(), 2);
        assert(nocheck_flags()[0] == "--nocheck");
    }
    assert(!is_flag(a, help_flags()));
    assert(!is_flag(a, exclude_flags()));
}

/// In a state where a flag may start, `--queue_buffer` makes the parser
/// expect the queue buffer's length.
pub proof fn law_queue_buffer_flag(state: parse_state, queue_only: u32, file_in: bool, a: Seq<u8>)
    requires
        can_trans(state),
        reads_as(a, "--queue_buffer"),
    ensures
        step_kind(state, queue_only, file_in, a) == STEP_QUEUE_BUFFER,
{
    lemma_word_bytes();
    assert(queue_buffer_flags()[0] == "--queue_buffer");
    assert(!is_flag(a, help_flags()));
    assert(!is_flag(a, exclude_flags()));
    assert(!is_flag(a, nocheck_flags()));
}

/// In a state where a flag may start, `-o` and `--only` make the parser
/// expect the number of songs to queue, as long as no such number was
/// given yet; after one was, they are no flag: building a rule they become
/// a criterion's field, otherwise they are invalid.
pub proof fn law_only_flag(state: parse_state, queue_only: u32, file_in: bool, a: Seq<u8>)
    requires
        can_trans(state),
        reads_as(a, "-o") || reads_as(a, "--only"),
    ensures
        queue_only == 0 ==> step_kind(state, queue_only, file_in, a) == STEP_ONLY,
        queue_only != 0 && state == RULE ==> step_kind(state, queue_only, file_in, a)
            == STEP_RULE_FIELD,
        queue_only != 0 && state == NO_STATE ==> step_kind(state, queue_only, file_in, a)
            == STEP_INVALID,
{
    lemma_word_bytes();
    if reads_as(a, "-o") {
        let w = "-o".spec_bytes();
        lemma_words_differ(a, w, "-h".spec_bytes(), 1);
        lemma_words_differ(a, w, "-?".spec_bytes(), 1);
        lemma_words_differ(a, w, "-e".spec_bytes(), 1);
        lemma_words_differ(a, w, "-n".spec_bytes(), 1);
        lemma_words_differ(a, w, "-f".spec_bytes(), 1);
        assert(only_flags()[1] == "-o");
    } else {
        let w = "--only".spec_bytes();
        lemma_words_differ(a, w, "--help".spec_bytes(), 2);
        lemma_words_differ(a, w, "--file".spec_bytes(), 2);
        assert(only_flags()[0] == "--only");
    }
    assert(!is_flag(a, help_flags()));
    assert(!is_flag(a, exclude_flags()));
    assert(!is_flag(a, nocheck_flags()));
    assert(!is_flag(a, queue_buffer_flags()));
    assert(!is_flag(a, file_flags()));
}

/// An argument that reads as none of the flags: building a rule it is a
/// criterion's field, and in the idle state it is invalid.
pub proof fn law_plain_word(state: parse_state, queue_only: u32, file_in: bool, a: Seq<u8>)
    requires
        !reads_as_a_flag(a),
    ensures
        state == RULE ==> step_kind(state, queue_only, file_in, a) == STEP_RULE_FIELD,
        state == NO_STATE ==> step_kind(state, queue_only, file_in, a) == STEP_INVALID,
{
    assert(help_flags()[0] == "--help");
    assert(help_flags()[1] == "-h");
    assert(help_flags()[2] == "-?");
    assert(exclude_flags()[0] == "--exclude");
    assert(exclude_flags()[1] == "-e");
    assert(nocheck_flags()[0] == "--nocheck");
    assert(nocheck_flags()[1] == "-n");
    assert(queue_buffer_flags()[0] == "--queue_buffer");
    assert(only_flags()[0] == "--only");
    assert(only_flags()[1] == "-o");
    assert(file_flags()[0] == "--file");
    assert(file_flags()[1] == "-f");
}

/// Where a value is expected (a rule's value, the number of songs, the
/// input file, the queue buffer's length), any argument but a help flag is
/// taken as that value, even one that reads as another flag.
pub proof fn law_value_expected(state: parse_state, queue_only: u32, file_in: bool, a: Seq<u8>)
    requires
        !(reads_as(a, "--help") || reads_as(a, "-h") || reads_as(a, "-?")),
    ensures
        state == RULE_VALUE ==> step_kind(state, queue_only, file_in, a) == STEP_RULE_VALUE,
        state == QUEUE ==> step_kind(state, queue_only, file_in, a) == STEP_QUEUE,
        state == IFILE ==> step_kind(state, queue_only, file_in, a) == STEP_IFILE,
        state == QUEUE_BUFFER ==> step_kind(state, queue_only, file_in, a)
            == STEP_QUEUE_BUFFER_VALUE,
{
    assert(help_flags()[0] == "--help");
    assert(help_flags()[1] == "-h");
    assert(help_flags()[2] == "-?");
}

/// The input file's name `-` (and only it) stands for standard input.
pub proof fn law_stdin_name(a: Seq<u8>)
    ensures
        is_flag(a, stdin_flags()) <==> reads_as(a, "-"),
{
    assert(stdin_flags()[0] == "-");
}

/// A flag switched the parser to `state`: the step goes on, the rule being
/// built is flushed into the rule set and kept, and the other options stay.
pub open spec fn switched_to(
    state: parse_state,
    old_p: options_parser,
    old_opts: ashuffle_options,
    r: parse_action,
    p: options_parser,
    opts: ashuffle_options,
) -> bool {
    &&& r is Continue
    &&& p.state == state
    &&& p.rule == old_p.rule
    &&& flush_effect(old_p.state, old_p.rule, old_opts.ruleset@, opts.ruleset@)
    &&& opts.queue_only == old_opts.queue_only
    &&& opts.queue_buffer == old_opts.queue_buffer
}

/// A step on a help flag stops parsing and changes nothing.
pub proof fn law_step_help(
    old_p: options_parser,
    old_opts: ashuffle_options,
    a: Seq<u8>,
    tag: mpd_tag_type,
    r: parse_action,
    p: options_parser,
    opts: ashuffle_options,
)
    requires
        step_outcome(old_p, old_opts, a, tag, r, p, opts),
        reads_as(a, "--help") || reads_as(a, "-h") || reads_as(a, "-?"),
    ensures
        r is Help,
        p == old_p,
        opts.ruleset@ == old_opts.ruleset@,
        opts.queue_only == old_opts.queue_only,
        opts.check_uris == old_opts.check_uris,
        opts.queue_buffer == old_opts.queue_buffer,
{
    law_help_flag(old_p.state, old_opts.queue_only, old_opts.file_in, a);
}

/// Where a flag may start, `-e`/`--exclude` flushes the rule being built
/// and starts a new exclude rule without criteria.
pub proof fn law_step_exclude(
    old_p: options_parser,
    old_opts: ashuffle_options,
    a: Seq<u8>,
    tag: mpd_tag_type,
    r: parse_action,
    p: options_parser,
    opts: ashuffle_options,
)
    requires
        step_outcome(old_p, old_opts, a, tag, r, p, opts),
        can_trans(old_p.state),
        reads_as(a, "-e") || reads_as(a, "--exclude"),
    ensures
        r is Continue,
        p.state == RULE,
        p.rule.type_0 == RULE_EXCLUDE,
        p.rule.matchers@.len() == 0,
        flush_effect(old_p.state, old_p.rule, old_opts.ruleset@, opts.ruleset@),
        opts.queue_only == old_opts.queue_only,
        opts.check_uris == old_opts.check_uris,
        opts.queue_buffer == old_opts.queue_buffer,
{
    law_exclude_flag(old_p.state, old_opts.queue_only, old_opts.file_in, a);
}

/// Where a flag may start, `-n`/`--nocheck` turns URI checking off.
pub proof fn law_step_nocheck(
    old_p: options_parser,
    old_opts: ashuffle_options,
    a: Seq<u8>,
    tag: mpd_tag_type,
    r: parse_action,
    p: options_parser,
    opts: ashuffle_options,
)
    requires
        step_outcome(old_p, old_opts, a, tag, r, p, opts),
        can_trans(old_p.state),
        reads_as(a, "-n") || reads_as(a, "--nocheck"),
    ensures
        switched_to(NO_STATE, old_p, old_opts, r, p, opts),
        !opts.check_uris,
{
    law_nocheck_flag(old_p.state, old_opts.queue_only, old_opts.file_in, a);
}

/// Where a flag may start, `--queue_buffer` makes the parser expect the
/// queue buffer's length.
pub proof fn law_step_queue_buffer(
    old_p: options_parser,
    old_opts: ashuffle_options,
    a: Seq<u8>,
    tag: mpd_tag_type,
    r: parse_action,
    p: options_parser,
    opts: ashuffle_options,
)
    requires
        step_outcome(old_p, old_opts, a, tag, r, p, opts),
        can_trans(old_p.state),
        reads_as(a, "--queue_buffer"),
    ensures
        switched_to(QUEUE_BUFFER, old_p, old_opts, r, p, opts),
        opts.check_uris == old_opts.check_uris,
{
    law_queue_buffer_flag(old_p.state, old_opts.queue_only, old_opts.file_in, a);
}

/// Where a flag may start and no number of songs was given yet,
/// `-o`/`--only` makes the parser expect that number.
pub proof fn law_step_only(
    old_p: options_parser,
    old_opts: ashuffle_options,
    a: Seq<u8>,
    tag: mpd_tag_type,
    r: parse_action,
    p: options_parser,
    opts: ashuffle_options,
)
    requires
        step_outcome(old_p, old_opts, a, tag, r, p, opts),
        can_trans(old_p.state),
        old_opts.queue_only == 0,
        reads_as(a, "-o") || reads_as(a, "--only"),
    ensures
        switched_to(QUEUE, old_p, old_opts, r, p, opts),
        opts.check_uris == old_opts.check_uris,
{
    law_only_flag(old_p.state, old_opts.queue_only, old_opts.file_in, a);
}

/// Where a flag may start (idle, or building a rule) and no input file is
/// open, `-f`/`--file` flushes the rule being built and makes the parser
/// expect the file's name.
pub proof fn law_step_file(
    old_p: options_parser,
    old_opts: ashuffle_options,
    a: Seq<u8>,
    tag: mpd_tag_type,
    r: parse_action,
    p: options_parser,
    opts: ashuffle_options,
)
    requires
        step_outcome(old_p, old_opts, a, tag, r, p, opts),
        can_trans(old_p.state),
        !old_opts.file_in,
        reads_as(a, "-f") || reads_as(a, "--file"),
    ensures
        switched_to(IFILE, old_p, old_opts, r, p, opts),
        opts.check_uris == old_opts.check_uris,
{
    law_file_flag(old_p.state, old_opts.queue_only, old_opts.file_in, a);
}

/// Where the input file's name is expected, `-` asks for standard input
/// and any other argument but a help flag is opened as the file's name;
/// the parser is idle again.
pub proof fn law_step_file_name(
    old_p: options_parser,
    old_opts: ashuffle_options,
    a: Seq<u8>,
    tag: mpd_tag_type,
    r: parse_action,
    p: options_parser,
    opts: ashuffle_options,
)
    requires
        step_outcome(old_p, old_opts, a, tag, r, p, opts),
        old_p.state == IFILE,
        !(reads_as(a, "--help") || reads_as(a, "-h") || reads_as(a, "-?")),
    ensures
        p.state == NO_STATE,
        reads_as(a, "-") ==> r is OpenStdin,
        !reads_as(a, "-") ==> (r matches parse_action::OpenFile(path) && path@ == a),
        opts.ruleset@ == old_opts.ruleset@,
{
    law_value_expected(old_p.state, old_opts.queue_only, old_opts.file_in, a);
    law_stdin_name(a);
}

/// Where a count is expected (`--only`'s or `--queue_buffer`'s), any
/// argument but a help flag is read as `strtoul` reads it and cut to 32
/// bits; a number out of range stops parsing.
pub proof fn law_step_count(
    old_p: options_parser,
    old_opts: ashuffle_options,
    a: Seq<u8>,
    tag: mpd_tag_type,
    r: parse_action,
    p: options_parser,
    opts: ashuffle_options,
)
    requires
        step_outcome(old_p, old_opts, a, tag, r, p, opts),
        old_p.state == QUEUE || old_p.state == QUEUE_BUFFER,
        !(reads_as(a, "--help") || reads_as(a, "-h") || reads_as(a, "-?")),
    ensures
        strtoul_spec(a) matches Some(v) ==> r is Continue && p.state == NO_STATE && (if old_p.state
            == QUEUE {
            opts.queue_only == count_value(v) && opts.queue_buffer == old_opts.queue_buffer
        } else {
            opts.queue_buffer == count_value(v) && opts.queue_only == old_opts.queue_only
        }),
        strtoul_spec(a) is None ==> (r is BadQueueLength || r is BadQueueBuffer),
{
    law_value_expected(old_p.state, old_opts.queue_only, old_opts.file_in, a);
}

/// Building a rule, an argument that is no flag is taken as a criterion's
/// field, with the tag kind it names; the next argument but a help flag is
/// its value, and the criterion is added when the field names a tag.
pub proof fn law_step_criterion(
    old_p: options_parser,
    old_opts: ashuffle_options,
    a: Seq<u8>,
    tag: mpd_tag_type,
    r: parse_action,
    p: options_parser,
    opts: ashuffle_options,
)
    requires
        step_outcome(old_p, old_opts, a, tag, r, p, opts),
        old_p.state == RULE || old_p.state == RULE_VALUE,
        old_p.state == RULE ==> !reads_as_a_flag(a),
        old_p.state == RULE_VALUE ==> !(reads_as(a, "--help") || reads_as(a, "-h") || reads_as(
            a,
            "-?",
        )),
    ensures
        r is Continue,
        opts.ruleset@ == old_opts.ruleset@,
        old_p.state == RULE ==> p.state == RULE_VALUE && p.rule == old_p.rule && (p.match_field matches Some(
            mf,
        ) && mf.0@ == a && mf.1 == tag),
        old_p.state == RULE_VALUE ==> p.state == RULE,
        old_p.state == RULE_VALUE ==> match old_p.match_field {
            Some(mf) => mf.1 != crate::mpd::MPD_TAG_UNKNOWN ==> {
                &&& p.rule.matchers@ == old_p.rule.matchers@.push(p.rule.matchers@.last())
                &&& p.rule.matchers@.last().tag == mf.1
                &&& p.rule.matchers@.last().value@ == a
            },
            None => p.rule == old_p.rule,
        },
{
    if old_p.state == RULE {
        law_plain_word(old_p.state, old_opts.queue_only, old_opts.file_in, a);
    } else {
        law_value_expected(old_p.state, old_opts.queue_only, old_opts.file_in, a);
        match old_p.match_field {
            Some(mf) => {
                if mf.1 != crate::mpd::MPD_TAG_UNKNOWN {
                    assert(p.rule.matchers@ =~= old_p.rule.matchers@.push(p.rule.matchers@.last()));
                }
            },
            None => {},
        }
    }
}

/// A count is cut to 32 bits the way a C conversion to `unsigned int` cuts
/// it: a count that fits is kept, and one that does not wraps around.
pub proof fn law_count_cut(v: u64)
    ensures
        v <= u32::MAX ==> count_value(v) == v,
        v > u32::MAX ==> count_value(v) == count_value((v - 0x1_0000_0000) as u64),
{
}

} // verus!
