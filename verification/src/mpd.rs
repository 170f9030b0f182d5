//! What the library knows of the music player daemon: the numbers of its
//! protocol, and plain-value pictures of the songs, statuses and host
//! settings that the client reads from it.
use vstd::prelude::*;
use vstd::string::StringSliceAdditionalSpecFns;

verus! {

/// A tag kind, as the daemon numbers them.
#[allow(non_camel_case_types)]
pub type mpd_tag_type = i32;

pub const MPD_TAG_UNKNOWN: mpd_tag_type = -1;
pub const MPD_TAG_ARTIST: mpd_tag_type = 0;
pub const MPD_TAG_ALBUM: mpd_tag_type = 1;
pub const MPD_TAG_ALBUM_ARTIST: mpd_tag_type = 2;
pub const MPD_TAG_TITLE: mpd_tag_type = 3;
pub const MPD_TAG_TRACK: mpd_tag_type = 4;
pub const MPD_TAG_NAME: mpd_tag_type = 5;
pub const MPD_TAG_GENRE: mpd_tag_type = 6;
pub const MPD_TAG_DATE: mpd_tag_type = 7;
pub const MPD_TAG_COMPOSER: mpd_tag_type = 8;
pub const MPD_TAG_PERFORMER: mpd_tag_type = 9;
pub const MPD_TAG_COMMENT: mpd_tag_type = 10;
pub const MPD_TAG_DISC: mpd_tag_type = 11;
pub const MPD_TAG_MUSICBRAINZ_ARTISTID: mpd_tag_type = 12;
pub const MPD_TAG_MUSICBRAINZ_ALBUMID: mpd_tag_type = 13;
pub const MPD_TAG_MUSICBRAINZ_ALBUMARTISTID: mpd_tag_type = 14;
pub const MPD_TAG_MUSICBRAINZ_TRACKID: mpd_tag_type = 15;
pub const MPD_TAG_MUSICBRAINZ_RELEASETRACKID: mpd_tag_type = 16;
pub const MPD_TAG_ARTIST_SORT: mpd_tag_type = 17;
pub const MPD_TAG_ALBUM_ARTIST_SORT: mpd_tag_type = 18;
pub const MPD_TAG_COUNT: mpd_tag_type = 19;

/// A set of idle events, one bit per event.
#[allow(non_camel_case_types)]
pub type mpd_idle = u32;

pub const MPD_IDLE_DATABASE: mpd_idle = 1;
pub const MPD_IDLE_STORED_PLAYLIST: mpd_idle = 2;
pub const MPD_IDLE_QUEUE: mpd_idle = 4;
pub const MPD_IDLE_PLAYLIST: mpd_idle = 4;
pub const MPD_IDLE_PLAYER: mpd_idle = 8;
pub const MPD_IDLE_MIXER: mpd_idle = 16;
pub const MPD_IDLE_OUTPUT: mpd_idle = 32;
pub const MPD_IDLE_OPTIONS: mpd_idle = 64;
pub const MPD_IDLE_UPDATE: mpd_idle = 128;
pub const MPD_IDLE_STICKER: mpd_idle = 256;
pub const MPD_IDLE_SUBSCRIPTION: mpd_idle = 512;
pub const MPD_IDLE_MESSAGE: mpd_idle = 1024;

/// The player's state.
#[allow(non_camel_case_types)]
pub type mpd_state = u32;

pub const MPD_STATE_UNKNOWN: mpd_state = 0;
pub const MPD_STATE_STOP: mpd_state = 1;
pub const MPD_STATE_PLAY: mpd_state = 2;
pub const MPD_STATE_PAUSE: mpd_state = 3;

/// The kind of error a connection is in.
#[allow(non_camel_case_types)]
pub type mpd_error = u32;

pub const MPD_ERROR_SUCCESS: mpd_error = 0;
pub const MPD_ERROR_OOM: mpd_error = 1;
pub const MPD_ERROR_ARGUMENT: mpd_error = 2;
pub const MPD_ERROR_STATE: mpd_error = 3;
pub const MPD_ERROR_TIMEOUT: mpd_error = 4;
pub const MPD_ERROR_SYSTEM: mpd_error = 5;
pub const MPD_ERROR_RESOLVER: mpd_error = 6;
pub const MPD_ERROR_MALFORMED: mpd_error = 7;
pub const MPD_ERROR_CLOSED: mpd_error = 8;
pub const MPD_ERROR_SERVER: mpd_error = 9;

/// The error code that the server itself reported.
#[allow(non_camel_case_types)]
pub type mpd_server_error = i32;

pub const MPD_SERVER_ERROR_UNK: mpd_server_error = -1;
pub const MPD_SERVER_ERROR_NOT_LIST: mpd_server_error = 1;
pub const MPD_SERVER_ERROR_ARG: mpd_server_error = 2;
pub const MPD_SERVER_ERROR_PASSWORD: mpd_server_error = 3;
pub const MPD_SERVER_ERROR_PERMISSION: mpd_server_error = 4;
pub const MPD_SERVER_ERROR_UNKNOWN_CMD: mpd_server_error = 5;
pub const MPD_SERVER_ERROR_NO_EXIST: mpd_server_error = 50;
pub const MPD_SERVER_ERROR_PLAYLIST_MAX: mpd_server_error = 51;
pub const MPD_SERVER_ERROR_SYSTEM: mpd_server_error = 52;
pub const MPD_SERVER_ERROR_PLAYLIST_LOAD: mpd_server_error = 53;
pub const MPD_SERVER_ERROR_UPDATE_ALREADY: mpd_server_error = 54;
pub const MPD_SERVER_ERROR_PLAYER_SYNC: mpd_server_error = 55;
pub const MPD_SERVER_ERROR_EXIST: mpd_server_error = 56;

/// A song as the client reads it: its URI, and for each tag kind `t` in
/// `0..tags.len()` the first value of that tag, if the song has one.
#[allow(non_camel_case_types)]
pub struct mpd_song {
    pub uri: Vec<u8>,
    pub tags: Vec<Option<Vec<u8>>>,
}

/// The first value of tag `tag` of a song, as bytes.
pub open spec fn song_tag(song: mpd_song, tag: mpd_tag_type) -> Option<Seq<u8>> {
    if 0 <= tag < song.tags@.len() {
        match song.tags@[tag as int] {
            Some(v) => Some(v@),
            None => None,
        }
    } else {
        None
    }
}

/// The first value of tag `tag` of `song`, if it has one.
pub fn mpd_song_get_tag(song: &mpd_song, tag: mpd_tag_type) -> (r: Option<&Vec<u8>>)
    ensures
        r is Some <==> song_tag(*song, tag) is Some,
        r matches Some(v) ==> song_tag(*song, tag) == Some(v@),
{
    if tag < 0 || tag as usize >= song.tags.len() {
        return None;
    }
    match &song.tags[tag as usize] {
        Some(v) => Some(v),
        None => None,
    }
}

/// The part of a player status that the client decides on.
#[allow(non_camel_case_types)]
pub struct mpd_status {
    /// Whether the player plays, pauses or stopped.
    pub state: mpd_state,
    /// The number of songs in the queue.
    pub queue_length: u32,
    /// The queue position of the current song, or -1 when there is none.
    pub song_pos: i32,
    /// Whether single mode is on.
    pub single: bool,
}

/// The daemon's address, and the password that came with it.
#[allow(non_camel_case_types)]
pub struct mpd_host {
    pub host: Vec<u8>,
    pub password: Option<Vec<u8>>,
}

#[verifier::external_type_specification]
#[verifier::external_body]
pub struct ExUtf8Error(core::str::Utf8Error);

/// `std::str::from_utf8`: the bytes read as a string slice when they are
/// well-formed UTF-8, and an error otherwise. The slice holds exactly the
/// given bytes.
#[verifier::external_body]
fn str_from_utf8(v: &[u8]) -> (r: Result<&str, core::str::Utf8Error>)
    ensures
        r is Ok <==> vstd::utf8::valid_utf8(v@),
        r matches Ok(s) ==> s.spec_bytes() == v@,
{
    core::str::from_utf8(v)
}

impl mpd_host {
    /// The host name as text; an error when its bytes are not UTF-8.
    pub fn hostname(&self) -> (r: Result<&str, core::str::Utf8Error>)
        ensures
            r is Ok <==> vstd::utf8::valid_utf8(self.host@),
            r matches Ok(s) ==> s.spec_bytes() == self.host@,
    {
        str_from_utf8(self.host.as_slice())
    }
}

} // verus!
