//! The MPRIS music widget's data model and decisions. The desktop-IPC
//! calls themselves (finding bus names, reading player properties, sending
//! control methods) are the embedding's concern; everything the widget
//! decides from the values those calls return lives here.

use vstd::prelude::*;
use vstd::string::*;
use crate::bar::Widget;
use crate::data::{Format, FormatV};

verus! {

/// Playback progress as the player reports it.
#[derive(Clone, Copy)]
pub struct PlaybackInfo {
    pub playing: bool,
    pub progress_ms: u64,
    pub total_ms: u64,
    pub playlist_index: u32,
    pub playlist_total: u32,
}

/// A descriptive snapshot of the current song: free-text metadata, an
/// optional set of cross-catalog identifiers, and optional playback
/// progress.
pub struct SongInfo {
    pub title: String,
    pub artist: String,
    pub album: String,
    pub filename: String,
    pub musicbrainz_track: Option<String>,
    pub musicbrainz_artist: Option<String>,
    pub musicbrainz_album: Option<String>,
    pub playback: Option<PlaybackInfo>,
}

/// The bus-name prefix every MPRIS player owns a name under.
pub open spec fn player_prefix() -> Seq<char> {
    "org.mpris.MediaPlayer2."@
}

/// Whether `s` is a player's bus name.
pub open spec fn is_player_name(s: Seq<char>) -> bool {
    s.len() >= player_prefix().len() && s.subrange(0, player_prefix().len() as int)
        == player_prefix()
}

/// The first index at or after `i` holding a player name, or `names.len()`.
pub open spec fn player_index_from(names: Seq<Seq<char>>, i: int) -> int
    decreases names.len() - i,
{
    if i < 0 || i >= names.len() {
        names.len() as int
    } else if is_player_name(names[i]) {
        i
    } else {
        player_index_from(names, i + 1)
    }
}

/// The views of a list of strings, in order.
pub open spec fn str_views(v: Seq<String>) -> Seq<Seq<char>> {
    Seq::new(v.len(), |i: int| v[i]@)
}

/// Whether `s` starts with the MPRIS player bus-name prefix.
fn has_player_prefix(s: &str) -> (r: bool)
    ensures
        r == is_player_name(s@),
{
    let p = "org.mpris.MediaPlayer2.";
    let plen = p.unicode_len();
    let n = s.unicode_len();
    if n < plen {
        return false;
    }
    let mut i: usize = 0;
    loop
        invariant
            plen == p@.len(),
            n == s@.len(),
            plen <= n,
            i <= plen,
            p@ == player_prefix(),
            forall|j: int| 0 <= j < i ==> s@[j] == p@[j],
        ensures
            i <= plen,
            i < plen ==> s@[i as int] != p@[i as int],
            forall|j: int| 0 <= j < i ==> s@[j] == p@[j],
        decreases plen - i,
    {
        if i >= plen {
            break ;
        }
        if s.get_char(i) != p.get_char(i) {
            break ;
        }
        i += 1;
    }
    if i == plen {
        proof {
            assert(s@.subrange(0, plen as int) =~= player_prefix());
        }
        true
    } else {
        proof {
            if is_player_name(s@) {
                assert(s@.subrange(0, plen as int)[i as int] == s@[i as int]);
            }
        }
        false
    }
}

/// Picks the player to talk to: the first listed bus name that carries the
/// MPRIS prefix, or nothing if no player is on the bus.
pub fn pick_player(names: &Vec<String>) -> (r: Option<String>)
    ensures
        ({
            let pi = player_index_from(str_views(names@), 0);
            match r {
                Some(s) => pi < names@.len() && s@ == str_views(names@)[pi],
                None => pi == names@.len(),
            }
        }),
{
    let ghost views = str_views(names@);
    let mut i: usize = 0;
    loop
        invariant
            views == str_views(names@),
            i <= names@.len(),
            player_index_from(views, 0) == player_index_from(views, i as int),
        ensures
            i <= names@.len(),
            player_index_from(views, 0) == i as int,
            i < names@.len() ==> is_player_name(views[i as int]),
        decreases names@.len() - i,
    {
        if i >= names.len() {
            break ;
        }
        if has_player_prefix(names[i].as_str()) {
            break ;
        }
        i += 1;
    }
    if i < names.len() {
        Some(names[i].clone())
    } else {
        None
    }
}

/// Microseconds to whole milliseconds; a report the player could not make
/// (a negative count) counts as zero.
pub open spec fn micros_to_millis(us: i64) -> u64 {
    if us < 0 {
        0
    } else {
        (us / 1000) as u64
    }
}

/// Builds the playback record from the player's `PlaybackStatus`,
/// `Position` and `mpris:length` properties.
pub fn playback_info_from(status: &str, position_us: i64, length_us: i64) -> (r: PlaybackInfo)
    ensures
        r.playing == (status@ == "Playing"@),
        r.progress_ms == micros_to_millis(position_us),
        r.total_ms == micros_to_millis(length_us),
        r.playlist_index == 0,
        r.playlist_total == 0,
{
    let playing = status.to_owned() == "Playing".to_owned();
    let progress_ms: u64 = if position_us < 0 {
        0
    } else {
        (position_us / 1000) as u64
    };
    let total_ms: u64 = if length_us < 0 {
        0
    } else {
        (length_us / 1000) as u64
    };
    PlaybackInfo { playing, progress_ms, total_ms, playlist_index: 0, playlist_total: 0 }
}

/// The text of an optional metadata entry: absent entries read as empty.
pub open spec fn opt_text(o: Option<String>) -> Seq<char> {
    match o {
        Some(s) => s@,
        None => Seq::empty(),
    }
}

/// Builds the song snapshot from the optional metadata entries, keeping
/// the free-text fields as empty strings where the player gave none.
pub fn song_info_from(
    title: Option<String>,
    artist: Option<String>,
    album: Option<String>,
    filename: Option<String>,
    musicbrainz_track: Option<String>,
    musicbrainz_artist: Option<String>,
    musicbrainz_album: Option<String>,
    playback: Option<PlaybackInfo>,
) -> (r: SongInfo)
    ensures
        r.title@ == opt_text(title),
        r.artist@ == opt_text(artist),
        r.album@ == opt_text(album),
        r.filename@ == opt_text(filename),
        r.musicbrainz_track == musicbrainz_track,
        r.musicbrainz_artist == musicbrainz_artist,
        r.musicbrainz_album == musicbrainz_album,
        r.playback == playback,
{
    SongInfo {
        title: unwrap_or_empty(title),
        artist: unwrap_or_empty(artist),
        album: unwrap_or_empty(album),
        filename: unwrap_or_empty(filename),
        musicbrainz_track,
        musicbrainz_artist,
        musicbrainz_album,
        playback,
    }
}

fn unwrap_or_empty(o: Option<String>) -> (r: String)
    ensures
        r@ == opt_text(o),
{
    match o {
        Some(s) => s,
        None => String::new(),
    }
}

/// The snapshot a widget publishes while no player is reachable: all
/// fields empty, no identifiers, no playback record.
pub fn unavailable_song() -> (r: SongInfo)
    ensures
        r.title@ == Seq::<char>::empty(),
        r.artist@ == Seq::<char>::empty(),
        r.album@ == Seq::<char>::empty(),
        r.filename@ == Seq::<char>::empty(),
        r.musicbrainz_track is None,
        r.musicbrainz_artist is None,
        r.musicbrainz_album is None,
        r.playback is None,
{
    song_info_from(None, None, None, None, None, None, None, None)
}

/// The music widget: holds the most recently published value. Its
/// background activity computes a new value from a `SongInfo` snapshot and
/// stores it with `set_value`; the bar reads it with `current_value`.
pub struct MPRISMusic {
    pub last_value: Format,
}

impl MPRISMusic {
    /// A fresh widget showing empty text until real data arrives.
    pub fn new() -> (r: MPRISMusic)
        ensures
            r.value() == FormatV::Str(Seq::<char>::empty()),
    {
        MPRISMusic { last_value: Format::Str(String::new()) }
    }

    /// Publishes a newly computed value.
    pub fn set_value(&mut self, v: Format)
        ensures
            final(self).value() == v@,
    {
        self.last_value = v;
    }
}

impl Widget for MPRISMusic {
    open spec fn value(&self) -> FormatV {
        self.last_value@
    }

    fn current_value(&self) -> (r: Format) {
        self.last_value.dup()
    }
}

impl Default for MPRISMusic {
    /// Same as `new`: empty text until real data arrives.
    fn default() -> (r: Self)
        ensures
            r.value() == FormatV::Str(Seq::<char>::empty()),
    {
        MPRISMusic::new()
    }
}

} // verus!
