//! The shared song state and the decisions of the three loops around it:
//! the song watcher, the playback clock and the renderer.
use vstd::prelude::*;
use crate::text::{chars_of, extend_str, owned, string_of};

verus! {

// ----------------------------------------------------------------------------
// Shared song state
// ----------------------------------------------------------------------------

/// The song and lyrics that the watcher publishes and the renderer shows;
/// `L` is the type of one timed lyric line.
pub struct LyricsState<L> {
    pub artist: String,
    pub title: String,
    pub lines: Vec<L>,
    pub plain: String,
    pub status: String,
    pub has_sync: bool,
    pub song_generation: u64,
}

/// What a lyrics lookup found for a song.
pub enum LyricsLookup<L> {
    Synced(Vec<L>),
    Plain(String),
    Missing,
}

/// The header shown before anything is playing.
pub open spec fn waiting_title() -> Seq<char> {
    "Detectando audio..."@
}

/// The status shown before anything is playing.
pub open spec fn waiting_status() -> Seq<char> {
    "Esperando reproductor..."@
}

/// The status while lyrics are being looked up.
pub open spec fn searching_status() -> Seq<char> {
    "⟳ Buscando letras..."@
}

/// The status once synced lyrics are in.
pub open spec fn synced_status() -> Seq<char> {
    "♪ Sincronizado"@
}

/// The status once plain lyrics are in.
pub open spec fn plain_status() -> Seq<char> {
    "♪ Sin timestamps"@
}

/// The status when no lyrics were found.
pub open spec fn missing_status() -> Seq<char> {
    "[ Letras no encontradas ]"@
}

impl<L> LyricsState<L> {
    /// The state before any song is known.
    pub open spec fn is_initial(&self) -> bool {
        &&& self.artist@ == Seq::<char>::empty()
        &&& self.title@ == waiting_title()
        &&& self.lines@ == Seq::<L>::empty()
        &&& self.plain@ == Seq::<char>::empty()
        &&& self.status@ == waiting_status()
        &&& !self.has_sync
        &&& self.song_generation == 0
    }

    /// This state shows the song `artist` - `title`.
    pub open spec fn is_song(&self, artist: Seq<char>, title: Seq<char>) -> bool {
        self.artist@ == artist && self.title@ == title
    }

    /// The state before any song is known: waiting for the player.
    pub fn new() -> (s: Self)
        ensures
            s.is_initial(),
    {
        LyricsState {
            artist: String::new(),
            title: owned("Detectando audio..."),
            lines: Vec::new(),
            plain: String::new(),
            status: owned("Esperando reproductor..."),
            has_sync: false,
            song_generation: 0,
        }
    }

    /// Forgets the song: back to waiting for the player.
    pub fn reset(&mut self)
        ensures
            final(self).is_initial(),
    {
        *self = Self::new();
    }

    /// `after` is `before` once the song `artist` - `title` has begun: the
    /// song shown, the old lyrics dropped, the lookup marked as running and
    /// the song counted.
    pub open spec fn began_song(before: &Self, after: &Self, artist: Seq<char>, title: Seq<char>) -> bool {
        &&& after.artist@ == artist
        &&& after.title@ == title
        &&& after.lines@ == Seq::<L>::empty()
        &&& after.plain@ == Seq::<char>::empty()
        &&& !after.has_sync
        &&& after.status@ == searching_status()
        &&& after.song_generation == before.song_generation + 1
    }

    /// `after` is `before` once the lookup for `artist` - `title` has
    /// reported `found`: recorded when that song is still the one shown,
    /// ignored otherwise.
    pub open spec fn applied_lookup(
        before: &Self,
        after: &Self,
        artist: Seq<char>,
        title: Seq<char>,
        found: LyricsLookup<L>,
    ) -> bool {
        if before.is_song(artist, title) {
            &&& after.artist == before.artist
            &&& after.title == before.title
            &&& after.song_generation == before.song_generation
            &&& match found {
                LyricsLookup::Synced(lines) => {
                    &&& after.has_sync
                    &&& after.lines == lines
                    &&& after.plain == before.plain
                    &&& after.status@ == synced_status()
                },
                LyricsLookup::Plain(text) => {
                    &&& !after.has_sync
                    &&& after.lines == before.lines
                    &&& after.plain == text
                    &&& after.status@ == plain_status()
                },
                LyricsLookup::Missing => {
                    &&& after.has_sync == before.has_sync
                    &&& after.lines == before.lines
                    &&& after.plain == before.plain
                    &&& after.status@ == missing_status()
                },
            }
        } else {
            *after == *before
        }
    }

    /// A new song started: shows it, drops the old lyrics, marks the lookup
    /// as running and counts one more song.
    pub fn begin_song(&mut self, artist: String, title: String)
        requires
            old(self).song_generation < u64::MAX,
        ensures
            Self::began_song(old(self), final(self), artist@, title@),
    {
        self.artist = artist;
        self.title = title;
        self.lines = Vec::new();
        self.plain = String::new();
        self.has_sync = false;
        self.status = owned("⟳ Buscando letras...");
        self.song_generation = self.song_generation + 1;
    }

    /// Records what the lookup for `artist` - `title` found, provided that
    /// song is still the one shown; otherwise the state stays as it is.
    pub fn apply_lookup(&mut self, artist: &String, title: &String, found: LyricsLookup<L>)
        ensures
            Self::applied_lookup(old(self), final(self), artist@, title@, found),
    {
        if self.artist == *artist && self.title == *title {
            match found {
                LyricsLookup::Synced(lines) => {
                    self.has_sync = true;
                    self.lines = lines;
                    self.status = owned("♪ Sincronizado");
                },
                LyricsLookup::Plain(text) => {
                    self.has_sync = false;
                    self.plain = text;
                    self.status = owned("♪ Sin timestamps");
                },
                LyricsLookup::Missing => {
                    self.status = owned("[ Letras no encontradas ]");
                },
            }
        }
    }
}

// ----------------------------------------------------------------------------
// Watching the player
// ----------------------------------------------------------------------------

/// How the song reported by the player relates to the last one handled.
#[derive(Debug, Clone, Copy, PartialEq, Eq, Structural)]
pub enum SongChange {
    /// A song other than the last one is playing.
    Started,
    /// Nothing is playing any more, after a song.
    Stopped,
    /// Nothing to do.
    Same,
}

/// The change that a poll of the player makes, given the last song handled
/// (empty strings when none).
pub open spec fn song_change(
    last: (Seq<char>, Seq<char>),
    polled: Option<(Seq<char>, Seq<char>)>,
) -> SongChange {
    match polled {
        Some(song) => if song != last {
            SongChange::Started
        } else {
            SongChange::Same
        },
        None => if last.0.len() > 0 || last.1.len() > 0 {
            SongChange::Stopped
        } else {
            SongChange::Same
        },
    }
}

/// Compares what the player reports with the last song handled.
pub fn watch_song(
    last_artist: &String,
    last_title: &String,
    polled: &Option<(String, String)>,
) -> (c: SongChange)
    ensures
        c == song_change(
            (last_artist@, last_title@),
            match polled {
                Some((a, t)) => Some((a@, t@)),
                None => None,
            },
        ),
{
    match polled {
        Some((artist, title)) => {
            if *artist == *last_artist && *title == *last_title {
                SongChange::Same
            } else {
                SongChange::Started
            }
        },
        None => {
            if !last_artist.as_str().is_empty() || !last_title.as_str().is_empty() {
                SongChange::Stopped
            } else {
                SongChange::Same
            }
        },
    }
}

// ----------------------------------------------------------------------------
// Rendering decisions
// ----------------------------------------------------------------------------

/// What the lyrics pane shows.
#[derive(Debug, Clone, Copy, PartialEq, Eq, Structural)]
pub enum LyricsDisplay {
    /// The synced lines, the current one highlighted.
    Synced,
    /// The plain lyrics text.
    Plain,
    /// The status message.
    Status,
}

/// How strongly a lyric line is drawn, by its distance from the current one.
#[derive(Debug, Clone, Copy, PartialEq, Eq, Structural)]
pub enum LineTier {
    Current,
    Adjacent,
    Near,
    Far,
}

/// The tier of line `i` when line `current` is being sung.
pub open spec fn tier_of(i: int, current: int) -> LineTier {
    let d = if i >= current { i - current } else { current - i };
    if d == 0 {
        LineTier::Current
    } else if d == 1 {
        LineTier::Adjacent
    } else if d == 2 {
        LineTier::Near
    } else {
        LineTier::Far
    }
}

/// The text drawn for a lyric line: an arrow before the current one, two
/// spaces before the others.
pub open spec fn lyric_line_text(is_current: bool, text: Seq<char>) -> Seq<char> {
    if is_current {
        "▶ "@ + text
    } else {
        "  "@ + text
    }
}

/// The header text: the title alone while no artist is known, otherwise
/// "artist — title".
pub open spec fn header_of(artist: Seq<char>, title: Seq<char>) -> Seq<char> {
    if artist.len() == 0 {
        title
    } else {
        artist + " — "@ + title
    }
}

impl<L> LyricsState<L> {
    /// Which of the three panes to draw.
    pub open spec fn display_of(&self) -> LyricsDisplay {
        if self.has_sync && self.lines@.len() > 0 {
            LyricsDisplay::Synced
        } else if self.plain@.len() > 0 {
            LyricsDisplay::Plain
        } else {
            LyricsDisplay::Status
        }
    }

    /// Synced lines when there are some, else the plain text when there is
    /// some, else the status.
    pub fn display(&self) -> (d: LyricsDisplay)
        ensures
            d == self.display_of(),
    {
        if self.has_sync && self.lines.len() > 0 {
            LyricsDisplay::Synced
        } else if !self.plain.as_str().is_empty() {
            LyricsDisplay::Plain
        } else {
            LyricsDisplay::Status
        }
    }

    /// The header line's text.
    pub fn header_text(&self) -> (h: String)
        ensures
            h@ == header_of(self.artist@, self.title@),
    {
        if self.artist.as_str().is_empty() {
            self.title.clone()
        } else {
            let mut out = chars_of(self.artist.as_str());
            extend_str(&mut out, " — ");
            extend_str(&mut out, self.title.as_str());
            string_of(&out)
        }
    }
}

/// The tier and text of lyric line `i` while line `current` is sung.
pub fn lyric_line(i: usize, current: usize, text: &str) -> (out: (LineTier, String))
    ensures
        out.0 == tier_of(i as int, current as int),
        out.1@ == lyric_line_text(i == current, text@),
{
    let d = if i >= current {
        i - current
    } else {
        current - i
    };
    let tier = if d == 0 {
        LineTier::Current
    } else if d == 1 {
        LineTier::Adjacent
    } else if d == 2 {
        LineTier::Near
    } else {
        LineTier::Far
    };
    let mut out = if i == current {
        chars_of("▶ ")
    } else {
        chars_of("  ")
    };
    extend_str(&mut out, text);
    (tier, string_of(&out))
}

/// The blank lines drawn above (and below) the synced lyrics so that the
/// current line sits in the middle of a pane `height` rows high, two of them
/// taken by the frame.
pub fn centering_padding(height: u16) -> (n: usize)
    ensures
        n == (if height >= 2 {
            (height - 2) / 2
        } else {
            0
        }),
{
    let h = height as usize;
    if h >= 2 {
        (h - 2) / 2
    } else {
        0
    }
}

// ----------------------------------------------------------------------------
// Playback clock
// ----------------------------------------------------------------------------

/// What the playback clock has to do after one look at the player.
#[derive(Debug, Clone, Copy, PartialEq, Eq, Structural)]
pub struct ClockStep {
    /// A new song: the position goes back to zero and the clock restarts.
    pub reset: bool,
    /// Playback resumed: the clock restarts from the position kept.
    pub resume: bool,
    /// Playback paused: the time run so far is added to the position.
    pub pause: bool,
}

/// The playback clock's memory between two looks at the player.
pub struct PlaybackClock {
    pub was_playing: bool,
    pub last_generation: u64,
}

/// The step for a look that finds the player `playing` during song
/// `generation`.
pub open spec fn clock_step(
    was_playing: bool,
    last_generation: u64,
    playing: bool,
    generation: u64,
) -> ClockStep {
    let reset = generation != last_generation;
    let running = was_playing && !reset;
    ClockStep { reset, resume: playing && !running, pause: !playing && running }
}

impl PlaybackClock {
    /// A clock that has seen no song yet.
    pub fn new() -> (c: Self)
        ensures
            !c.was_playing,
            c.last_generation == 0,
    {
        PlaybackClock { was_playing: false, last_generation: 0 }
    }

    /// Looks at the player once and says what to do with the clock.
    pub fn step(&mut self, playing: bool, generation: u64) -> (s: ClockStep)
        ensures
            s == clock_step(old(self).was_playing, old(self).last_generation, playing, generation),
            final(self).was_playing == playing,
            final(self).last_generation == generation,
    {
        let reset = generation != self.last_generation;
        if reset {
            self.last_generation = generation;
            self.was_playing = false;
        }
        let resume = playing && !self.was_playing;
        let pause = !playing && self.was_playing;
        self.was_playing = playing;
        ClockStep { reset, resume, pause }
    }
}

// ----------------------------------------------------------------------------
// Laws
// ----------------------------------------------------------------------------
/// Lyrics looked up for the song that has just begun are recorded: the
/// song stays shown, and synced lines, plain text or the not-found status
/// take their place.
pub proof fn lookup_for_current_song_is_recorded<L>(
    s0: LyricsState<L>,
    s1: LyricsState<L>,
    s2: LyricsState<L>,
    artist: Seq<char>,
    title: Seq<char>,
    found: LyricsLookup<L>,
)
    requires
        LyricsState::began_song(&s0, &s1, artist, title),
        LyricsState::applied_lookup(&s1, &s2, artist, title, found),
    ensures
        s2.is_song(artist, title),
        s2.song_generation == s0.song_generation + 1,
        match found {
            LyricsLookup::Synced(lines) => s2.has_sync && s2.lines == lines && (lines@.len() > 0
                ==> s2.display_of() == LyricsDisplay::Synced),
            LyricsLookup::Plain(text) => !s2.has_sync && s2.plain == text && (text@.len() > 0
                ==> s2.display_of() == LyricsDisplay::Plain),
            LyricsLookup::Missing => s2.status@ == missing_status() && s2.display_of()
                == LyricsDisplay::Status,
        },
{
}

/// A lookup that answers for a song no longer shown changes nothing.
pub proof fn stale_lookup_is_ignored<L>(
    s1: LyricsState<L>,
    s2: LyricsState<L>,
    artist: Seq<char>,
    title: Seq<char>,
    found: LyricsLookup<L>,
)
    requires
        !s1.is_song(artist, title),
        LyricsState::applied_lookup(&s1, &s2, artist, title, found),
    ensures
        s2 == s1,
{
}

/// Once a new song has been handled, seeing it again is no change; with no
/// song before and none now there is nothing to do either.
pub proof fn watching_is_idempotent(last: (Seq<char>, Seq<char>), song: (Seq<char>, Seq<char>))
    ensures
        song_change(song, Some(song)) == SongChange::Same,
        song_change((Seq::empty(), Seq::empty()), None) == SongChange::Same,
        song != last ==> song_change(last, Some(song)) == SongChange::Started,
{
}

/// The playback clock never pauses and resumes in one step, never pauses on
/// a new song, and does nothing when it sees the same thing twice.
pub proof fn clock_reacts_only_to_changes(
    was_playing: bool,
    last_generation: u64,
    playing: bool,
    generation: u64,
)
    ensures
        !(clock_step(was_playing, last_generation, playing, generation).resume && clock_step(
            was_playing,
            last_generation,
            playing,
            generation,
        ).pause),
        clock_step(was_playing, last_generation, playing, generation).reset ==> !clock_step(
            was_playing,
            last_generation,
            playing,
            generation,
        ).pause,
        clock_step(playing, generation, playing, generation) == (ClockStep {
            reset: false,
            resume: false,
            pause: false,
        }),
{
}

} // verus!
