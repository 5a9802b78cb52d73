//! The player's state and how it answers keys and ticks.

use vstd::prelude::*;
use vstd::arithmetic::div_mod::lemma_fundamental_div_mod_converse;
use crate::playback::PlaybackState;
use crate::track::{Track, sort_by_title, sorted_by_title, stable_rearrangement};

verus! {

/// The screen on show: the list of tracks, or the track that plays.
#[derive(Clone, Copy, Debug, PartialEq, Eq, Structural)]
pub enum Screen {
    TrackList,
    Player,
}

/// A key that the user pressed.
#[derive(Clone, Copy, Debug, PartialEq, Eq, Structural)]
pub enum Key {
    Char(char),
    Tab,
    Enter,
    Up,
    Down,
    Left,
    Right,
    Other,
}

/// What the audio side and the main loop are to do after a key or a tick.
#[derive(Debug)]
pub enum Action {
    /// Nothing beyond the change of state.
    Nothing,
    /// Leave the player.
    Quit,
    /// Stop what plays, load the file at `path` and play it; once it is loaded,
    /// `App::finish_play` takes the track's length (and shows the player when
    /// `show_player` is set).
    Play { path: String, show_player: bool },
    /// Pause what plays, or resume it.
    TogglePause,
    /// Turn the volume up one step.
    VolumeUp,
    /// Turn the volume down one step.
    VolumeDown,
}

/// The player: its tracks, what plays, the screen, the highlighted track and the
/// animation clock.
pub struct App {
    pub tracks: Vec<Track>,
    pub playback: PlaybackState,
    pub ui_screen: Screen,
    pub selected: usize,
    pub tick: u64,
}

// ---------------------------------------------------------------------------
// Specifications
// ---------------------------------------------------------------------------

/// The track after track `i` of `len`, wrapping to the first.
pub open spec fn next_index(i: int, len: int) -> int {
    (i + 1) % len
}

/// The track before track `i` of `len`, wrapping to the last.
pub open spec fn previous_index(i: int, len: int) -> int {
    if i == 0 {
        len - 1
    } else {
        i - 1
    }
}

/// The highlight after moving down: one further, but not past the last track.
pub open spec fn selection_down(selected: int, len: int) -> int {
    let last = if len == 0 {
        0
    } else {
        len - 1
    };
    if selected + 1 < last {
        selected + 1
    } else {
        last
    }
}

/// The highlight after moving up: one back, but not before the first track.
pub open spec fn selection_up(selected: int) -> int {
    if selected == 0 {
        0
    } else {
        selected - 1
    }
}

/// The other screen.
pub open spec fn other_screen(s: Screen) -> Screen {
    match s {
        Screen::TrackList => Screen::Player,
        Screen::Player => Screen::TrackList,
    }
}

/// Whether the key activates: Enter or the space bar.
pub open spec fn is_activate(key: Key) -> bool {
    key == Key::Enter || key == Key::Char(' ')
}

/// Whether pressing `key` on `screen` starts a track playing.
pub open spec fn key_plays(key: Key, screen: Screen) -> bool {
    (is_activate(key) && screen == Screen::TrackList) || key == Key::Right || key == Key::Left
}

/// Whether the positions that `key` works from can be worked with: playing
/// the highlighted track needs it on the list; moving the highlight down needs
/// room to count one further; Right needs a list and room to count one
/// further; Left needs a list and a playing position at most its length.
pub open spec fn key_in_range(app: App, key: Key) -> bool {
    let len = app.tracks@.len();
    if is_activate(key) && app.ui_screen == Screen::TrackList {
        app.selected < len
    } else if key == Key::Down {
        app.selected < usize::MAX
    } else if key == Key::Right {
        len > 0 && app.playback.index < usize::MAX
    } else if key == Key::Left {
        len > 0 && app.playback.index <= len
    } else {
        true
    }
}

/// The highlighted track after pressing `key`.
pub open spec fn selected_after(app: App, key: Key) -> int {
    let len = app.tracks@.len() as int;
    match key {
        Key::Down => selection_down(app.selected as int, len),
        Key::Up => selection_up(app.selected as int),
        Key::Right => next_index(app.playback.index as int, len),
        Key::Left => previous_index(app.playback.index as int, len),
        _ => app.selected as int,
    }
}

/// The screen after pressing `key`.
pub open spec fn screen_after(app: App, key: Key) -> Screen {
    if key == Key::Tab {
        other_screen(app.ui_screen)
    } else {
        app.ui_screen
    }
}

/// What pressing `key` asks for, when it does not start a track.
pub open spec fn plain_action(key: Key, screen: Screen) -> Action {
    if key == Key::Char('q') {
        Action::Quit
    } else if is_activate(key) && screen == Screen::Player {
        Action::TogglePause
    } else if key == Key::Char('+') || key == Key::Char('=') {
        Action::VolumeUp
    } else if key == Key::Char('-') {
        Action::VolumeDown
    } else {
        Action::Nothing
    }
}

/// The animation clock one tick later, wrapping round.
pub open spec fn tick_after(tick: u64) -> u64 {
    if tick == u64::MAX {
        0
    } else {
        (tick + 1) as u64
    }
}

impl App {
    /// The highlighted track and the playing track are tracks of the list (both
    /// the first position when the list is empty).
    pub open spec fn wf(&self) -> bool {
        if self.tracks@.len() == 0 {
            self.selected == 0 && self.playback.index == 0
        } else {
            self.selected < self.tracks@.len() && self.playback.index < self.tracks@.len()
        }
    }

    /// The track at `i` is the highlighted and the playing one.
    pub open spec fn plays_track(&self, i: int) -> bool {
        &&& self.selected == i
        &&& self.playback.index == i
    }
}

// ---------------------------------------------------------------------------
// Operations
// ---------------------------------------------------------------------------

impl App {
    /// The player over `tracks`, ordered by title (tracks of equal title keep
    /// their order), on the track list with the first track highlighted.
    pub fn new(tracks: Vec<Track>) -> (app: App)
        ensures
            app.wf(),
            app.tracks@.len() == tracks@.len(),
            sorted_by_title(app.tracks@),
            stable_rearrangement(app.tracks@, tracks@),
            app.tracks@.to_multiset() == tracks@.to_multiset(),
            app.selected == 0,
            app.playback.index == 0,
            app.playback.duration@ == 0,
            app.ui_screen == Screen::TrackList,
            app.tick == 0,
    {
        let tracks = sort_by_title(tracks);
        App {
            tracks,
            playback: PlaybackState::new(),
            ui_screen: Screen::TrackList,
            selected: 0,
            tick: 0,
        }
    }

    /// Makes the highlighted track the playing one and returns the path of the
    /// file to load and play; the playback's length stays as it was until the
    /// file has been loaded (see `finish_play`).
    pub fn play_selected(&mut self) -> (path: String)
        requires
            old(self).selected < old(self).tracks@.len(),
        ensures
            final(self).tracks@ == old(self).tracks@,
            final(self).ui_screen == old(self).ui_screen,
            final(self).tick == old(self).tick,
            final(self).plays_track(old(self).selected as int),
            final(self).playback.duration == old(self).playback.duration,
            path == old(self).tracks@[old(self).selected as int].path,
    {
        self.playback.index = self.selected;
        self.tracks[self.selected].path.clone()
    }

    /// Once the playing track's file has been loaded: the playback takes the
    /// track's length, and the player is shown when `show_player` is set.
    pub fn finish_play(&mut self, show_player: bool)
        requires
            old(self).playback.index < old(self).tracks@.len(),
        ensures
            final(self).tracks@ == old(self).tracks@,
            final(self).tick == old(self).tick,
            final(self).selected == old(self).selected,
            final(self).playback.index == old(self).playback.index,
            final(self).playback.duration == old(self).tracks@[old(
                self,
            ).playback.index as int].duration,
            final(self).ui_screen == (if show_player {
                Screen::Player
            } else {
                old(self).ui_screen
            }),
    {
        self.playback.duration = self.tracks[self.playback.index].duration;
        if show_player {
            self.ui_screen = Screen::Player;
        }
    }

    /// When the playing track has `finished`, moves on to the next track (after
    /// the last comes the first) and returns the path of its file to play.
    pub fn auto_next(&mut self, finished: bool) -> (r: Option<String>)
        requires
            finished ==> old(self).tracks@.len() > 0 && old(self).playback.index < usize::MAX,
        ensures
            old(self).wf() ==> final(self).wf(),
            final(self).tracks@ == old(self).tracks@,
            final(self).ui_screen == old(self).ui_screen,
            final(self).tick == old(self).tick,
            !finished ==> r is None && final(self).selected == old(self).selected
                && final(self).playback == old(self).playback,
            finished ==> {
                let next = next_index(
                    old(self).playback.index as int,
                    old(self).tracks@.len() as int,
                );
                &&& final(self).plays_track(next)
                &&& final(self).playback.duration == old(self).playback.duration
                &&& r == Some(old(self).tracks@[next].path)
            },
    {
        if finished {
            let len = self.tracks.len();
            let next = (self.playback.index + 1) % len;
            self.selected = next;
            let path = self.play_selected();
            Some(path)
        } else {
            None
        }
    }

    /// Advances the animation clock by one tick, wrapping round.
    pub fn advance_tick(&mut self)
        ensures
            final(self).tick == tick_after(old(self).tick),
            final(self).tracks@ == old(self).tracks@,
            final(self).playback == old(self).playback,
            final(self).ui_screen == old(self).ui_screen,
            final(self).selected == old(self).selected,
    {
        self.tick = self.tick.wrapping_add(1);
    }

    /// Whether `key` can be answered from this state (`key_in_range`).
    pub fn can_handle(&self, key: Key) -> (r: bool)
        ensures
            r == key_in_range(*self, key),
    {
        let len = self.tracks.len();
        let activate = match key {
            Key::Enter | Key::Char(' ') => true,
            _ => false,
        };
        if activate && self.ui_screen == Screen::TrackList {
            return self.selected < len;
        }
        match key {
            Key::Down => self.selected < usize::MAX,
            Key::Right => len > 0 && self.playback.index < usize::MAX,
            Key::Left => len > 0 && self.playback.index <= len,
            _ => true,
        }
    }

    /// Answers a key: `q` quits; Tab switches screen; Enter or space plays the
    /// highlighted track from the list (the player is shown once it has loaded),
    /// or pauses and resumes on the player;
    /// Down and Up move the highlight; Right and Left play the next and the
    /// previous track (wrapping round); `+` or `=` and `-` turn the volume up
    /// and down.
    ///
    /// Playing a track needs a track to play (see `key_in_range`).
    pub fn handle_key(&mut self, key: Key) -> (a: Action)
        requires
            key_in_range(*old(self), key),
        ensures
            old(self).wf() ==> final(self).wf(),
            final(self).tracks@ == old(self).tracks@,
            final(self).tick == old(self).tick,
            final(self).ui_screen == screen_after(*old(self), key),
            final(self).selected == selected_after(*old(self), key),
            key_plays(key, old(self).ui_screen) ==> {
                &&& final(self).plays_track(final(self).selected as int)
                &&& final(self).playback.duration == old(self).playback.duration
                &&& a == (Action::Play {
                    path: old(self).tracks@[final(self).selected as int].path,
                    show_player: is_activate(key),
                })
            },
            !key_plays(key, old(self).ui_screen) ==> {
                &&& final(self).playback == old(self).playback
                &&& a == plain_action(key, old(self).ui_screen)
            },
    {
        match key {
            Key::Char('q') => Action::Quit,
            Key::Tab => {
                self.ui_screen = match self.ui_screen {
                    Screen::TrackList => Screen::Player,
                    Screen::Player => Screen::TrackList,
                };
                Action::Nothing
            },
            Key::Enter | Key::Char(' ') => {
                match self.ui_screen {
                    Screen::TrackList => {
                        let path = self.play_selected();
                        Action::Play { path, show_player: true }
                    },
                    Screen::Player => Action::TogglePause,
                }
            },
            Key::Down => {
                let last = self.tracks.len().saturating_sub(1);
                let down = self.selected + 1;
                self.selected = if down < last {
                    down
                } else {
                    last
                };
                Action::Nothing
            },
            Key::Up => {
                self.selected = self.selected.saturating_sub(1);
                Action::Nothing
            },
            Key::Right => {
                let len = self.tracks.len();
                self.selected = (self.playback.index + 1) % len;
                Action::Play { path: self.play_selected(), show_player: false }
            },
            Key::Left => {
                self.selected = if self.playback.index == 0 {
                    self.tracks.len() - 1
                } else {
                    self.playback.index - 1
                };
                Action::Play { path: self.play_selected(), show_player: false }
            },
            Key::Char('+') | Key::Char('=') => Action::VolumeUp,
            Key::Char('-') => Action::VolumeDown,
            _ => Action::Nothing,
        }
    }
}

// ---------------------------------------------------------------------------
// Laws
// ---------------------------------------------------------------------------

/// Right then Left comes back to the same track, and so does Left then Right.
pub proof fn lemma_next_then_previous(i: int, len: int)
    requires
        0 <= i < len,
    ensures
        previous_index(next_index(i, len), len) == i,
        next_index(previous_index(i, len), len) == i,
{
    if i + 1 < len {
        lemma_fundamental_div_mod_converse(i + 1, len, 0, i + 1);
    } else {
        lemma_fundamental_div_mod_converse(i + 1, len, 1, 0);
    }
    if i == 0 {
        lemma_fundamental_div_mod_converse(len, len, 1, 0);
    } else {
        lemma_fundamental_div_mod_converse(i, len, 0, i);
    }
}

/// Tab twice shows the screen that was on show.
pub proof fn lemma_tab_twice(s: Screen)
    ensures
        other_screen(other_screen(s)) == s,
{
}

/// Moving the highlight down and then up comes back, unless it was on the last
/// track already.
pub proof fn lemma_down_then_up(selected: int, len: int)
    requires
        0 <= selected,
        selected + 1 < len,
    ensures
        selection_up(selection_down(selected, len)) == selected,
{
}

/// The highlight stays on the list: moving it up or down from a track of the
/// list lands on a track of the list.
pub proof fn lemma_selection_in_range(selected: int, len: int)
    requires
        0 <= selected < len,
    ensures
        0 <= selection_down(selected, len) < len,
        0 <= selection_up(selected) < len,
        selection_down(selected, len) >= selected,
        selection_up(selected) <= selected,
{
}

/// Whether the list widget's selection follows the highlight after `key`:
/// after Down and Up only.
pub fn list_follows_highlight(key: Key) -> (r: bool)
    ensures
        r == (key == Key::Down || key == Key::Up),
{
    match key {
        Key::Down | Key::Up => true,
        _ => false,
    }
}

/// Each action comes from its own keys: quitting only from `q`, pausing only
/// from Enter or space on the player, turning the volume up only from `+` or
/// `=` and down only from `-`; Tab, Up, Down and every other key ask for
/// nothing; playing comes only from Enter or space on the list, Right and Left.
pub proof fn lemma_actions_come_from_their_keys(key: Key, screen: Screen)
    ensures
        !key_plays(key, screen) ==> {
            &&& (plain_action(key, screen) is Quit <==> key == Key::Char('q'))
            &&& (plain_action(key, screen) is TogglePause <==> (is_activate(key) && screen
                == Screen::Player))
            &&& (plain_action(key, screen) is VolumeUp <==> (key == Key::Char('+') || key
                == Key::Char('=')))
            &&& (plain_action(key, screen) is VolumeDown <==> key == Key::Char('-'))
            &&& (key == Key::Tab || key == Key::Up || key == Key::Down || key == Key::Other)
                ==> plain_action(key, screen) is Nothing
            &&& !(plain_action(key, screen) is Play)
        },
        key_plays(key, screen) <==> ((key == Key::Enter || key == Key::Char(' ')) && screen
            == Screen::TrackList) || key == Key::Right || key == Key::Left,
        !key_plays(Key::Down, screen) && !key_plays(Key::Up, screen) && !key_plays(Key::Tab, screen),
{
}

/// Moving the highlight leaves what plays alone: Down and Up change only the
/// highlighted position, by one step at most, and keep the screen.
pub proof fn lemma_moving_the_highlight(app: App)
    requires
        app.wf(),
        app.tracks@.len() > 0,
    ensures
        0 <= selected_after(app, Key::Down) - app.selected <= 1,
        0 <= app.selected - selected_after(app, Key::Up) <= 1,
        screen_after(app, Key::Down) == app.ui_screen,
        screen_after(app, Key::Up) == app.ui_screen,
{
}

} // verus!
