use tunes::app::{list_follows_highlight, Action, App, Key, Screen};
use tunes::time::Duration;
use tunes::track::Track;

fn library(n: usize) -> App {
    let tracks = (0..n)
        .map(|i| {
            Track::with_stem(
                format!("/m/{i}.mp3"),
                Some(format!("t{i}")),
                Duration::from_secs(100 + i as u64),
            )
        })
        .collect();
    App::new(tracks)
}

fn played(a: Action) -> String {
    match a {
        Action::Play { path, .. } => path,
        other => panic!("expected a track to play, got {other:?}"),
    }
}

#[test]
fn q_quits_and_changes_nothing() {
    let mut app = library(3);
    assert!(matches!(app.handle_key(Key::Char('q')), Action::Quit));
    assert_eq!(app.selected, 0);
    assert_eq!(app.ui_screen, Screen::TrackList);
}

#[test]
fn tab_switches_screen_and_back() {
    let mut app = library(2);
    assert!(matches!(app.handle_key(Key::Tab), Action::Nothing));
    assert_eq!(app.ui_screen, Screen::Player);
    app.handle_key(Key::Tab);
    assert_eq!(app.ui_screen, Screen::TrackList);
}

#[test]
fn down_and_up_move_the_highlight_within_the_list() {
    let mut app = library(3);
    app.handle_key(Key::Up);
    assert_eq!(app.selected, 0);
    app.handle_key(Key::Down);
    assert_eq!(app.selected, 1);
    app.handle_key(Key::Down);
    app.handle_key(Key::Down);
    assert_eq!(app.selected, 2);
    app.handle_key(Key::Up);
    assert_eq!(app.selected, 1);
}

#[test]
fn down_on_an_empty_list_stays_put() {
    let mut app = library(0);
    app.handle_key(Key::Down);
    assert_eq!(app.selected, 0);
}

#[test]
fn enter_plays_the_highlighted_track_and_shows_the_player_once_loaded() {
    let mut app = library(3);
    app.handle_key(Key::Down);
    match app.handle_key(Key::Enter) {
        Action::Play { path, show_player } => {
            assert_eq!(path, "/m/1.mp3");
            assert!(show_player);
        }
        other => panic!("expected a track to play, got {other:?}"),
    }
    assert_eq!(app.playback.index, 1);
    // not loaded yet: length and screen unchanged
    assert_eq!(app.playback.duration, Duration::zero());
    assert_eq!(app.ui_screen, Screen::TrackList);
    app.finish_play(true);
    assert_eq!(app.playback.duration, Duration::from_secs(101));
    assert_eq!(app.ui_screen, Screen::Player);
}

#[test]
fn right_and_left_do_not_ask_for_the_player() {
    let mut app = library(3);
    match app.handle_key(Key::Right) {
        Action::Play { show_player, .. } => assert!(!show_player),
        other => panic!("expected a track to play, got {other:?}"),
    }
    app.finish_play(false);
    assert_eq!(app.ui_screen, Screen::TrackList);
    assert_eq!(app.playback.duration, Duration::from_secs(101));
}

#[test]
fn the_list_follows_down_and_up_only() {
    assert!(list_follows_highlight(Key::Down));
    assert!(list_follows_highlight(Key::Up));
    for k in [Key::Left, Key::Right, Key::Enter, Key::Tab, Key::Char('q'), Key::Other] {
        assert!(!list_follows_highlight(k));
    }
}

#[test]
fn space_on_the_player_pauses_or_resumes() {
    let mut app = library(2);
    played(app.handle_key(Key::Char(' ')));
    app.finish_play(true);
    assert!(matches!(app.handle_key(Key::Char(' ')), Action::TogglePause));
    assert!(matches!(app.handle_key(Key::Enter), Action::TogglePause));
    assert_eq!(app.playback.index, 0);
}

#[test]
fn right_and_left_wrap_round_the_list() {
    let mut app = library(3);
    assert_eq!(played(app.handle_key(Key::Left)), "/m/2.mp3");
    assert_eq!(app.playback.index, 2);
    assert_eq!(app.selected, 2);
    assert_eq!(played(app.handle_key(Key::Right)), "/m/0.mp3");
    assert_eq!(app.playback.index, 0);
    assert_eq!(played(app.handle_key(Key::Right)), "/m/1.mp3");
}

#[test]
fn right_then_left_returns_to_the_same_track() {
    for n in 1..5usize {
        for start in 0..n {
            let mut app = library(n);
            app.selected = start;
            app.play_selected();
            app.handle_key(Key::Right);
            app.handle_key(Key::Left);
            assert_eq!(app.playback.index, start);
            app.handle_key(Key::Left);
            app.handle_key(Key::Right);
            assert_eq!(app.playback.index, start);
        }
    }
}

#[test]
fn volume_keys() {
    let mut app = library(1);
    assert!(matches!(app.handle_key(Key::Char('+')), Action::VolumeUp));
    assert!(matches!(app.handle_key(Key::Char('=')), Action::VolumeUp));
    assert!(matches!(app.handle_key(Key::Char('-')), Action::VolumeDown));
    assert!(matches!(app.handle_key(Key::Char('x')), Action::Nothing));
    assert!(matches!(app.handle_key(Key::Other), Action::Nothing));
}

#[test]
fn auto_next_moves_on_only_when_finished() {
    let mut app = library(2);
    assert!(app.auto_next(false).is_none());
    assert_eq!(app.playback.index, 0);
    assert_eq!(app.auto_next(true).as_deref(), Some("/m/1.mp3"));
    assert_eq!(app.playback.index, 1);
    assert_eq!(app.selected, 1);
    assert_eq!(app.playback.duration, Duration::zero());
    app.finish_play(false);
    assert_eq!(app.playback.duration, Duration::from_secs(101));
    assert_eq!(app.auto_next(true).as_deref(), Some("/m/0.mp3"));
    assert_eq!(app.playback.index, 0);
}

#[test]
fn the_clock_wraps_round() {
    let mut app = library(0);
    app.advance_tick();
    assert_eq!(app.tick, 1);
    app.tick = u64::MAX;
    app.advance_tick();
    assert_eq!(app.tick, 0);
}

#[test]
fn keys_that_need_no_track_work_from_any_position() {
    let mut app = library(0);
    app.playback.index = 7;
    app.selected = 5;
    for k in [Key::Tab, Key::Char('q'), Key::Up, Key::Char('+'), Key::Other] {
        assert!(app.can_handle(k));
    }
    app.handle_key(Key::Up);
    assert_eq!(app.selected, 4);
    app.handle_key(Key::Tab);
    assert_eq!(app.ui_screen, Screen::Player);
    // on the player, space pauses and needs no track
    assert!(app.can_handle(Key::Char(' ')));
}

#[test]
fn keys_that_play_need_a_track_in_range() {
    let mut app = library(2);
    assert!(app.can_handle(Key::Enter));
    assert!(app.can_handle(Key::Left));
    app.selected = 2;
    assert!(!app.can_handle(Key::Enter));
    app.playback.index = 3;
    assert!(!app.can_handle(Key::Left));
    assert!(app.can_handle(Key::Right));
    let empty = library(0);
    assert!(!empty.can_handle(Key::Right));
    assert!(!empty.can_handle(Key::Left));
    assert!(!empty.can_handle(Key::Enter));
}

#[test]
fn auto_next_moves_on_from_any_playing_position() {
    let mut app = library(3);
    app.playback.index = 10;
    assert_eq!(app.auto_next(true).as_deref(), Some("/m/2.mp3"));
    assert_eq!(app.playback.index, 2);
}
