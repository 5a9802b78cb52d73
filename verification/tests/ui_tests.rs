use tunes::app::App;
use tunes::time::Duration;
use tunes::track::Track;
use tunes::ui::{
    clock_label, compact_time_label, compact_volume_label, is_compact, player_title,
    progress_label, shown_elapsed, status_label, track_list_rows, volume_label, waveform_lines,
};

fn app_with(titles: &[&str]) -> App {
    App::new(
        titles
            .iter()
            .map(|t| Track::with_stem(format!("/m/{t}.mp3"), Some(t.to_string()), Duration::zero()))
            .collect(),
    )
}

#[test]
fn compact_below_fifty_columns_or_eighteen_rows() {
    assert!(is_compact(49, 40));
    assert!(is_compact(80, 17));
    assert!(!is_compact(50, 18));
    assert!(!is_compact(120, 40));
}

#[test]
fn list_rows_mark_scroll_and_cut() {
    let mut app = app_with(&["a long title here", "another long title", "short"]);
    app.tick = 4;
    // box of 16 columns: 12 for each title after borders and prefix
    let rows = track_list_rows(&app, 16);
    assert_eq!(rows, vec!["▶  long title ", "  another lon…", "  short"]);
}

#[test]
fn list_rows_give_titles_all_but_four_columns() {
    let app = app_with(&["abcdefghijklmnopqrst", "abcdefghijklmnopqrst"]);
    let rows = track_list_rows(&app, 20);
    assert_eq!(rows[0].chars().count(), 2 + 16);
    assert_eq!(rows[1], "  abcdefghijklmno…");
}

#[test]
fn list_rows_in_a_narrow_box() {
    let app = app_with(&["ab", "cd"]);
    let rows = track_list_rows(&app, 3);
    assert_eq!(rows, vec!["▶ ", "  …"]);
}

#[test]
fn player_title_scrolls_inside_the_box() {
    let mut app = app_with(&["abcdefghij"]);
    app.tick = 8;
    assert_eq!(player_title(&app, 10), "cdefgh");
    assert_eq!(player_title(&app, 40), "abcdefghij");
}

#[test]
fn finished_tracks_show_their_whole_length() {
    let d = Duration::from_secs(200);
    let e = Duration::from_secs(12);
    assert_eq!(shown_elapsed(true, d, e), d);
    assert_eq!(shown_elapsed(false, d, e), e);
}

#[test]
fn clock_is_minutes_and_seconds() {
    assert_eq!(clock_label(Duration::zero()), "00:00");
    assert_eq!(clock_label(Duration::new(65, 999_999_999)), "01:05");
    assert_eq!(clock_label(Duration::from_secs(3599)), "59:59");
    assert_eq!(clock_label(Duration::from_secs(6000)), "100:00");
}

#[test]
fn progress_and_compact_time_labels() {
    let e = Duration::from_secs(75);
    let d = Duration::from_secs(245);
    assert_eq!(progress_label(e, d), "01:15 / 04:05");
    assert_eq!(compact_time_label(false, e, d), "▶ 01:15/04:05");
    assert_eq!(compact_time_label(true, e, d), "⏸ 01:15/04:05");
}

#[test]
fn status_labels() {
    assert_eq!(status_label(true), "⏸ Paused");
    assert_eq!(status_label(false), "▶ Playing");
}

#[test]
fn volume_labels() {
    assert_eq!(volume_label(5), "Vol   5%");
    assert_eq!(volume_label(40), "Vol  40%");
    assert_eq!(volume_label(100), "Vol 100%");
    assert_eq!(compact_volume_label(5), "Vol 5%");
    assert_eq!(compact_volume_label(100), "Vol 100%");
}

#[test]
fn waveform_bars_are_centred() {
    let lines = waveform_lines(&vec![0, 2, 4], 4);
    // middle row 2: bar 0 covers row 2; bar 2 (half 1) rows 1..3; bar 4 (half 2) rows 0..4
    assert_eq!(lines, vec![" ..", "...", " ..", "  ."]);
}

#[test]
fn waveform_without_bars_or_rows_is_empty() {
    assert!(waveform_lines(&vec![], 5).is_empty());
    assert!(waveform_lines(&vec![1, 2], 0).is_empty());
}
