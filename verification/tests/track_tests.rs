use tunes::app::App;
use tunes::time::Duration;
use tunes::track::{
    is_audio_extension, is_audio_path, length_from_probe, same_text, sort_by_title,
    title_le_exec, Track,
};

fn track(title: &str, path: &str) -> Track {
    Track::with_stem(path.to_string(), Some(title.to_string()), Duration::zero())
}

#[test]
fn track_title_is_the_file_stem() {
    let t = Track::new("/music/album/song.mp3".to_string(), Duration::from_secs(3));
    assert_eq!(t.title, "song");
    assert_eq!(t.path, "/music/album/song.mp3");
    assert_eq!(t.duration, Duration::from_secs(3));
}

#[test]
fn track_title_keeps_inner_dots() {
    let t = Track::new("/music/01. intro.flac".to_string(), Duration::zero());
    assert_eq!(t.title, "01. intro");
}

#[test]
fn track_without_file_name_is_untitled() {
    let t = Track::new("/".to_string(), Duration::zero());
    assert_eq!(t.title, "");
    let u = Track::with_stem("x".to_string(), None, Duration::zero());
    assert_eq!(u.title, "");
}

#[test]
fn same_text_compares_characters() {
    assert!(same_text("mp3", "mp3"));
    assert!(!same_text("mp3", "mp4"));
    assert!(!same_text("mp3", "mp"));
    assert!(same_text("", ""));
}

#[test]
fn audio_extensions_are_four_lower_case_ones() {
    for ext in ["mp3", "wav", "flac", "ogg"] {
        assert!(is_audio_extension(ext));
    }
    for ext in ["MP3", "m4a", "", "txt", "mp3 "] {
        assert!(!is_audio_extension(ext));
    }
}

#[test]
fn audio_paths_go_by_their_extension() {
    assert!(is_audio_path("/music/song.mp3"));
    assert!(is_audio_path("song.ogg"));
    assert!(is_audio_path("/a.b/track.flac"));
    assert!(!is_audio_path("/music/song.MP3"));
    assert!(!is_audio_path("/music/cover.jpg"));
    assert!(!is_audio_path("/music/README"));
    assert!(!is_audio_path("/music/.mp3"));
}

#[test]
fn titles_compare_as_strings_do() {
    let words = ["", "a", "ab", "b", "B", "é", "z", "Z", "aa", "ä"];
    for x in words {
        for y in words {
            assert_eq!(
                title_le_exec(&x.to_string(), &y.to_string()),
                x.to_string() <= y.to_string()
            );
        }
    }
}

#[test]
fn sort_orders_by_title_and_keeps_equal_titles_in_order() {
    let tracks = vec![
        track("b", "1"),
        track("a", "2"),
        track("b", "3"),
        track("A", "4"),
        track("a", "5"),
    ];
    let sorted = sort_by_title(tracks);
    let got: Vec<(String, String)> =
        sorted.iter().map(|t| (t.title.clone(), t.path.clone())).collect();
    let want: Vec<(String, String)> = [("A", "4"), ("a", "2"), ("a", "5"), ("b", "1"), ("b", "3")]
        .iter()
        .map(|(a, b)| (a.to_string(), b.to_string()))
        .collect();
    assert_eq!(got, want);
}

#[test]
fn sort_of_nothing_is_nothing() {
    assert!(sort_by_title(Vec::new()).is_empty());
}

#[test]
fn new_app_sorts_its_tracks() {
    let app = App::new(vec![track("zeta", "z"), track("alpha", "a")]);
    assert_eq!(app.tracks[0].title, "alpha");
    assert_eq!(app.tracks[1].title, "zeta");
    assert_eq!(app.selected, 0);
    assert_eq!(app.tick, 0);
    assert_eq!(app.playback.index, 0);
    assert_eq!(app.playback.duration, Duration::zero());
}

#[test]
fn track_titles_of_plain_paths() {
    let cases = [
        ("/music/a.b.mp3", "a.b"),
        ("song", "song"),
        ("/music/.hidden", ".hidden"),
        ("/music/x.", "x"),
        ("./rel/track.ogg", "track"),
        ("/music/...", ".."),
    ];
    for (path, title) in cases {
        assert_eq!(Track::new(path.to_string(), Duration::zero()).title, title);
    }
}

#[test]
fn colons_in_file_names_are_ordinary() {
    let t = Track::new("/music/Artist: Song.mp3".to_string(), Duration::zero());
    assert_eq!(t.title, "Artist: Song");
    assert!(is_audio_path("/music/Artist: Song.mp3"));
}

#[test]
fn listed_paths_end_in_an_audio_extension() {
    assert!(is_audio_path("/music/a.wav"));
    assert!(is_audio_path("/music/a.flac"));
    assert!(!is_audio_path("/music/a.mp3.txt"));
    assert!(!is_audio_path("/music/mp3"));
    assert!(!is_audio_path(""));
}

#[test]
fn probe_results_need_both_frames_and_rate() {
    assert_eq!(length_from_probe(Some((Some(10), Some(5)))), Some((10, 5)));
    assert_eq!(length_from_probe(Some((None, Some(5)))), None);
    assert_eq!(length_from_probe(Some((Some(10), None))), None);
    assert_eq!(length_from_probe(None), None);
}
