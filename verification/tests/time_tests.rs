use tunes::playback::PlaybackState;
use tunes::time::Duration;

#[test]
fn duration_carries_nanoseconds_into_seconds() {
    let d = Duration::new(5, 2_500_000_000);
    assert_eq!(d.as_secs(), 7);
    assert_eq!(d.subsec_nanos(), 500_000_000);
}

#[test]
fn duration_parts() {
    let d = Duration::new(61, 999_999_999);
    assert_eq!(d.as_secs(), 61);
    assert_eq!(d.subsec_nanos(), 999_999_999);
    assert_eq!(Duration::from_secs(42).as_secs(), 42);
    assert_eq!(Duration::from_secs(42).subsec_nanos(), 0);
    assert_eq!(Duration::zero().as_secs(), 0);
    assert_eq!(Duration::zero(), Duration::new(0, 0));
}

#[test]
fn duration_matches_std() {
    for (s, n) in [(0u64, 0u32), (1, 1), (3, 1_000_000_000), (9, 4_294_967_295)] {
        let ours = Duration::new(s, n);
        let std = std::time::Duration::new(s, n);
        assert_eq!(ours.as_secs(), std.as_secs());
        assert_eq!(ours.subsec_nanos(), std.subsec_nanos());
    }
}

#[test]
fn playback_starts_on_the_first_track_with_no_length() {
    let p = PlaybackState::new();
    assert_eq!(p.index, 0);
    assert_eq!(p.duration, Duration::zero());
}
