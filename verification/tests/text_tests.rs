use tunes::text::{chars_of, decimal_string, marquee, pad_left_string, truncate, two_digits};

#[test]
fn decimal_of_zero_and_larger_numbers() {
    assert_eq!(decimal_string(0), "0");
    assert_eq!(decimal_string(7), "7");
    assert_eq!(decimal_string(10), "10");
    assert_eq!(decimal_string(1234567890), "1234567890");
    assert_eq!(decimal_string(u64::MAX), u64::MAX.to_string());
}

#[test]
fn two_digits_pads_with_zero() {
    assert_eq!(two_digits(0), "00");
    assert_eq!(two_digits(5), "05");
    assert_eq!(two_digits(59), "59");
    assert_eq!(two_digits(123), "123");
}

#[test]
fn pad_left_fills_to_width() {
    assert_eq!(pad_left_string("7", 3, ' '), "  7");
    assert_eq!(pad_left_string("100", 3, ' '), "100");
    assert_eq!(pad_left_string("1000", 3, ' '), "1000");
    assert_eq!(pad_left_string("", 2, '0'), "00");
}

#[test]
fn chars_of_keeps_every_character() {
    assert_eq!(chars_of("aé▶"), vec!['a', 'é', '▶']);
    assert_eq!(chars_of(""), Vec::<char>::new());
}

#[test]
fn marquee_leaves_fitting_text_alone() {
    assert_eq!(marquee("short", 10, 123), "short");
    assert_eq!(marquee("exact", 5, 9), "exact");
}

#[test]
fn marquee_scrolls_one_character_every_four_ticks() {
    assert_eq!(marquee("abcdefgh", 5, 0), "abcde");
    assert_eq!(marquee("abcdefgh", 5, 3), "abcde");
    assert_eq!(marquee("abcdefgh", 5, 4), "bcdef");
    assert_eq!(marquee("abcdefgh", 5, 16), "efgh ");
}

#[test]
fn marquee_shows_the_gap_and_wraps_round() {
    // offset 6: "gh" then the four-space gap
    assert_eq!(marquee("abcdefgh", 5, 24), "gh   ");
    // offset 10: the last blank of the gap, then the text again
    assert_eq!(marquee("abcdefgh", 5, 40), "  abc");
    // offset 11: the gap's last blank, then text from the start
    assert_eq!(marquee("abcdefgh", 5, 44), " abcd");
}

#[test]
fn marquee_repeats_after_a_full_cycle() {
    // cycle of 8 + 4 positions, four ticks each
    for tick in 0..60u64 {
        assert_eq!(marquee("abcdefgh", 5, tick), marquee("abcdefgh", 5, tick + 48));
    }
}

#[test]
fn marquee_window_is_a_slice_of_the_cyclic_stream() {
    let text = "héllo wörld";
    let stream: Vec<char> = text.chars().chain("    ".chars()).collect();
    let cycle = stream.len();
    for tick in 0..200u64 {
        let shown: Vec<char> = marquee(text, 6, tick).chars().collect();
        let offset = (tick / 4) as usize % cycle;
        let expected: Vec<char> = (0..6).map(|i| stream[(offset + i) % cycle]).collect();
        assert_eq!(shown, expected);
    }
}

#[test]
fn marquee_counts_characters_not_bytes() {
    assert_eq!(marquee("ééé", 3, 0), "ééé");
    assert_eq!(marquee("éééé", 3, 0), "ééé");
}

#[test]
fn truncate_keeps_text_that_fits() {
    assert_eq!(truncate("hello", 5), "hello");
    assert_eq!(truncate("hello", 10), "hello");
    assert_eq!(truncate("", 0), "");
}

#[test]
fn truncate_cuts_and_appends_an_ellipsis() {
    assert_eq!(truncate("hello world", 5), "hell…");
    assert_eq!(truncate("hello", 4), "hel…");
    assert_eq!(truncate("hello", 1), "…");
    assert_eq!(truncate("hello", 0), "…");
}

#[test]
fn truncate_counts_bytes() {
    // "é" takes two bytes: "aéb" is four bytes long
    assert_eq!(truncate("aéb", 4), "aéb");
    assert_eq!(truncate("aébc", 4), "aé…");
}
