use syf::text::{decimal_string, sanitize_song_name, trim_text};

#[test]
fn check_dark_star() {
    let song_name = "(Dark/\\ //Star-/-->";

    assert_eq!("Dark Star", sanitize_song_name(song_name));
}

#[test]
fn check_trim() {
    let song_name = "  The .,:;Music ->Never <-Stopped-->  ";
    assert_eq!("The Music Never Stopped", sanitize_song_name(song_name));
}

#[test]
fn sanitize_empty_is_empty() {
    assert_eq!("", sanitize_song_name(""));
}

#[test]
fn sanitize_is_idempotent_on_samples() {
    for s in ["(Dark/\\ //Star-/-->", "  The .,:;Music ->Never <-Stopped-->  ", " - ", "St. Stephen >", "Uncle John's Band"] {
        let once = sanitize_song_name(s);
        assert_eq!(once, sanitize_song_name(&once));
    }
}

#[test]
fn sanitize_removes_marks_inside_words() {
    assert_eq!("Uncle Johns Band", sanitize_song_name("Uncle John's Band"));
    assert_eq!("Morning Dew", sanitize_song_name("\t\"Morning Dew\"\n"));
}

#[test]
fn sanitize_only_marks_is_empty() {
    assert_eq!("", sanitize_song_name(" -> <- "));
}

#[test]
fn trim_both_ends() {
    assert_eq!("a b", trim_text("\u{3000} a b \n"));
}

#[test]
fn decimal_values() {
    assert_eq!("0", decimal_string(0));
    assert_eq!("7", decimal_string(7));
    assert_eq!("173", decimal_string(173));
    assert_eq!("18446744073709551615", decimal_string(u64::MAX));
}
