use music_sorter::decimal::{parse_track_number, track_number_text};
use music_sorter::tags::Tags;
use music_sorter::text::{
    digit_prefix, replace_slashes, strip_invalid_symbols, strip_null_bytes,
};

fn tags(artist: &str, album_artist: &str, album: &str, title: &str, track_number: &str) -> Tags {
    Tags {
        artist: artist.to_string(),
        album_artist: album_artist.to_string(),
        album: album.to_string(),
        title: title.to_string(),
        track_number: track_number.to_string(),
    }
}

#[test]
fn replace_slashes_turns_each_slash_into_a_dash() {
    assert_eq!(replace_slashes("AC/DC"), "AC-DC");
    assert_eq!(replace_slashes("/a//b/"), "-a--b-");
    assert_eq!(replace_slashes("plain"), "plain");
    assert_eq!(replace_slashes(""), "");
}

#[test]
fn strip_null_bytes_drops_only_null_characters() {
    assert_eq!(strip_null_bytes("a\0b\0"), "ab");
    assert_eq!(strip_null_bytes("\0"), "");
    assert_eq!(strip_null_bytes("a/b"), "a/b");
}

#[test]
fn strip_invalid_symbols_drops_the_nine_symbols() {
    assert_eq!(strip_invalid_symbols("a<b>c:d\"e/f\\g|h?i*j"), "abcdefghij");
    assert_eq!(strip_invalid_symbols("<>:\"/\\|?*"), "");
    assert_eq!(strip_invalid_symbols("Motörhead - Ace"), "Motörhead - Ace");
    assert_eq!(strip_invalid_symbols("a\0b"), "a\0b");
}

#[test]
fn digit_prefix_keeps_the_leading_digits() {
    assert_eq!(digit_prefix("12 - Song"), "12");
    assert_eq!(digit_prefix("Side B"), "");
    assert_eq!(digit_prefix("007"), "007");
    assert_eq!(digit_prefix("3/12"), "3");
    assert_eq!(digit_prefix(""), "");
    assert_eq!(digit_prefix("١٢"), "");
}

#[test]
fn remove_slashes_touches_the_four_text_fields() {
    let mut t = tags("AC/DC", "AC/DC", "Back/Black", "Hells/Bells", "1/10");
    t.remove_slashes();
    assert_eq!(t, tags("AC-DC", "AC-DC", "Back-Black", "Hells-Bells", "1/10"));
}

#[test]
fn remove_null_bytes_touches_the_four_text_fields() {
    let mut t = tags("A\0", "\0B", "C\0C", "\0", "1\0");
    t.remove_null_bytes();
    assert_eq!(t, tags("A", "B", "CC", "", "1\0"));
}

#[test]
fn remove_invalid_symbols_touches_the_four_text_fields() {
    let mut t = tags("A:B", "C?D", "E*F|G", "H<I>J\"K\\L/M", "1:2");
    t.remove_invalid_symbols();
    assert_eq!(t, tags("AB", "CD", "EFG", "HIJKLM", "1:2"));
}

#[test]
fn fix_track_number_strips_what_follows_the_digits() {
    let mut t = tags("A", "B", "C", "D", "12 - Song");
    t.fix_track_number();
    assert_eq!(t, tags("A", "B", "C", "D", "12"));
}

#[test]
fn fix_track_number_without_leading_digits_gives_empty() {
    let mut t = tags("", "", "", "", "Side B");
    t.fix_track_number();
    assert_eq!(t.track_number, "");
}

#[test]
fn fix_track_number_keeps_leading_zeros() {
    let mut t = tags("", "", "", "", "007");
    t.fix_track_number();
    assert_eq!(t.track_number, "007");
}

#[test]
fn tags_equality_is_structural() {
    let a = tags("A", "", "B", "C", "");
    assert!(a.same_as(&a.duplicate()));
    assert!(!a.same_as(&tags("A", "X", "B", "C", "")));
    assert!(!a.same_as(&tags("A", "", "B", "C", "1")));
    assert!(Tags::empty().same_as(&tags("", "", "", "", "")));
}

#[test]
fn parse_track_number_reads_decimal_text() {
    assert_eq!(parse_track_number("12"), Some(12));
    assert_eq!(parse_track_number("0"), Some(0));
    assert_eq!(parse_track_number("007"), Some(7));
    assert_eq!(parse_track_number("+5"), Some(5));
    assert_eq!(parse_track_number("65535"), Some(65535));
    assert_eq!(parse_track_number("000000000000000000000065535"), Some(65535));
}

#[test]
fn parse_track_number_rejects_what_is_no_number() {
    assert_eq!(parse_track_number(""), None);
    assert_eq!(parse_track_number("+"), None);
    assert_eq!(parse_track_number("-1"), None);
    assert_eq!(parse_track_number("1a"), None);
    assert_eq!(parse_track_number(" 1"), None);
    assert_eq!(parse_track_number("++1"), None);
    assert_eq!(parse_track_number("65536"), None);
    assert_eq!(parse_track_number("99999999999999999999999999"), None);
}

#[test]
fn parse_track_number_agrees_with_the_standard_parser() {
    for text in ["12", "+12", "", "+", "0012", "65535", "65536", "1 ", "١٢", "1_0", "-0"] {
        assert_eq!(parse_track_number(text), text.parse::<u16>().ok(), "{:?}", text);
    }
}

#[test]
fn track_number_text_writes_decimal() {
    assert_eq!(track_number_text(0), "0");
    assert_eq!(track_number_text(7), "7");
    assert_eq!(track_number_text(10), "10");
    assert_eq!(track_number_text(12345), "12345");
    assert_eq!(track_number_text(65535), "65535");
}

#[test]
fn track_number_text_parses_back() {
    for n in [0u16, 1, 9, 10, 99, 100, 1000, 40000, 65535] {
        assert_eq!(parse_track_number(&track_number_text(n)), Some(n));
        assert_eq!(track_number_text(n), n.to_string());
    }
}
