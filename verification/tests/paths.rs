use music_sorter::canonical::{path_from_tags, tags_from_path};
use music_sorter::path::{
    extension, file_name, file_stem, join, last_index_of, parent, replace_extension,
};
use music_sorter::tags::Tags;

fn tags(artist: &str, album_artist: &str, album: &str, title: &str, track_number: &str) -> Tags {
    Tags {
        artist: artist.to_string(),
        album_artist: album_artist.to_string(),
        album: album.to_string(),
        title: title.to_string(),
        track_number: track_number.to_string(),
    }
}

const INVALID: [char; 10] = ['/', '\\', ':', '"', '<', '>', '|', '?', '*', '\0'];

fn is_safe(t: &Tags) -> bool {
    [&t.artist, &t.album_artist, &t.album, &t.title]
        .iter()
        .all(|field| !field.chars().any(|c| INVALID.contains(&c)))
}

#[test]
fn last_index_of_finds_the_last_occurrence() {
    assert_eq!(last_index_of("a/b/c", '/'), Some(3));
    assert_eq!(last_index_of("abc", '/'), None);
    assert_eq!(last_index_of("", '/'), None);
    assert_eq!(last_index_of("é/é", '/'), Some(1));
}

#[test]
fn file_name_is_the_last_segment() {
    assert_eq!(file_name("A/B/C.mp3"), "C.mp3");
    assert_eq!(file_name("C.mp3"), "C.mp3");
    assert_eq!(file_name("A/B/"), "");
    assert_eq!(file_name(""), "");
}

#[test]
fn parent_is_what_stands_before_the_last_slash() {
    assert_eq!(parent("A/B/C.mp3"), Some("A/B"));
    assert_eq!(parent("B/C.mp3"), Some("B"));
    assert_eq!(parent("C.mp3"), None);
    assert_eq!(parent("/C.mp3"), Some(""));
}

#[test]
fn file_stem_and_extension_split_at_the_last_dot() {
    assert_eq!(file_stem("C.mp3"), "C");
    assert_eq!(extension("C.mp3"), Some("mp3"));
    assert_eq!(file_stem("a.b.flac"), "a.b");
    assert_eq!(extension("a.b.flac"), Some("flac"));
    assert_eq!(file_stem("noext"), "noext");
    assert_eq!(extension("noext"), None);
    assert_eq!(file_stem("trailing."), "trailing");
    assert_eq!(extension("trailing."), Some(""));
}

#[test]
fn a_leading_dot_starts_no_extension() {
    assert_eq!(file_stem(".hidden"), ".hidden");
    assert_eq!(extension(".hidden"), None);
    assert_eq!(file_stem(".a.mp3"), ".a");
    assert_eq!(extension(".a.mp3"), Some("mp3"));
}

#[test]
fn join_puts_one_slash_between() {
    assert_eq!(join("/music", "A/B/C.mp3"), "/music/A/B/C.mp3");
    assert_eq!(join("/music/", "A/B/C.mp3"), "/music/A/B/C.mp3");
    assert_eq!(join("", "A/B/C.mp3"), "A/B/C.mp3");
    assert_eq!(join("/music", "/B/C.mp3"), "/music//B/C.mp3");
}

#[test]
fn replace_extension_changes_only_the_extension() {
    assert_eq!(replace_extension("/m/A/B/C.flac", "mp3"), "/m/A/B/C.mp3");
    assert_eq!(replace_extension("/m/A.x/B/C.d.m4a", "mp3"), "/m/A.x/B/C.d.mp3");
    assert_eq!(replace_extension("/m/A/noext", "mp3"), "/m/A/noext.mp3");
    assert_eq!(replace_extension("/m/A/", "mp3"), "/m/A/");
}

#[test]
fn tags_from_path_reads_artist_album_title() {
    assert_eq!(tags_from_path("A/B/C.mp3"), tags("A", "", "B", "C", ""));
    assert_eq!(
        tags_from_path("x/y/Pink Floyd/The Wall/Hey You.flac"),
        tags("Pink Floyd", "", "The Wall", "Hey You", "")
    );
}

#[test]
fn tags_from_path_missing_ancestors_give_empty_fields() {
    assert_eq!(tags_from_path("B/C.mp3"), tags("", "", "B", "C", ""));
    assert_eq!(tags_from_path("C.mp3"), tags("", "", "", "C", ""));
    assert_eq!(tags_from_path(""), tags("", "", "", "", ""));
}

#[test]
fn tags_from_path_is_sanitized() {
    let t = tags_from_path("A:1/B?*/C<d>|\"e\\.mp3");
    assert_eq!(t, tags("A1", "", "B", "Cde", ""));
    assert!(is_safe(&t));
}

#[test]
fn tags_from_path_never_holds_an_invalid_symbol() {
    for path in [
        "a:b/c*d/e?f.mp3",
        "<>/|\\/\"\".m4a",
        "////",
        "a\\b\\c.mp3",
        "::::.::",
        "\0.m",
        "a\0/\0b/c\0:.mp3",
    ] {
        let t = tags_from_path(path);
        assert!(is_safe(&t), "{:?}", path);
        assert_eq!(t.album_artist, "");
        assert_eq!(t.track_number, "");
    }
}

#[test]
fn tags_from_path_drops_the_null_characters_of_the_path() {
    assert_eq!(tags_from_path("A/B/x\0y.mp3"), tags("A", "", "B", "xy", ""));
    assert_eq!(tags_from_path("\0A/B\0\0/\0.m"), tags("A", "", "B", "", ""));
    assert_eq!(tags_from_path("\0.m"), tags("", "", "", "", ""));
}

#[test]
fn path_from_tags_builds_the_canonical_layout() {
    assert_eq!(path_from_tags(&tags("A", "X", "B", "C", "3"), "flac"), "A/B/C.flac");
}

#[test]
fn path_from_tags_strips_null_bytes_and_invalid_symbols() {
    assert_eq!(
        path_from_tags(&tags("A\0C/DC", "", "Who?", "What: now*", ""), "mp3"),
        "ACDC/Who/What now.mp3"
    );
}

#[test]
fn path_from_tags_empty_fields_give_empty_segments() {
    assert_eq!(path_from_tags(&tags("", "", "", "", ""), "mp3"), "//.mp3");
    assert_eq!(path_from_tags(&tags("A", "", "", "C", ""), "mp3"), "A//C.mp3");
    assert_eq!(path_from_tags(&tags("", "", "B", "C", ""), "mp3"), "/B/C.mp3");
}

#[test]
fn path_from_tags_keeps_the_extension_verbatim() {
    assert_eq!(path_from_tags(&tags("A", "", "B", "C", ""), "FLAC"), "A/B/C.FLAC");
    assert_eq!(path_from_tags(&tags("A", "", "B", "C", ""), "m:4"), "A/B/C.m:4");
}

#[test]
fn round_trip_gives_the_tags_back() {
    for (artist, album, title) in [
        ("A", "B", "C"),
        ("Pink Floyd", "The Wall", "Hey You"),
        ("", "", "x"),
        ("a.b", "c.d", "e.f"),
        ("..", ".", ".."),
        ("Motörhead", "Ace of Spades", "Ace of Spades (live)"),
    ] {
        let t = tags(artist, "", album, title, "");
        for ext in ["mp3", "flac", "m4a", ""] {
            assert_eq!(tags_from_path(&path_from_tags(&t, ext)), t, "{:?} {:?}", t, ext);
        }
    }
}

#[test]
fn round_trip_drops_album_artist_and_track_number() {
    let t = tags("A", "Various", "B", "C", "7");
    assert_eq!(tags_from_path(&path_from_tags(&t, "mp3")), tags("A", "", "B", "C", ""));
}

#[test]
fn round_trip_fails_on_an_empty_title() {
    let t = tags("A", "", "B", "", "");
    assert_eq!(path_from_tags(&t, "mp3"), "A/B/.mp3");
    assert_eq!(tags_from_path("A/B/.mp3"), tags("A", "", "B", ".mp3", ""));
}
