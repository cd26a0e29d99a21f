//! The two directions between a relative path and a tag set. The canonical
//! layout is `artist/album/title.ext`; the album artist has no place in it.

use crate::path::{
    extension_of, file_name, file_name_of, file_stem, grandparent_of, is_last_position,
    lemma_last_position, parent, parent_name_of, parent_of, stem_of,
};
use crate::tags::{Tags, TagsView};
use crate::text::{
    has_no_invalid_symbol, is_filesystem_safe, lemma_without_invalid_symbols,
    lemma_without_null_bytes, with_slashes_replaced, without_invalid_symbols, without_null_bytes,
};
use vstd::prelude::*;

verus! {

/// What the position of a file says of it, before any character is
/// replaced or dropped: the title is the stem of the file name, the album
/// the name of the directory that holds the file, the artist the name of
/// the directory above that one. A directory that is not there gives an
/// empty field.
pub open spec fn raw_tags_of_path(p: Seq<char>) -> TagsView {
    let album_dir = parent_of(p);
    let artist_dir = grandparent_of(album_dir);
    TagsView {
        artist: parent_name_of(artist_dir),
        album_artist: Seq::empty(),
        album: parent_name_of(album_dir),
        title: stem_of(file_name_of(p)),
        track_number: Seq::empty(),
    }
}

/// The tag set that the position of a file stands for: what the position
/// says, with every `/` turned into `-` and every null character and
/// invalid symbol dropped.
pub open spec fn tags_of_path(p: Seq<char>) -> TagsView {
    raw_tags_of_path(p).slashes_replaced().null_bytes_removed().invalid_symbols_removed()
}

/// The segment that a field gives to a path: the field without its null
/// characters and invalid symbols.
pub open spec fn path_segment(field: Seq<char>) -> Seq<char> {
    without_invalid_symbols(without_null_bytes(field))
}

/// The canonical relative path of a file with tags `t` and extension `ext`.
pub open spec fn path_of_tags(t: TagsView, ext: Seq<char>) -> Seq<char> {
    path_segment(t.artist) + seq!['/'] + path_segment(t.album) + seq!['/'] + path_segment(t.title)
        + seq!['.'] + ext
}

/// `ext` can follow the last `.` of a file name: it holds neither `.` nor `/`.
pub open spec fn is_extension(ext: Seq<char>) -> bool {
    forall|i: int| 0 <= i < ext.len() ==> #[trigger] ext[i] != '.' && ext[i] != '/'
}

/// Replacing the slashes changes nothing where there is none.
pub proof fn lemma_no_slash_to_replace(s: Seq<char>)
    requires
        has_no_invalid_symbol(s),
    ensures
        with_slashes_replaced(s) == s,
{
    assert(with_slashes_replaced(s) =~= s);
}

/// A field that is safe as it is makes its own path segment.
pub proof fn lemma_safe_field_is_segment(field: Seq<char>)
    requires
        is_filesystem_safe(field),
    ensures
        path_segment(field) == field,
{
    lemma_without_null_bytes(field);
    lemma_without_invalid_symbols(field);
}

/// A path segment is safe as it is.
pub proof fn lemma_segment_is_safe(field: Seq<char>)
    ensures
        is_filesystem_safe(path_segment(field)),
{
    let dropped = without_null_bytes(field);
    let r = path_segment(field);
    lemma_without_null_bytes(field);
    lemma_without_invalid_symbols(dropped);
    assert forall|i: int| 0 <= i < r.len() implies #[trigger] r[i] != '\0' by {
        assert(dropped.contains(r[i]));
    }
}

/// No field read from a path holds a null character or one of
/// `/ \ : " < > | ? *`, whatever the path; the album artist and the track
/// number are empty.
pub proof fn lemma_tags_of_path_safe(p: Seq<char>)
    ensures
        tags_of_path(p).is_filesystem_safe(),
        tags_of_path(p).album_artist.len() == 0,
        tags_of_path(p).track_number.len() == 0,
{
    reveal(Seq::filter);
    let raw = raw_tags_of_path(p);
    lemma_segment_is_safe(with_slashes_replaced(raw.artist));
    lemma_segment_is_safe(with_slashes_replaced(raw.album));
    lemma_segment_is_safe(with_slashes_replaced(raw.title));
    lemma_segment_is_safe(with_slashes_replaced(raw.album_artist));
    assert(with_slashes_replaced(Seq::<char>::empty()) =~= Seq::<char>::empty());
}

/// Reading a path that was written from a tag set gives the tag set back:
/// the artist, the album and the title as they were, provided that they
/// hold no invalid symbol and no null character and that the title is not
/// empty. The album artist and the track number have no place in a path and
/// come back empty.
pub proof fn lemma_round_trip(t: TagsView, ext: Seq<char>)
    requires
        is_filesystem_safe(t.artist),
        is_filesystem_safe(t.album),
        is_filesystem_safe(t.title),
        t.title.len() > 0,
        is_extension(ext),
    ensures
        tags_of_path(path_of_tags(t, ext)) == (TagsView {
            album_artist: Seq::empty(),
            track_number: Seq::empty(),
            ..t
        }),
        t.album_artist.len() == 0 && t.track_number.len() == 0 ==> tags_of_path(
            path_of_tags(t, ext),
        ) == t,
        extension_of(file_name_of(path_of_tags(t, ext))) == Some(ext),
{
    lemma_safe_field_is_segment(t.artist);
    lemma_safe_field_is_segment(t.album);
    lemma_safe_field_is_segment(t.title);
    lemma_without_invalid_symbols(t.artist);
    lemma_without_invalid_symbols(t.album);
    lemma_without_invalid_symbols(t.title);
    lemma_no_slash_to_replace(t.artist);
    lemma_no_slash_to_replace(t.album);
    lemma_no_slash_to_replace(t.title);
    let p = path_of_tags(t, ext);
    assert(p == t.artist + seq!['/'] + t.album + seq!['/'] + t.title + seq!['.'] + ext);
    let dir = t.artist + seq!['/'] + t.album;
    let name = t.title + seq!['.'] + ext;
    // the file name
    let k = dir.len() as int;
    assert(is_last_position(p, '/', k)) by {
        assert(p[k] == '/');
        assert forall|j: int| k < j < p.len() implies p[j] != '/' by {
            if j - k - 1 < t.title.len() {
                assert(p[j] == t.title[j - k - 1]);
            } else if j - k - 1 == t.title.len() {
                assert(p[j] == '.');
            } else {
                assert(p[j] == ext[j - k - 2 - t.title.len()]);
            }
        }
    }
    lemma_last_position(p, '/');
    assert(file_name_of(p) =~= name);
    assert(parent_of(p) == Some(p.take(k)));
    assert(p.take(k) =~= dir);
    // its stem
    let d = t.title.len() as int;
    assert(is_last_position(name, '.', d)) by {
        assert(name[d] == '.');
        assert forall|j: int| d < j < name.len() implies name[j] != '.' by {
            assert(name[j] == ext[j - d - 1]);
        }
    }
    lemma_last_position(name, '.');
    assert(stem_of(name) =~= t.title);
    assert(name.skip(d + 1) =~= ext);
    // the directory that holds the file
    let a = t.artist.len() as int;
    assert(is_last_position(dir, '/', a)) by {
        assert(dir[a] == '/');
        assert forall|j: int| a < j < dir.len() implies dir[j] != '/' by {
            assert(dir[j] == t.album[j - a - 1]);
        }
    }
    lemma_last_position(dir, '/');
    assert(file_name_of(dir) =~= t.album);
    assert(dir.take(a) =~= t.artist);
    // the directory above it
    assert(is_last_position(t.artist, '/', -1));
    lemma_last_position(t.artist, '/');
    assert(file_name_of(t.artist) =~= t.artist);
    assert(with_slashes_replaced(Seq::<char>::empty()) =~= Seq::<char>::empty());
    reveal(Seq::filter);
    assert(tags_of_path(p).artist == t.artist);
    assert(tags_of_path(p).album == t.album);
    assert(tags_of_path(p).title == t.title);
    if t.album_artist.len() == 0 && t.track_number.len() == 0 {
        assert(t.album_artist =~= Seq::<char>::empty());
        assert(t.track_number =~= Seq::<char>::empty());
    }
}

/// Reads the tag set that the position of a file stands for.
pub fn tags_from_path(relative_path: &str) -> (r: Tags)
    ensures
        r@ == tags_of_path(relative_path@),
        r@.is_filesystem_safe(),
{
    let mut ret = Tags::empty();
    ret.title = String::from_str(file_stem(file_name(relative_path)));
    if let Some(album_path) = parent(relative_path) {
        ret.album = String::from_str(file_name(album_path));
        if let Some(artist_path) = parent(album_path) {
            ret.artist = String::from_str(file_name(artist_path));
        }
    }
    assert(ret@ == raw_tags_of_path(relative_path@));
    ret.remove_slashes();
    ret.remove_null_bytes();
    ret.remove_invalid_symbols();
    proof {
        lemma_tags_of_path_safe(relative_path@);
    }
    ret
}

/// Writes the canonical relative path of a file with these tags and this
/// extension. An empty field gives an empty segment.
pub fn path_from_tags(input_tags: &Tags, extension: &str) -> (r: String)
    ensures
        r@ == path_of_tags(input_tags@, extension@),
{
    let mut tags = input_tags.duplicate();
    tags.remove_null_bytes();
    tags.remove_invalid_symbols();
    let mut ret = tags.artist.clone();
    proof {
        reveal_strlit("/");
        reveal_strlit(".");
    }
    ret.append("/");
    ret.append(tags.album.as_str());
    ret.append("/");
    ret.append(tags.title.as_str());
    ret.append(".");
    ret.append(extension);
    assert(ret@ =~= path_of_tags(input_tags@, extension@));
    ret
}

} // verus!
