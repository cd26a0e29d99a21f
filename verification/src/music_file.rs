//! The track record: one audio file below the collection root, with the
//! checks that compare its position with its tags.

use crate::canonical::{
    is_extension, lemma_no_slash_to_replace, lemma_round_trip, lemma_safe_field_is_segment,
    lemma_segment_is_safe, lemma_tags_of_path_safe, path_from_tags, path_of_tags, tags_from_path,
    tags_of_path,
};
use crate::decimal::{
    decimal_digits, lemma_decimal_digits, parse_track_number, parsed_track_number,
    track_number_text,
};
use crate::path::{
    extension, extension_of, file_name, file_name_of, has_extension, is_last_position, join,
    joined, last_position, lemma_last_position, names_a_directory,
};
use crate::tag_block::{TagBlock, TagBlockView, TagEdit, TagEditView};
use crate::tags::{Tags, TagsView};
use crate::text::{all_digits, with_slashes_replaced};
use vstd::prelude::*;

verus! {

/// An audio file: the collection root and the path of the file below it.
#[derive(Debug, Clone, PartialEq, Eq)]
pub struct MusicFile {
    pub base_path: String,
    pub relative_path: String,
}

/// What a `MusicFile` holds.
pub struct MusicFileView {
    pub base_path: Seq<char>,
    pub relative_path: Seq<char>,
}

/// The edits of one rewrite of a tag block, and the track number that was
/// left unwritten because it is no number.
#[derive(Debug, Clone, PartialEq, Eq)]
pub struct TagWrite {
    pub edits: Vec<TagEdit>,
    pub skipped_track_number: Option<String>,
}

/// What a `TagWrite` holds.
pub struct TagWriteView {
    pub edits: Seq<TagEditView>,
    pub skipped_track_number: Option<Seq<char>>,
}

impl View for MusicFile {
    type V = MusicFileView;

    open spec fn view(&self) -> MusicFileView {
        MusicFileView { base_path: self.base_path@, relative_path: self.relative_path@ }
    }
}

impl DeepView for MusicFile {
    type V = MusicFileView;

    open spec fn deep_view(&self) -> MusicFileView {
        self@
    }
}

impl View for TagWrite {
    type V = TagWriteView;

    open spec fn view(&self) -> TagWriteView {
        TagWriteView {
            edits: self.edits.deep_view(),
            skipped_track_number: self.skipped_track_number.deep_view(),
        }
    }
}

impl DeepView for TagWrite {
    type V = TagWriteView;

    open spec fn deep_view(&self) -> TagWriteView {
        self@
    }
}

/// The text of an optional field, empty where the field is absent.
pub open spec fn text_or_empty(field: Option<Seq<char>>) -> Seq<char> {
    match field {
        Some(s) => s,
        None => Seq::empty(),
    }
}

/// The fields of a tag block as text, before any character is replaced or
/// dropped.
pub open spec fn raw_tags_of_block(b: TagBlockView) -> TagsView {
    TagsView {
        artist: text_or_empty(b.artist),
        album_artist: text_or_empty(b.album_artist),
        album: text_or_empty(b.album),
        title: text_or_empty(b.title),
        track_number: match b.track_number {
            Some(n) => decimal_digits(n as nat),
            None => Seq::empty(),
        },
    }
}

/// The tag set that a tag block stands for: its fields as text, with every
/// `/` turned into `-` and every null character and invalid symbol dropped.
pub open spec fn tags_of_block(b: TagBlockView) -> TagsView {
    raw_tags_of_block(b).slashes_replaced().null_bytes_removed().invalid_symbols_removed()
}

/// The edits that write `t` into a tag block: the album artist is removed,
/// title, album and artist are set, and the track number is set where it
/// parses as a number.
pub open spec fn edits_for(t: TagsView) -> Seq<TagEditView> {
    let fixed = seq![
        TagEditView::RemoveAlbumArtist,
        TagEditView::SetTitle(t.title),
        TagEditView::SetAlbumTitle(t.album),
        TagEditView::SetArtist(t.artist),
    ];
    match parsed_track_number(t.track_number) {
        Some(n) => fixed.push(TagEditView::SetTrackNumber(n)),
        None => fixed,
    }
}

/// The whole of one rewrite: the edits, and the track number text where it
/// was skipped.
pub open spec fn write_for(t: TagsView) -> TagWriteView {
    TagWriteView {
        edits: edits_for(t),
        skipped_track_number: match parsed_track_number(t.track_number) {
            Some(_) => None,
            None => Some(t.track_number),
        },
    }
}

/// The edits that remove the five fields.
pub open spec fn removal_edits() -> Seq<TagEditView> {
    seq![
        TagEditView::RemoveTitle,
        TagEditView::RemoveAlbumTitle,
        TagEditView::RemoveArtist,
        TagEditView::RemoveAlbumArtist,
        TagEditView::RemoveTrackNumber,
    ]
}

impl MusicFileView {
    /// The record's invariant: the file name has an extension, and it is
    /// not empty.
    pub open spec fn wf(self) -> bool {
        has_extension(self.relative_path)
    }

    /// The extension of the file.
    pub open spec fn extension(self) -> Seq<char>
        recommends
            self.wf(),
    {
        extension_of(file_name_of(self.relative_path))->0
    }

    /// The collection root and the relative path, joined.
    pub open spec fn full_path(self) -> Seq<char> {
        joined(self.base_path, self.relative_path)
    }

    /// The tags that the position of the file stands for.
    pub open spec fn tags_from_path(self) -> TagsView {
        tags_of_path(self.relative_path)
    }

    /// The canonical path for tags `t`, with the extension of this file.
    pub open spec fn path_from_tags(self, t: TagsView) -> Seq<char> {
        path_of_tags(t, self.extension())
    }

    /// The tags read from the position equal those read from the block.
    pub open spec fn tags_match(self, b: TagBlockView) -> bool {
        self.tags_from_path() == tags_of_block(b)
    }

    /// The file stands where its tags place it.
    pub open spec fn paths_match(self, b: TagBlockView) -> bool {
        self.relative_path == self.path_from_tags(tags_of_block(b))
    }

    /// The record of the same file after a move to `relative_path`.
    pub open spec fn moved_to(self, relative_path: Seq<char>) -> MusicFileView {
        MusicFileView { relative_path, ..self }
    }
}

impl MusicFile {
    /// Makes the record of the file at `relative` below `base`, where the
    /// codec found a tag block in it (`tag_available`) and its name has an
    /// extension that is not empty. Any other file gives no record.
    pub fn new(base: &String, relative: &String, tag_available: bool) -> (r: Option<MusicFile>)
        ensures
            r is Some <==> tag_available && has_extension(relative@),
            r matches Some(f) ==> f.base_path@ == base@ && f.relative_path@ == relative@
                && f@.wf(),
    {
        if !tag_available {
            return None;
        }
        match extension(file_name(relative.as_str())) {
            Some(ext) => {
                if ext.unicode_len() == 0 {
                    None
                } else {
                    Some(MusicFile { base_path: base.clone(), relative_path: relative.clone() })
                }
            },
            None => None,
        }
    }

    /// A copy.
    pub fn duplicate(&self) -> (r: MusicFile)
        ensures
            r@ == self@,
    {
        MusicFile { base_path: self.base_path.clone(), relative_path: self.relative_path.clone() }
    }

    /// The path of the file, root included.
    pub fn full_path(&self) -> (r: String)
        ensures
            r@ == self@.full_path(),
    {
        join(self.base_path.as_str(), self.relative_path.as_str())
    }

    /// The tags that the position of the file stands for: the title from
    /// the file name, the album and the artist from the two directories
    /// above it.
    pub fn compose_tags_from_path(&self) -> (r: Tags)
        ensures
            r@ == self@.tags_from_path(),
            r@.is_filesystem_safe(),
    {
        tags_from_path(self.relative_path.as_str())
    }

    /// The canonical path for `input_tags`, with the extension of this file.
    pub fn compose_path_from_tags(&self, input_tags: &Tags) -> (r: String)
        requires
            self@.wf(),
        ensures
            r@ == self@.path_from_tags(input_tags@),
    {
        let ext = extension(file_name(self.relative_path.as_str()));
        path_from_tags(input_tags, ext.unwrap())
    }

    /// The tag set that `block`, read from this file, stands for: an absent
    /// field is empty, the track number is written in decimal, and the four
    /// text fields have their slashes replaced and their null characters
    /// and invalid symbols dropped.
    pub fn tags(&self, block: &TagBlock) -> (r: Tags)
        ensures
            r@ == tags_of_block(block@),
            r@.is_filesystem_safe(),
            all_digits(r.track_number@),
    {
        let mut ret = Tags::empty();
        if let Some(title) = &block.title {
            ret.title = title.clone();
        }
        if let Some(album) = &block.album {
            ret.album = album.clone();
        }
        if let Some(artist) = &block.artist {
            ret.artist = artist.clone();
        }
        if let Some(album_artist) = &block.album_artist {
            ret.album_artist = album_artist.clone();
        }
        if let Some(track_number) = block.track_number {
            ret.track_number = track_number_text(track_number);
        }
        assert(ret@ == raw_tags_of_block(block@));
        ret.remove_slashes();
        ret.remove_null_bytes();
        ret.remove_invalid_symbols();
        proof {
            lemma_tags_of_block_safe(block@);
        }
        ret
    }

    /// Tells whether the tags in `block` are those that the position of the
    /// file stands for.
    pub fn tags_match(&self, block: &TagBlock) -> (r: bool)
        ensures
            r == self@.tags_match(block@),
    {
        let from_path = self.compose_tags_from_path();
        let from_block = self.tags(block);
        from_path.same_as(&from_block)
    }

    /// Tells whether the file stands where the tags in `block` place it.
    pub fn paths_match(&self, block: &TagBlock) -> (r: bool)
        requires
            self@.wf(),
        ensures
            r == self@.paths_match(block@),
    {
        let path_from_tags = self.compose_path_from_tags(&self.tags(block));
        self.relative_path == path_from_tags
    }

    /// Plans the rewrite of the tag block of this file from `tags`: the
    /// album artist goes, title, album and artist are set, and the track
    /// number is set where it parses as a number below 65536. Where it does
    /// not, that one field is left as the block has it and the text is
    /// handed back for a warning.
    pub fn set_tags(&self, tags: &Tags) -> (r: TagWrite)
        ensures
            r@ == write_for(tags@),
    {
        let mut edits: Vec<TagEdit> = Vec::new();
        edits.push(TagEdit::RemoveAlbumArtist);
        edits.push(TagEdit::SetTitle(tags.title.clone()));
        edits.push(TagEdit::SetAlbumTitle(tags.album.clone()));
        edits.push(TagEdit::SetArtist(tags.artist.clone()));
        let skipped = match parse_track_number(tags.track_number.as_str()) {
            Some(tn) => {
                edits.push(TagEdit::SetTrackNumber(tn));
                None
            },
            None => Some(tags.track_number.clone()),
        };
        assert(edits.deep_view() =~= edits_for(tags@));
        TagWrite { edits, skipped_track_number: skipped }
    }

    /// Plans the removal of the five fields from the tag block of this file.
    pub fn remove_tags(&self) -> (r: Vec<TagEdit>)
        ensures
            r.deep_view() == removal_edits(),
            forall|b: TagBlockView| #[trigger] b.after_all(r.deep_view()) == TagBlockView::empty(),
    {
        let mut edits: Vec<TagEdit> = Vec::new();
        edits.push(TagEdit::RemoveTitle);
        edits.push(TagEdit::RemoveAlbumTitle);
        edits.push(TagEdit::RemoveArtist);
        edits.push(TagEdit::RemoveAlbumArtist);
        edits.push(TagEdit::RemoveTrackNumber);
        assert(edits.deep_view() =~= removal_edits());
        assert forall|b: TagBlockView| #[trigger]
            b.after_all(edits.deep_view()) == TagBlockView::empty() by {
            lemma_removal_empties(b);
        }
        edits
    }
}

/// No field read from a tag block holds a null character or one of
/// `/ \ : " < > | ? *`, whatever the block; the track number is made of
/// digits.
pub proof fn lemma_tags_of_block_safe(b: TagBlockView)
    ensures
        tags_of_block(b).is_filesystem_safe(),
        all_digits(tags_of_block(b).track_number),
{
    let raw = raw_tags_of_block(b);
    lemma_segment_is_safe(with_slashes_replaced(raw.artist));
    lemma_segment_is_safe(with_slashes_replaced(raw.album_artist));
    lemma_segment_is_safe(with_slashes_replaced(raw.album));
    lemma_segment_is_safe(with_slashes_replaced(raw.title));
    if let Some(n) = b.track_number {
        lemma_decimal_digits(n as nat);
    }
}

/// The extension of a file name holds neither `.` nor `/`.
pub proof fn lemma_extension_is_extension(p: Seq<char>)
    requires
        extension_of(file_name_of(p)) is Some,
    ensures
        is_extension(extension_of(file_name_of(p))->0),
{
    let name = file_name_of(p);
    lemma_last_position(p, '/');
    lemma_last_position(name, '.');
    let k = last_position(p, '/');
    let d = last_position(name, '.');
    let ext = extension_of(name)->0;
    assert forall|i: int| 0 <= i < ext.len() implies #[trigger] ext[i] != '.' && ext[i] != '/' by {
        assert(ext[i] == name[i + d + 1]);
        assert(name[i + d + 1] == p[i + d + 1 + k + 1]);
    }
}

/// Removing the five fields leaves an empty block, whatever it held.
pub proof fn lemma_removal_empties(b: TagBlockView)
    ensures
        b.after_all(removal_edits()) == TagBlockView::empty(),
{
    reveal_with_fuel(TagBlockView::after_all, 6);
    let e = removal_edits();
    assert(e.drop_last() =~= seq![
        TagEditView::RemoveTitle,
        TagEditView::RemoveAlbumTitle,
        TagEditView::RemoveArtist,
        TagEditView::RemoveAlbumArtist,
    ]);
    assert(e.drop_last().drop_last() =~= seq![
        TagEditView::RemoveTitle,
        TagEditView::RemoveAlbumTitle,
        TagEditView::RemoveArtist,
    ]);
    assert(e.drop_last().drop_last().drop_last() =~= seq![
        TagEditView::RemoveTitle,
        TagEditView::RemoveAlbumTitle,
    ]);
    assert(e.drop_last().drop_last().drop_last().drop_last() =~= seq![TagEditView::RemoveTitle]);
    assert(e.drop_last().drop_last().drop_last().drop_last().drop_last() =~= Seq::<
        TagEditView,
    >::empty());
}

/// The block after the edits of one rewrite: title, album and artist are
/// those written, the album artist is gone, and the track number is the one
/// written or, where none was, the one that the block held.
pub proof fn lemma_block_after_write(b: TagBlockView, t: TagsView)
    ensures
        b.after_all(edits_for(t)) == (TagBlockView {
            title: Some(t.title),
            album: Some(t.album),
            artist: Some(t.artist),
            album_artist: None,
            track_number: match parsed_track_number(t.track_number) {
                Some(n) => Some(n),
                None => b.track_number,
            },
        }),
{
    reveal_with_fuel(TagBlockView::after_all, 6);
    let fixed = seq![
        TagEditView::RemoveAlbumArtist,
        TagEditView::SetTitle(t.title),
        TagEditView::SetAlbumTitle(t.album),
        TagEditView::SetArtist(t.artist),
    ];
    assert(fixed.drop_last() =~= seq![
        TagEditView::RemoveAlbumArtist,
        TagEditView::SetTitle(t.title),
        TagEditView::SetAlbumTitle(t.album),
    ]);
    assert(fixed.drop_last().drop_last() =~= seq![
        TagEditView::RemoveAlbumArtist,
        TagEditView::SetTitle(t.title),
    ]);
    assert(fixed.drop_last().drop_last().drop_last() =~= seq![TagEditView::RemoveAlbumArtist]);
    assert(fixed.drop_last().drop_last().drop_last().drop_last() =~= Seq::<TagEditView>::empty());
    if let Some(n) = parsed_track_number(t.track_number) {
        assert(fixed.push(TagEditView::SetTrackNumber(n)).drop_last() =~= fixed);
    }
}

/// Once the tags of a file were rewritten from its position, they match
/// its position: a second rewrite has nothing to do. This holds of a file
/// whose block carried no track number; one that it carried stays in the
/// block, and no position stands for a track number.
pub proof fn lemma_rewrite_settles(f: MusicFileView, b: TagBlockView)
    requires
        b.track_number is None,
    ensures
        f.tags_match(b.after_all(edits_for(f.tags_from_path().track_number_fixed()))),
{
    let t = f.tags_from_path();
    let written = t.track_number_fixed();
    lemma_tags_of_path_safe(f.relative_path);
    assert(written.track_number =~= Seq::<char>::empty());
    assert(parsed_track_number(written.track_number) is None);
    lemma_block_after_write(b, written);
    let after = b.after_all(edits_for(written));
    lemma_no_slash_to_replace(t.artist);
    lemma_no_slash_to_replace(t.album);
    lemma_no_slash_to_replace(t.title);
    lemma_safe_field_is_segment(t.artist);
    lemma_safe_field_is_segment(t.album);
    lemma_safe_field_is_segment(t.title);
    reveal(Seq::filter);
    assert(with_slashes_replaced(Seq::<char>::empty()) =~= Seq::<char>::empty());
    assert(tags_of_block(after).album_artist =~= t.album_artist);
    assert(tags_of_block(after).track_number =~= t.track_number);
}

/// Once a file was moved to the path that its tags give, it stands where
/// its tags place it: a second move has nothing to do. Where the title is
/// empty the new file name has no extension, and the file is no track
/// record any more.
///
/// The artist and the album are asked to name a directory. A walk reports
/// a file at its path without empty segments and dot names, so a path
/// composed with such a segment is not the text at which the file is found
/// again.
pub proof fn lemma_move_settles(f: MusicFileView, b: TagBlockView)
    requires
        f.wf(),
        names_a_directory(tags_of_block(b).artist),
        names_a_directory(tags_of_block(b).album),
    ensures
        ({
            let moved = f.moved_to(f.path_from_tags(tags_of_block(b)));
            &&& moved.wf() ==> moved.paths_match(b)
            &&& moved.wf() <==> tags_of_block(b).title.len() > 0
        }),
{
    let t = tags_of_block(b);
    let ext = f.extension();
    let dest = f.path_from_tags(t);
    lemma_extension_is_extension(f.relative_path);
    lemma_tags_of_block_safe(b);
    lemma_safe_field_is_segment(t.artist);
    lemma_safe_field_is_segment(t.album);
    lemma_safe_field_is_segment(t.title);
    if t.title.len() > 0 {
        lemma_round_trip(t, ext);
    } else {
        // the file name is a `.` and the extension: a name without extension
        let k = (t.artist.len() + 1 + t.album.len()) as int;
        assert(is_last_position(dest, '/', k)) by {
            assert(dest[k] == '/');
            assert forall|j: int| k < j < dest.len() implies dest[j] != '/' by {
                if j == k + 1 {
                    assert(dest[j] == '.');
                } else {
                    assert(dest[j] == ext[j - k - 2]);
                }
            }
        }
        lemma_last_position(dest, '/');
        let name = file_name_of(dest);
        assert(name =~= seq!['.'] + ext);
        assert(is_last_position(name, '.', 0)) by {
            assert forall|j: int| 0 < j < name.len() implies name[j] != '.' by {
                assert(name[j] == ext[j - 1]);
            }
        }
        lemma_last_position(name, '.');
    }
}

} // verus!
