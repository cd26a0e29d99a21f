//! The tag block of a file as the codec presents it: five optional fields,
//! and the edits that the codec can make to them.

use vstd::prelude::*;

verus! {

/// The fields that the codec reads from a file. A field that the file does
/// not carry is `None`.
#[derive(Debug, Clone, PartialEq, Eq)]
pub struct TagBlock {
    pub title: Option<String>,
    pub album: Option<String>,
    pub artist: Option<String>,
    pub album_artist: Option<String>,
    pub track_number: Option<u16>,
}

/// What a `TagBlock` holds, field by field.
pub struct TagBlockView {
    pub title: Option<Seq<char>>,
    pub album: Option<Seq<char>>,
    pub artist: Option<Seq<char>>,
    pub album_artist: Option<Seq<char>>,
    pub track_number: Option<u16>,
}

/// One change to a tag block.
#[derive(Debug, Clone, PartialEq, Eq)]
pub enum TagEdit {
    SetTitle(String),
    SetAlbumTitle(String),
    SetArtist(String),
    SetTrackNumber(u16),
    RemoveTitle,
    RemoveAlbumTitle,
    RemoveArtist,
    RemoveAlbumArtist,
    RemoveTrackNumber,
}

/// What a `TagEdit` holds.
pub enum TagEditView {
    SetTitle(Seq<char>),
    SetAlbumTitle(Seq<char>),
    SetArtist(Seq<char>),
    SetTrackNumber(u16),
    RemoveTitle,
    RemoveAlbumTitle,
    RemoveArtist,
    RemoveAlbumArtist,
    RemoveTrackNumber,
}

impl View for TagBlock {
    type V = TagBlockView;

    open spec fn view(&self) -> TagBlockView {
        TagBlockView {
            title: self.title.deep_view(),
            album: self.album.deep_view(),
            artist: self.artist.deep_view(),
            album_artist: self.album_artist.deep_view(),
            track_number: self.track_number,
        }
    }
}

impl DeepView for TagBlock {
    type V = TagBlockView;

    open spec fn deep_view(&self) -> TagBlockView {
        self@
    }
}

impl View for TagEdit {
    type V = TagEditView;

    open spec fn view(&self) -> TagEditView {
        match self {
            TagEdit::SetTitle(s) => TagEditView::SetTitle(s@),
            TagEdit::SetAlbumTitle(s) => TagEditView::SetAlbumTitle(s@),
            TagEdit::SetArtist(s) => TagEditView::SetArtist(s@),
            TagEdit::SetTrackNumber(n) => TagEditView::SetTrackNumber(*n),
            TagEdit::RemoveTitle => TagEditView::RemoveTitle,
            TagEdit::RemoveAlbumTitle => TagEditView::RemoveAlbumTitle,
            TagEdit::RemoveArtist => TagEditView::RemoveArtist,
            TagEdit::RemoveAlbumArtist => TagEditView::RemoveAlbumArtist,
            TagEdit::RemoveTrackNumber => TagEditView::RemoveTrackNumber,
        }
    }
}

impl DeepView for TagEdit {
    type V = TagEditView;

    open spec fn deep_view(&self) -> TagEditView {
        self@
    }
}

impl TagBlockView {
    /// The block with every field absent.
    pub open spec fn empty() -> TagBlockView {
        TagBlockView { title: None, album: None, artist: None, album_artist: None, track_number: None }
    }

    /// The block after one edit.
    pub open spec fn after(self, edit: TagEditView) -> TagBlockView {
        match edit {
            TagEditView::SetTitle(s) => TagBlockView { title: Some(s), ..self },
            TagEditView::SetAlbumTitle(s) => TagBlockView { album: Some(s), ..self },
            TagEditView::SetArtist(s) => TagBlockView { artist: Some(s), ..self },
            TagEditView::SetTrackNumber(n) => TagBlockView { track_number: Some(n), ..self },
            TagEditView::RemoveTitle => TagBlockView { title: None, ..self },
            TagEditView::RemoveAlbumTitle => TagBlockView { album: None, ..self },
            TagEditView::RemoveArtist => TagBlockView { artist: None, ..self },
            TagEditView::RemoveAlbumArtist => TagBlockView { album_artist: None, ..self },
            TagEditView::RemoveTrackNumber => TagBlockView { track_number: None, ..self },
        }
    }

    /// The block after the edits, made in order.
    pub open spec fn after_all(self, edits: Seq<TagEditView>) -> TagBlockView
        decreases edits.len(),
    {
        if edits.len() == 0 {
            self
        } else {
            self.after_all(edits.drop_last()).after(edits.last())
        }
    }
}

/// A copy of an optional text.
pub fn copy_text(text: &Option<String>) -> (r: Option<String>)
    ensures
        r.deep_view() == text.deep_view(),
{
    match text {
        Some(s) => Some(s.clone()),
        None => None,
    }
}

impl TagBlock {
    /// A block with every field absent.
    pub fn empty() -> (r: TagBlock)
        ensures
            r@ == TagBlockView::empty(),
    {
        TagBlock { title: None, album: None, artist: None, album_artist: None, track_number: None }
    }

    /// A copy, field by field.
    pub fn duplicate(&self) -> (r: TagBlock)
        ensures
            r@ == self@,
    {
        TagBlock {
            title: copy_text(&self.title),
            album: copy_text(&self.album),
            artist: copy_text(&self.artist),
            album_artist: copy_text(&self.album_artist),
            track_number: self.track_number,
        }
    }

    /// Makes one edit.
    pub fn apply(&mut self, edit: &TagEdit)
        ensures
            final(self)@ == old(self)@.after(edit@),
    {
        match edit {
            TagEdit::SetTitle(s) => {
                self.title = Some(s.clone());
            },
            TagEdit::SetAlbumTitle(s) => {
                self.album = Some(s.clone());
            },
            TagEdit::SetArtist(s) => {
                self.artist = Some(s.clone());
            },
            TagEdit::SetTrackNumber(n) => {
                self.track_number = Some(*n);
            },
            TagEdit::RemoveTitle => {
                self.title = None;
            },
            TagEdit::RemoveAlbumTitle => {
                self.album = None;
            },
            TagEdit::RemoveArtist => {
                self.artist = None;
            },
            TagEdit::RemoveAlbumArtist => {
                self.album_artist = None;
            },
            TagEdit::RemoveTrackNumber => {
                self.track_number = None;
            },
        }
    }

    /// Makes the edits in order.
    pub fn apply_all(&mut self, edits: &Vec<TagEdit>)
        ensures
            final(self)@ == old(self)@.after_all(edits.deep_view()),
    {
        let n: usize = edits.len();
        let mut i: usize = 0;
        assert(edits.deep_view().take(0) =~= Seq::<TagEditView>::empty());
        while i < n
            invariant
                n == edits.len(),
                i <= n,
                self@ == old(self)@.after_all(edits.deep_view().take(i as int)),
            decreases n - i,
        {
            self.apply(&edits[i]);
            proof {
                let done = edits.deep_view().take(i + 1);
                assert(done.drop_last() =~= edits.deep_view().take(i as int));
                assert(done.last() == edits[i as int]@);
            }
            i += 1;
        }
        assert(edits.deep_view().take(n as int) =~= edits.deep_view());
    }
}

} // verus!
