//! The tag set: the five fields that describe a track.

use crate::text::{
    all_digits, digit_prefix, has_no_invalid_symbol, is_filesystem_safe, leading_digits,
    lemma_leading_digits, replace_slashes, strip_invalid_symbols, strip_null_bytes,
    with_slashes_replaced, without_invalid_symbols, without_null_bytes,
};
use vstd::prelude::*;

verus! {

/// The fields of a track. An empty field stands for an absent one.
#[derive(Debug, Clone, PartialEq, Eq)]
pub struct Tags {
    pub artist: String,
    pub album_artist: String,
    pub album: String,
    pub title: String,
    pub track_number: String,
}

/// What a `Tags` value holds, field by field.
pub struct TagsView {
    pub artist: Seq<char>,
    pub album_artist: Seq<char>,
    pub album: Seq<char>,
    pub title: Seq<char>,
    pub track_number: Seq<char>,
}

impl TagsView {
    /// The tag set with every field absent.
    pub open spec fn empty() -> TagsView {
        TagsView {
            artist: Seq::empty(),
            album_artist: Seq::empty(),
            album: Seq::empty(),
            title: Seq::empty(),
            track_number: Seq::empty(),
        }
    }

    /// Every `/` of the four text fields turned into `-`.
    pub open spec fn slashes_replaced(self) -> TagsView {
        TagsView {
            artist: with_slashes_replaced(self.artist),
            album_artist: with_slashes_replaced(self.album_artist),
            album: with_slashes_replaced(self.album),
            title: with_slashes_replaced(self.title),
            track_number: self.track_number,
        }
    }

    /// The null characters of the four text fields dropped.
    pub open spec fn null_bytes_removed(self) -> TagsView {
        TagsView {
            artist: without_null_bytes(self.artist),
            album_artist: without_null_bytes(self.album_artist),
            album: without_null_bytes(self.album),
            title: without_null_bytes(self.title),
            track_number: self.track_number,
        }
    }

    /// The invalid symbols of the four text fields dropped.
    pub open spec fn invalid_symbols_removed(self) -> TagsView {
        TagsView {
            artist: without_invalid_symbols(self.artist),
            album_artist: without_invalid_symbols(self.album_artist),
            album: without_invalid_symbols(self.album),
            title: without_invalid_symbols(self.title),
            track_number: self.track_number,
        }
    }

    /// The track number cut down to the digits it starts with.
    pub open spec fn track_number_fixed(self) -> TagsView {
        TagsView { track_number: leading_digits(self.track_number), ..self }
    }

    /// None of the four text fields holds an invalid symbol.
    pub open spec fn has_no_invalid_symbol(self) -> bool {
        &&& has_no_invalid_symbol(self.artist)
        &&& has_no_invalid_symbol(self.album_artist)
        &&& has_no_invalid_symbol(self.album)
        &&& has_no_invalid_symbol(self.title)
    }

    /// Each of the four text fields can stand as a path segment as it is.
    pub open spec fn is_filesystem_safe(self) -> bool {
        &&& is_filesystem_safe(self.artist)
        &&& is_filesystem_safe(self.album_artist)
        &&& is_filesystem_safe(self.album)
        &&& is_filesystem_safe(self.title)
    }
}

impl View for Tags {
    type V = TagsView;

    open spec fn view(&self) -> TagsView {
        TagsView {
            artist: self.artist@,
            album_artist: self.album_artist@,
            album: self.album@,
            title: self.title@,
            track_number: self.track_number@,
        }
    }
}

impl DeepView for Tags {
    type V = TagsView;

    open spec fn deep_view(&self) -> TagsView {
        self@
    }
}

impl Tags {
    /// A tag set with every field absent.
    pub fn empty() -> (r: Tags)
        ensures
            r@ == TagsView::empty(),
    {
        Tags {
            artist: String::new(),
            album_artist: String::new(),
            album: String::new(),
            title: String::new(),
            track_number: String::new(),
        }
    }

    /// A copy, field by field.
    pub fn duplicate(&self) -> (r: Tags)
        ensures
            r@ == self@,
    {
        Tags {
            artist: self.artist.clone(),
            album_artist: self.album_artist.clone(),
            album: self.album.clone(),
            title: self.title.clone(),
            track_number: self.track_number.clone(),
        }
    }

    /// Structural equality: all five fields, an empty one matching only an
    /// empty one.
    pub fn same_as(&self, other: &Tags) -> (r: bool)
        ensures
            r == (self@ == other@),
    {
        self.artist == other.artist && self.album_artist == other.album_artist && self.album
            == other.album && self.title == other.title && self.track_number == other.track_number
    }

    /// Turns every `/` of the four text fields into `-`.
    pub fn remove_slashes(&mut self)
        ensures
            final(self)@ == old(self)@.slashes_replaced(),
    {
        self.artist = replace_slashes(self.artist.as_str());
        self.album = replace_slashes(self.album.as_str());
        self.album_artist = replace_slashes(self.album_artist.as_str());
        self.title = replace_slashes(self.title.as_str());
    }

    /// Drops the null characters of the four text fields.
    pub fn remove_null_bytes(&mut self)
        ensures
            final(self)@ == old(self)@.null_bytes_removed(),
    {
        self.artist = strip_null_bytes(self.artist.as_str());
        self.album = strip_null_bytes(self.album.as_str());
        self.album_artist = strip_null_bytes(self.album_artist.as_str());
        self.title = strip_null_bytes(self.title.as_str());
    }

    /// Drops `< > : " / \ | ? *` from the four text fields.
    pub fn remove_invalid_symbols(&mut self)
        ensures
            final(self)@ == old(self)@.invalid_symbols_removed(),
            final(self)@.has_no_invalid_symbol(),
    {
        self.artist = strip_invalid_symbols(self.artist.as_str());
        self.album = strip_invalid_symbols(self.album.as_str());
        self.album_artist = strip_invalid_symbols(self.album_artist.as_str());
        self.title = strip_invalid_symbols(self.title.as_str());
        proof {
            lemma_invalid_symbols_removed(old(self)@);
        }
    }

    /// Cuts the track number down to the digits it starts with; the other
    /// fields stay.
    pub fn fix_track_number(&mut self)
        ensures
            final(self)@ == old(self)@.track_number_fixed(),
            all_digits(final(self).track_number@),
    {
        self.track_number = digit_prefix(self.track_number.as_str());
        proof {
            lemma_leading_digits(old(self).track_number@);
        }
    }
}

/// Once the invalid symbols are dropped, none is left.
pub proof fn lemma_invalid_symbols_removed(t: TagsView)
    ensures
        t.invalid_symbols_removed().has_no_invalid_symbol(),
{
    crate::text::lemma_without_invalid_symbols(t.artist);
    crate::text::lemma_without_invalid_symbols(t.album_artist);
    crate::text::lemma_without_invalid_symbols(t.album);
    crate::text::lemma_without_invalid_symbols(t.title);
}

} // verus!
