//! The album record that a token carries.
use vstd::prelude::*;

verus! {

/// What a token says of the track it stands for.
#[derive(Debug, PartialEq, Eq)]
pub struct Metadata {
    /// The name of the artist
    pub artist: String,
    /// The name of the album
    pub album: String,
    /// The url of the album artwork
    pub artwork_url: String,
    /// The album year
    pub year: i32,
    /// The name of the track
    pub track_name: String,
    /// The link to the external audio track reference
    pub audio_track_url: String,
}

/// A [`Metadata`] record as a mathematical value.
pub struct MetadataView {
    pub artist: Seq<char>,
    pub album: Seq<char>,
    pub artwork_url: Seq<char>,
    pub year: int,
    pub track_name: Seq<char>,
    pub audio_track_url: Seq<char>,
}

impl MetadataView {
    /// The record with every text empty and the year zero.
    pub open spec fn blank() -> MetadataView {
        MetadataView {
            artist: Seq::empty(),
            album: Seq::empty(),
            artwork_url: Seq::empty(),
            year: 0,
            track_name: Seq::empty(),
            audio_track_url: Seq::empty(),
        }
    }
}

impl View for Metadata {
    type V = MetadataView;

    open spec fn view(&self) -> MetadataView {
        MetadataView {
            artist: self.artist@,
            album: self.album@,
            artwork_url: self.artwork_url@,
            year: self.year as int,
            track_name: self.track_name@,
            audio_track_url: self.audio_track_url@,
        }
    }
}

impl Default for Metadata {
    /// The record with every text empty and the year zero.
    fn default() -> (r: Self)
        ensures
            r@ == MetadataView::blank(),
    {
        Metadata {
            artist: String::new(),
            album: String::new(),
            artwork_url: String::new(),
            year: 0,
            track_name: String::new(),
            audio_track_url: String::new(),
        }
    }
}

impl Clone for Metadata {
    fn clone(&self) -> (r: Self)
        ensures
            r@ == self@,
    {
        Metadata {
            artist: self.artist.clone(),
            album: self.album.clone(),
            artwork_url: self.artwork_url.clone(),
            year: self.year,
            track_name: self.track_name.clone(),
            audio_track_url: self.audio_track_url.clone(),
        }
    }
}

/// The optional album record of a token.
pub type Extension = Option<Metadata>;

/// An optional record as a mathematical value.
pub open spec fn extension_view(extension: Option<Metadata>) -> Option<MetadataView> {
    match extension {
        Some(m) => Some(m@),
        None => None,
    }
}

/// A copy of an optional record.
pub fn clone_extension(extension: &Option<Metadata>) -> (r: Option<Metadata>)
    ensures
        extension_view(r) == extension_view(*extension),
{
    match extension {
        Some(m) => Some(m.clone()),
        None => None,
    }
}

} // verus!
