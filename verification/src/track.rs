//! What is known about one piece of audio, and where audio can come from.

use vstd::prelude::*;
use vstd::string::*;
use crate::duration::TimeSpan;

verus! {

/// A track as the playlist holds it. It is not changed once it has been
/// made.
#[derive(Debug, PartialEq, Eq)]
pub struct AudioMetadata {
    /// Where the pipeline reads the audio from.
    pub uri: String,
    /// The page a person would open for this track.
    pub webpage_url: Option<String>,
    pub title: String,
    pub thumbnail: Option<String>,
    pub duration: Option<TimeSpan>,
    /// The name of the user who asked for the track.
    pub added_by: String,
}

/// The mathematical content of an [`AudioMetadata`].
pub struct TrackView {
    pub uri: Seq<char>,
    pub webpage_url: Option<Seq<char>>,
    pub title: Seq<char>,
    pub thumbnail: Option<Seq<char>>,
    /// The length in nanoseconds.
    pub duration: Option<nat>,
    pub added_by: Seq<char>,
}

/// The characters of an optional text.
pub open spec fn text_view(text: Option<String>) -> Option<Seq<char>> {
    match text {
        Some(s) => Some(s@),
        None => None,
    }
}

/// The nanoseconds of an optional span.
pub open spec fn span_view(span: Option<TimeSpan>) -> Option<nat> {
    match span {
        Some(s) => Some(s@),
        None => None,
    }
}

impl View for AudioMetadata {
    type V = TrackView;

    open spec fn view(&self) -> TrackView {
        TrackView {
            uri: self.uri@,
            webpage_url: text_view(self.webpage_url),
            title: self.title@,
            thumbnail: text_view(self.thumbnail),
            duration: span_view(self.duration),
            added_by: self.added_by@,
        }
    }
}

fn clone_text(text: &Option<String>) -> (copy: Option<String>)
    ensures
        copy == *text,
{
    match text {
        Some(s) => Some(s.clone()),
        None => None,
    }
}

impl Clone for AudioMetadata {
    fn clone(&self) -> (copy: Self)
        ensures
            copy == *self,
    {
        AudioMetadata {
            uri: self.uri.clone(),
            webpage_url: clone_text(&self.webpage_url),
            title: self.title.clone(),
            thumbnail: clone_text(&self.thumbnail),
            duration: self.duration,
            added_by: self.added_by.clone(),
        }
    }
}

/// Where a requested track is to be found.
#[derive(Debug, PartialEq, Eq)]
pub enum AudioLocation {
    /// An address for the remote resolver.
    Url(String),
    /// Words for the remote resolver to search for.
    YoutubeSearch(String),
    /// A file below the music root, by its path relative to the root.
    Path(String),
}

} // verus!
