//! The agent's side of looking a track up with the remote resolver.

use vstd::prelude::*;
use vstd::string::*;
use crate::music::LocationView;
use crate::text::{chars_of, is_match_at, matches_at};
use crate::track::{AudioLocation, AudioMetadata};

verus! {

/// What the resolver is asked for a location: the address itself, or the
/// words behind the mark of a search. A local path is no matter for the
/// resolver.
pub open spec fn query_for(location: LocationView) -> Option<Seq<char>> {
    match location {
        LocationView::Url(url) => Some(url),
        LocationView::YoutubeSearch(words) => Some("ytsearch:"@ + words),
        LocationView::Path(_) => None,
    }
}

/// The query to hand to the resolver for `location`.
pub fn resolver_query(location: &AudioLocation) -> (query: Option<String>)
    ensures
        crate::track::text_view(query) == query_for(location@),
{
    match location {
        AudioLocation::Url(url) => Some(url.clone()),
        AudioLocation::YoutubeSearch(words) => {
            let mut query = String::from_str("ytsearch:");
            query.append(words.as_str());
            Some(query)
        },
        AudioLocation::Path(_) => None,
    }
}

/// Whether `needle` occurs in `hay`.
pub open spec fn contains(hay: Seq<char>, needle: Seq<char>) -> bool {
    exists|i: int| matches_at(hay, needle, i)
}

/// Whether `needle` occurs in `hay`.
pub fn text_contains(hay: &str, needle: &str) -> (found: bool)
    ensures
        found == contains(hay@, needle@),
{
    let h = chars_of(hay);
    let n = chars_of(needle);
    if n.len() > h.len() {
        return false;
    }
    let last = h.len() - n.len();
    let mut i: usize = 0;
    while i < last
        invariant
            0 <= i <= last,
            last == h.len() - n.len(),
            h@ == hay@,
            n@ == needle@,
            forall|j: int| 0 <= j < i ==> !matches_at(h@, n@, j),
        decreases last - i,
    {
        if is_match_at(&h, &n, i) {
            return true;
        }
        i += 1;
    }
    is_match_at(&h, &n, last)
}

/// The complaint of the resolver that goes away on a second try.
pub open spec fn passing_failure() -> Seq<char> {
    "Unable to extract video data"@
}

/// Whether a failed lookup is worth one more try: the resolver sometimes
/// fails to extract the data of a video and succeeds the next time.
pub fn should_retry(error: &str) -> (again: bool)
    ensures
        again == contains(error@, passing_failure()),
{
    text_contains(error, "Unable to extract video data")
}

/// What a failed lookup is reported as.
pub open spec fn lookup_failure(error: Seq<char>) -> Seq<char> {
    "Failed to find url: "@ + error
}

/// Finishes a lookup: a track that was found is marked with the user who
/// asked for it, a failure is put into words.
pub fn resolved(outcome: Result<AudioMetadata, String>, user: String) -> (track: Result<
    AudioMetadata,
    String,
>)
    ensures
        match outcome {
            Ok(found) => track == Ok::<AudioMetadata, String>(
                AudioMetadata { added_by: user, ..found },
            ),
            Err(e) => track is Err && track->Err_0@ == lookup_failure(e@),
        },
{
    match outcome {
        Ok(found) => {
            let mut found = found;
            found.added_by = user;
            Ok(found)
        },
        Err(e) => {
            let mut message = String::from_str("Failed to find url: ");
            message.append(e.as_str());
            Err(message)
        },
    }
}

} // verus!
