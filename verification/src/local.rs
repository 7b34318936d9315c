//! Music on the local disk: which file a search means, and which paths an
//! agent may play.

use vstd::prelude::*;
use vstd::string::*;
use vstd::utf8::encode_utf8;
use crate::duration::TimeSpan;
use crate::text::{
    chars_of, count_occurrences, is_match_at, join, joined, lowercase, occurrences, string_of,
    to_lowercase,
};
use crate::track::AudioMetadata;

verus! {

/// What `Path::starts_with` says of two paths: whether the components of
/// `base` are the first components of `path`.
pub uninterp spec fn path_starts_with(path: Seq<char>, base: Seq<char>) -> bool;

/// `Path::starts_with`, which compares whole components and reads nothing
/// from the disk: the answer depends on the two texts alone.
#[verifier::external_body]
fn starts_with_path(path: &str, base: &str) -> (within: bool)
    ensures
        within == path_starts_with(path@, base@),
{
    std::path::Path::new(path).starts_with(std::path::Path::new(base))
}

/// Why a local path is not played.
#[derive(Debug, PartialEq, Eq)]
pub enum LocalPathError {
    /// No music root is configured.
    NoMusicRoot,
    /// The path could not be resolved; the text says why.
    Unresolved(String),
    /// The path leads out of the music root, or to something that is not a
    /// file.
    Invalid,
}

impl LocalPathError {
    /// The error in words.
    pub open spec fn text(self) -> Seq<char> {
        match self {
            LocalPathError::NoMusicRoot => "music_root was not configured"@,
            LocalPathError::Unresolved(reason) => "Invalid path: "@ + reason@,
            LocalPathError::Invalid => "Invalid path"@,
        }
    }

    /// The error in words.
    pub fn to_string(&self) -> (out: String)
        ensures
            out@ == self.text(),
    {
        match self {
            LocalPathError::NoMusicRoot => String::from_str("music_root was not configured"),
            LocalPathError::Unresolved(reason) => {
                let mut out = String::from_str("Invalid path: ");
                out.append(reason.as_str());
                out
            },
            LocalPathError::Invalid => String::from_str("Invalid path"),
        }
    }
}

/// Decides whether a local path may be played. `resolved` is the outcome of
/// resolving the path below the root to its canonical form, and `is_file`
/// tells whether a regular file is there. The path is accepted only if its
/// canonical form still lies below the music root, however it was written.
pub fn check_local_path(
    music_root: &Option<String>,
    resolved: &Result<String, String>,
    is_file: bool,
) -> (checked: Result<(), LocalPathError>)
    ensures
        checked is Ok <==> (music_root matches Some(root) && resolved matches Ok(path)
            && path_starts_with(path@, root@) && is_file),
        music_root is None ==> checked matches Err(LocalPathError::NoMusicRoot),
        music_root is Some ==> (resolved matches Err(reason) ==> checked matches Err(
            LocalPathError::Unresolved(r),
        ) && r@ == reason@),
        music_root is Some && resolved is Ok && checked is Err ==> checked matches Err(
            LocalPathError::Invalid,
        ),
{
    match music_root {
        None => Err(LocalPathError::NoMusicRoot),
        Some(root) => match resolved {
            Err(reason) => Err(LocalPathError::Unresolved(reason.clone())),
            Ok(path) => {
                if !starts_with_path(path.as_str(), root.as_str()) || !is_file {
                    Err(LocalPathError::Invalid)
                } else {
                    Ok(())
                }
            },
        },
    }
}

/// Where the file name begins in a path: behind its last `/`.
pub open spec fn name_start(path: Seq<char>) -> int
    decreases path.len(),
{
    if path.len() == 0 {
        0
    } else if path.last() == '/' {
        path.len() as int
    } else {
        name_start(path.drop_last())
    }
}

/// The file name of a path.
pub open spec fn file_name(path: Seq<char>) -> Seq<char> {
    path.subrange(name_start(path), path.len() as int)
}

/// Whether the file name ends in `.` and `ext`, with something in front of
/// that dot.
pub open spec fn has_extension(path: Seq<char>, ext: Seq<char>) -> bool {
    let name = file_name(path);
    &&& name.len() > ext.len() + 1
    &&& name[name.len() - ext.len() - 1] == '.'
    &&& name.subrange(name.len() - ext.len(), name.len() as int) == ext
}

/// Whether the path names a file of a kind that can be played: its name
/// ends in `.mp3` or `.flac`.
pub open spec fn is_audio_path(path: Seq<char>) -> bool {
    has_extension(path, "mp3"@) || has_extension(path, "flac"@)
}

proof fn lemma_name_start(path: Seq<char>)
    ensures
        0 <= name_start(path) <= path.len(),
    decreases path.len(),
{
    if path.len() > 0 && path.last() != '/' {
        lemma_name_start(path.drop_last());
    }
}

fn find_name_start(path: &Vec<char>) -> (start: usize)
    ensures
        start == name_start(path@),
        start <= path.len(),
{
    let mut i: usize = path.len();
    proof {
        assert(path@.take(i as int) =~= path@);
    }
    while i > 0 && path[i - 1] != '/'
        invariant
            0 <= i <= path.len(),
            name_start(path@) == name_start(path@.take(i as int)),
        decreases i,
    {
        i -= 1;
        proof {
            assert(path@.take(i as int + 1).drop_last() =~= path@.take(i as int));
        }
    }
    proof {
        lemma_name_start(path@);
    }
    i
}

fn ends_with_extension(path: &Vec<char>, start: usize, ext: &str) -> (found: bool)
    requires
        start == name_start(path@),
        start <= path.len(),
    ensures
        found == has_extension(path@, ext@),
{
    let e = chars_of(ext);
    let name_len = path.len() - start;
    if e.len() >= name_len || name_len - e.len() < 2 {
        return false;
    }
    let dot = path.len() - e.len() - 1;
    let found = path[dot] == '.' && is_match_at(path, &e, dot + 1);
    proof {
        let name = file_name(path@);
        assert(name[name.len() - e@.len() - 1] == path@[dot as int]);
        assert(name.subrange(name.len() - e@.len(), name.len() as int) =~= path@.subrange(
            dot + 1,
            dot + 1 + e@.len(),
        ));
    }
    found
}

/// Whether the path names a file of a kind that can be played.
pub fn is_audio_file(path: &str) -> (audio: bool)
    ensures
        audio == is_audio_path(path@),
{
    let chars = chars_of(path);
    let start = find_name_start(&chars);
    ends_with_extension(&chars, start, "mp3") || ends_with_extension(&chars, start, "flac")
}

/// Whether a byte stands for itself in an address: the ASCII letters and
/// digits, and `_`, `.`, `-`, `~` and `/`.
pub open spec fn is_plain_byte(b: u8) -> bool {
    ||| 0x30 <= b <= 0x39
    ||| 0x41 <= b <= 0x5A
    ||| 0x61 <= b <= 0x7A
    ||| b == 0x5F
    ||| b == 0x2E
    ||| b == 0x2D
    ||| b == 0x7E
    ||| b == 0x2F
}

/// The upper-case hexadecimal digit of a number below sixteen.
pub open spec fn hex_digit(n: u8) -> char {
    if n < 10 {
        (0x30 + n) as u8 as char
    } else {
        (0x41 + n - 10) as u8 as char
    }
}

/// One byte as it is written in an address: itself, or `%` and its two
/// hexadecimal digits.
pub open spec fn escaped_byte(b: u8) -> Seq<char> {
    if is_plain_byte(b) {
        seq![b as char]
    } else {
        seq!['%', hex_digit(b / 16), hex_digit(b % 16)]
    }
}

/// The bytes written one after the other as in an address.
pub open spec fn escaped_bytes(bytes: Seq<u8>) -> Seq<char>
    decreases bytes.len(),
{
    if bytes.len() == 0 {
        Seq::empty()
    } else {
        escaped_bytes(bytes.drop_last()) + escaped_byte(bytes.last())
    }
}

/// A text percent-encoded for use in an address, its UTF-8 bytes taken one
/// by one.
pub open spec fn url_encoded(text: Seq<char>) -> Seq<char> {
    escaped_bytes(encode_utf8(text))
}

/// `askama::filters::urlencode`, which percent-encodes the UTF-8 bytes of
/// the text: every byte but the ASCII letters and digits and `_.-~/`
/// becomes `%` and two upper-case hexadecimal digits. Its error is that of
/// displaying the argument, which a text does not raise.
#[verifier::external_body]
fn urlencode(text: &str) -> (out: String)
    ensures
        out@ == url_encoded(text@),
{
    askama::filters::urlencode(text).unwrap_or_default()
}

/// What `base64::encode` yields for a sequence of bytes: its encoding in
/// the standard alphabet, padded.
pub uninterp spec fn base64_text(data: Seq<u8>) -> Seq<char>;

/// The longest data that is handed to the encoder.
pub const MAX_COVER_BYTES: usize = usize::MAX / 4;

/// `base64::encode`: the text depends on the bytes alone. The encoder
/// needs a buffer of four thirds of the length of the data, rounded up to
/// a multiple of four, and aborts where that is more than it can ask for:
/// with data of at most a quarter of the range of `usize` the buffer stays
/// below half of that range.
#[verifier::external_body]
fn base64_encode(data: &Vec<u8>) -> (out: String)
    requires
        data@.len() <= MAX_COVER_BYTES,
    ensures
        out@ == base64_text(data@),
{
    base64::encode(data)
}

/// The kind of tags that a file carries, by its name.
#[derive(Debug, PartialEq, Eq, Clone, Copy, Structural)]
pub enum TagFormat {
    /// An mp3 file with ID3 tags.
    Id3,
    /// A flac file with Vorbis comments.
    Vorbis,
}

/// The kind of tags to look for in a file.
pub fn tag_format(path: &str) -> (format: Option<TagFormat>)
    ensures
        format == if has_extension(path@, "mp3"@) {
            Some(TagFormat::Id3)
        } else if has_extension(path@, "flac"@) {
            Some(TagFormat::Vorbis)
        } else {
            None
        },
{
    let chars = chars_of(path);
    let start = find_name_start(&chars);
    if ends_with_extension(&chars, start, "mp3") {
        Some(TagFormat::Id3)
    } else if ends_with_extension(&chars, start, "flac") {
        Some(TagFormat::Vorbis)
    } else {
        None
    }
}

/// What the tags of an audio file tell.
#[derive(Debug, PartialEq, Eq)]
pub struct FileTags {
    /// The titles, if the file has a title tag.
    pub titles: Option<Vec<String>>,
    /// The artists, if the file has an artist tag.
    pub artists: Option<Vec<String>>,
    /// The pictures that are marked as front cover, in the order of the
    /// file.
    pub front_covers: Vec<Vec<u8>>,
    /// The length of the track in milliseconds, if the tags give it.
    pub duration_millis: Option<u32>,
}

/// The title of a tagged file: title and artist where both are known, the
/// title alone where only it is known, else the file name. Several titles
/// or artists are joined by `;`.
pub open spec fn tagged_title(tags: FileTags, path: Seq<char>) -> Seq<char> {
    match tags.titles {
        Some(titles) => match tags.artists {
            Some(artists) => joined(titles.deep_view(), ";"@) + " - "@ + joined(
                artists.deep_view(),
                ";"@,
            ),
            None => joined(titles.deep_view(), ";"@),
        },
        None => file_name(path),
    }
}

/// The picture of a tagged file as an address that holds the data itself:
/// the last of its front covers.
pub open spec fn tagged_thumbnail(tags: FileTags) -> Option<Seq<char>> {
    if tags.front_covers@.len() > 0 && tags.front_covers@.last()@.len() <= MAX_COVER_BYTES {
        Some("data:image/jpg;base64,"@ + base64_text(tags.front_covers@.last()@))
    } else {
        None
    }
}

/// The length that the tags give, in nanoseconds.
pub open spec fn tagged_duration(tags: FileTags) -> Option<nat> {
    match tags.duration_millis {
        Some(millis) => Some(millis as nat * 1_000_000),
        None => None,
    }
}

/// Describes a local file from its tags. `path` is the canonical path of
/// the file and `user` the name of the user who asked for it.
pub fn metadata_from_tags(path: &str, tags: &FileTags, user: &str) -> (track: AudioMetadata)
    ensures
        track@.uri == "file://"@ + url_encoded(path@),
        track@.webpage_url is None,
        track@.title == tagged_title(*tags, path@),
        track@.thumbnail == tagged_thumbnail(*tags),
        track@.duration == tagged_duration(*tags),
        track@.added_by == user@,
{
    let title = match &tags.titles {
        Some(titles) => match &tags.artists {
            Some(artists) => {
                let mut title = join(titles, ";");
                title.append(" - ");
                title.append(join(artists, ";").as_str());
                title
            },
            None => join(titles, ";"),
        },
        None => name_of_file(path),
    };
    let thumbnail = if tags.front_covers.len() > 0 {
        let cover = &tags.front_covers[tags.front_covers.len() - 1];
        if cover.len() <= MAX_COVER_BYTES {
            let mut address = String::from_str("data:image/jpg;base64,");
            address.append(base64_encode(cover).as_str());
            Some(address)
        } else {
            None
        }
    } else {
        None
    };
    let duration = match tags.duration_millis {
        Some(millis) => {
            let span = TimeSpan::new((millis / 1000) as u64, (millis % 1000) * 1_000_000);
            assert(span is Some && span.unwrap()@ == millis as nat * 1_000_000);
            span
        },
        None => None,
    };
    let mut uri = String::from_str("file://");
    uri.append(urlencode(path).as_str());
    AudioMetadata {
        uri,
        webpage_url: None,
        title,
        thumbnail,
        duration,
        added_by: String::from_str(user),
    }
}

/// Describes a local file of which nothing is known but its path: the
/// title is the file name.
pub fn metadata_from_path(path: &str, user: &str) -> (track: AudioMetadata)
    ensures
        track@.uri == "file://"@ + path@,
        track@.webpage_url is None,
        track@.title == file_name(path@),
        track@.thumbnail is None,
        track@.duration is None,
        track@.added_by == user@,
{
    let mut uri = String::from_str("file://");
    uri.append(path);
    AudioMetadata {
        uri,
        webpage_url: None,
        title: name_of_file(path),
        thumbnail: None,
        duration: None,
        added_by: String::from_str(user),
    }
}

fn name_of_file(path: &str) -> (name: String)
    ensures
        name@ == file_name(path@),
{
    let chars = chars_of(path);
    let start = find_name_start(&chars);
    string_of(&chars, start, chars.len())
}

/// How often `word` occurs in `path`, ignoring case.
pub open spec fn word_hits(path: Seq<char>, word: Seq<char>) -> nat {
    occurrences(lowercase(path), lowercase(word))
}

/// The occurrences in `path` of all the words together.
pub open spec fn total_hits(path: Seq<char>, query: Seq<Seq<char>>) -> nat
    decreases query.len(),
{
    if query.len() == 0 {
        0
    } else {
        total_hits(path, query.drop_last()) + word_hits(path, query.last())
    }
}

/// Whether every word of the query occurs in `path`.
pub open spec fn has_all_words(path: Seq<char>, query: Seq<Seq<char>>) -> bool {
    forall|k: int| 0 <= k < query.len() ==> word_hits(path, #[trigger] query[k]) > 0
}

/// The score of a path for a query: the number of occurrences of the query
/// words in it, and zero if one of the words is missing or the path is no
/// audio file. Scores above `usize::MAX` count as `usize::MAX`.
pub open spec fn score(path: Seq<char>, query: Seq<Seq<char>>) -> nat {
    if is_audio_path(path) && has_all_words(path, query) {
        if total_hits(path, query) <= usize::MAX {
            total_hits(path, query)
        } else {
            usize::MAX as nat
        }
    } else {
        0
    }
}

/// Scores one path for a query.
pub fn score_path(path: &str, query: &Vec<String>) -> (points: usize)
    ensures
        points == score(path@, query.deep_view()),
{
    if !is_audio_file(path) {
        return 0;
    }
    let lowered = to_lowercase(path);
    let hay = chars_of(lowered.as_str());
    let mut points: usize = 0;
    let mut k: usize = 0;
    let ghost words = query.deep_view();
    while k < query.len()
        invariant
            0 <= k <= query.len(),
            words == query.deep_view(),
            hay@ == lowercase(path@),
            has_all_words(path@, words.take(k as int)),
            points == if total_hits(path@, words.take(k as int)) <= usize::MAX {
                total_hits(path@, words.take(k as int))
            } else {
                usize::MAX as nat
            },
        decreases query.len() - k,
    {
        let word = to_lowercase(query[k].as_str());
        let needle = chars_of(word.as_str());
        let found = count_occurrences(&hay, &needle);
        proof {
            assert(words[k as int] == query@[k as int]@);
            assert(words.take(k as int + 1).drop_last() =~= words.take(k as int));
            assert(words.take(k as int + 1).last() == words[k as int]);
        }
        if found == 0 {
            proof {
                assert(word_hits(path@, words[k as int]) == 0);
                assert(!has_all_words(path@, words));
            }
            return 0;
        }
        points = if found > usize::MAX - points {
            usize::MAX
        } else {
            points + found
        };
        k += 1;
        proof {
            let upto = words.take(k as int);
            assert forall|j: int| 0 <= j < upto.len() implies word_hits(path@, #[trigger] upto[j])
                > 0 by {
                if j < k - 1 {
                    assert(upto[j] == words.take(k as int - 1)[j]);
                }
            }
        }
    }
    proof {
        assert(words.take(k as int) =~= words);
    }
    points
}

/// Whether the file at `index` answers the query best: it has a score above
/// zero, no file has a higher one, and every earlier file has a lower one.
pub open spec fn is_best_match(files: Seq<Seq<char>>, query: Seq<Seq<char>>, index: int) -> bool {
    &&& 0 <= index < files.len()
    &&& score(files[index], query) > 0
    &&& forall|j: int|
        0 <= j < files.len() ==> score(#[trigger] files[j], query) <= score(files[index], query)
    &&& forall|j: int|
        0 <= j < index ==> score(#[trigger] files[j], query) < score(files[index], query)
}

/// Picks the file that a search means from the paths of the files below the
/// music root, given relative to the root and in the order in which they
/// were found. The answer is the position of the best match, and `None`
/// where no file has a score above zero.
pub fn find_local_file(files: &Vec<String>, query: &Vec<String>) -> (found: Option<usize>)
    ensures
        match found {
            Some(index) => is_best_match(files.deep_view(), query.deep_view(), index as int),
            None => forall|j: int|
                0 <= j < files.len() ==> score(#[trigger] files.deep_view()[j], query.deep_view())
                    == 0,
        },
{
    let mut best: Option<usize> = None;
    let mut largest: usize = 0;
    let mut i: usize = 0;
    let ghost paths = files.deep_view();
    let ghost words = query.deep_view();
    while i < files.len()
        invariant
            0 <= i <= files.len(),
            paths == files.deep_view(),
            words == query.deep_view(),
            match best {
                Some(index) => index < i && largest == score(paths[index as int], words)
                    && is_best_match(paths.take(i as int), words, index as int),
                None => largest == 0 && forall|j: int|
                    0 <= j < i ==> score(#[trigger] paths[j], words) == 0,
            },
        decreases files.len() - i,
    {
        let points = score_path(files[i].as_str(), query);
        proof {
            assert(paths[i as int] == files@[i as int]@);
            let upto = paths.take(i as int + 1);
            assert(forall|j: int| 0 <= j <= i ==> upto[j] == paths[j]);
            assert(forall|j: int| 0 <= j < i ==> paths.take(i as int)[j] == paths[j]);
        }
        if points > largest {
            largest = points;
            best = Some(i);
        }
        i += 1;
    }
    proof {
        assert(paths.take(i as int) =~= paths);
    }
    best
}

} // verus!
