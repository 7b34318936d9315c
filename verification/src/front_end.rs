//! Which face the dashboard shows, as a cookie remembers it.

use vstd::prelude::*;
use vstd::string::*;
use crate::text::{chars_of, is_match_at, is_space, is_whitespace, skip_spaces};

verus! {

/// A face of the dashboard.
#[derive(Debug, PartialEq, Eq, Clone, Copy, Structural)]
pub enum FrontEnd {
    Default,
    Tmtu,
}

/// Where the piece that begins at `i` ends: at the next `sep`, or at the
/// end of the text.
pub open spec fn piece_end(s: Seq<char>, i: int, sep: char) -> int
    decreases s.len() - i,
{
    if 0 <= i < s.len() && s[i] != sep {
        piece_end(s, i + 1, sep)
    } else {
        i
    }
}

/// The pieces of `s[i..]` between the occurrences of `sep`. A text without
/// `sep` is one piece, and a text that ends in `sep` ends in an empty piece.
pub open spec fn pieces_from(s: Seq<char>, i: int, sep: char) -> Seq<Seq<char>>
    decreases s.len() - i,
{
    let end = piece_end(s, i, sep);
    if 0 <= i <= end < s.len() {
        seq![s.subrange(i, end)] + pieces_from(s, end + 1, sep)
    } else if 0 <= i <= end == s.len() {
        seq![s.subrange(i, end)]
    } else {
        Seq::empty()
    }
}

/// Where the text ends once the white space at its end is taken off.
pub open spec fn trimmed_end(s: Seq<char>) -> int
    decreases s.len(),
{
    if s.len() > 0 && is_space(s.last()) {
        trimmed_end(s.drop_last())
    } else {
        s.len() as int
    }
}

/// The text without the white space at its beginning and at its end.
pub open spec fn trimmed(s: Seq<char>) -> Seq<char> {
    let start = skip_spaces(s, 0);
    let end = trimmed_end(s);
    if start < end {
        s.subrange(start, end)
    } else {
        Seq::empty()
    }
}

/// The face that one cookie asks for, if it is the cookie of the front end
/// and names a face: `front-end=default` or `front-end=tmtu`.
pub open spec fn cookie_choice(cookie: Seq<char>) -> Option<FrontEnd> {
    let parts = pieces_from(trimmed(cookie), 0, '=');
    if parts.len() >= 2 && parts[0] == "front-end"@ {
        if parts[1] == "default"@ {
            Some(FrontEnd::Default)
        } else if parts[1] == "tmtu"@ {
            Some(FrontEnd::Tmtu)
        } else {
            None
        }
    } else {
        None
    }
}

/// The first face that one of the cookies at or after `from` asks for.
pub open spec fn first_choice(cookies: Seq<Seq<char>>, from: int) -> Option<FrontEnd>
    decreases cookies.len() - from,
{
    if from < 0 || from >= cookies.len() {
        None
    } else if cookie_choice(cookies[from]) is Some {
        cookie_choice(cookies[from])
    } else {
        first_choice(cookies, from + 1)
    }
}

/// The face that a cookie header asks for: the first choice among its
/// cookies, which `;` separates.
pub open spec fn header_choice(header: Seq<char>) -> Option<FrontEnd> {
    first_choice(pieces_from(header, 0, ';'), 0)
}

/// The first face that one of the headers at or after `from` asks for.
pub open spec fn first_header_choice(headers: Seq<Seq<char>>, from: int) -> Option<FrontEnd>
    decreases headers.len() - from,
{
    if from < 0 || from >= headers.len() {
        None
    } else if header_choice(headers[from]) is Some {
        header_choice(headers[from])
    } else {
        first_header_choice(headers, from + 1)
    }
}

proof fn lemma_piece_end(s: Seq<char>, i: int, sep: char)
    requires
        0 <= i <= s.len(),
    ensures
        i <= piece_end(s, i, sep) <= s.len(),
    decreases s.len() - i,
{
    if i < s.len() && s[i] != sep {
        lemma_piece_end(s, i + 1, sep);
    }
}

/// The texts that the pieces hold.
spec fn texts(pieces: Seq<Vec<char>>) -> Seq<Seq<char>> {
    pieces.map_values(|piece: Vec<char>| piece@)
}

/// Splits `chars` at every `sep`.
fn split_at(chars: &Vec<char>, sep: char) -> (pieces: Vec<Vec<char>>)
    ensures
        texts(pieces@) == pieces_from(chars@, 0, sep),
{
    let n = chars.len();
    let mut pieces: Vec<Vec<char>> = Vec::new();
    let mut i: usize = 0;
    assert(texts(pieces@) =~= Seq::<Seq<char>>::empty());
    loop
        invariant_except_break
            0 <= i <= n,
            n == chars.len(),
            pieces_from(chars@, 0, sep) == texts(pieces@) + pieces_from(chars@, i as int, sep),
        ensures
            texts(pieces@) == pieces_from(chars@, 0, sep),
        decreases n - i,
    {
        let start = i;
        let ghost before = texts(pieces@);
        let mut piece: Vec<char> = Vec::new();
        while i < n && chars[i] != sep
            invariant
                start <= i <= n,
                n == chars.len(),
                piece_end(chars@, start as int, sep) == piece_end(chars@, i as int, sep),
                piece@ == chars@.subrange(start as int, i as int),
            decreases n - i,
        {
            piece.push(chars[i]);
            i += 1;
            assert(chars@.subrange(start as int, i as int) =~= chars@.subrange(
                start as int,
                i as int - 1,
            ).push(chars@[i as int - 1]));
        }
        pieces.push(piece);
        proof {
            lemma_piece_end(chars@, start as int, sep);
            assert(texts(pieces@) =~= before.push(chars@.subrange(start as int, i as int)));
        }
        if i >= n {
            proof {
                assert(before + seq![chars@.subrange(start as int, i as int)] =~= before.push(
                    chars@.subrange(start as int, i as int),
                ));
            }
            break;
        }
        i += 1;
        proof {
            let rest = pieces_from(chars@, i as int, sep);
            assert(before + (seq![chars@.subrange(start as int, i as int - 1)] + rest)
                =~= before.push(chars@.subrange(start as int, i as int - 1)) + rest);
        }
    }
    pieces
}

/// Takes the white space off both ends.
fn trim(chars: &Vec<char>) -> (out: Vec<char>)
    ensures
        out@ == trimmed(chars@),
{
    let n = chars.len();
    let mut start: usize = 0;
    while start < n && is_whitespace(chars[start])
        invariant
            0 <= start <= n,
            n == chars.len(),
            skip_spaces(chars@, 0) == skip_spaces(chars@, start as int),
        decreases n - start,
    {
        start += 1;
    }
    let mut end: usize = n;
    proof {
        assert(chars@.take(end as int) =~= chars@);
    }
    while end > 0 && is_whitespace(chars[end - 1])
        invariant
            0 <= end <= n,
            n == chars.len(),
            trimmed_end(chars@) == trimmed_end(chars@.take(end as int)),
        decreases end,
    {
        end -= 1;
        proof {
            assert(chars@.take(end as int + 1).drop_last() =~= chars@.take(end as int));
        }
    }
    let mut out: Vec<char> = Vec::new();
    if start < end {
        let mut i: usize = start;
        while i < end
            invariant
                start <= i <= end <= n,
                n == chars.len(),
                out@ == chars@.subrange(start as int, i as int),
            decreases end - i,
        {
            out.push(chars[i]);
            i += 1;
            assert(chars@.subrange(start as int, i as int) =~= chars@.subrange(
                start as int,
                i as int - 1,
            ).push(chars@[i as int - 1]));
        }
    }
    out
}

fn is_text(chars: &Vec<char>, literal: &str) -> (same: bool)
    ensures
        same == (chars@ == literal@),
{
    let wanted = chars_of(literal);
    if chars.len() != wanted.len() {
        return false;
    }
    let same = is_match_at(chars, &wanted, 0);
    proof {
        assert(chars@.subrange(0, wanted@.len() as int) =~= chars@);
    }
    same
}

fn choose_by_cookie(cookie: &Vec<char>) -> (choice: Option<FrontEnd>)
    ensures
        choice == cookie_choice(cookie@),
{
    let bare = trim(cookie);
    let parts = split_at(&bare, '=');
    if parts.len() >= 2 {
        proof {
            assert(texts(parts@)[0] == parts@[0]@);
            assert(texts(parts@)[1] == parts@[1]@);
        }
        if is_text(&parts[0], "front-end") {
            if is_text(&parts[1], "default") {
                return Some(FrontEnd::Default);
            } else if is_text(&parts[1], "tmtu") {
                return Some(FrontEnd::Tmtu);
            }
        }
    }
    None
}

fn choose_by_header(header: &str) -> (choice: Option<FrontEnd>)
    ensures
        choice == header_choice(header@),
{
    let chars = chars_of(header);
    let cookies = split_at(&chars, ';');
    let mut k: usize = 0;
    while k < cookies.len()
        invariant
            0 <= k <= cookies.len(),
            texts(cookies@) == pieces_from(header@, 0, ';'),
            header_choice(header@) == first_choice(texts(cookies@), k as int),
        decreases cookies.len() - k,
    {
        proof {
            assert(texts(cookies@)[k as int] == cookies@[k as int]@);
        }
        match choose_by_cookie(&cookies[k]) {
            Some(choice) => {
                return Some(choice);
            },
            None => {},
        }
        k += 1;
    }
    None
}

impl FrontEnd {
    /// The cookie that remembers this face.
    pub open spec fn cookie_text(self) -> Seq<char> {
        match self {
            FrontEnd::Default => "front-end=default"@,
            FrontEnd::Tmtu => "front-end=tmtu"@,
        }
    }

    /// The cookie that remembers this face.
    pub fn cookie(&self) -> (out: String)
        ensures
            out@ == self.cookie_text(),
    {
        match self {
            FrontEnd::Default => String::from_str("front-end=default"),
            FrontEnd::Tmtu => String::from_str("front-end=tmtu"),
        }
    }

    /// The face that a request asks for, given the values of its cookie
    /// headers in order: the first cookie that names a face decides, and
    /// without one it is the default face.
    pub fn from_cookie_headers(headers: &Vec<String>) -> (front: FrontEnd)
        ensures
            front == match first_header_choice(headers.deep_view(), 0) {
                Some(choice) => choice,
                None => FrontEnd::Default,
            },
    {
        let mut k: usize = 0;
        while k < headers.len()
            invariant
                0 <= k <= headers.len(),
                first_header_choice(headers.deep_view(), 0) == first_header_choice(
                    headers.deep_view(),
                    k as int,
                ),
            decreases headers.len() - k,
        {
            proof {
                assert(headers.deep_view()[k as int] == headers@[k as int]@);
            }
            match choose_by_header(headers[k].as_str()) {
                Some(choice) => {
                    return choice;
                },
                None => {},
            }
            k += 1;
        }
        FrontEnd::Default
    }
}

} // verus!
