//! Small string utilities over the character view of `str` and `String`.

use vstd::prelude::*;
use vstd::string::*;

verus! {

/// `String::push`: the string grows by exactly the one character.
#[verifier::external_body]
pub(crate) fn push_char(s: &mut String, c: char)
    ensures
        final(s)@ == old(s)@.push(c),
{
    s.push(c);
}

/// What `str::to_lowercase` yields for a text: its lowercase form under the
/// Unicode case mappings.
pub uninterp spec fn lowercase(text: Seq<char>) -> Seq<char>;

/// `str::to_lowercase`: the result depends on the text alone.
#[verifier::external_body]
pub(crate) fn to_lowercase(s: &str) -> (out: String)
    ensures
        out@ == lowercase(s@),
{
    s.to_lowercase()
}

/// The characters of `s`, in order.
pub fn chars_of(s: &str) -> (out: Vec<char>)
    ensures
        out@ == s@,
{
    let mut out: Vec<char> = Vec::new();
    for c in it: s.chars()
        invariant
            it.seq() == s@,
            out@ == it.seq().take(it.index()),
    {
        out.push(c);
        assert(it.seq().take(it.index() + 1) =~= it.seq().take(it.index()).push(c));
    }
    assert(out@ =~= s@);
    out
}

/// The characters `s[from..to]`, and nothing where that is no range of `s`.
pub open spec fn slice_of(s: Seq<char>, from: int, to: int) -> Seq<char> {
    if 0 <= from <= to <= s.len() {
        s.subrange(from, to)
    } else {
        Seq::empty()
    }
}

/// The string made of the characters `chars[from..to]`.
pub fn string_of(chars: &Vec<char>, from: usize, to: usize) -> (out: String)
    ensures
        out@ == slice_of(chars@, from as int, to as int),
{
    let mut out = String::new();
    if from > to || to > chars.len() {
        return out;
    }
    assert(chars@.subrange(from as int, from as int) =~= Seq::<char>::empty());
    let mut i: usize = from;
    while i < to
        invariant
            from <= i <= to <= chars.len(),
            out@ == chars@.subrange(from as int, i as int),
        decreases to - i,
    {
        push_char(&mut out, chars[i]);
        i += 1;
        assert(chars@.subrange(from as int, i as int) =~= chars@.subrange(
            from as int,
            i as int - 1,
        ).push(chars@[i as int - 1]));
    }
    out
}

/// The code points with the Unicode property `White_Space`.
pub open spec fn is_space(c: char) -> bool {
    let u = c as u32;
    ||| 0x09 <= u <= 0x0D
    ||| u == 0x20
    ||| u == 0x85
    ||| u == 0xA0
    ||| u == 0x1680
    ||| 0x2000 <= u <= 0x200A
    ||| u == 0x2028
    ||| u == 0x2029
    ||| u == 0x202F
    ||| u == 0x205F
    ||| u == 0x3000
}

/// Whether `c` separates words.
pub fn is_whitespace(c: char) -> (b: bool)
    ensures
        b == is_space(c),
{
    let u: u32 = c as u32;
    (0x09 <= u && u <= 0x0D) || u == 0x20 || u == 0x85 || u == 0xA0 || u == 0x1680 || (0x2000 <= u
        && u <= 0x200A) || u == 0x2028 || u == 0x2029 || u == 0x202F || u == 0x205F || u == 0x3000
}

/// The first position at or after `i` that holds no white space (the length
/// of `s` if there is none).
pub open spec fn skip_spaces(s: Seq<char>, i: int) -> int
    decreases s.len() - i,
{
    if 0 <= i < s.len() && is_space(s[i]) {
        skip_spaces(s, i + 1)
    } else {
        i
    }
}

/// The first position at or after `i` that holds white space (the length of
/// `s` if there is none).
pub open spec fn word_end(s: Seq<char>, i: int) -> int
    decreases s.len() - i,
{
    if 0 <= i < s.len() && !is_space(s[i]) {
        word_end(s, i + 1)
    } else {
        i
    }
}

/// The maximal runs of non-space characters of `s` that begin at or after
/// `i`, in order.
pub open spec fn words_from(s: Seq<char>, i: int) -> Seq<Seq<char>>
    decreases s.len() - i,
{
    let a = skip_spaces(s, i);
    if 0 <= i <= a < s.len() {
        let b = word_end(s, a);
        if a < b <= s.len() {
            seq![s.subrange(a, b)] + words_from(s, b)
        } else {
            Seq::empty()
        }
    } else {
        Seq::empty()
    }
}

proof fn lemma_skip_spaces(s: Seq<char>, i: int)
    requires
        0 <= i <= s.len(),
    ensures
        i <= skip_spaces(s, i) <= s.len(),
        skip_spaces(s, i) < s.len() ==> !is_space(s[skip_spaces(s, i)]),
    decreases s.len() - i,
{
    if i < s.len() && is_space(s[i]) {
        lemma_skip_spaces(s, i + 1);
    }
}

proof fn lemma_word_end(s: Seq<char>, i: int)
    requires
        0 <= i <= s.len(),
    ensures
        i <= word_end(s, i) <= s.len(),
        i < s.len() && !is_space(s[i]) ==> i < word_end(s, i),
    decreases s.len() - i,
{
    if i < s.len() && !is_space(s[i]) {
        lemma_word_end(s, i + 1);
    }
}

/// Splits `chars[start..]` at white space, as `str::split_whitespace` does.
pub fn split_words(chars: &Vec<char>, start: usize) -> (out: Vec<String>)
    ensures
        out.deep_view() == words_from(chars@, start as int),
{
    let n = chars.len();
    let mut out: Vec<String> = Vec::new();
    let mut i: usize = start;
    assert(out.deep_view() =~= Seq::<Seq<char>>::empty());
    if start > n {
        return out;
    }
    loop
        invariant_except_break
            start <= i <= n,
            n == chars.len(),
            words_from(chars@, start as int) == out.deep_view() + words_from(chars@, i as int),
        ensures
            out.deep_view() == words_from(chars@, start as int),
        decreases n - i,
    {
        let ghost i0 = i as int;
        let ghost before = out.deep_view();
        while i < n && is_whitespace(chars[i])
            invariant
                i0 <= i <= n,
                n == chars.len(),
                skip_spaces(chars@, i0) == skip_spaces(chars@, i as int),
            decreases n - i,
        {
            i += 1;
        }
        proof {
            lemma_skip_spaces(chars@, i0);
        }
        if i >= n {
            assert(words_from(chars@, i0) =~= Seq::<Seq<char>>::empty());
            assert(before + Seq::<Seq<char>>::empty() =~= before);
            break;
        }
        let a = i;
        while i < n && !is_whitespace(chars[i])
            invariant
                a <= i <= n,
                n == chars.len(),
                word_end(chars@, a as int) == word_end(chars@, i as int),
            decreases n - i,
        {
            i += 1;
        }
        proof {
            lemma_word_end(chars@, a as int);
        }
        let word = string_of(chars, a, i);
        out.push(word);
        proof {
            let tail = words_from(chars@, i as int);
            assert(out.deep_view() =~= before.push(chars@.subrange(a as int, i as int)));
            assert(words_from(chars@, i0) == seq![chars@.subrange(a as int, i as int)] + tail);
            assert(before + (seq![chars@.subrange(a as int, i as int)] + tail) =~= before.push(
                chars@.subrange(a as int, i as int),
            ) + tail);
        }
    }
    out
}

/// Whether `needle` stands in `hay` at position `i`.
pub open spec fn matches_at(hay: Seq<char>, needle: Seq<char>, i: int) -> bool {
    0 <= i && i + needle.len() <= hay.len() && hay.subrange(i, i + needle.len()) == needle
}

/// Whether `needle` stands in `hay` at position `i`.
pub fn is_match_at(hay: &Vec<char>, needle: &Vec<char>, i: usize) -> (b: bool)
    ensures
        b == matches_at(hay@, needle@, i as int),
{
    let m = needle.len();
    if i > hay.len() || m > hay.len() - i {
        return false;
    }
    let mut j: usize = 0;
    while j < m
        invariant
            0 <= j <= m,
            m == needle.len(),
            i + m <= hay.len(),
            hay@.subrange(i as int, i + j) == needle@.subrange(0, j as int),
        decreases m - j,
    {
        if hay[i + j] != needle[j] {
            assert(hay@.subrange(i as int, i + m)[j as int] != needle@[j as int]);
            return false;
        }
        j += 1;
        assert(hay@.subrange(i as int, i + j) =~= hay@.subrange(i as int, i + j - 1).push(
            hay@[i + j - 1],
        ));
        assert(needle@.subrange(0, j as int) =~= needle@.subrange(0, j as int - 1).push(
            needle@[j as int - 1],
        ));
    }
    assert(needle@.subrange(0, m as int) =~= needle@);
    true
}

/// Whether two texts hold the same characters.
pub fn same_text(a: &str, b: &str) -> (same: bool)
    ensures
        same == (a@ == b@),
{
    let x = chars_of(a);
    let y = chars_of(b);
    if x.len() != y.len() {
        return false;
    }
    let same = is_match_at(&x, &y, 0);
    proof {
        assert(x@.subrange(0, y@.len() as int) =~= x@);
    }
    same
}

/// A copy of `words[from..]`, which is empty where `from` lies behind the
/// last word.
pub fn words_after(words: &Vec<String>, from: usize) -> (rest: Vec<String>)
    ensures
        rest.deep_view() == if from <= words.len() {
            words.deep_view().skip(from as int)
        } else {
            Seq::empty()
        },
{
    let mut rest: Vec<String> = Vec::new();
    if from > words.len() {
        assert(rest.deep_view() =~= Seq::<Seq<char>>::empty());
        return rest;
    }
    let mut i: usize = from;
    while i < words.len()
        invariant
            from <= i <= words.len(),
            rest.deep_view() =~= words.deep_view().subrange(from as int, i as int),
        decreases words.len() - i,
    {
        let ghost before = rest.deep_view();
        rest.push(words[i].clone());
        i += 1;
        assert(rest.deep_view() =~= before.push(words@[i as int - 1]@));
    }
    assert(words.deep_view().subrange(from as int, i as int) =~= words.deep_view().skip(
        from as int,
    ));
    rest
}

/// Whether `text` begins with `prefix`.
pub fn starts_with(text: &Vec<char>, prefix: &str) -> (b: bool)
    ensures
        b == prefix@.is_prefix_of(text@),
{
    let p = chars_of(prefix);
    let b = is_match_at(text, &p, 0);
    proof {
        if b {
            assert(text@.subrange(0, p@.len() as int) =~= p@);
        }
        if p@.is_prefix_of(text@) {
            assert(text@.subrange(0, p@.len() as int) =~= p@);
        }
    }
    b
}

/// `s[i..]` with every occurrence of `pattern` taken out, scanning from the
/// left and never overlapping; an empty pattern takes nothing out.
pub open spec fn without_from(s: Seq<char>, pattern: Seq<char>, i: int) -> Seq<char>
    decreases s.len() - i,
{
    if i < 0 || i >= s.len() {
        Seq::empty()
    } else if pattern.len() > 0 && matches_at(s, pattern, i) {
        without_from(s, pattern, i + pattern.len())
    } else {
        seq![s[i]] + without_from(s, pattern, i + 1)
    }
}

/// `s` with every occurrence of `pattern` taken out.
pub open spec fn without(s: Seq<char>, pattern: Seq<char>) -> Seq<char> {
    without_from(s, pattern, 0)
}

/// Removes every occurrence of `pattern` from `text`.
pub fn remove_all(text: &Vec<char>, pattern: &Vec<char>) -> (out: Vec<char>)
    ensures
        out@ == without(text@, pattern@),
{
    let n = text.len();
    let m = pattern.len();
    let mut out: Vec<char> = Vec::new();
    let mut i: usize = 0;
    while i < n
        invariant
            0 <= i <= n,
            n == text.len(),
            m == pattern.len(),
            without(text@, pattern@) == out@ + without_from(text@, pattern@, i as int),
        decreases n - i,
    {
        let ghost before = out@;
        if m > 0 && is_match_at(text, pattern, i) {
            i += m;
        } else {
            out.push(text[i]);
            proof {
                let rest = without_from(text@, pattern@, i + 1);
                assert(before + (seq![text@[i as int]] + rest) =~= before.push(text@[i as int])
                    + rest);
            }
            i += 1;
        }
    }
    assert(out@ + Seq::<char>::empty() =~= out@);
    out
}

/// The number of occurrences of a non-empty `needle` in `hay[i..]`,
/// scanning from the left and never overlapping.
pub open spec fn count_from(hay: Seq<char>, needle: Seq<char>, i: int) -> nat
    decreases hay.len() - i,
{
    if needle.len() == 0 || i < 0 || i + needle.len() > hay.len() {
        0
    } else if matches_at(hay, needle, i) {
        1 + count_from(hay, needle, i + needle.len())
    } else {
        count_from(hay, needle, i + 1)
    }
}

/// The number of matches that `str::match_indices` reports: the
/// non-overlapping occurrences from the left, and for an empty `needle` one
/// match at every position, the end included.
pub open spec fn occurrences(hay: Seq<char>, needle: Seq<char>) -> nat {
    if needle.len() == 0 {
        hay.len() + 1
    } else {
        count_from(hay, needle, 0)
    }
}

/// Counts the occurrences of `needle` in `hay`. The count saturates at
/// `usize::MAX`, which only a text of that length with an empty needle
/// reaches.
pub fn count_occurrences(hay: &Vec<char>, needle: &Vec<char>) -> (count: usize)
    ensures
        count == if occurrences(hay@, needle@) <= usize::MAX {
            occurrences(hay@, needle@)
        } else {
            usize::MAX as nat
        },
{
    let n = hay.len();
    let m = needle.len();
    if m == 0 {
        return if n < usize::MAX {
            n + 1
        } else {
            usize::MAX
        };
    }
    let mut count: usize = 0;
    let mut i: usize = 0;
    while i < n && m <= n - i
        invariant
            0 <= i <= n,
            0 < m,
            n == hay.len(),
            m == needle.len(),
            count <= i,
            count_from(hay@, needle@, 0) == count + count_from(hay@, needle@, i as int),
        decreases n - i,
    {
        if is_match_at(hay, needle, i) {
            count += 1;
            i += m;
        } else {
            i += 1;
        }
    }
    count
}

/// The words joined into one text with `sep` between neighbours.
pub open spec fn joined(words: Seq<Seq<char>>, sep: Seq<char>) -> Seq<char>
    decreases words.len(),
{
    if words.len() == 0 {
        Seq::empty()
    } else if words.len() == 1 {
        words[0]
    } else {
        joined(words.drop_last(), sep) + sep + words.last()
    }
}

/// Joins `words` with `sep`, as `[String]::join` does.
pub fn join(words: &Vec<String>, sep: &str) -> (out: String)
    ensures
        out@ == joined(words.deep_view(), sep@),
{
    let mut out = String::new();
    let mut i: usize = 0;
    while i < words.len()
        invariant
            0 <= i <= words.len(),
            out@ == joined(words.deep_view().take(i as int), sep@),
        decreases words.len() - i,
    {
        if i > 0 {
            out.append(sep);
        }
        out.append(words[i].as_str());
        i += 1;
        proof {
            let all = words.deep_view();
            assert(all.take(i as int).drop_last() =~= all.take(i as int - 1));
            assert(all.take(i as int).last() == words@[i as int - 1]@);
            if i == 1 {
                assert(Seq::<char>::empty() + words@[0]@ =~= words@[0]@);
            }
        }
    }
    assert(words.deep_view().take(i as int) =~= words.deep_view());
    out
}

/// The character of a decimal digit.
pub open spec fn digit(d: nat) -> char
    recommends
        d < 10,
{
    ((48 + d) as u8) as char
}

/// The decimal numeral of `n`, without leading zeros.
pub open spec fn decimal(n: nat) -> Seq<char>
    decreases n,
{
    if n < 10 {
        seq![digit(n)]
    } else {
        decimal(n / 10).push(digit(n % 10))
    }
}

/// Appends the decimal numeral of `n` to `out`.
pub fn push_decimal(out: &mut String, n: u64)
    ensures
        final(out)@ == old(out)@ + decimal(n as nat),
    decreases n,
{
    if n >= 10 {
        push_decimal(out, n / 10);
    }
    let d: u8 = (n % 10) as u8;
    push_char(out, (48 + d) as char);
    proof {
        let n = n as nat;
        if n < 10 {
            assert(old(out)@ + decimal(n) =~= old(out)@.push(digit(n)));
        } else {
            assert(old(out)@ + decimal(n) =~= (old(out)@ + decimal(n / 10)).push(digit(n % 10)));
        }
    }
}

} // verus!
