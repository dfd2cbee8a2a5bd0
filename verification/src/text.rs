//! Text primitives shared by the registry: models of the string operations
//! the registry relies on, and the executable functions that meet them.

use vstd::prelude::*;
use vstd::string::*;

verus! {

/// The ASCII lower-case form of a character; characters outside `A..=Z`
/// are left alone.
pub open spec fn ascii_lower(c: char) -> char {
    if 'A' <= c && c <= 'Z' {
        ((c as u32) + 32) as char
    } else {
        c
    }
}

/// The ASCII lower-case form of a text, character by character.
pub open spec fn lower(s: Seq<char>) -> Seq<char> {
    s.map_values(|c: char| ascii_lower(c))
}

/// Two texts are equal once ASCII letter case is ignored.
pub open spec fn same_ignoring_case(a: Seq<char>, b: Seq<char>) -> bool {
    lower(a) =~= lower(b)
}

/// `pat` occurs somewhere in `s` as a contiguous run of characters.
pub open spec fn occurs_in(pat: Seq<char>, s: Seq<char>) -> bool {
    exists|i: int| 0 <= i && i + pat.len() <= s.len() && #[trigger] s.subrange(i, i + pat.len()) =~= pat
}

/// `s` with every trailing copy of the non-empty `pat` removed.
pub open spec fn without_trailing(s: Seq<char>, pat: Seq<char>) -> Seq<char>
    decreases s.len(),
{
    if pat.len() > 0 && pat.is_suffix_of(s) {
        without_trailing(s.subrange(0, s.len() - pat.len()), pat)
    } else {
        s
    }
}

/// `s` with each occurrence of the character `from` replaced by the text `to`.
pub open spec fn with_char_replaced(s: Seq<char>, from: char, to: Seq<char>) -> Seq<char>
    decreases s.len(),
{
    if s.len() == 0 {
        s
    } else if s.last() == from {
        with_char_replaced(s.drop_last(), from, to) + to
    } else {
        with_char_replaced(s.drop_last(), from, to).push(s.last())
    }
}

/// The character that writes the digit `d`, for `d < 10`.
pub open spec fn digit_char(d: nat) -> char {
    ((d + 48) as u8) as char
}

/// The decimal numeral of `n`, without leading zeros.
pub open spec fn decimal(n: nat) -> Seq<char>
    decreases n,
{
    if n < 10 {
        seq![digit_char(n)]
    } else {
        decimal(n / 10).push(digit_char(n % 10))
    }
}

/// The texts of `parts` written one after another with `sep` between
/// neighbours.
pub open spec fn joined(parts: Seq<Seq<char>>, sep: Seq<char>) -> Seq<char>
    decreases parts.len(),
{
    if parts.len() == 0 {
        Seq::empty()
    } else if parts.len() == 1 {
        parts[0]
    } else {
        joined(parts.drop_last(), sep) + sep + parts.last()
    }
}

/// The views of a list of owned strings.
pub open spec fn texts(v: Seq<String>) -> Seq<Seq<char>> {
    v.map_values(|s: String| s@)
}

/// The view of an optional string.
pub open spec fn opt_text(s: Option<String>) -> Option<Seq<char>> {
    match s {
        Some(t) => Some(t@),
        None => None,
    }
}

/// The views of a list of borrowed strings.
pub open spec fn slice_texts(v: Seq<&str>) -> Seq<Seq<char>> {
    v.map_values(|s: &str| s@)
}

/// The order of strings: lexicographic by code point, a proper prefix
/// coming before the texts it starts.
pub open spec fn text_le(a: Seq<char>, b: Seq<char>) -> bool
    decreases a.len(),
{
    if a.len() == 0 {
        true
    } else if b.len() == 0 {
        false
    } else if a[0] == b[0] {
        text_le(a.drop_first(), b.drop_first())
    } else {
        (a[0] as u32) < (b[0] as u32)
    }
}

/// Each text of the list is at most the texts after it.
pub open spec fn ascending(s: Seq<Seq<char>>) -> bool {
    forall|i: int, j: int| 0 <= i < j < s.len() ==> text_le(#[trigger] s[i], #[trigger] s[j])
}

/// Each text of the list is strictly below the texts after it, so that no
/// text occurs twice.
pub open spec fn strictly_ascending(s: Seq<Seq<char>>) -> bool {
    forall|i: int, j: int|
        0 <= i < j < s.len() ==> text_le(#[trigger] s[i], #[trigger] s[j]) && s[i] != s[j]
}

/// Two texts that are each at most the other are the same text.
pub proof fn lemma_text_le_antisymmetric(a: Seq<char>, b: Seq<char>)
    requires
        text_le(a, b),
        text_le(b, a),
    ensures
        a == b,
    decreases a.len(),
{
    if a.len() == 0 {
        assert(b.len() == 0);
        assert(a =~= b);
    } else {
        assert(b.len() > 0);
        assert(a[0] == b[0]);
        lemma_text_le_antisymmetric(a.drop_first(), b.drop_first());
        assert(a =~= seq![a[0]] + a.drop_first());
        assert(b =~= seq![b[0]] + b.drop_first());
    }
}

/// The debug rendering of a list of strings: the bracketed, comma-separated
/// list of its items, each quoted and escaped as the standard formatter does.
pub uninterp spec fn debug_list_text(items: Seq<Seq<char>>) -> Seq<char>;

/// The text obtained from bytes by lossy UTF-8 decoding, in which every
/// invalid sequence is replaced by the replacement character.
pub uninterp spec fn lossy_utf8_text(bytes: Seq<u8>) -> Seq<char>;

/// Calls `str::eq_ignore_ascii_case`, which std documents as comparing the
/// ASCII lower-case forms of its two arguments.
#[verifier::external_body]
pub(crate) fn eq_ignore_ascii_case(a: &str, b: &str) -> (res: bool)
    ensures
        res == same_ignoring_case(a@, b@),
{
    a.eq_ignore_ascii_case(b)
}

/// Compares two string slices with `==`: true exactly when they hold the
/// same characters.
#[verifier::external_body]
pub(crate) fn same_text(a: &str, b: &str) -> (res: bool)
    ensures
        res == (a@ == b@),
{
    a == b
}

/// Calls `str::ends_with` with a string pattern: true exactly when the
/// pattern is a suffix of the text.
#[verifier::external_body]
pub(crate) fn ends_with(s: &str, suffix: &str) -> (res: bool)
    ensures
        res == suffix@.is_suffix_of(s@),
{
    s.ends_with(suffix)
}

/// Calls `str::contains` with a string pattern: true exactly when the
/// pattern occurs in the text.
#[verifier::external_body]
pub(crate) fn contains(s: &str, pat: &str) -> (res: bool)
    ensures
        res == occurs_in(pat@, s@),
{
    s.contains(pat)
}

/// Calls `str::trim_end_matches` with a non-empty string pattern: the text
/// with all trailing copies of the pattern repeatedly removed.
#[verifier::external_body]
pub(crate) fn trim_end_matches<'a>(s: &'a str, pat: &str) -> (res: &'a str)
    requires
        pat@.len() > 0,
    ensures
        res@ == without_trailing(s@, pat@),
{
    s.trim_end_matches(pat)
}

/// Calls `str::replace` with a character pattern: a new string in which
/// each match of the character is replaced by the given text.
#[verifier::external_body]
pub(crate) fn replace_char(s: &str, from: char, to: &str) -> (res: String)
    ensures
        res@ == with_char_replaced(s@, from, to@),
{
    s.replace(from, to)
}

/// Calls `u64::to_string`, which writes the number in decimal.
#[verifier::external_body]
pub(crate) fn decimal_string(n: u64) -> (res: String)
    ensures
        res@ == decimal(n as nat),
{
    n.to_string()
}

/// Calls `sort` on a list of strings: afterwards the list holds the same
/// strings as often as before, in ascending order. Strings are ordered
/// lexicographically by their bytes, which for UTF-8 is the order of their
/// code points.
#[verifier::external_body]
pub(crate) fn sort_texts(items: &mut Vec<String>)
    ensures
        texts(final(items)@).to_multiset() == texts(old(items)@).to_multiset(),
        ascending(texts(final(items)@)),
{
    items.sort();
}

/// Formats a list of strings with the standard debug formatter. The
/// result is only named: it is a function of the items alone.
#[verifier::external_body]
pub(crate) fn debug_list(items: &Vec<String>) -> (res: String)
    ensures
        res@ == debug_list_text(texts(items@)),
{
    format!("{:?}", items)
}

/// Calls `String::from_utf8_lossy`. The result is only named: it is a
/// function of the bytes alone.
#[verifier::external_body]
pub(crate) fn lossy_utf8(bytes: &[u8]) -> (res: String)
    ensures
        res@ == lossy_utf8_text(bytes@),
{
    String::from_utf8_lossy(bytes).into_owned()
}

/// The views of a list that grew by one string are the old views and the
/// view of the new string.
pub proof fn lemma_texts_push(v: Seq<String>, s: String)
    ensures
        texts(v.push(s)) == texts(v).push(s@),
{
    assert(texts(v.push(s)) =~= texts(v).push(s@));
}

/// A copy of a list of strings.
pub fn copy_texts(items: &Vec<String>) -> (res: Vec<String>)
    ensures
        texts(res@) == texts(items@),
{
    let mut out: Vec<String> = Vec::new();
    let mut i: usize = 0;
    while i < items.len()
        invariant
            i <= items.len(),
            texts(out@) == texts(items@).take(i as int),
        decreases items.len() - i,
    {
        let ghost before = out@;
        let item = items[i].clone();
        out.push(item);
        proof {
            lemma_texts_push(before, item);
            assert(texts(items@).take(i as int + 1) =~= texts(items@).take(i as int).push(
                items@[i as int]@,
            ));
        }
        i = i + 1;
    }
    proof {
        assert(texts(items@).take(items@.len() as int) =~= texts(items@));
    }
    out
}

/// A copy of an optional string.
pub fn copy_opt_text(item: &Option<String>) -> (res: Option<String>)
    ensures
        opt_text(res) == opt_text(*item),
{
    match item {
        Some(s) => Some(s.clone()),
        None => None,
    }
}

/// Joins the texts of `parts` with `sep` between neighbours.
pub fn join(parts: &Vec<String>, sep: &str) -> (res: String)
    ensures
        res@ == joined(texts(parts@), sep@),
{
    let mut out = String::new();
    let mut i: usize = 0;
    while i < parts.len()
        invariant
            i <= parts.len(),
            out@ == joined(texts(parts@).take(i as int), sep@),
        decreases parts.len() - i,
    {
        proof {
            let ts = texts(parts@);
            assert(ts.take(i as int + 1).drop_last() =~= ts.take(i as int));
            assert(ts.take(i as int + 1).last() == parts@[i as int]@);
            if i > 0 {
                assert(ts.take(i as int + 1).len() > 1);
            }
        }
        if i > 0 {
            out.append(sep);
        }
        out.append(parts[i].as_str());
        i = i + 1;
    }
    proof {
        assert(texts(parts@).take(parts@.len() as int) =~= texts(parts@));
    }
    out
}

} // verus!
