use crate::model::texts;
use vstd::prelude::*;
use vstd::slice::*;
use vstd::string::*;
use vstd::utf8::*;

verus! {

/// Whether a character is white space: one of the characters that carry
/// the Unicode property `White_Space`, by which `char::is_whitespace` and
/// the trimming functions of `str` go.
pub open spec fn is_white_space(c: char) -> bool {
    let code = c as u32;
    ||| 0x09 <= code <= 0x0D
    ||| code == 0x20
    ||| code == 0x85
    ||| code == 0xA0
    ||| code == 0x1680
    ||| 0x2000 <= code <= 0x200A
    ||| code == 0x2028
    ||| code == 0x2029
    ||| code == 0x202F
    ||| code == 0x205F
    ||| code == 0x3000
}

/// A text without its leading white space.
pub open spec fn without_leading_space(s: Seq<char>) -> Seq<char>
    decreases s.len(),
{
    if s.len() > 0 && is_white_space(s[0]) {
        without_leading_space(s.drop_first())
    } else {
        s
    }
}

/// A text without its trailing white space.
pub open spec fn without_trailing_space(s: Seq<char>) -> Seq<char>
    decreases s.len(),
{
    if s.len() > 0 && is_white_space(s.last()) {
        without_trailing_space(s.drop_last())
    } else {
        s
    }
}

/// The characters that `str::trim` leaves of a text: the text without its
/// leading and trailing white space.
pub open spec fn trimmed(s: Seq<char>) -> Seq<char> {
    without_trailing_space(without_leading_space(s))
}

/// Whether a text neither begins nor ends with white space.
pub open spec fn is_trim(s: Seq<char>) -> bool {
    s.len() > 0 ==> !is_white_space(s[0]) && !is_white_space(s.last())
}

/// Tells whether a character is white space.
pub fn is_blank(c: char) -> (blank: bool)
    ensures
        blank == is_white_space(c),
{
    let code: u32 = c as u32;
    (0x09 <= code && code <= 0x0D) || code == 0x20 || code == 0x85 || code == 0xA0 || code
        == 0x1680 || (0x2000 <= code && code <= 0x200A) || code == 0x2028 || code == 0x2029
        || code == 0x202F || code == 0x205F || code == 0x3000
}

/// What is left of a text without its leading white space does not begin
/// with white space.
pub proof fn lemma_leading_space_gone(s: Seq<char>)
    ensures
        without_leading_space(s).len() > 0 ==> !is_white_space(without_leading_space(s)[0]),
        without_leading_space(s).len() <= s.len(),
    decreases s.len(),
{
    if s.len() > 0 && is_white_space(s[0]) {
        lemma_leading_space_gone(s.drop_first());
    }
}

/// What is left of a text without its trailing white space does not end
/// with white space, and begins as the text does.
pub proof fn lemma_trailing_space_gone(s: Seq<char>)
    ensures
        without_trailing_space(s).len() > 0 ==> !is_white_space(without_trailing_space(s).last())
            && without_trailing_space(s)[0] == s[0],
        without_trailing_space(s).len() <= s.len(),
    decreases s.len(),
{
    if s.len() > 0 && is_white_space(s.last()) {
        lemma_trailing_space_gone(s.drop_last());
    }
}

/// A trimmed text neither begins nor ends with white space.
pub proof fn lemma_trimmed_is_trim(s: Seq<char>)
    ensures
        is_trim(trimmed(s)),
        trimmed(s).len() <= s.len(),
{
    lemma_leading_space_gone(s);
    lemma_trailing_space_gone(without_leading_space(s));
}

/// Trimming leaves a text alone that neither begins nor ends with white
/// space.
pub proof fn lemma_trim_of_trim(s: Seq<char>)
    requires
        is_trim(s),
    ensures
        trimmed(s) == s,
{
}

/// Trimming twice is trimming once.
pub proof fn law_trimming_twice_is_once(s: Seq<char>)
    ensures
        trimmed(trimmed(s)) == trimmed(s),
{
    lemma_trimmed_is_trim(s);
    lemma_trim_of_trim(trimmed(s));
}

/// The characters that `str::to_lowercase` gives for a text.
pub uninterp spec fn lowercased(s: Seq<char>) -> Seq<char>;

/// The characters that `str::to_uppercase` gives for a text.
pub uninterp spec fn uppercased(s: Seq<char>) -> Seq<char>;

/// Calls `str::trim`. Trusted: the result is the text without its leading
/// and trailing white space, as [`trimmed`] says.
#[verifier::external_body]
pub(crate) fn trim<'a>(text: &'a str) -> (out: &'a str)
    ensures
        out@ == trimmed(text@),
{
    text.trim()
}

/// Calls `str::to_lowercase`. Trusted: the result holds the characters named
/// by [`lowercased`].
#[verifier::external_body]
pub(crate) fn to_lowercase(text: &str) -> (out: String)
    ensures
        out@ == lowercased(text@),
{
    text.to_lowercase()
}

/// Calls `str::to_uppercase`. Trusted: the result holds the characters named
/// by [`uppercased`].
#[verifier::external_body]
pub(crate) fn to_uppercase(text: &str) -> (out: String)
    ensures
        out@ == uppercased(text@),
{
    text.to_uppercase()
}

/// Calls `String::from_utf8`. Trusted: the bytes come back as a text exactly
/// when they are well-formed UTF-8, and the text then decodes them.
#[verifier::external_body]
pub(crate) fn string_from_utf8(bytes: Vec<u8>) -> (out: Option<String>)
    ensures
        out is Some <==> valid_utf8(bytes@),
        out is Some ==> out->0@ == decode_utf8(bytes@),
{
    match String::from_utf8(bytes) {
        Ok(text) => Some(text),
        Err(_) => None,
    }
}

/// A text without the leading characters that equal `lead`.
pub open spec fn without_leading(s: Seq<char>, lead: char) -> Seq<char>
    decreases s.len(),
{
    if s.len() > 0 && s[0] == lead {
        without_leading(s.drop_first(), lead)
    } else {
        s
    }
}

/// Calls `str::trim_start_matches` with a character. Trusted: the result is
/// the text without its leading characters equal to `lead`.
#[verifier::external_body]
pub(crate) fn trim_start_matches<'a>(text: &'a str, lead: char) -> (out: &'a str)
    ensures
        out@ == without_leading(text@, lead),
{
    text.trim_start_matches(lead)
}

/// The part of a text in front of the first occurrence of a character; the
/// whole text where the character does not occur.
pub open spec fn until_first(s: Seq<char>, mark: char) -> Seq<char>
    decreases s.len(),
{
    if s.len() == 0 || s[0] == mark {
        Seq::empty()
    } else {
        seq![s[0]] + until_first(s.drop_first(), mark)
    }
}

/// Calls `str::split_once` with a character. Trusted: where the character
/// occurs, the text is handed back in two pieces, what stands in front of
/// its first occurrence and what stands behind it; where it does not occur,
/// nothing is handed back, and nothing stands in front of an occurrence
/// but the whole text.
#[verifier::external_body]
pub(crate) fn split_once<'a>(text: &'a str, mark: char) -> (out: Option<(&'a str, &'a str)>)
    ensures
        match out {
            Some((head, tail)) => head@ == until_first(text@, mark) && text@ == head@ + seq![
                mark,
            ] + tail@,
            None => until_first(text@, mark) == text@ && !text@.contains(mark),
        },
{
    text.split_once(mark)
}

/// The part of a text in front of the first occurrence of a character.
pub fn before_first<'a>(text: &'a str, mark: char) -> (out: &'a str)
    ensures
        out@ == until_first(text@, mark),
{
    match split_once(text, mark) {
        Some((head, _)) => head,
        None => text,
    }
}

/// The part of a text in front of its first white space; the whole text
/// where it holds none.
pub open spec fn until_first_space(s: Seq<char>) -> Seq<char>
    decreases s.len(),
{
    if s.len() == 0 || is_white_space(s[0]) {
        Seq::empty()
    } else {
        seq![s[0]] + until_first_space(s.drop_first())
    }
}

/// The first word of a text: its first run of characters that are not white
/// space, if it has one.
pub open spec fn first_word_of(s: Seq<char>) -> Option<Seq<char>> {
    let rest = without_leading_space(s);
    if rest.len() == 0 {
        None
    } else {
        Some(until_first_space(rest))
    }
}

/// Calls `str::trim_start`. Trusted: the result is the text without its
/// leading white space.
#[verifier::external_body]
pub(crate) fn trim_start<'a>(text: &'a str) -> (out: &'a str)
    ensures
        out@ == without_leading_space(text@),
{
    text.trim_start()
}

/// Calls `str::split_once` with `char::is_whitespace`. Trusted: where the
/// text holds white space, it is handed back in two pieces, what stands in
/// front of the first white space and what stands behind it; where it holds
/// none, nothing is handed back, and the part in front of the first white
/// space is the whole text.
#[verifier::external_body]
pub(crate) fn split_once_at_space<'a>(text: &'a str) -> (out: Option<(&'a str, &'a str)>)
    ensures
        match out {
            Some((head, tail)) => head@ == until_first_space(text@) && head@.len() < text@.len()
                && is_white_space(text@[head@.len() as int]) && text@ == head@ + seq![
                text@[head@.len() as int],
            ] + tail@,
            None => until_first_space(text@) == text@,
        },
{
    text.split_once(char::is_whitespace)
}

/// The first word of a text.
pub fn first_word<'a>(text: &'a str) -> (out: Option<&'a str>)
    ensures
        match out {
            Some(word) => first_word_of(text@) == Some(word@),
            None => first_word_of(text@) is None,
        },
{
    let rest = trim_start(text);
    if rest.is_empty() {
        None
    } else {
        match split_once_at_space(rest) {
            Some((head, _)) => Some(head),
            None => Some(rest),
        }
    }
}

/// The normal form under which identifiers, set codes and dataset names are
/// stored: trimmed, then lower-cased. Of a blank text nothing is left.
pub open spec fn normalized(s: Seq<char>) -> Seq<char> {
    if trimmed(s).len() == 0 {
        Seq::empty()
    } else {
        lowercased(trimmed(s))
    }
}

/// Trims a text and lower-cases what is left, if anything is.
pub fn normalize(text: &str) -> (out: String)
    ensures
        out@ == normalized(text@),
        trimmed(text@).len() == 0 ==> out@.len() == 0,
{
    let kept = trim(text);
    if kept.is_empty() {
        String::new()
    } else {
        to_lowercase(kept)
    }
}

/// Whether two byte sequences agree on their first `n` positions.
pub open spec fn same_prefix(a: Seq<u8>, b: Seq<u8>, n: int) -> bool {
    &&& 0 <= n <= a.len()
    &&& n <= b.len()
    &&& forall|k: int| 0 <= k < n ==> a[k] == b[k]
}

/// Two texts with the same UTF-8 bytes hold the same characters.
pub proof fn lemma_bytes_fix_text(a: Seq<char>, b: Seq<char>)
    requires
        encode_utf8(a) == encode_utf8(b),
    ensures
        a == b,
{
    encode_utf8_decode_utf8(a);
    encode_utf8_decode_utf8(b);
}

/// Compares two byte slices position by position.
pub fn bytes_equal(a: &[u8], b: &[u8]) -> (same: bool)
    ensures
        same == (a@ == b@),
{
    if a.len() != b.len() {
        return false;
    }
    let mut i: usize = 0;
    while i < a.len()
        invariant
            a@.len() == b@.len(),
            same_prefix(a@, b@, i as int),
        decreases a@.len() - i,
    {
        if a[i] != b[i] {
            return false;
        }
        i = i + 1;
    }
    assert(a@ =~= b@);
    true
}

/// Whether two texts hold the same characters.
pub fn same_text(a: &str, b: &str) -> (same: bool)
    ensures
        same == (a@ == b@),
{
    let same = bytes_equal(a.as_bytes(), b.as_bytes());
    proof {
        if same {
            lemma_bytes_fix_text(a@, b@);
        }
    }
    same
}

/// Whether two optional texts agree: both absent, or both present with the
/// same characters.
pub fn same_optional_text(a: &Option<String>, b: &Option<String>) -> (same: bool)
    ensures
        same == (a.deep_view() == b.deep_view()),
{
    match (a, b) {
        (None, None) => true,
        (Some(x), Some(y)) => same_text(x.as_str(), y.as_str()),
        _ => false,
    }
}

/// A byte with an ASCII capital letter turned into its small letter.
pub open spec fn ascii_lower(byte: u8) -> u8 {
    if 65 <= byte <= 90 {
        (byte + 32) as u8
    } else {
        byte
    }
}

/// Whether two byte sequences agree once ASCII capitals are turned into
/// small letters.
pub open spec fn bytes_ignoring_case_equal(a: Seq<u8>, b: Seq<u8>) -> bool {
    a.len() == b.len() && forall|i: int| 0 <= i < a.len() ==> ascii_lower(#[trigger] a[i])
        == ascii_lower(b[i])
}

/// Whether two texts agree but for the case of their ASCII letters.
pub open spec fn ignoring_case_equal(a: Seq<char>, b: Seq<char>) -> bool {
    bytes_ignoring_case_equal(encode_utf8(a), encode_utf8(b))
}

/// Tells whether two texts agree but for the case of their ASCII letters.
pub fn same_ignoring_ascii_case(a: &str, b: &str) -> (same: bool)
    ensures
        same == ignoring_case_equal(a@, b@),
{
    let x = a.as_bytes();
    let y = b.as_bytes();
    if x.len() != y.len() {
        return false;
    }
    let mut i: usize = 0;
    while i < x.len()
        invariant
            x@.len() == y@.len(),
            x@ == encode_utf8(a@),
            y@ == encode_utf8(b@),
            i <= x@.len(),
            forall|k: int| 0 <= k < i ==> ascii_lower(#[trigger] x@[k]) == ascii_lower(y@[k]),
        decreases x@.len() - i,
    {
        let p: u8 = x[i];
        let q: u8 = y[i];
        let p_low: u8 = if 65 <= p && p <= 90 {
            p + 32
        } else {
            p
        };
        let q_low: u8 = if 65 <= q && q <= 90 {
            q + 32
        } else {
            q
        };
        if p_low != q_low {
            assert(ascii_lower(x@[i as int]) != ascii_lower(y@[i as int]));
            return false;
        }
        i = i + 1;
    }
    true
}

/// Whether a list of words holds a word, in any ASCII case.
pub open spec fn names_word(words: Seq<Seq<char>>, word: Seq<char>) -> bool {
    exists|i: int| 0 <= i < words.len() && ignoring_case_equal(#[trigger] words[i], word)
}

/// Tells whether a list of words holds a word, in any ASCII case.
pub fn any_names(words: &Vec<String>, word: &str) -> (found: bool)
    ensures
        found == names_word(texts(words@), word@),
{
    let ghost all = texts(words@);
    let mut i: usize = 0;
    while i < words.len()
        invariant
            i <= words@.len(),
            all == texts(words@),
            forall|k: int| 0 <= k < i ==> !ignoring_case_equal(#[trigger] all[k], word@),
        decreases words@.len() - i,
    {
        if same_ignoring_ascii_case(words[i].as_str(), word) {
            assert(0 <= i < all.len() && ignoring_case_equal(all[i as int], word@));
            return true;
        }
        i = i + 1;
    }
    false
}

/// Whether a byte sequence occurs in another at a given place.
pub open spec fn occurs_at(hay: Seq<u8>, needle: Seq<u8>, at: int) -> bool {
    0 <= at && at + needle.len() <= hay.len() && hay.subrange(at, at + needle.len()) == needle
}

/// Whether a text holds another as a part, by their UTF-8 bytes.
pub open spec fn holds_text(hay: Seq<char>, needle: Seq<char>) -> bool {
    exists|at: int| occurs_at(encode_utf8(hay), encode_utf8(needle), at)
}

/// Tells whether bytes occur in others at a given place.
fn matches_at(hay: &[u8], needle: &[u8], at: usize) -> (found: bool)
    requires
        at + needle@.len() <= hay@.len(),
    ensures
        found == occurs_at(hay@, needle@, at as int),
{
    let total: usize = hay.len();
    let mut k: usize = 0;
    while k < needle.len()
        invariant
            k <= needle@.len(),
            at + needle@.len() <= hay@.len(),
            total == hay@.len(),
            forall|j: int| 0 <= j < k ==> hay@[at + j] == needle@[j],
        decreases needle@.len() - k,
    {
        if hay[at + k] != needle[k] {
            assert(hay@.subrange(at as int, at + needle@.len())[k as int] != needle@[k as int]);
            return false;
        }
        k = k + 1;
    }
    assert(hay@.subrange(at as int, at + needle@.len()) =~= needle@);
    true
}

/// Tells whether a text holds another as a part.
pub fn contains_text(hay: &str, needle: &str) -> (found: bool)
    ensures
        found == holds_text(hay@, needle@),
{
    let h = hay.as_bytes();
    let n = needle.as_bytes();
    if n.len() > h.len() {
        return false;
    }
    let last: usize = h.len() - n.len();
    let mut at: usize = 0;
    loop
        invariant
            at <= last,
            last == h@.len() - n@.len(),
            h@ == encode_utf8(hay@),
            n@ == encode_utf8(needle@),
            forall|j: int| 0 <= j < at ==> !occurs_at(h@, n@, j),
        decreases last - at,
    {
        if matches_at(h, n, at) {
            return true;
        }
        if at == last {
            return false;
        }
        at = at + 1;
    }
}

} // verus!
