//! Text utilities: white space, trimming, splitting into words, and the
//! assembling of messages.

use vstd::prelude::*;
use vstd::string::*;
use vstd::utf8::{decode_utf8, valid_utf8};

verus! {

/// The text that `String::from_utf8_lossy` makes of a sequence of bytes: the
/// text that the bytes encode in UTF-8, with a replacement character in the
/// place of what is no valid encoding.
pub uninterp spec fn lossy_text(bytes: Seq<u8>) -> Seq<char>;

/// Decodes bytes with `String::from_utf8_lossy`.
///
/// Trusted: the result is taken to be a function of the bytes alone, named
/// [`lossy_text`]; of bytes that are valid UTF-8 it is the text they encode, as
/// the documentation of the standard library says.
#[verifier::external_body]
pub(crate) fn decode_lossy(bytes: &[u8]) -> (text: String)
    ensures
        text@ == lossy_text(bytes@),
        valid_utf8(bytes@) ==> text@ == decode_utf8(bytes@),
{
    String::from_utf8_lossy(bytes).into_owned()
}

/// Whether `c` is white space: a character with the Unicode property
/// `White_Space`.
pub open spec fn is_space(c: char) -> bool {
    let code = c as u32;
    ||| 0x09 <= code <= 0x0D
    ||| code == 0x20
    ||| code == 0x85
    ||| code == 0xA0
    ||| code == 0x1680
    ||| 0x2000 <= code <= 0x200A
    ||| code == 0x2028
    ||| code == 0x2029
    ||| code == 0x202F
    ||| code == 0x205F
    ||| code == 0x3000
}

/// The first position at or after `i` that holds no white space, or the
/// length of `s` if there is none.
pub open spec fn skip_spaces(s: Seq<char>, i: int) -> int
    decreases s.len() - i,
{
    if 0 <= i < s.len() && is_space(s[i]) {
        skip_spaces(s, i + 1)
    } else {
        i
    }
}

/// The first position at or after `i` that holds white space, or the length
/// of `s` if there is none.
pub open spec fn skip_word(s: Seq<char>, i: int) -> int
    decreases s.len() - i,
{
    if 0 <= i < s.len() && !is_space(s[i]) {
        skip_word(s, i + 1)
    } else {
        i
    }
}

/// The position after the last character before `j` that is no white space,
/// or 0 if there is none.
pub open spec fn skip_spaces_back(s: Seq<char>, j: int) -> int
    decreases j,
{
    if 0 < j <= s.len() && is_space(s[j - 1]) {
        skip_spaces_back(s, j - 1)
    } else {
        j
    }
}

/// The words of `s` that begin at or after position `i`, in order. A word is
/// a longest run of characters without white space.
pub open spec fn words_from(s: Seq<char>, i: int) -> Seq<Seq<char>>
    decreases s.len() - i,
{
    let start = skip_spaces(s, i);
    let end = skip_word(s, start);
    if i <= start < end <= s.len() {
        seq![s.subrange(start, end)] + words_from(s, end)
    } else {
        Seq::empty()
    }
}

/// The words of `s`, in order.
pub open spec fn words(s: Seq<char>) -> Seq<Seq<char>> {
    words_from(s, 0)
}

/// `s` without the white space at its start and at its end.
pub open spec fn trimmed(s: Seq<char>) -> Seq<char> {
    let start = skip_spaces(s, 0);
    let end = skip_spaces_back(s, s.len() as int);
    if start <= end {
        s.subrange(start, end)
    } else {
        Seq::empty()
    }
}

/// The texts of a list of strings.
pub open spec fn texts(list: Seq<String>) -> Seq<Seq<char>> {
    Seq::new(list.len(), |i: int| list[i]@)
}

/// `skip_spaces` stays within the text and passes white space only.
pub proof fn lemma_skip_spaces(s: Seq<char>, i: int)
    requires
        0 <= i <= s.len(),
    ensures
        i <= skip_spaces(s, i) <= s.len(),
        forall|k: int| i <= k < skip_spaces(s, i) ==> is_space(s[k]),
        skip_spaces(s, i) < s.len() ==> !is_space(s[skip_spaces(s, i)]),
    decreases s.len() - i,
{
    if i < s.len() && is_space(s[i]) {
        lemma_skip_spaces(s, i + 1);
    }
}

/// `skip_word` stays within the text and passes no white space.
pub proof fn lemma_skip_word(s: Seq<char>, i: int)
    requires
        0 <= i <= s.len(),
    ensures
        i <= skip_word(s, i) <= s.len(),
        forall|k: int| i <= k < skip_word(s, i) ==> !is_space(s[k]),
        skip_word(s, i) < s.len() ==> is_space(s[skip_word(s, i)]),
        i < s.len() && !is_space(s[i]) ==> i < skip_word(s, i),
    decreases s.len() - i,
{
    if i < s.len() && !is_space(s[i]) {
        lemma_skip_word(s, i + 1);
    }
}

/// `skip_spaces_back` stays within the text and passes white space only.
pub proof fn lemma_skip_spaces_back(s: Seq<char>, j: int)
    requires
        0 <= j <= s.len(),
    ensures
        0 <= skip_spaces_back(s, j) <= j,
        forall|k: int| skip_spaces_back(s, j) <= k < j ==> is_space(s[k]),
        0 < skip_spaces_back(s, j) ==> !is_space(s[skip_spaces_back(s, j) - 1]),
    decreases j,
{
    if 0 < j && is_space(s[j - 1]) {
        lemma_skip_spaces_back(s, j - 1);
    }
}

/// Every word is a run of `s` that is not empty and holds no white space.
pub proof fn law_words_hold_no_space(s: Seq<char>, i: int)
    requires
        0 <= i <= s.len(),
    ensures
        forall|w: int|
            0 <= w < words_from(s, i).len() ==> (#[trigger] words_from(s, i)[w]).len() > 0
                && forall|k: int|
                0 <= k < words_from(s, i)[w].len() ==> !is_space(words_from(s, i)[w][k]),
    decreases s.len() - i,
{
    lemma_skip_spaces(s, i);
    let start = skip_spaces(s, i);
    lemma_skip_word(s, start);
    let end = skip_word(s, start);
    if start < end {
        law_words_hold_no_space(s, end);
        let first = s.subrange(start, end);
        let rest = words_from(s, end);
        assert forall|w: int| 0 <= w < words_from(s, i).len() implies (#[trigger] words_from(
            s,
            i,
        )[w]).len() > 0 && forall|k: int|
            0 <= k < words_from(s, i)[w].len() ==> !is_space(words_from(s, i)[w][k]) by {
            if w == 0 {
                assert(words_from(s, i)[w] == first);
            } else {
                assert(words_from(s, i)[w] == rest[w - 1]);
            }
        }
    }
}

/// A text without any character that is no white space has no words.
pub proof fn law_blank_has_no_words(s: Seq<char>)
    requires
        forall|k: int| 0 <= k < s.len() ==> is_space(s[k]),
    ensures
        words(s).len() == 0,
{
    lemma_skip_spaces(s, 0);
    lemma_skip_word(s, skip_spaces(s, 0));
}

/// A trimmed text neither begins nor ends with white space, and trimming it
/// again changes nothing.
pub proof fn law_trimmed_has_no_space_at_its_ends(s: Seq<char>)
    ensures
        trimmed(s).len() > 0 ==> !is_space(trimmed(s).first()) && !is_space(trimmed(s).last()),
        trimmed(trimmed(s)) == trimmed(s),
{
    lemma_skip_spaces(s, 0);
    lemma_skip_spaces_back(s, s.len() as int);
    let start = skip_spaces(s, 0);
    let end = skip_spaces_back(s, s.len() as int);
    let t = trimmed(s);
    if start < end {
        assert(t.first() == s[start]);
        assert(t.last() == s[end - 1]);
        assert(t.subrange(0, t.len() as int) =~= t);
    } else if start == end {
        assert(t =~= Seq::<char>::empty());
        assert(trimmed(t) =~= t);
    }
}

/// Skipping white space and skipping a word go the same way in a text and in
/// what is left of it when its first `a` characters are dropped.
pub proof fn lemma_skips_after_skip(s: Seq<char>, a: int, i: int)
    requires
        0 <= a,
        0 <= i,
        a + i <= s.len(),
    ensures
        skip_spaces(s.skip(a), i) + a == skip_spaces(s, a + i),
        skip_word(s.skip(a), i) + a == skip_word(s, a + i),
    decreases s.len() - a - i,
{
    if a + i < s.len() {
        assert(s.skip(a)[i] == s[a + i]);
        lemma_skips_after_skip(s, a, i + 1);
    }
}

/// Skipping white space and skipping a word go the same way in a text and in
/// its first `b` characters, up to the end of these.
pub proof fn lemma_skips_within_take(s: Seq<char>, b: int, i: int)
    requires
        0 <= i <= b <= s.len(),
    ensures
        skip_spaces(s.take(b), i) == if skip_spaces(s, i) < b {
            skip_spaces(s, i)
        } else {
            b
        },
        skip_word(s.take(b), i) == if skip_word(s, i) < b {
            skip_word(s, i)
        } else {
            b
        },
    decreases b - i,
{
    lemma_skip_spaces(s, i);
    lemma_skip_word(s, i);
    if i < b {
        assert(s.take(b)[i] == s[i]);
        lemma_skips_within_take(s, b, i + 1);
    }
}

/// The words of what is left of a text when its first `a` characters are
/// dropped are the words of the text that begin at or after position `a`.
pub proof fn lemma_words_after_skip(s: Seq<char>, a: int, i: int)
    requires
        0 <= a,
        0 <= i,
        a + i <= s.len(),
    ensures
        words_from(s.skip(a), i) == words_from(s, a + i),
    decreases s.len() - a - i,
{
    let t = s.skip(a);
    lemma_skips_after_skip(s, a, i);
    lemma_skip_spaces(s, a + i);
    let start = skip_spaces(s, a + i);
    lemma_skips_after_skip(s, a, start - a);
    lemma_skip_word(s, start);
    let end = skip_word(s, start);
    if start < end {
        assert(t.subrange(start - a, end - a) =~= s.subrange(start, end));
        lemma_words_after_skip(s, a, end - a);
    }
}

/// White space at the end of a text adds no word: the words of the first `b`
/// characters are the words of the text, if only white space follows them.
pub proof fn lemma_words_within_take(s: Seq<char>, b: int, i: int)
    requires
        0 <= i <= b <= s.len(),
        forall|k: int| b <= k < s.len() ==> is_space(s[k]),
    ensures
        words_from(s.take(b), i) == words_from(s, i),
    decreases b - i,
{
    let t = s.take(b);
    lemma_skips_within_take(s, b, i);
    lemma_skip_spaces(s, i);
    let start = skip_spaces(s, i);
    lemma_skip_word(s, start);
    let end = skip_word(s, start);
    if start < b {
        lemma_skips_within_take(s, b, start);
        if end > b {
            assert(!is_space(s[b]));
        }
        if start < end {
            assert(t.subrange(start, end) =~= s.subrange(start, end));
            lemma_words_within_take(s, b, end);
        }
    } else {
        lemma_skip_word(t, b);
        if start < s.len() {
            assert(is_space(s[start]));
        }
    }
}

/// Trimming a text does not change its words.
pub proof fn law_trimming_keeps_the_words(s: Seq<char>)
    ensures
        words(trimmed(s)) == words(s),
{
    let n = s.len() as int;
    lemma_skip_spaces(s, 0);
    lemma_skip_spaces_back(s, n);
    let a = skip_spaces(s, 0);
    let b = skip_spaces_back(s, n);
    if a <= b {
        assert(trimmed(s) =~= s.take(b).skip(a));
        lemma_words_after_skip(s.take(b), a, 0);
        lemma_words_within_take(s, b, a);
        lemma_skip_spaces(s, a);
    } else {
        assert forall|k: int| 0 <= k < n implies is_space(s[k]) by {
            if k < a {
            } else {
                assert(b <= k);
            }
        }
        law_blank_has_no_words(s);
        law_blank_has_no_words(trimmed(s));
    }
}

/// Whether `c` is white space.
pub fn is_whitespace(c: char) -> (b: bool)
    ensures
        b == is_space(c),
{
    let code: u32 = c as u32;
    (0x09 <= code && code <= 0x0D) || code == 0x20 || code == 0x85 || code == 0xA0 || code
        == 0x1680 || (0x2000 <= code && code <= 0x200A) || code == 0x2028 || code == 0x2029
        || code == 0x202F || code == 0x205F || code == 0x3000
}

/// The characters of `s`.
pub fn chars_of(s: &str) -> (chars: Vec<char>)
    ensures
        chars@ == s@,
{
    broadcast use vstd::string::group_string_axioms;

    let mut chars: Vec<char> = Vec::new();
    for c in it: s.chars()
        invariant
            it.seq() == s@,
            chars@ == s@.take(it.index()),
    {
        chars.push(c);
        assert(chars@ =~= s@.take(it.index() + 1));
    }
    assert(s@.take(s@.len() as int) =~= s@);
    chars
}

/// `s` without the white space at its start and at its end.
pub fn trim(s: &str) -> (t: &str)
    ensures
        t@ == trimmed(s@),
{
    let chars = chars_of(s);
    let n: usize = chars.len();
    let mut start: usize = 0;
    while start < n && is_whitespace(chars[start])
        invariant
            n == s@.len(),
            chars@ == s@,
            start <= n,
            skip_spaces(s@, start as int) == skip_spaces(s@, 0),
        decreases n - start,
    {
        start = start + 1;
    }
    let mut end: usize = n;
    while end > 0 && is_whitespace(chars[end - 1])
        invariant
            n == s@.len(),
            chars@ == s@,
            end <= n,
            skip_spaces_back(s@, end as int) == skip_spaces_back(s@, n as int),
        decreases end,
    {
        end = end - 1;
    }
    if start <= end {
        s.substring_char(start, end)
    } else {
        let t = s.substring_char(0, 0);
        assert(t@ =~= Seq::<char>::empty());
        t
    }
}

/// The words of `s`, in order: its longest runs without white space.
pub fn split_whitespace(s: &str) -> (parts: Vec<String>)
    ensures
        texts(parts@) == words(s@),
{
    let chars = chars_of(s);
    let n: usize = chars.len();
    let mut parts: Vec<String> = Vec::new();
    let mut i: usize = 0;
    loop
        invariant
            n == s@.len(),
            chars@ == s@,
            i <= n,
            words(s@) == texts(parts@) + words_from(s@, i as int),
        ensures
            texts(parts@) == words(s@),
        decreases n - i,
    {
        let mut start: usize = i;
        while start < n && is_whitespace(chars[start])
            invariant
                n == s@.len(),
                chars@ == s@,
                i <= start <= n,
                skip_spaces(s@, start as int) == skip_spaces(s@, i as int),
            decreases n - start,
        {
            start = start + 1;
        }
        let mut end: usize = start;
        while end < n && !is_whitespace(chars[end])
            invariant
                n == s@.len(),
                chars@ == s@,
                start <= end <= n,
                skip_word(s@, end as int) == skip_word(s@, start as int),
            decreases n - end,
        {
            end = end + 1;
        }
        if start == end {
            assert(texts(parts@) + Seq::<Seq<char>>::empty() =~= texts(parts@));
            break;
        }
        let word = s.substring_char(start, end).to_owned();
        let ghost before = parts@;
        parts.push(word);
        assert(texts(parts@) =~= texts(before) + seq![s@.subrange(start as int, end as int)]);
        assert(words(s@) =~= texts(parts@) + words_from(s@, end as int));
        i = end;
    }
    parts
}

/// Whether two texts are the same.
pub fn same_text(a: &str, b: &str) -> (same: bool)
    ensures
        same == (a@ == b@),
{
    let left = chars_of(a);
    let right = chars_of(b);
    if left.len() != right.len() {
        return false;
    }
    let n: usize = left.len();
    let mut i: usize = 0;
    while i < n
        invariant
            n == left@.len(),
            n == right@.len(),
            left@ == a@,
            right@ == b@,
            i <= n,
            forall|k: int| 0 <= k < i ==> left@[k] == right@[k],
        decreases n - i,
    {
        if left[i] != right[i] {
            return false;
        }
        i = i + 1;
    }
    assert(a@ =~= b@);
    true
}

/// Whether `c` occurs in `s`.
pub fn contains_char(s: &str, c: char) -> (found: bool)
    ensures
        found == s@.contains(c),
{
    let chars = chars_of(s);
    let n: usize = chars.len();
    let mut i: usize = 0;
    while i < n
        invariant
            n == chars@.len(),
            chars@ == s@,
            i <= n,
            forall|k: int| 0 <= k < i ==> s@[k] != c,
        decreases n - i,
    {
        if chars[i] == c {
            return true;
        }
        i = i + 1;
    }
    false
}

/// `before`, then `middle`, then `after`, as one text.
pub fn enclose(before: &str, middle: &str, after: &str) -> (whole: String)
    ensures
        whole@ == before@ + middle@ + after@,
{
    let mut whole = String::from_str(before);
    whole.append(middle);
    whole.append(after);
    whole
}

} // verus!
