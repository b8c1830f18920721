//! Character-level helpers over `String` and `Vec<char>`, and text with numbers
//! in it that the host will print.

use vstd::prelude::*;

verus! {

/// `String::push` appends one character to the end of the string: the contract
/// states that the characters after the call are those before it followed by `ch`.
pub assume_specification[ std::string::String::push ](s: &mut std::string::String, ch: char)
    ensures
        final(s)@ == old(s)@.push(ch),
;

/// A piece of text to show: characters as they are, or a number that the host
/// prints in its own decimal form.
#[derive(Debug)]
pub enum Fragment {
    Text(String),
    Number(u64),
}

/// The mathematical value of a [`Fragment`].
pub enum FragmentView {
    Text(Seq<char>),
    Number(u64),
}

impl View for Fragment {
    type V = FragmentView;

    open spec fn view(&self) -> FragmentView {
        match self {
            Fragment::Text(text) => FragmentView::Text(text@),
            Fragment::Number(bits) => FragmentView::Number(*bits),
        }
    }
}

impl Clone for Fragment {
    fn clone(&self) -> (copy: Self)
        ensures
            copy@ == self@,
    {
        match self {
            Fragment::Text(text) => Fragment::Text(text.clone()),
            Fragment::Number(bits) => Fragment::Number(*bits),
        }
    }
}

/// The values of a sequence of fragments.
pub open spec fn fragments_view(fragments: Seq<Fragment>) -> Seq<FragmentView> {
    Seq::new(fragments.len(), |i: int| fragments[i]@)
}

/// One fragment holding `text`.
pub open spec fn plain(text: Seq<char>) -> Seq<FragmentView> {
    seq![FragmentView::Text(text)]
}

/// A fragment list that holds `text` and nothing else.
pub fn plain_text(text: String) -> (fragments: Vec<Fragment>)
    ensures
        fragments_view(fragments@) == plain(text@),
{
    let mut fragments: Vec<Fragment> = Vec::new();
    fragments.push(Fragment::Text(text));
    assert(fragments_view(fragments@) =~= plain(text@));
    fragments
}

/// A copy of a fragment list.
pub fn clone_fragments(fragments: &Vec<Fragment>) -> (copy: Vec<Fragment>)
    ensures
        fragments_view(copy@) == fragments_view(fragments@),
{
    let mut copy: Vec<Fragment> = Vec::new();
    let mut i: usize = 0;
    while i < fragments.len()
        invariant
            i <= fragments.len(),
            copy.len() == i,
            forall|j: int| 0 <= j < i ==> copy[j]@ == fragments[j]@,
        decreases fragments.len() - i,
    {
        copy.push(fragments[i].clone());
        i += 1;
    }
    assert(fragments_view(copy@) =~= fragments_view(fragments@));
    copy
}

/// The characters of `s`, in order.
pub fn to_chars(s: &str) -> (chars: Vec<char>)
    ensures
        chars@ == s@,
{
    let mut chars: Vec<char> = Vec::new();
    for c in it: s.chars()
        invariant
            chars@ == it.seq().take(it.index()),
    {
        chars.push(c);
    }
    chars
}

/// The string made of `chars[start..end]`.
pub fn from_chars(chars: &Vec<char>, start: usize, end: usize) -> (s: String)
    requires
        start <= end <= chars.len(),
    ensures
        s@ == chars@.subrange(start as int, end as int),
{
    let mut s = String::new();
    let mut i: usize = start;
    while i < end
        invariant
            start <= i <= end <= chars.len(),
            s@ == chars@.subrange(start as int, i as int),
        decreases end - i,
    {
        s.push(chars[i]);
        i += 1;
        assert(chars@.subrange(start as int, i as int) =~= chars@.subrange(
            start as int,
            i - 1,
        ).push(chars@[i - 1]));
    }
    s
}

/// An ASCII decimal digit.
pub open spec fn is_digit(c: char) -> bool {
    '0' <= c <= '9'
}

/// An ASCII letter.
pub open spec fn is_letter(c: char) -> bool {
    'a' <= c <= 'z' || 'A' <= c <= 'Z'
}

/// A character that may start a name: an ASCII letter or an underscore.
pub open spec fn starts_word(c: char) -> bool {
    is_letter(c) || c == '_'
}

/// A character that may continue a name: an ASCII letter or digit, or an underscore.
pub open spec fn continues_word(c: char) -> bool {
    is_letter(c) || is_digit(c) || c == '_'
}

pub fn char_is_digit(c: char) -> (r: bool)
    ensures
        r == is_digit(c),
{
    '0' <= c && c <= '9'
}

pub fn char_starts_word(c: char) -> (r: bool)
    ensures
        r == starts_word(c),
{
    ('a' <= c && c <= 'z') || ('A' <= c && c <= 'Z') || c == '_'
}

pub fn char_continues_word(c: char) -> (r: bool)
    ensures
        r == continues_word(c),
{
    char_starts_word(c) || char_is_digit(c)
}

/// White space as Unicode's `White_Space` property has it.
pub open spec fn is_whitespace(c: char) -> bool {
    ||| '\u{9}' <= c <= '\u{d}'
    ||| c == ' '
    ||| c == '\u{85}'
    ||| c == '\u{a0}'
    ||| c == '\u{1680}'
    ||| '\u{2000}' <= c <= '\u{200a}'
    ||| c == '\u{2028}'
    ||| c == '\u{2029}'
    ||| c == '\u{202f}'
    ||| c == '\u{205f}'
    ||| c == '\u{3000}'
}

pub fn char_is_whitespace(c: char) -> (r: bool)
    ensures
        r == is_whitespace(c),
{
    ('\u{9}' <= c && c <= '\u{d}') || c == ' ' || c == '\u{85}' || c == '\u{a0}' || c
        == '\u{1680}' || ('\u{2000}' <= c && c <= '\u{200a}') || c == '\u{2028}' || c
        == '\u{2029}' || c == '\u{202f}' || c == '\u{205f}' || c == '\u{3000}'
}

/// The first index at or after `i` that holds no white space, or the length.
pub open spec fn skip_leading(s: Seq<char>, i: int) -> int
    decreases s.len() - i,
{
    if 0 <= i < s.len() && is_whitespace(s[i]) {
        skip_leading(s, i + 1)
    } else {
        i
    }
}

/// The least end `j >= start` such that `s[j..end]` is white space only.
pub open spec fn skip_trailing(s: Seq<char>, start: int, end: int) -> int
    decreases end,
{
    if 0 <= start < end <= s.len() && is_whitespace(s[end - 1]) {
        skip_trailing(s, start, end - 1)
    } else {
        end
    }
}

/// `s` without the white space at its two ends.
pub open spec fn trimmed(s: Seq<char>) -> Seq<char> {
    let start = skip_leading(s, 0);
    s.subrange(start, skip_trailing(s, start, s.len() as int))
}

proof fn lemma_skip_leading_bounds(s: Seq<char>, i: int)
    requires
        0 <= i <= s.len(),
    ensures
        i <= skip_leading(s, i) <= s.len(),
    decreases s.len() - i,
{
    if i < s.len() && is_whitespace(s[i]) {
        lemma_skip_leading_bounds(s, i + 1);
    }
}

/// `line` without the white space at its two ends.
pub fn trim(line: &str) -> (text: String)
    ensures
        text@ == trimmed(line@),
{
    let chars = to_chars(line);
    let mut start: usize = 0;
    while start < chars.len() && char_is_whitespace(chars[start])
        invariant
            start <= chars.len(),
            skip_leading(chars@, 0) == skip_leading(chars@, start as int),
        decreases chars.len() - start,
    {
        start += 1;
    }
    let mut end: usize = chars.len();
    while start < end && char_is_whitespace(chars[end - 1])
        invariant
            start <= end <= chars.len(),
            skip_trailing(chars@, start as int, chars.len() as int) == skip_trailing(
                chars@,
                start as int,
                end as int,
            ),
        decreases end,
    {
        end -= 1;
    }
    from_chars(&chars, start, end)
}

/// The decimal digit for `d < 10`.
pub open spec fn digit(d: nat) -> char {
    if d == 0 {
        '0'
    } else if d == 1 {
        '1'
    } else if d == 2 {
        '2'
    } else if d == 3 {
        '3'
    } else if d == 4 {
        '4'
    } else if d == 5 {
        '5'
    } else if d == 6 {
        '6'
    } else if d == 7 {
        '7'
    } else if d == 8 {
        '8'
    } else {
        '9'
    }
}

/// `n` written in decimal, without leading zeros.
pub open spec fn decimal(n: nat) -> Seq<char>
    decreases n,
{
    if n < 10 {
        seq![digit(n)]
    } else {
        decimal(n / 10).push(digit(n % 10))
    }
}

fn digit_char(d: usize) -> (c: char)
    requires
        d < 10,
    ensures
        c == digit(d as nat),
{
    if d == 0 {
        '0'
    } else if d == 1 {
        '1'
    } else if d == 2 {
        '2'
    } else if d == 3 {
        '3'
    } else if d == 4 {
        '4'
    } else if d == 5 {
        '5'
    } else if d == 6 {
        '6'
    } else if d == 7 {
        '7'
    } else if d == 8 {
        '8'
    } else {
        '9'
    }
}

/// `n` written in decimal.
pub fn decimal_text(n: usize) -> (text: String)
    ensures
        text@ == decimal(n as nat),
    decreases n,
{
    if n < 10 {
        let mut text = String::new();
        text.push(digit_char(n));
        assert(text@ =~= seq![digit(n as nat)]);
        text
    } else {
        let mut text = decimal_text(n / 10);
        text.push(digit_char(n % 10));
        text
    }
}

/// `s` with every backslash that an `n` follows replaced, together with that `n`,
/// by a line feed, reading from `i` on and left to right.
pub open spec fn unescaped_from(s: Seq<char>, i: int) -> Seq<char>
    decreases s.len() - i,
{
    if i < 0 || i >= s.len() {
        Seq::empty()
    } else if s[i] == '\\' && i + 1 < s.len() && s[i + 1] == 'n' {
        seq!['\n'] + unescaped_from(s, i + 2)
    } else {
        seq![s[i]] + unescaped_from(s, i + 1)
    }
}

/// `s` with every two-character escape `\n` replaced by a line feed.
pub open spec fn unescaped(s: Seq<char>) -> Seq<char> {
    unescaped_from(s, 0)
}

/// Characters written before `i` followed by what is still to come from `i`.
proof fn lemma_unescape_step(s: Seq<char>, done: Seq<char>, i: int)
    requires
        0 <= i < s.len(),
    ensures
        s[i] == '\\' && i + 1 < s.len() && s[i + 1] == 'n' ==> done + unescaped_from(s, i)
            == done.push('\n') + unescaped_from(s, i + 2),
        !(s[i] == '\\' && i + 1 < s.len() && s[i + 1] == 'n') ==> done + unescaped_from(s, i)
            == done.push(s[i]) + unescaped_from(s, i + 1),
{
    if s[i] == '\\' && i + 1 < s.len() && s[i + 1] == 'n' {
        assert(done + (seq!['\n'] + unescaped_from(s, i + 2)) =~= done.push('\n')
            + unescaped_from(s, i + 2));
    } else {
        assert(done + (seq![s[i]] + unescaped_from(s, i + 1)) =~= done.push(s[i])
            + unescaped_from(s, i + 1));
    }
}

/// `text` with every two-character escape `\n` replaced by a line feed.
pub fn unescape(text: &str) -> (shown: String)
    ensures
        shown@ == unescaped(text@),
{
    let chars = to_chars(text);
    let mut shown = String::new();
    let mut i: usize = 0;
    assert(shown@ + unescaped_from(chars@, 0) =~= unescaped(chars@));
    while i < chars.len()
        invariant
            i <= chars.len(),
            shown@ + unescaped_from(chars@, i as int) == unescaped(chars@),
        decreases chars.len() - i,
    {
        proof {
            lemma_unescape_step(chars@, shown@, i as int);
        }
        if chars[i] == '\\' && i + 1 < chars.len() && chars[i + 1] == 'n' {
            shown.push('\n');
            i += 2;
        } else {
            shown.push(chars[i]);
            i += 1;
        }
    }
    assert(shown@ + unescaped_from(chars@, i as int) =~= shown@);
    shown
}

/// `left` followed by `right`.
pub fn concat(left: &str, right: &str) -> (joined: String)
    ensures
        joined@ == left@ + right@,
{
    let mut joined = left.to_owned();
    joined.append(right);
    joined
}

} // verus!
