use vstd::prelude::*;
use vstd::string::*;

verus! {

/// Appends one character to a `String` (`String::push`).
#[verifier::external_body]
pub(crate) fn push_char(s: &mut String, c: char)
    ensures
        final(s)@ == old(s)@.push(c),
{
    s.push(c)
}

/// Appends a string slice to a `String` (`String::push_str`).
#[verifier::external_body]
pub(crate) fn push_str(s: &mut String, t: &str)
    ensures
        final(s)@ == old(s)@ + t@,
{
    s.push_str(t)
}

} // verus!

verus! {

/// `char::is_whitespace`: the characters of the Unicode `White_Space`
/// property, U+0009 to U+000D, U+0020, U+0085, U+00A0, U+1680, U+2000 to
/// U+200A, U+2028, U+2029, U+202F, U+205F and U+3000.
pub open spec fn is_white_space(c: char) -> bool {
    let n = c as u32;
    ||| 0x09 <= n <= 0x0D
    ||| n == 0x20
    ||| n == 0x85
    ||| n == 0xA0
    ||| n == 0x1680
    ||| 0x2000 <= n <= 0x200A
    ||| n == 0x2028
    ||| n == 0x2029
    ||| n == 0x202F
    ||| n == 0x205F
    ||| n == 0x3000
}

/// `s` without its leading white space.
pub open spec fn trimmed_start(s: Seq<char>) -> Seq<char>
    decreases s.len(),
{
    if s.len() > 0 && is_white_space(s[0]) {
        trimmed_start(s.drop_first())
    } else {
        s
    }
}

/// `s` without its trailing white space.
pub open spec fn trimmed_end(s: Seq<char>) -> Seq<char>
    decreases s.len(),
{
    if s.len() > 0 && is_white_space(s.last()) {
        trimmed_end(s.drop_last())
    } else {
        s
    }
}

/// What `str::trim` leaves of a string: the text without its leading and
/// trailing white space.
pub open spec fn trimmed(s: Seq<char>) -> Seq<char> {
    trimmed_end(trimmed_start(s))
}

/// `str::trim`: the slice of `s` left once white space (as
/// `char::is_whitespace` has it) is taken off both ends.
#[verifier::external_body]
pub fn trim(s: &str) -> (t: &str)
    ensures
        t@ == trimmed(s@),
{
    s.trim()
}

/// The characters that `str::to_uppercase` writes for the character `c`:
/// its Unicode upper-case mapping, one or more characters.
pub uninterp spec fn upper_char(c: char) -> Seq<char>;

/// What `str::to_uppercase` gives for a string: the upper-case mapping of
/// each character, in order.
pub open spec fn uppercased(s: Seq<char>) -> Seq<char> {
    s.map_values(|c: char| upper_char(c)).flatten()
}

/// `str::to_uppercase`. Each character is mapped on its own: Unicode's
/// upper-case mapping (the one `char::to_uppercase` yields) has no rule
/// that looks at a character's neighbours, unlike the lower-case one. The
/// mapping of a character is named, not described: it takes tables to
/// state.
#[verifier::external_body]
pub fn to_uppercase(s: &str) -> (u: String)
    ensures
        u@ == s@.map_values(|c: char| upper_char(c)).flatten(),
{
    s.to_uppercase()
}

/// What `str::to_lowercase` gives for a string (Unicode case mapping).
pub uninterp spec fn lowercased(s: Seq<char>) -> Seq<char>;

/// `str::to_lowercase`. Its result is named, not described: Unicode's
/// lower-case mapping takes tables to state.
#[verifier::external_body]
pub fn to_lowercase(s: &str) -> (l: String)
    ensures
        l@ == lowercased(s@),
{
    s.to_lowercase()
}

/// `s` holds the character `c`.
pub open spec fn has_char(s: Seq<char>, c: char) -> bool {
    exists|i: int| 0 <= i < s.len() && s[i] == c
}

/// Whether `s` holds the character `c`.
pub fn contains_char(s: &str, c: char) -> (b: bool)
    ensures
        b == has_char(s@, c),
{
    let n = s.unicode_len();
    let mut i: usize = 0;
    while i < n
        invariant
            n == s@.len(),
            i <= n,
            forall|k: int| 0 <= k < i ==> s@[k] != c,
        decreases n - i,
    {
        if s.get_char(i) == c {
            return true;
        }
        i = i + 1;
    }
    false
}

/// `s` begins with `p`.
pub open spec fn starts_with(s: Seq<char>, p: Seq<char>) -> bool {
    p.len() <= s.len() && s.take(p.len() as int) == p
}

} // verus!
