use vstd::prelude::*;

verus! {

/// `String::push` appends one character to the end of the string.
pub assume_specification[ String::push ](s: &mut String, c: char)
    ensures
        final(s)@ == old(s)@.push(c),
;

/// The ASCII lower-case form of a character; every other character is itself.
pub open spec fn lower(c: char) -> char {
    if 'A' <= c && c <= 'Z' {
        ((c as u8) + 32) as char
    } else {
        c
    }
}

/// The ASCII lower-case form of a text, character by character.
pub open spec fn lower_text(s: Seq<char>) -> Seq<char> {
    s.map_values(|c: char| lower(c))
}

/// Whether a text holds no ASCII lower-case letter.
pub open spec fn no_lower_case(s: Seq<char>) -> bool {
    forall|i: int| 0 <= i < s.len() ==> !('a' <= #[trigger] s[i] && s[i] <= 'z')
}

pub fn to_lower(c: char) -> (r: char)
    ensures
        r == lower(c),
{
    if c >= 'A' && c <= 'Z' {
        ((c as u8) + 32) as char
    } else {
        c
    }
}

/// Whether `text`, with its ASCII letters lowered, reads as `word`.
pub fn matches_ignoring_case(text: &str, word: &str) -> (r: bool)
    ensures
        r == (lower_text(text@) == word@),
{
    let n = text.unicode_len();
    if n != word.unicode_len() {
        return false;
    }
    let mut i: usize = 0;
    while i < n
        invariant
            i <= n,
            n == text@.len(),
            n == word@.len(),
            forall|j: int| 0 <= j < i ==> lower(text@[j]) == word@[j],
        decreases n - i,
    {
        if to_lower(text.get_char(i)) != word.get_char(i) {
            assert(lower_text(text@)[i as int] != word@[i as int]);
            return false;
        }
        i += 1;
    }
    assert(lower_text(text@) =~= word@);
    true
}

/// Whether `text` holds no ASCII lower-case letter.
pub fn has_no_lower_case(text: &str) -> (r: bool)
    ensures
        r == no_lower_case(text@),
{
    let n = text.unicode_len();
    let mut i: usize = 0;
    while i < n
        invariant
            i <= n,
            n == text@.len(),
            forall|j: int| 0 <= j < i ==> !('a' <= #[trigger] text@[j] && text@[j] <= 'z'),
        decreases n - i,
    {
        let c = text.get_char(i);
        if c >= 'a' && c <= 'z' {
            return false;
        }
        i += 1;
    }
    true
}

/// The character of a decimal digit.
pub open spec fn digit_char(d: int) -> char
    recommends
        0 <= d < 10,
{
    ((d + 48) as u8) as char
}

/// The decimal numeral of a natural number, without leading zeros.
pub open spec fn decimal(n: nat) -> Seq<char>
    decreases n,
{
    if n < 10 {
        seq![digit_char(n as int)]
    } else {
        decimal(n / 10).push(digit_char((n % 10) as int))
    }
}

/// Appends the decimal numeral of `n` to `out`.
pub fn push_decimal(out: &mut String, n: u8)
    ensures
        final(out)@ == old(out)@ + decimal(n as nat),
{
    reveal_with_fuel(decimal, 3);
    if n >= 100 {
        out.push((n / 100 + 48) as char);
    }
    if n >= 10 {
        out.push(((n / 10) % 10 + 48) as char);
    }
    out.push((n % 10 + 48) as char);
    assert(out@ =~= old(out)@ + decimal(n as nat));
}

} // verus!
