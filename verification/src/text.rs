//! Text: the little of it that the library puts together or takes apart.

use vstd::prelude::*;
use vstd::string::*;

verus! {

/// `String::push`: one more character at the end.
pub assume_specification[ String::push ](s: &mut String, c: char)
    ensures
        final(s)@ == old(s)@.push(c),
;

/// What `str::to_lowercase` makes of a text.
pub uninterp spec fn lowercase_of(s: Seq<char>) -> Seq<char>;

/// An ASCII character that leaves a mark: none of these is white space.
pub open spec fn is_graphic(c: char) -> bool {
    '!' <= c <= '~'
}

/// The lower-case form of an ASCII letter; any other character stays.
pub open spec fn ascii_lower(c: char) -> char {
    if 'A' <= c <= 'Z' {
        (c as u32 + 32) as char
    } else {
        c
    }
}

/// A text of ASCII characters only.
pub open spec fn all_ascii(s: Seq<char>) -> bool {
    forall|i: int| 0 <= i < s.len() ==> (#[trigger] s[i]) as u32 <= 127
}

/// An ASCII text with each letter in lower case.
pub open spec fn ascii_lowered(s: Seq<char>) -> Seq<char> {
    s.map_values(|c: char| ascii_lower(c))
}

/// A character that Unicode counts as white space: its `White_Space`
/// property.
pub open spec fn is_white(c: char) -> bool {
    ||| 0x09 <= c as u32 <= 0x0d
    ||| c as u32 == 0x20
    ||| c as u32 == 0x85
    ||| c as u32 == 0xa0
    ||| c as u32 == 0x1680
    ||| 0x2000 <= c as u32 <= 0x200a
    ||| 0x2028 <= c as u32 <= 0x2029
    ||| c as u32 == 0x202f
    ||| c as u32 == 0x205f
    ||| c as u32 == 0x3000
}

/// A text without the white space at its two ends.
pub open spec fn trimmed(s: Seq<char>) -> Seq<char>
    decreases s.len(),
{
    if s.len() == 0 {
        s
    } else if is_white(s[0]) {
        trimmed(s.skip(1))
    } else if is_white(s.last()) {
        trimmed(s.drop_last())
    } else {
        s
    }
}

/// `str::trim`: the text without the white space at its two ends.
#[verifier::external_body]
pub(crate) fn trim(s: &str) -> (r: &str)
    ensures
        r@ == trimmed(s@),
{
    s.trim()
}

/// A text that begins and ends with a visible ASCII character has nothing to
/// be trimmed.
pub proof fn lemma_visible_ends(s: Seq<char>)
    requires
        s.len() > 0 ==> is_graphic(s[0]) && is_graphic(s.last()),
    ensures
        trimmed(s) == s,
{
}

/// `str::to_lowercase`: the text in lower case. In an ASCII text that turns
/// each of `A` to `Z` into the small letter and leaves the rest. What becomes
/// of other characters is left unsaid.
#[verifier::external_body]
pub(crate) fn to_lowercase(s: &str) -> (r: String)
    ensures
        r@ == lowercase_of(s@),
        all_ascii(s@) ==> r@ == ascii_lowered(s@),
{
    s.to_lowercase()
}

/// The decimal digit of a number below ten.
pub open spec fn digit_char(d: int) -> char {
    (48 + d) as char
}

/// A number in decimal, without leading zeros.
pub open spec fn decimal_text(n: nat) -> Seq<char>
    decreases n,
{
    if n < 10 {
        seq![digit_char(n as int)]
    } else {
        decimal_text(n / 10).push(digit_char((n % 10) as int))
    }
}

/// Append a number in decimal.
pub(crate) fn push_decimal(s: &mut String, n: u32)
    ensures
        final(s)@ == old(s)@ + decimal_text(n as nat),
    decreases n,
{
    if n >= 10 {
        push_decimal(s, n / 10);
    }
    let d: u8 = (n % 10) as u8;
    let c: char = (48 + d) as char;
    s.push(c);
    assert(c == digit_char((n % 10) as int));
    assert(s@ =~= old(s)@ + decimal_text(n as nat));
}

/// Two texts in a row.
pub(crate) fn two(a: &str, b: &str) -> (r: String)
    ensures
        r@ == a@ + b@,
{
    let mut r: String = a.to_owned();
    r.append(b);
    r
}

/// A character that a link code may hold: a small ASCII letter, a digit or a
/// hyphen.
pub open spec fn is_code_char(c: char) -> bool {
    'a' <= c <= 'z' || '0' <= c <= '9' || c == '-'
}

/// The number that a row of decimal digits spells.
pub open spec fn digits_value(digits: Seq<char>) -> int
    decreases digits.len(),
{
    if digits.len() == 0 {
        0
    } else {
        10 * digits_value(digits.drop_last()) + (digits.last() as u32 - '0' as u32)
    }
}

/// A number in decimal is made of digits, spells that number, and has no zero
/// in front.
pub proof fn law_decimals_spell_their_number(n: nat)
    ensures
        ({
            let t = decimal_text(n);
            &&& digits_value(t) == n
            &&& t.len() > 0
            &&& t.len() > 1 ==> t[0] != '0'
            &&& forall|i: int| 0 <= i < t.len() ==> '0' <= #[trigger] t[i] <= '9'
        }),
    decreases n,
{
    reveal_with_fuel(digits_value, 2);
    let t = decimal_text(n);
    if n >= 10 {
        law_decimals_spell_their_number(n / 10);
        assert(t.drop_last() =~= decimal_text(n / 10));
        if n < 100 {
            assert(decimal_text(n / 10).len() == 1);
        }
        assert(decimal_text(n / 10)[0] != '0') by {
            if n / 10 < 10 {
                assert(decimal_text(n / 10)[0] == digit_char((n / 10) as int));
            }
        }
    } else {
        assert(t.drop_last() =~= Seq::<char>::empty());
    }
}

} // verus!
