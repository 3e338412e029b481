//! Numbers as text: the decimal and hexadecimal forms that messages use.

use vstd::arithmetic::div_mod::lemma_mod_breakdown;
use vstd::arithmetic::power::{lemma_pow_positive, pow};
use vstd::prelude::*;

verus! {

/// The character of one hexadecimal (and so of one decimal) digit.
pub open spec fn digit_char(d: nat) -> char {
    if d < 10 {
        (('0' as nat) + d) as char
    } else {
        (('a' as nat) + d - 10) as char
    }
}

/// `n` in decimal, without leading zeros.
pub open spec fn decimal(n: nat) -> Seq<char>
    decreases n,
{
    if n < 10 {
        seq![digit_char(n)]
    } else {
        decimal(n / 10).push(digit_char(n % 10))
    }
}

/// The last `width` hexadecimal digits of `n`, in lower case.
pub open spec fn hexadecimal(n: nat, width: nat) -> Seq<char>
    decreases width,
{
    if width == 0 {
        Seq::empty()
    } else {
        hexadecimal(n / 16, (width - 1) as nat).push(digit_char(n % 16))
    }
}

/// `text` without the NUL characters at its end.
pub open spec fn without_trailing_nuls(text: Seq<char>) -> Seq<char>
    decreases text.len(),
{
    if text.len() > 0 && text.last() == '\0' {
        without_trailing_nuls(text.drop_last())
    } else {
        text
    }
}

/// One digit as a string.
fn digit_text(d: u64) -> (text: &'static str)
    requires
        d < 16,
    ensures
        text@ == seq![digit_char(d as nat)],
{
    let text = match d {
        0 => "0",
        1 => "1",
        2 => "2",
        3 => "3",
        4 => "4",
        5 => "5",
        6 => "6",
        7 => "7",
        8 => "8",
        9 => "9",
        10 => "a",
        11 => "b",
        12 => "c",
        13 => "d",
        14 => "e",
        _ => "f",
    };
    proof {
        reveal_strlit("0");
        reveal_strlit("1");
        reveal_strlit("2");
        reveal_strlit("3");
        reveal_strlit("4");
        reveal_strlit("5");
        reveal_strlit("6");
        reveal_strlit("7");
        reveal_strlit("8");
        reveal_strlit("9");
        reveal_strlit("a");
        reveal_strlit("b");
        reveal_strlit("c");
        reveal_strlit("d");
        reveal_strlit("e");
        reveal_strlit("f");
    }
    assert(text@ =~= seq![digit_char(d as nat)]);
    text
}

/// Appends `n` in decimal.
pub fn append_decimal(text: &mut String, n: u64)
    ensures
        final(text)@ == old(text)@ + decimal(n as nat),
    decreases n,
{
    if n >= 10 {
        append_decimal(text, n / 10);
    }
    text.append(digit_text(n % 10));
    assert(text@ =~= old(text)@ + decimal(n as nat));
}

/// Appends the last `width` hexadecimal digits of `n`.
pub fn append_hexadecimal(text: &mut String, n: u64, width: u8)
    ensures
        final(text)@ == old(text)@ + hexadecimal(n as nat, width as nat),
    decreases width,
{
    if width > 0 {
        append_hexadecimal(text, n / 16, width - 1);
        text.append(digit_text(n % 16));
    }
    assert(text@ =~= old(text)@ + hexadecimal(n as nat, width as nat));
}

/// Drops the NUL characters at the end of `text`.
pub fn trim_trailing_nuls(text: &str) -> (trimmed: String)
    ensures
        trimmed@ == without_trailing_nuls(text@),
{
    let mut end = text.unicode_len();
    assert(text@.take(end as int) =~= text@);
    while end > 0 && text.get_char(end - 1) == '\0'
        invariant
            end <= text@.len(),
            without_trailing_nuls(text@.take(end as int)) == without_trailing_nuls(text@),
        decreases end,
    {
        assert(text@.take(end as int).drop_last() =~= text@.take(end - 1));
        end = end - 1;
    }
    assert(text@.take(end as int) =~= text@.subrange(0, end as int));
    text.substring_char(0, end).to_string()
}

/// The number that a character stands for as a digit; nothing for a character that is none.
pub open spec fn digit_value(c: char) -> Option<nat> {
    if '0' <= c <= '9' {
        Some((c as nat - '0' as nat) as nat)
    } else if 'a' <= c <= 'f' {
        Some((c as nat - 'a' as nat + 10) as nat)
    } else {
        None
    }
}

/// The number that `text` spells in base `base`.
pub open spec fn spelled(text: Seq<char>, base: nat) -> nat
    decreases text.len(),
{
    if text.len() == 0 {
        0
    } else {
        spelled(text.drop_last(), base) * base + digit_value(text.last())->0
    }
}

/// A number in decimal is spelled by decimal digits alone, and without a leading zero.
pub proof fn law_decimal(n: nat)
    ensures
        spelled(decimal(n), 10) == n,
        decimal(n).len() > 0,
        forall|i: int| 0 <= i < decimal(n).len() ==> '0' <= #[trigger] decimal(n)[i] <= '9',
        n > 0 ==> decimal(n)[0] != '0',
    decreases n,
{
    reveal_with_fuel(spelled, 2);
    if n >= 10 {
        law_decimal(n / 10);
        assert(decimal(n).drop_last() =~= decimal(n / 10));
        assert(decimal(n)[0] == decimal(n / 10)[0]);
    } else {
        assert(decimal(n).drop_last() =~= Seq::empty());
    }
}

/// `width` hexadecimal digits spell what is left of a number in that many digits.
pub proof fn law_hexadecimal(n: nat, width: nat)
    ensures
        hexadecimal(n, width).len() == width,
        forall|i: int|
            0 <= i < width ==> digit_value(#[trigger] hexadecimal(n, width)[i]) is Some,
        spelled(hexadecimal(n, width), 16) == n as int % pow(16, width),
    decreases width,
{
    reveal(pow);
    if width > 0 {
        let rest = (width - 1) as nat;
        law_hexadecimal(n / 16, rest);
        assert(hexadecimal(n, width).drop_last() =~= hexadecimal(n / 16, rest));
        lemma_pow_positive(16, rest);
        lemma_mod_breakdown(n as int, 16, pow(16, rest));
        assert(pow(16, width) == 16 * pow(16, rest));
    }
}

/// What is left of a text without the NUL characters at its end starts the text, does not end in
/// a NUL character, and has only NUL characters behind it.
pub proof fn law_trailing_nuls(text: Seq<char>)
    ensures
        ({
            let left = without_trailing_nuls(text);
            &&& left.len() <= text.len()
            &&& left == text.take(left.len() as int)
            &&& left.len() > 0 ==> left.last() != '\0'
            &&& forall|i: int| left.len() <= i < text.len() ==> #[trigger] text[i] == '\0'
        }),
    decreases text.len(),
{
    let left = without_trailing_nuls(text);
    if text.len() > 0 && text.last() == '\0' {
        law_trailing_nuls(text.drop_last());
        assert(text.drop_last().take(left.len() as int) =~= text.take(left.len() as int));
        assert forall|i: int| left.len() <= i < text.len() implies #[trigger] text[i] == '\0' by {
            if i < text.len() - 1 {
                assert(text.drop_last()[i] == '\0');
            }
        }
    } else {
        assert(text.take(text.len() as int) =~= text);
    }
}

} // verus!
