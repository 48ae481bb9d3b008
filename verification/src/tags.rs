//! Tag texts as the codec takes them.
//!
//! The codec reads its texts as C strings, which end at the first NUL and so
//! cannot carry one. A text with a NUL in it is handed over as the empty
//! text. Numbers in tags are written in decimal.

use vstd::prelude::*;
use vstd::string::*;

verus! {

/// Whether a text holds a NUL character.
pub open spec fn holds_nul(text: Seq<char>) -> bool {
    text.contains('\0')
}

/// The text that stands for `text` in a tag: `text` itself, or the empty
/// text where `text` holds a NUL.
pub open spec fn c_text(text: Seq<char>) -> Seq<char> {
    if holds_nul(text) {
        Seq::empty()
    } else {
        text
    }
}

/// The character of the decimal digit `d`.
pub open spec fn digit(d: nat) -> char
    recommends
        d < 10,
{
    (48 + d) as char
}

/// The decimal digits of `n`, most significant first, without leading zeros.
pub open spec fn decimal(n: nat) -> Seq<char>
    decreases n,
{
    if n < 10 {
        seq![digit(n)]
    } else {
        decimal(n / 10).push(digit(n % 10))
    }
}

/// The decimal writing of `i`, with a minus sign in front if it is negative.
pub open spec fn signed_decimal(i: int) -> Seq<char> {
    if i < 0 {
        seq!['-'] + decimal((-i) as nat)
    } else {
        decimal(i as nat)
    }
}

/// Whether `text` holds a NUL character.
pub fn has_nul(text: &str) -> (found: bool)
    ensures
        found == holds_nul(text@),
{
    let mut found = false;
    for c in it: text.chars()
        invariant
            it.seq() == text@,
            found == holds_nul(text@.take(it.index())),
    {
        proof {
            let i = it.index();
            let seen = text@.take(i);
            let next = text@.take(i + 1);
            assert(next[i] == c);
            if seen.contains('\0') {
                let j = choose|j: int| 0 <= j < seen.len() && seen[j] == '\0';
                assert(next[j] == '\0');
            }
            if next.contains('\0') && c != '\0' {
                let j = choose|j: int| 0 <= j < next.len() && next[j] == '\0';
                assert(seen[j] == '\0');
            }
        }
        if c == '\0' {
            found = true;
        }
    }
    proof {
        assert(text@.take(text@.len() as int) =~= text@);
    }
    found
}

/// The text that stands for `text` in a tag.
pub fn to_c_text(text: &str) -> (owned: String)
    ensures
        owned@ == c_text(text@),
{
    if has_nul(text) {
        String::new()
    } else {
        text.to_owned()
    }
}

/// The one-character text of the decimal digit `d`.
fn digit_text(d: u64) -> (text: &'static str)
    requires
        d < 10,
    ensures
        text@ == seq![digit(d as nat)],
{
    proof {
        reveal_strlit("0");
        reveal_strlit("1");
        reveal_strlit("2");
        reveal_strlit("3");
        reveal_strlit("4");
        reveal_strlit("5");
        reveal_strlit("6");
        reveal_strlit("7");
        reveal_strlit("8");
        reveal_strlit("9");
    }
    let text = if d == 0 {
        "0"
    } else if d == 1 {
        "1"
    } else if d == 2 {
        "2"
    } else if d == 3 {
        "3"
    } else if d == 4 {
        "4"
    } else if d == 5 {
        "5"
    } else if d == 6 {
        "6"
    } else if d == 7 {
        "7"
    } else if d == 8 {
        "8"
    } else {
        "9"
    };
    assert(text@ =~= seq![digit(d as nat)]);
    text
}

/// `n` written in decimal.
pub fn decimal_text(n: u64) -> (text: String)
    ensures
        text@ == decimal(n as nat),
{
    let mut text = String::from_str(digit_text(n % 10));
    let mut rest = n / 10;
    while rest > 0
        invariant
            decimal(n as nat) == if rest > 0 {
                decimal(rest as nat) + text@
            } else {
                text@
            },
        decreases rest,
    {
        let ghost before = text@;
        let d = rest % 10;
        text = String::from_str(digit_text(d)).concat(text.as_str());
        proof {
            assert(text@ == seq![digit(d as nat)] + before);
            if rest >= 10 {
                assert(decimal(rest as nat) + before =~= decimal((rest / 10) as nat) + text@);
            } else {
                assert(decimal(rest as nat) + before =~= text@);
            }
        }
        rest = rest / 10;
    }
    text
}

/// `i` written in decimal, with a minus sign in front if it is negative.
pub fn signed_decimal_text(i: i32) -> (text: String)
    ensures
        text@ == signed_decimal(i as int),
{
    if i < 0 {
        proof {
            reveal_strlit("-");
        }
        let sign = String::from_str("-");
        assert(sign@ =~= seq!['-']);
        sign.concat(decimal_text((-(i as i64)) as u64).as_str())
    } else {
        decimal_text(i as u64)
    }
}

/// A text without a NUL stands for itself.
pub proof fn lemma_c_text_keeps_plain_text(text: Seq<char>)
    requires
        !holds_nul(text),
    ensures
        c_text(text) == text,
{
}

/// What stands for a text never holds a NUL, and standing for a text twice
/// changes nothing.
pub proof fn lemma_c_text_is_clean(text: Seq<char>)
    ensures
        !holds_nul(c_text(text)),
        c_text(c_text(text)) == c_text(text),
{
}

/// Decimal digits are digits: at least one, each from `'0'` to `'9'`, and
/// never a NUL.
pub proof fn lemma_decimal_is_digits(n: nat)
    ensures
        decimal(n).len() >= 1,
        forall|i: int| 0 <= i < decimal(n).len() ==> '0' <= #[trigger] decimal(n)[i] <= '9',
        !holds_nul(decimal(n)),
    decreases n,
{
    if n >= 10 {
        lemma_decimal_is_digits(n / 10);
    }
}

} // verus!
