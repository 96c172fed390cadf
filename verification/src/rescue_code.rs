//! Rescue codes: 24 decimal digits, drawn at random for every protection of
//! an identity unlock key.

use rand::Rng;
use vstd::prelude::*;
use vstd::string::{StringExecFns, StringSliceAdditionalSpecFns};

verus! {

/// Number of digits of a rescue code.
pub const RESCUE_CODE_LEN: usize = 24;

/// The character that stands for the digit `d`.
pub open spec fn digit_char(d: u8) -> char {
    if d == 0 {
        '0'
    } else if d == 1 {
        '1'
    } else if d == 2 {
        '2'
    } else if d == 3 {
        '3'
    } else if d == 4 {
        '4'
    } else if d == 5 {
        '5'
    } else if d == 6 {
        '6'
    } else if d == 7 {
        '7'
    } else if d == 8 {
        '8'
    } else {
        '9'
    }
}

/// Whether `text` has the form of a rescue code: `RESCUE_CODE_LEN` decimal
/// digits.
pub open spec fn is_rescue_code(text: Seq<char>) -> bool {
    &&& text.len() == RESCUE_CODE_LEN
    &&& forall|i: int| 0 <= i < text.len() ==> '0' <= #[trigger] text[i] <= '9'
}

/// The secret that a rescue code stands for: the bytes of its text.
pub open spec fn rescue_secret(text: Seq<char>) -> Seq<u8> {
    vstd::utf8::encode_utf8(text)
}

/// Calls `rand::thread_rng().gen_range(low, high)`, which draws a number
/// from `low` up to, but not including, `high`, and panics unless
/// `low < high`. Which number comes depends on chance. `thread_rng` panics
/// where the operating system has no entropy to give.
#[verifier::external_body]
fn random_in_range(low: u8, high: u8) -> (n: u8)
    requires
        low < high,
    ensures
        low <= n < high,
{
    rand::thread_rng().gen_range(low, high)
}

/// The text of one decimal digit.
fn digit_text(d: u8) -> (text: &'static str)
    requires
        d < 10,
    ensures
        text@ == seq![digit_char(d)],
{
    proof {
        reveal_strlit("0");
        reveal_strlit("1");
        reveal_strlit("2");
        reveal_strlit("3");
        reveal_strlit("4");
        reveal_strlit("5");
        reveal_strlit("6");
        reveal_strlit("7");
        reveal_strlit("8");
        reveal_strlit("9");
    }
    let text = if d == 0 {
        "0"
    } else if d == 1 {
        "1"
    } else if d == 2 {
        "2"
    } else if d == 3 {
        "3"
    } else if d == 4 {
        "4"
    } else if d == 5 {
        "5"
    } else if d == 6 {
        "6"
    } else if d == 7 {
        "7"
    } else if d == 8 {
        "8"
    } else {
        "9"
    };
    assert(text@ =~= seq![digit_char(d)]);
    text
}

/// Draws a new rescue code: each digit at random, independent of anything
/// that came before.
pub fn generate_rescue_code() -> (code: String)
    ensures
        is_rescue_code(code@),
{
    let mut code = String::new();
    let mut i: usize = 0;
    while i < RESCUE_CODE_LEN
        invariant
            i <= RESCUE_CODE_LEN,
            code@.len() == i,
            forall|j: int| 0 <= j < code@.len() ==> '0' <= #[trigger] code@[j] <= '9',
        decreases RESCUE_CODE_LEN - i,
    {
        let digit = random_in_range(0, 10);
        code.append(digit_text(digit));
        i += 1;
    }
    code
}

/// The secret bytes that `rescue_code` stands for.
pub fn decode_rescue_code(rescue_code: &str) -> (secret: &[u8])
    ensures
        secret@ == rescue_secret(rescue_code@),
{
    rescue_code.as_bytes()
}

} // verus!
