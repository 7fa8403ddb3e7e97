//! The integers kept as text in the store's key/value state table: the
//! snapshot revision and the time of the last source sync.
use super::error::StorageError;
use crate::text::{concat_str, decimal_seq, decimal_string, digit_char};
use vstd::prelude::*;

verus! {

/// `c` is an ASCII decimal digit.
pub open spec fn is_digit(c: char) -> bool {
    ('0' as int) <= (c as int) <= ('9' as int)
}

/// The value of the ASCII digit `c`.
pub open spec fn digit_value(c: char) -> int {
    (c as int) - ('0' as int)
}

/// Every character of `s` is an ASCII decimal digit.
pub open spec fn all_digits(s: Seq<char>) -> bool {
    forall|i: int| 0 <= i < s.len() ==> #[trigger] is_digit(s[i])
}

/// The number that the digits `s` spell, most significant first.
pub open spec fn digits_value(s: Seq<char>) -> int
    decreases s.len(),
{
    if s.len() == 0 {
        0
    } else {
        digits_value(s.drop_last()) * 10 + digit_value(s.last())
    }
}

/// `s` starts with a `+` or `-` sign.
pub open spec fn has_sign(s: Seq<char>) -> bool {
    s.len() > 0 && (s[0] == '+' || s[0] == '-')
}

/// `s` without its sign, if it has one.
pub open spec fn unsigned_part(s: Seq<char>) -> Seq<char> {
    if has_sign(s) {
        s.drop_first()
    } else {
        s
    }
}

/// The signed number that `s` spells.
pub open spec fn signed_value(s: Seq<char>) -> int {
    if s.len() > 0 && s[0] == '-' {
        -digits_value(unsigned_part(s))
    } else {
        digits_value(unsigned_part(s))
    }
}

/// `s` is an optional sign followed by one or more decimal digits, and the
/// number it spells fits in an `i64`: the text that `str::parse::<i64>`
/// accepts.
pub open spec fn is_i64_text(s: Seq<char>) -> bool {
    &&& unsigned_part(s).len() > 0
    &&& all_digits(unsigned_part(s))
    &&& i64::MIN <= signed_value(s) <= i64::MAX
}

/// `n` written in decimal, with a leading `-` when it is negative.
pub open spec fn signed_decimal(n: int) -> Seq<char> {
    if n < 0 {
        seq!['-'] + decimal_seq((-n) as nat)
    } else {
        decimal_seq(n as nat)
    }
}

/// Calls `str::parse::<i64>`. As its documentation says, it accepts exactly
/// an optional `+` or `-` followed by decimal digits whose value fits in an
/// `i64`, and gives that value. Of the error message, which is the parse
/// error's display text, nothing is claimed.
#[verifier::external_body]
fn parse_i64(text: &str) -> (r: Result<i64, String>)
    ensures
        r is Ok <==> is_i64_text(text@),
        r matches Ok(v) ==> v == signed_value(text@),
{
    match text.parse::<i64>() {
        Ok(value) => Ok(value),
        Err(error) => Err(format!("{error}")),
    }
}

proof fn lemma_digit_char_value(d: nat)
    requires
        d < 10,
    ensures
        is_digit(digit_char(d)),
        digit_value(digit_char(d)) == d,
{
}

proof fn lemma_decimal_digits(n: nat)
    ensures
        decimal_seq(n).len() > 0,
        all_digits(decimal_seq(n)),
        digits_value(decimal_seq(n)) == n,
    decreases n,
{
    if n < 10 {
        lemma_digit_char_value(n);
        assert(decimal_seq(n).drop_last() =~= Seq::<char>::empty());
        assert(digits_value(Seq::<char>::empty()) == 0);
    } else {
        lemma_decimal_digits(n / 10);
        lemma_digit_char_value(n % 10);
        let s = decimal_seq(n);
        assert(s.drop_last() =~= decimal_seq(n / 10));
        assert(s.last() == digit_char(n % 10));
        assert((n / 10) * 10 + n % 10 == n) by (nonlinear_arith);
        assert forall|i: int| 0 <= i < s.len() implies #[trigger] is_digit(s[i]) by {
            if i < s.len() - 1 {
                assert(s[i] == decimal_seq(n / 10)[i]);
            }
        }
    }
}

/// What is written back of an integer is read back unchanged: the decimal
/// text of any `i64` is accepted as an `i64` and spells that same number.
pub proof fn lemma_integer_text_round_trip(n: i64)
    ensures
        signed_decimal(n as int).len() > 0,
        is_i64_text(signed_decimal(n as int)),
        signed_value(signed_decimal(n as int)) == n,
{
    let s = signed_decimal(n as int);
    if n < 0 {
        let m = (-n) as nat;
        lemma_decimal_digits(m);
        assert(s.drop_first() =~= decimal_seq(m));
        assert(has_sign(s));
        assert(unsigned_part(s) == decimal_seq(m));
    } else {
        lemma_decimal_digits(n as nat);
        assert(is_digit(s[0]));
        assert(!has_sign(s));
    }
}

/// `n` in decimal, as `i64::to_string` writes it.
pub fn encode_integer(n: i64) -> (r: String)
    ensures
        r@ == signed_decimal(n as int),
{
    if n < 0 {
        let magnitude: u64 = (-(n as i128)) as u64;
        let digits = decimal_string(magnitude);
        let r = concat_str("-", digits.as_str());
        proof {
            reveal_strlit("-");
        }
        r
    } else {
        decimal_string(n as u64)
    }
}

/// The stored revision read from its text: the number, or
/// `InvalidRevision` with the parse error's message when the text is not an
/// `i64`.
pub fn decode_revision(text: &str) -> (r: Result<i64, StorageError>)
    ensures
        r is Ok <==> is_i64_text(text@),
        r matches Ok(v) ==> v == signed_value(text@),
        r matches Err(e) ==> e is InvalidRevision,
{
    match parse_i64(text) {
        Ok(value) => Ok(value),
        Err(message) => Err(StorageError::InvalidRevision(message)),
    }
}

/// The time of the last source sync read from its stored text: none when no
/// value or an empty one is stored, else the number, or `InvalidTimestamp`
/// carrying the text when it is not an `i64`.
pub fn decode_sync_time(value: Option<String>) -> (r: Result<Option<i64>, StorageError>)
    ensures
        match value {
            None => r matches Ok(None),
            Some(v) => if v@.len() == 0 {
                r matches Ok(None)
            } else {
                &&& (r is Ok <==> is_i64_text(v@))
                &&& (r matches Ok(t) ==> t == Some(signed_value(v@) as i64))
                &&& (r matches Err(e) ==> (e matches StorageError::InvalidTimestamp(stored)
                    && stored@ == v@))
            },
        },
{
    match value {
        None => Ok(None),
        Some(text) => {
            if text.as_str().is_empty() {
                Ok(None)
            } else {
                match parse_i64(text.as_str()) {
                    Ok(t) => Ok(Some(t)),
                    Err(_) => Err(StorageError::InvalidTimestamp(text)),
                }
            }
        },
    }
}

/// The revision that follows the stored one: its number plus one, or
/// `InvalidRevision` carrying the text when it is not an `i64`. The stored
/// revision must not be `i64::MAX`.
pub fn next_revision(current: &str) -> (r: Result<i64, StorageError>)
    requires
        is_i64_text(current@) ==> signed_value(current@) < i64::MAX,
    ensures
        r is Ok <==> is_i64_text(current@),
        r matches Ok(v) ==> v == signed_value(current@) + 1,
        r matches Err(e) ==> (e matches StorageError::InvalidRevision(stored) && stored@ == current@),
{
    match parse_i64(current) {
        Ok(value) => Ok(value + 1),
        Err(_) => Err(StorageError::InvalidRevision(current.to_owned())),
    }
}

} // verus!
