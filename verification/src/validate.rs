//! The validator: field constraints of a creation payload, including the
//! `YYYY-MM-DD` calendar-date check, as a pure pass/fail function.
use vstd::prelude::*;
use vstd::string::StrSliceExecFns;

use crate::dto::CriarPessoaDTO;
use crate::dto::CriarPessoaView;
use crate::text::to_char_vec;

verus! {

/// Maximum length of a `nome` field, in characters.
pub const MAX_NOME_LEN: usize = 100;

/// Maximum length of an `apelido` field or of a stack element, in characters.
pub const MAX_APELIDO_LEN: usize = 32;

pub open spec fn is_digit(c: char) -> bool {
    '0' <= c && c <= '9'
}

pub open spec fn digit_val(c: char) -> int {
    c as int - '0' as int
}

/// The number read from the decimal digits `s[from .. from + k]`.
pub open spec fn num_of_digits(s: Seq<char>, from: int, k: int) -> int
    decreases k,
{
    if k <= 0 {
        0
    } else {
        num_of_digits(s, from, k - 1) * 10 + digit_val(s[from + k - 1])
    }
}

pub open spec fn is_leap_year(y: int) -> bool {
    y % 4 == 0 && (y % 100 != 0 || y % 400 == 0)
}

pub open spec fn days_in_month(y: int, m: int) -> int {
    if m == 2 {
        if is_leap_year(y) {
            29
        } else {
            28
        }
    } else if m == 4 || m == 6 || m == 9 || m == 11 {
        30
    } else {
        31
    }
}

/// A valid calendar date in `YYYY-MM-DD` form: ten characters, digits in
/// the date positions, dashes between them, a month of the calendar and a
/// day that the month has in that year. No timezone, no time-of-day.
pub open spec fn valid_date_str(s: Seq<char>) -> bool {
    &&& s.len() == 10
    &&& is_digit(s[0]) && is_digit(s[1]) && is_digit(s[2]) && is_digit(s[3])
    &&& s[4] == '-'
    &&& is_digit(s[5]) && is_digit(s[6])
    &&& s[7] == '-'
    &&& is_digit(s[8]) && is_digit(s[9])
    &&& 1 <= num_of_digits(s, 5, 2) <= 12
    &&& 1 <= num_of_digits(s, 8, 2) <= days_in_month(
        num_of_digits(s, 0, 4),
        num_of_digits(s, 5, 2),
    )
}

/// Every element of a present stack is at most `MAX_APELIDO_LEN` characters;
/// an absent stack is valid, and distinct from an empty one.
pub open spec fn valid_stack(st: Option<Seq<Seq<char>>>) -> bool {
    match st {
        Some(v) => forall|i: int| 0 <= i < v.len() ==> (#[trigger] v[i]).len() <= MAX_APELIDO_LEN,
        None => true,
    }
}

/// A payload passes validation: `nome` non-empty and at most 100
/// characters, `apelido` at most 32, `nascimento` a valid calendar date,
/// and every stack element at most 32 characters.
pub open spec fn valid_payload(p: CriarPessoaView) -> bool {
    &&& 1 <= p.nome.len() <= MAX_NOME_LEN
    &&& p.apelido.len() <= MAX_APELIDO_LEN
    &&& valid_date_str(p.nascimento)
    &&& valid_stack(p.stack)
}

/// Whether `s` is a valid calendar date in `YYYY-MM-DD` form.
pub fn is_valid_date(s: &str) -> (r: bool)
    ensures
        r == valid_date_str(s@),
{
    let cs = to_char_vec(s);
    if cs.len() != 10 {
        return false;
    }
    let mut i: usize = 0;
    while i < 10
        invariant
            cs@ == s@,
            cs@.len() == 10,
            forall|j: int|
                0 <= j < i && j != 4 && j != 7 ==> is_digit(#[trigger] cs@[j]),
            forall|j: int| 0 <= j < i && (j == 4 || j == 7) ==> cs@[j] == '-',
        decreases 10 - i,
    {
        let c = cs[i];
        if i == 4 || i == 7 {
            if c != '-' {
                return false;
            }
        } else {
            if !(c >= '0' && c <= '9') {
                return false;
            }
        }
        i = i + 1;
    }
    let year = digit(cs[0]) * 1000 + digit(cs[1]) * 100 + digit(cs[2]) * 10 + digit(cs[3]);
    let month = digit(cs[5]) * 10 + digit(cs[6]);
    let day = digit(cs[8]) * 10 + digit(cs[9]);
    assert(year == num_of_digits(s@, 0, 4) && month == num_of_digits(s@, 5, 2) && day
        == num_of_digits(s@, 8, 2)) by {
        reveal_with_fuel(num_of_digits, 5);
    }
    if month < 1 || month > 12 {
        return false;
    }
    let dim: u32 = if month == 2 {
        if year % 4 == 0 && (year % 100 != 0 || year % 400 == 0) {
            29
        } else {
            28
        }
    } else if month == 4 || month == 6 || month == 9 || month == 11 {
        30
    } else {
        31
    };
    1 <= day && day <= dim
}

/// The numeric value of a decimal digit character.
fn digit(c: char) -> (r: u32)
    requires
        is_digit(c),
    ensures
        r == digit_val(c),
{
    c as u32 - '0' as u32
}

/// Checks a creation payload's field constraints; pure, no side effects.
/// All rules are independent; any failure rejects the whole payload.
pub fn validate_payload(payload: &CriarPessoaDTO) -> (r: bool)
    ensures
        r == valid_payload(payload@),
{
    let nome_len = payload.nome.as_str().unicode_len();
    if nome_len < 1 || nome_len > MAX_NOME_LEN {
        return false;
    }
    if payload.apelido.as_str().unicode_len() > MAX_APELIDO_LEN {
        return false;
    }
    if !is_valid_date(payload.nascimento.as_str()) {
        return false;
    }
    match &payload.stack {
        Some(stack) => {
            let mut i: usize = 0;
            while i < stack.len()
                invariant
                    payload@.stack == Some(stack.deep_view()),
                    0 <= i <= stack@.len(),
                    forall|j: int|
                        0 <= j < i ==> (#[trigger] stack@[j]@).len() <= MAX_APELIDO_LEN,
                decreases stack@.len() - i,
            {
                if stack[i].as_str().unicode_len() > MAX_APELIDO_LEN {
                    assert(stack.deep_view()[i as int] == stack@[i as int]@);
                    assert(payload@.stack matches Some(v) && v[i as int].len()
                        > MAX_APELIDO_LEN);
                    assert(!valid_stack(payload@.stack));
                    return false;
                }
                i = i + 1;
            }
            assert(stack.deep_view() =~= stack@.map_values(|e: String| e@));
            true
        },
        None => true,
    }
}

} // verus!
