//! How numbers are written and read, said of the digits.

use vstd::prelude::*;

use crate::logger::log_file_name;
use crate::text::all_digits;
use crate::text::decimal;
use crate::text::digit_char;
use crate::text::digits_value;
use crate::text::is_digit;
use crate::text::law_decimal_reads_back;
use crate::text::padded_decimal;
use crate::text::parsed_digits;
use crate::text::parsed_unsigned;
use crate::text::signed_decimal;

verus! {

/// Some zeros.
pub open spec fn zeros(k: nat) -> Seq<char> {
    Seq::new(k, |i: int| '0')
}

/// A number is written without leading zeros, and one more digit multiplies it by ten.
pub proof fn law_decimal_digits(n: nat, d: nat)
    requires
        d < 10,
    ensures
        n > 0 ==> decimal(n)[0] != '0',
        decimal(d) == seq![digit_char(d)],
        n > 0 ==> decimal(10 * n + d) == decimal(n).push(digit_char(d)),
        digit_char(d) as int == '0' as int + d,
    decreases n,
{
    if n >= 10 {
        law_decimal_digits(n / 10, n % 10);
        assert(decimal(n)[0] == decimal(n / 10)[0]) by {
            law_decimal_reads_back(n / 10);
        }
    }
    if n > 0 {
        assert((10 * n + d) / 10 == n && (10 * n + d) % 10 == d) by (nonlinear_arith)
            requires
                d < 10,
        ;
    }
}

/// A row of digits has the value of its decimal number: leading zeros count for nothing.
proof fn lemma_leading_zeros(k: nat, n: nat)
    ensures
        all_digits(zeros(k) + decimal(n)),
        digits_value(zeros(k) + decimal(n)) == n,
        (zeros(k) + decimal(n)).len() > 0,
    decreases n,
{
    law_decimal_reads_back(n);
    let s = zeros(k) + decimal(n);
    if n >= 10 {
        lemma_leading_zeros(k, n / 10);
        assert(s.drop_last() =~= zeros(k) + decimal(n / 10));
        assert(decimal(n).last() == digit_char(n % 10));
    } else {
        lemma_zeros_value(k);
        assert(s.drop_last() =~= zeros(k));
    }
}

proof fn lemma_zeros_value(k: nat)
    ensures
        digits_value(zeros(k)) == 0,
    decreases k,
{
    if k > 0 {
        lemma_zeros_value((k - 1) as nat);
        assert(zeros(k).drop_last() =~= zeros((k - 1) as nat));
    }
}

/// Every row of digits is some zeros and a decimal number.
proof fn lemma_digits_are_a_number(s: Seq<char>) -> (k: nat)
    requires
        s.len() > 0,
        all_digits(s),
    ensures
        s == zeros(k) + decimal(digits_value(s)),
    decreases s.len(),
{
    let rest = s.drop_last();
    let d = (s.last() as nat - '0' as nat) as nat;
    assert(is_digit(s[s.len() - 1]));
    assert(digit_char(d) == s.last());
    if rest.len() == 0 {
        assert(s =~= zeros(0) + decimal(d));
        0
    } else {
        assert forall|i: int| 0 <= i < rest.len() implies is_digit(#[trigger] rest[i]) by {
            assert(is_digit(s[i]));
        }
        let k = lemma_digits_are_a_number(rest);
        let n = digits_value(rest);
        law_decimal_digits(n, d);
        assert(rest.push(s.last()) =~= s);
        assert(rest == zeros(k) + decimal(n));
        if n > 0 {
            assert(s =~= zeros(k) + decimal(n).push(digit_char(d)));
            assert(s =~= zeros(k) + decimal(10 * n + d));
            k
        } else {
            law_decimal_digits(0, 0);
            assert(decimal(0) =~= seq!['0']);
            assert(rest =~= zeros(k + 1));
            assert(s =~= zeros(k + 1) + decimal(d));
            k + 1
        }
    }
}

/// Which texts are read as which number: after a plus sign or none, and after any number of zeros,
/// the number in decimal, if it is not too large; no other text is read.
pub proof fn law_which_texts_are_numbers(s: Seq<char>, max: nat, n: nat)
    ensures
        parsed_unsigned(s, max) == Some(n) <==> n <= max && exists|k: nat|
            s == #[trigger] zeros(k) + decimal(n) || s == seq!['+'] + (zeros(k) + decimal(n)),
{
    if parsed_unsigned(s, max) == Some(n) {
        if s[0] == '+' {
            let k = lemma_digits_are_a_number(s.skip(1));
            assert(s =~= seq!['+'] + (zeros(k) + decimal(n)));
        } else {
            let k = lemma_digits_are_a_number(s);
            assert(s == zeros(k) + decimal(n));
        }
    }
    if n <= max && exists|k: nat|
        s == #[trigger] zeros(k) + decimal(n) || s == seq!['+'] + (zeros(k) + decimal(n)) {
        let k = choose|k: nat|
            s == #[trigger] zeros(k) + decimal(n) || s == seq!['+'] + (zeros(k) + decimal(n));
        lemma_leading_zeros(k, n);
        let digits = zeros(k) + decimal(n);
        assert(is_digit(digits[0]));
        if s != digits {
            assert(s.skip(1) =~= digits);
        }
    }
}

/// Digits without a sign are read in the same way.
pub proof fn law_which_digits_are_numbers(s: Seq<char>, max: nat, n: nat)
    ensures
        parsed_digits(s, max) == Some(n) <==> n <= max && exists|k: nat| s == #[trigger] zeros(k)
            + decimal(n),
{
    if parsed_digits(s, max) == Some(n) {
        let k = lemma_digits_are_a_number(s);
        assert(s == zeros(k) + decimal(n));
    }
    if n <= max && exists|k: nat| s == #[trigger] zeros(k) + decimal(n) {
        let k = choose|k: nat| s == #[trigger] zeros(k) + decimal(n);
        lemma_leading_zeros(k, n);
    }
}

/// A negative number is a minus sign and the number without it; other numbers have no sign.
pub proof fn law_signs(n: int)
    ensures
        n >= 0 ==> signed_decimal(n) == decimal(n as nat),
        n < 0 ==> signed_decimal(n)[0] == '-' && signed_decimal(n).skip(1) == decimal((-n) as nat),
{
    if n < 0 {
        assert(signed_decimal(n).skip(1) =~= decimal((-n) as nat));
    }
}

/// A number is filled up to a width with zeros in front, and is not cut where it is longer.
pub proof fn law_padding(n: nat, width: nat)
    ensures
        exists|k: nat| padded_decimal(n, width) == #[trigger] zeros(k) + decimal(n),
        decimal(n).len() >= width ==> padded_decimal(n, width) == decimal(n),
        decimal(n).len() < width ==> padded_decimal(n, width).len() == width,
{
    if decimal(n).len() >= width {
        assert(padded_decimal(n, width) =~= zeros(0) + decimal(n));
    } else {
        let k = (width - decimal(n).len()) as nat;
        assert(padded_decimal(n, width) =~= zeros(k) + decimal(n));
    }
}

/// A log is named after its game, with eight digits at least.
pub proof fn law_log_files_are_named_after_games(game_id: u64)
    ensures
        exists|k: nat|
            log_file_name(game_id) == "game_"@ + (#[trigger] zeros(k) + decimal(game_id as nat))
                + ".jsonl"@ && (k == 0 || k + decimal(game_id as nat).len() == 8),
        log_file_name(game_id).len() >= "game_"@.len() + 8 + ".jsonl"@.len(),
{
    let n = game_id as nat;
    let k: nat = if decimal(n).len() >= 8 {
        0
    } else {
        (8 - decimal(n).len()) as nat
    };
    assert(padded_decimal(n, 8) =~= zeros(k) + decimal(n));
}

} // verus!
