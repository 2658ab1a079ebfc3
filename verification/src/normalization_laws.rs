//! What holds of the fixed-point value of decimal texts.
use crate::text::{
    all_digits, digits_value, is_digit, is_white_space, numeral_value, position_of, trim_end, trim_start,
    trimmed,
};
use crate::text_laws::{
    law_digits_are_bounded, law_digits_have_positional_value, law_numeral_of_digits,
    law_position_is_the_first,
};
use crate::types::{
    fraction_part, fraction_value, magnitude, normalization_fits, normalized, places, whole_part,
    NormalizationError, NormalizationFault,
};
use vstd::arithmetic::power::pow;
use vstd::prelude::*;
use vstd::utf8::{encode_utf8, is_ascii_chars, is_ascii_chars_encode_utf8};

verus! {

/// Every character is whitespace.
pub open spec fn all_white_space(s: Seq<char>) -> bool {
    forall|i: int| 0 <= i < s.len() ==> is_white_space(#[trigger] s[i])
}

proof fn lemma_trim_start_skips(pad: Seq<char>, s: Seq<char>)
    requires
        all_white_space(pad),
    ensures
        trim_start(pad + s) == trim_start(s),
    decreases pad.len(),
{
    if pad.len() == 0 {
        assert(pad + s =~= s);
    } else {
        assert(is_white_space(pad[0]));
        assert((pad + s)[0] == pad[0]);
        assert((pad + s).skip(1) =~= pad.skip(1) + s);
        assert forall|i: int| 0 <= i < pad.skip(1).len() implies is_white_space(
            #[trigger] pad.skip(1)[i],
        ) by {
            assert(pad.skip(1)[i] == pad[i + 1]);
        }
        lemma_trim_start_skips(pad.skip(1), s);
    }
}

proof fn lemma_trim_end_skips(s: Seq<char>, pad: Seq<char>)
    requires
        all_white_space(pad),
    ensures
        trim_end(s + pad) == trim_end(s),
    decreases pad.len(),
{
    if pad.len() == 0 {
        assert(s + pad =~= s);
    } else {
        assert(is_white_space(pad[pad.len() - 1]));
        assert((s + pad).last() == pad.last());
        assert((s + pad).drop_last() =~= s + pad.drop_last());
        assert forall|i: int| 0 <= i < pad.drop_last().len() implies is_white_space(
            #[trigger] pad.drop_last()[i],
        ) by {
            assert(pad.drop_last()[i] == pad[i]);
        }
        lemma_trim_end_skips(s, pad.drop_last());
    }
}

proof fn lemma_trim_start_before(s: Seq<char>, pad: Seq<char>)
    requires
        all_white_space(pad),
    ensures
        trim_end(trim_start(s + pad)) == trim_end(trim_start(s)),
    decreases s.len(),
{
    if s.len() == 0 {
        assert(s + pad =~= pad);
        assert(pad + s =~= pad);
        lemma_trim_start_skips(pad, s);
    } else {
        assert((s + pad)[0] == s[0]);
        if is_white_space(s[0]) {
            assert((s + pad).skip(1) =~= s.skip(1) + pad);
            lemma_trim_start_before(s.skip(1), pad);
        } else {
            lemma_trim_end_skips(s, pad);
        }
    }
}

/// Whitespace around a text does not matter.
pub proof fn law_surrounding_white_space_is_ignored(
    before: Seq<char>,
    text: Seq<char>,
    after: Seq<char>,
    scale: u32,
)
    requires
        forall|i: int| 0 <= i < before.len() ==> is_white_space(#[trigger] before[i]),
        forall|i: int| 0 <= i < after.len() ==> is_white_space(#[trigger] after[i]),
    ensures
        normalized(before + text + after, scale) == normalized(text, scale),
{
    assert(before + text + after =~= before + (text + after));
    lemma_trim_start_skips(before, text + after);
    lemma_trim_start_before(text, after);
}

proof fn lemma_trim_end_keeps_front(c: char, s: Seq<char>)
    requires
        !is_white_space(c),
    ensures
        trim_end(seq![c] + s) == seq![c] + trim_end(s),
    decreases s.len(),
{
    let all = seq![c] + s;
    if s.len() == 0 {
        assert(all =~= seq![c]);
        assert(all.last() == c);
        assert(seq![c] + trim_end(s) =~= seq![c]);
    } else {
        assert(all.last() == s.last());
        if is_white_space(s.last()) {
            assert(all.drop_last() =~= seq![c] + s.drop_last());
            lemma_trim_end_keeps_front(c, s.drop_last());
        }
    }
}

/// A minus sign in front of an unsigned text negates its value and leaves its errors alone.
pub proof fn law_minus_sign_negates(text: Seq<char>, scale: u32)
    requires
        text.len() > 0,
        !is_white_space(text[0]),
        text[0] != '-',
    ensures
        match normalized(text, scale) {
            Ok(value) => normalized(seq!['-'] + text, scale) == Ok::<int, NormalizationFault>(
                -value,
            ),
            Err(fault) => normalized(seq!['-'] + text, scale) == Err::<int, NormalizationFault>(
                fault,
            ),
        },
{
    let signed = seq!['-'] + text;
    assert(trim_start(text) == text);
    assert(signed[0] == '-');
    assert(trim_start(signed) == signed);
    lemma_trim_end_keeps_front('-', text);
    assert(text =~= seq![text[0]] + text.skip(1));
    lemma_trim_end_keeps_front(text[0], text.skip(1));
    assert(trimmed(text)[0] == text[0]);
    assert(trimmed(signed).skip(1) =~= trimmed(text));
    assert(magnitude(signed) == magnitude(text));
}

proof fn lemma_trimmed_of_ends(s: Seq<char>)
    requires
        s.len() > 0,
        !is_white_space(s[0]),
        !is_white_space(s.last()),
    ensures
        trimmed(s) == s,
{
}

proof fn lemma_position_behind_digits(digits: Seq<char>, rest: Seq<char>)
    requires
        all_digits(digits),
        rest.len() == 0 || rest[0] == '.',
    ensures
        position_of(digits + rest, '.') == digits.len(),
    decreases digits.len(),
{
    if digits.len() == 0 {
        assert(digits + rest =~= rest);
    } else {
        assert((digits + rest)[0] == digits[0]);
        assert(is_digit(digits[0]));
        assert((digits + rest).skip(1) =~= digits.skip(1) + rest);
        assert forall|i: int| 0 <= i < digits.skip(1).len() implies is_digit(
            #[trigger] digits.skip(1)[i],
        ) by {
            assert(digits.skip(1)[i] == digits[i + 1]);
        }
        lemma_position_behind_digits(digits.skip(1), rest);
    }
}

proof fn lemma_places_of_digits(digits: Seq<char>)
    requires
        all_digits(digits),
        digits.len() <= u32::MAX,
    ensures
        places(digits) == digits.len(),
{
    assert(is_ascii_chars(digits)) by {
        assert forall|i: int| 0 <= i < digits.len() implies '\0' as u32 <= #[trigger] (digits[i] as u32)
            <= '\x7f' as u32 by {
            assert(is_digit(digits[i]));
        }
    }
    is_ascii_chars_encode_utf8(digits);
}

proof fn lemma_numeral_of_digits(digits: Seq<char>)
    requires
        all_digits(digits),
        digits.len() > 0,
        0 <= digits_value(digits) <= i64::MAX,
    ensures
        numeral_value(digits) == Some(digits_value(digits)),
{
    assert(is_digit(digits[0]));
}

/// Digits with a point between them have the value that they are read with: the fraction is
/// padded to the full scale.
pub proof fn law_point_separates_fraction(whole: Seq<char>, fraction: Seq<char>, scale: u32)
    requires
        all_digits(whole),
        all_digits(fraction),
        whole.len() > 0,
        fraction.len() <= scale,
        0 <= digits_value(whole) <= i64::MAX,
        0 <= digits_value(fraction) <= i64::MAX,
    ensures
        normalized(whole + seq!['.'] + fraction, scale) == Ok::<int, NormalizationFault>(
            digits_value(whole) * pow(10, scale as nat) + digits_value(fraction) * pow(
                10,
                (scale - fraction.len()) as nat,
            ),
        ),
{
    let text = whole + seq!['.'] + fraction;
    assert(text[0] == whole[0]);
    assert(is_digit(whole[0]));
    assert(text.last() == if fraction.len() > 0 { fraction.last() } else { '.' });
    if fraction.len() > 0 {
        assert(is_digit(fraction[fraction.len() - 1]));
    }
    lemma_trimmed_of_ends(text);
    assert(text =~= whole + (seq!['.'] + fraction));
    lemma_position_behind_digits(whole, seq!['.'] + fraction);
    assert(whole_part(text) =~= whole);
    assert(fraction_part(text) =~= fraction);
    lemma_places_of_digits(fraction);
    lemma_numeral_of_digits(whole);
    if fraction.len() > 0 {
        lemma_numeral_of_digits(fraction);
    }
}

/// Digits alone are a number of whole units.
pub proof fn law_digits_are_whole_units(whole: Seq<char>, scale: u32)
    requires
        all_digits(whole),
        whole.len() > 0,
        0 <= digits_value(whole) <= i64::MAX,
    ensures
        normalized(whole, scale) == Ok::<int, NormalizationFault>(
            digits_value(whole) * pow(10, scale as nat),
        ),
{
    assert(is_digit(whole[0]));
    assert(is_digit(whole[whole.len() - 1]));
    lemma_trimmed_of_ends(whole);
    assert(whole + Seq::<char>::empty() =~= whole);
    lemma_position_behind_digits(whole, Seq::empty());
    assert(whole_part(whole) =~= whole);
    lemma_places_of_digits(Seq::empty());
    lemma_numeral_of_digits(whole);
    assert(0 * pow(10, scale as nat) == 0);
}

/// One more decimal place makes the same amount ten times as many units.
pub proof fn law_scale_multiplies_by_ten(raw: Seq<char>, scale: u32)
    requires
        scale < u32::MAX,
        normalized(raw, scale) is Ok,
    ensures
        normalized(raw, (scale + 1) as u32) == Ok::<int, NormalizationFault>(
            10 * normalized(raw, scale)->Ok_0,
        ),
{
    let text = magnitude(raw);
    let got = places(fraction_part(text));
    let whole = numeral_value(whole_part(text))->0;
    let part = fraction_value(fraction_part(text))->0;
    let unit = pow(10, scale as nat);
    let pad = pow(10, (scale - got) as nat);
    vstd::arithmetic::power::lemma_pow_adds(10, scale as nat, 1);
    vstd::arithmetic::power::lemma_pow_adds(10, (scale - got) as nat, 1);
    vstd::arithmetic::power::lemma_pow1(10);
    assert(pow(10, (scale + 1) as nat) == 10 * unit);
    assert(pow(10, (scale + 1 - got) as nat) == 10 * pad);
    assert(whole * (10 * unit) + part * (10 * pad) == 10 * (whole * unit + part * pad))
        by (nonlinear_arith);
}

proof fn lemma_magnitude_of(before: Seq<char>, minus: bool, text: Seq<char>, after: Seq<char>)
    requires
        all_white_space(before),
        all_white_space(after),
        text.len() > 0 ==> !is_white_space(text[text.len() - 1]),
        !minus ==> text.len() > 0 ==> !is_white_space(text[0]) && text[0] != '-',
    ensures
        ({
            let raw = before + (if minus {
                seq!['-']
            } else {
                seq![]
            }) + text + after;
            &&& magnitude(raw) == text
            &&& crate::types::is_negative(raw) == minus
        }),
{
    let sign = if minus {
        seq!['-']
    } else {
        seq![]
    };
    let middle = sign + text;
    let raw = before + sign + text + after;
    if middle.len() > 0 {
        if minus {
            assert(middle[0] == '-');
        } else {
            assert(middle =~= text);
        }
        if text.len() > 0 {
            assert(middle[middle.len() - 1] == text[text.len() - 1]);
        }
    }
    assert(raw =~= before + middle + after);
    crate::text_laws::law_trimming_leaves_the_middle(before, middle, after);
    if minus {
        assert(middle.skip(1) =~= text);
    } else {
        assert(middle =~= text);
    }
}

proof fn lemma_parts_of(whole: Seq<char>, fraction: Seq<char>)
    requires
        forall|i: int| 0 <= i < whole.len() ==> #[trigger] whole[i] != '.',
    ensures
        whole_part(whole + seq!['.'] + fraction) == whole,
        fraction_part(whole + seq!['.'] + fraction) == fraction,
        whole_part(whole) == whole,
        fraction_part(whole) == Seq::<char>::empty(),
{
    let text = whole + seq!['.'] + fraction;
    let n = whole.len() as int;
    law_position_is_the_first(text, '.');
    assert(text[n] == '.');
    assert forall|i: int| 0 <= i < n implies text[i] != '.' by {
        assert(text[i] == whole[i]);
    }
    assert(position_of(text, '.') == n);
    assert(text.take(n) =~= whole);
    assert(text.skip(n + 1) =~= fraction);
    law_position_is_the_first(whole, '.');
    assert(position_of(whole, '.') == n);
    assert(whole.take(n) =~= whole);
}

/// What becomes of a text in general: whitespace around it is dropped, a minus sign in front
/// negates, the first point ends the whole part, and what stands behind it is the fraction.
/// More bytes in the fraction than the scale has places are too many; otherwise both parts
/// have to be numerals, of which the fraction may be missing, and the value is the whole part
/// in units of the scale and the fraction padded to the scale. The errors hold the text
/// without whitespace and minus sign.
pub proof fn law_value_of_text(
    before: Seq<char>,
    minus: bool,
    whole: Seq<char>,
    point: bool,
    fraction: Seq<char>,
    after: Seq<char>,
    scale: u32,
)
    requires
        forall|i: int| 0 <= i < before.len() ==> is_white_space(#[trigger] before[i]),
        forall|i: int| 0 <= i < after.len() ==> is_white_space(#[trigger] after[i]),
        forall|i: int| 0 <= i < whole.len() ==> #[trigger] whole[i] != '.',
        !point ==> fraction.len() == 0,
        ({
            let text = whole + (if point {
                seq!['.']
            } else {
                seq![]
            }) + fraction;
            &&& text.len() > 0 ==> !is_white_space(text[text.len() - 1])
            &&& !minus ==> text.len() > 0 ==> !is_white_space(text[0]) && text[0] != '-'
        }),
    ensures
        ({
            let text = whole + (if point {
                seq!['.']
            } else {
                seq![]
            }) + fraction;
            let raw = before + (if minus {
                seq!['-']
            } else {
                seq![]
            }) + text + after;
            let length = encode_utf8(fraction).len() % 0x1_0000_0000;
            if length > scale {
                normalized(raw, scale) == Err::<int, NormalizationFault>(
                    NormalizationFault::ExcessivePrecision {
                        value: text,
                        max_scale: scale,
                        got_scale: length as u32,
                    },
                )
            } else if numeral_value(whole) is Some && (fraction.len() == 0 || numeral_value(
                fraction,
            ) is Some) {
                let units = numeral_value(whole)->0 * pow(10, scale as nat);
                let rest = if fraction.len() == 0 {
                    0
                } else {
                    numeral_value(fraction)->0 * pow(10, (scale - length) as nat)
                };
                normalized(raw, scale) == Ok::<int, NormalizationFault>(
                    if minus {
                        -(units + rest)
                    } else {
                        units + rest
                    },
                )
            } else {
                normalized(raw, scale) == Err::<int, NormalizationFault>(
                    NormalizationFault::InvalidNumber(text),
                )
            }
        }),
{
    let text = whole + (if point {
        seq!['.']
    } else {
        seq![]
    }) + fraction;
    lemma_magnitude_of(before, minus, text, after);
    lemma_parts_of(whole, fraction);
    if !point {
        assert(text =~= whole);
        assert(fraction =~= Seq::<char>::empty());
    }
    let length = encode_utf8(fraction).len() % 0x1_0000_0000;
    assert(0 * pow(10, (scale - length) as nat) == 0);
}

/// A decimal number of digits, with or without a point and a minus sign, has the value that
/// its digits have without the point, moved up by the places that are missing to the scale.
pub proof fn law_decimal_number_is_scaled(
    minus: bool,
    whole: Seq<char>,
    fraction: Seq<char>,
    scale: u32,
)
    requires
        whole.len() > 0,
        fraction.len() <= scale,
        forall|i: int|
            0 <= i < whole.len() ==> '0' as int <= (#[trigger] whole[i]) as int <= '9' as int,
        forall|i: int|
            0 <= i < fraction.len() ==> '0' as int <= (#[trigger] fraction[i]) as int
                <= '9' as int,
        digits_value(whole) <= i64::MAX,
        digits_value(fraction) <= i64::MAX,
    ensures
        ({
            let sign = if minus {
                seq!['-']
            } else {
                seq![]
            };
            let amount = digits_value(whole + fraction) * pow(
                10,
                (scale - fraction.len()) as nat,
            );
            let value = if minus {
                -amount
            } else {
                amount
            };
            &&& normalized(sign + whole + seq!['.'] + fraction, scale) == Ok::<
                int,
                NormalizationFault,
            >(value)
            &&& fraction.len() == 0 ==> normalized(sign + whole, scale) == Ok::<
                int,
                NormalizationFault,
            >(value)
        }),
{
    let sign = if minus {
        seq!['-']
    } else {
        seq![]
    };
    let none = Seq::<char>::empty();
    let text = whole + seq!['.'] + fraction;
    assert('0' as int <= whole[0] as int <= '9' as int);
    assert('0' as int <= whole[whole.len() - 1] as int <= '9' as int);
    assert(text[0] == whole[0]);
    if fraction.len() > 0 {
        assert('0' as int <= fraction[fraction.len() - 1] as int <= '9' as int);
        assert(text[text.len() - 1] == fraction[fraction.len() - 1]);
    } else {
        assert(text[text.len() - 1] == '.');
    }
    assert(all_digits(fraction)) by {
        assert forall|i: int| 0 <= i < fraction.len() implies is_digit(#[trigger] fraction[i]) by {
            assert('0' as int <= fraction[i] as int <= '9' as int);
        }
    }
    assert forall|i: int| 0 <= i < whole.len() implies #[trigger] whole[i] != '.' by {
        assert('0' as int <= whole[i] as int <= '9' as int);
    }
    law_value_of_text(none, minus, whole, true, fraction, none, scale);
    assert(none + sign + text + none =~= sign + whole + seq!['.'] + fraction);
    lemma_places_of_digits(fraction);
    law_numeral_of_digits(whole);
    let p = pow(10, fraction.len());
    let q = pow(10, (scale - fraction.len()) as nat);
    let w = digits_value(whole);
    let f = digits_value(fraction);
    if fraction.len() > 0 {
        law_numeral_of_digits(fraction);
    } else {
        assert(f == 0);
        assert(0 * q == 0);
    }
    law_digits_have_positional_value(whole, fraction);
    vstd::arithmetic::power::lemma_pow_adds(10, fraction.len(), (scale - fraction.len()) as nat);
    assert(w * (p * q) + f * q == (w * p + f) * q) by (nonlinear_arith);
    if fraction.len() == 0 {
        assert(whole + seq![] + none =~= whole);
        law_value_of_text(none, minus, whole, false, none, none, scale);
        assert(none + sign + whole + none =~= sign + whole);
        assert(fraction =~= none);
    }
}

/// Zeros behind the fraction do not matter as long as the scale has places for them.
pub proof fn law_trailing_zeros_do_not_matter(
    minus: bool,
    whole: Seq<char>,
    fraction: Seq<char>,
    scale: u32,
)
    requires
        whole.len() > 0,
        fraction.len() < scale,
        forall|i: int|
            0 <= i < whole.len() ==> '0' as int <= (#[trigger] whole[i]) as int <= '9' as int,
        forall|i: int|
            0 <= i < fraction.len() ==> '0' as int <= (#[trigger] fraction[i]) as int
                <= '9' as int,
        digits_value(whole) <= i64::MAX,
        10 * digits_value(fraction) <= i64::MAX,
    ensures
        ({
            let sign = if minus {
                seq!['-']
            } else {
                seq![]
            };
            normalized(sign + whole + seq!['.'] + fraction.push('0'), scale) == normalized(
                sign + whole + seq!['.'] + fraction,
                scale,
            )
        }),
{
    let longer = fraction.push('0');
    law_digits_are_bounded(fraction);
    crate::text_laws::law_digit_behind_digits(fraction, '0');
    crate::text_laws::law_digit_behind_digits(whole + fraction, '0');
    assert(whole + longer =~= (whole + fraction).push('0'));
    assert forall|i: int| 0 <= i < longer.len() implies '0' as int <= (
    #[trigger] longer[i]) as int <= '9' as int by {
        if i < fraction.len() {
            assert(longer[i] == fraction[i]);
        }
    }
    law_decimal_number_is_scaled(minus, whole, fraction, scale);
    law_decimal_number_is_scaled(minus, whole, longer, scale);
    let n = (scale - longer.len()) as nat;
    vstd::arithmetic::power::lemma_pow_adds(10, n, 1);
    vstd::arithmetic::power::lemma_pow1(10);
    let v = digits_value(whole + fraction);
    let p = pow(10, n);
    assert(pow(10, (scale - fraction.len()) as nat) == p * 10);
    assert((10 * v) * p == v * (p * 10)) by (nonlinear_arith);
}

/// A decimal number of digits is within range exactly when the scale has no more than eighteen
/// places and an `i64` can hold the value.
pub proof fn law_decimal_number_fits(
    minus: bool,
    whole: Seq<char>,
    fraction: Seq<char>,
    scale: u32,
)
    requires
        whole.len() > 0,
        fraction.len() <= scale,
        forall|i: int|
            0 <= i < whole.len() ==> '0' as int <= (#[trigger] whole[i]) as int <= '9' as int,
        forall|i: int|
            0 <= i < fraction.len() ==> '0' as int <= (#[trigger] fraction[i]) as int
                <= '9' as int,
        digits_value(whole) <= i64::MAX,
        digits_value(fraction) <= i64::MAX,
    ensures
        ({
            let raw = (if minus {
                seq!['-']
            } else {
                seq![]
            }) + whole + seq!['.'] + fraction;
            normalization_fits(raw, scale) <==> scale <= 18 && digits_value(whole + fraction)
                * pow(10, (scale - fraction.len()) as nat) <= i64::MAX
        }),
{
    let sign = if minus {
        seq!['-']
    } else {
        seq![]
    };
    let none = Seq::<char>::empty();
    let text = whole + seq!['.'] + fraction;
    let raw = sign + whole + seq!['.'] + fraction;
    assert('0' as int <= whole[0] as int <= '9' as int);
    assert(text[0] == whole[0]);
    if fraction.len() > 0 {
        assert('0' as int <= fraction[fraction.len() - 1] as int <= '9' as int);
        assert(text[text.len() - 1] == fraction[fraction.len() - 1]);
    } else {
        assert(text[text.len() - 1] == '.');
    }
    assert(all_digits(fraction)) by {
        assert forall|i: int| 0 <= i < fraction.len() implies is_digit(#[trigger] fraction[i]) by {
            assert('0' as int <= fraction[i] as int <= '9' as int);
        }
    }
    assert forall|i: int| 0 <= i < whole.len() implies #[trigger] whole[i] != '.' by {
        assert('0' as int <= whole[i] as int <= '9' as int);
    }
    lemma_magnitude_of(none, minus, text, none);
    assert(none + sign + text + none =~= raw);
    lemma_parts_of(whole, fraction);
    lemma_places_of_digits(fraction);
    law_numeral_of_digits(whole);
    law_digits_are_bounded(whole);
    law_digits_are_bounded(fraction);
    if fraction.len() > 0 {
        law_numeral_of_digits(fraction);
    }
    law_digits_have_positional_value(whole, fraction);
    let p = pow(10, fraction.len());
    let q = pow(10, (scale - fraction.len()) as nat);
    let unit = pow(10, scale as nat);
    let w = digits_value(whole);
    let f = digits_value(fraction);
    vstd::arithmetic::power::lemma_pow_adds(10, fraction.len(), (scale - fraction.len()) as nat);
    assert(w * (p * q) + f * q == (w * p + f) * q) by (nonlinear_arith);
    vstd::arithmetic::power::lemma_pow_positive(10, (scale - fraction.len()) as nat);
    vstd::arithmetic::power::lemma_pow_positive(10, scale as nat);
    assert(w * unit >= 0) by (nonlinear_arith)
        requires
            w >= 0,
            unit > 0,
    ;
    assert(f * q >= 0) by (nonlinear_arith)
        requires
            f >= 0,
            q > 0,
    ;
    assert(pow(10, 18) == 1_000_000_000_000_000_000 && pow(10, 19)
        == 10_000_000_000_000_000_000) by {
        reveal_with_fuel(pow, 20);
    }
    if scale <= 18 {
        vstd::arithmetic::power::lemma_pow_increases(10, scale as nat, 18);
    } else {
        vstd::arithmetic::power::lemma_pow_increases(10, 19, scale as nat);
    }
}

/// Which texts are within range in general: those that are not normalised, and those for which
/// the power of ten, the two parts in units of the scale, their sum, and its opposite behind a
/// minus sign are values that an `i64` can hold.
pub proof fn law_text_fits(
    before: Seq<char>,
    minus: bool,
    whole: Seq<char>,
    point: bool,
    fraction: Seq<char>,
    after: Seq<char>,
    scale: u32,
)
    requires
        forall|i: int| 0 <= i < before.len() ==> is_white_space(#[trigger] before[i]),
        forall|i: int| 0 <= i < after.len() ==> is_white_space(#[trigger] after[i]),
        forall|i: int| 0 <= i < whole.len() ==> #[trigger] whole[i] != '.',
        !point ==> fraction.len() == 0,
        ({
            let text = whole + (if point {
                seq!['.']
            } else {
                seq![]
            }) + fraction;
            &&& text.len() > 0 ==> !is_white_space(text[text.len() - 1])
            &&& !minus ==> text.len() > 0 ==> !is_white_space(text[0]) && text[0] != '-'
        }),
    ensures
        ({
            let text = whole + (if point {
                seq!['.']
            } else {
                seq![]
            }) + fraction;
            let raw = before + (if minus {
                seq!['-']
            } else {
                seq![]
            }) + text + after;
            let length = encode_utf8(fraction).len() % 0x1_0000_0000;
            let unit = pow(10, scale as nat);
            let units = numeral_value(whole)->0 * unit;
            let rest = if fraction.len() == 0 {
                0
            } else {
                numeral_value(fraction)->0 * pow(10, (scale - length) as nat)
            };
            normalization_fits(raw, scale) <==> {
                ||| length > scale
                ||| numeral_value(whole) is None
                ||| fraction.len() > 0 && numeral_value(fraction) is None
                ||| {
                    &&& unit <= i64::MAX
                    &&& i64::MIN <= units <= i64::MAX
                    &&& i64::MIN <= rest <= i64::MAX
                    &&& i64::MIN <= units + rest <= i64::MAX
                    &&& minus ==> units + rest > i64::MIN
                }
            }
        }),
{
    let text = whole + (if point {
        seq!['.']
    } else {
        seq![]
    }) + fraction;
    lemma_magnitude_of(before, minus, text, after);
    lemma_parts_of(whole, fraction);
    if !point {
        assert(text =~= whole);
        assert(fraction =~= Seq::<char>::empty());
    }
    let length = encode_utf8(fraction).len() % 0x1_0000_0000;
    assert(0 * pow(10, (scale - length) as nat) == 0);
    vstd::arithmetic::power::lemma_pow_positive(10, scale as nat);
}

/// Nothing has to be computed for a text that is not normalised, so it is always within range.
pub proof fn law_faulty_text_fits(raw: Seq<char>, scale: u32)
    requires
        normalized(raw, scale) is Err,
    ensures
        normalization_fits(raw, scale),
{
}

/// A value within range is one that an `i64` can hold.
pub proof fn law_fitting_value_is_held(raw: Seq<char>, scale: u32)
    requires
        normalization_fits(raw, scale),
        normalized(raw, scale) is Ok,
    ensures
        i64::MIN <= normalized(raw, scale)->Ok_0 <= i64::MAX,
{
}

/// An error says what its fault does, and its sentence holds the text and the two numbers of
/// places.
pub proof fn law_normalization_errors_tell(
    text: String,
    max_scale: u32,
    got_scale: u32,
)
    ensures
        NormalizationError::InvalidNumber(text)@ == NormalizationFault::InvalidNumber(text@),
        (NormalizationError::ExcessivePrecision { value: text, max_scale, got_scale })@
            == (NormalizationFault::ExcessivePrecision { value: text@, max_scale, got_scale }),
        NormalizationFault::InvalidNumber(text@).message() == "Invalid number: "@ + text@,
        (NormalizationFault::ExcessivePrecision { value: text@, max_scale, got_scale }).message()
            == "Value '"@ + text@ + "' has "@ + crate::text::decimal(got_scale as nat)
            + " decimal places, max allowed is "@ + crate::text::decimal(max_scale as nat),
{
}

} // verus!
