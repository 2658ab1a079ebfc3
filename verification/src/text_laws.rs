//! What holds of digits, numerals, whitespace and searching.
use crate::text::{
    all_digits, decimal, digits_value, is_digit, is_white_space, law_decimal_reads_back,
    mentions, numeral_value, position_of, signed_decimal, trim_end, trim_start, trimmed,
};
use vstd::arithmetic::power::pow;
use vstd::prelude::*;

verus! {

/// A digit behind a run of digits is worth itself and makes the run worth ten times as much,
/// whatever the run starts with; no digits are worth nothing.
pub proof fn law_digit_behind_digits(s: Seq<char>, c: char)
    requires
        '0' as int <= c as int <= '9' as int,
    ensures
        digits_value(Seq::<char>::empty()) == 0,
        digits_value(s.push(c)) == 10 * digits_value(s) + (c as int - '0' as int),
{
    assert(s.push(c).drop_last() =~= s);
}

/// Two runs of digits, one behind the other, have the value of the first moved up by as many
/// places as the second has, and the value of the second.
pub proof fn law_digits_have_positional_value(a: Seq<char>, b: Seq<char>)
    ensures
        digits_value(a + b) == digits_value(a) * pow(10, b.len()) + digits_value(b),
    decreases b.len(),
{
    vstd::arithmetic::power::lemma_pow0(10);
    if b.len() == 0 {
        assert(a + b =~= a);
    } else {
        let n = (b.len() - 1) as nat;
        assert((a + b).drop_last() =~= a + b.drop_last());
        assert((a + b).last() == b.last());
        law_digits_have_positional_value(a, b.drop_last());
        vstd::arithmetic::power::lemma_pow_adds(10, n, 1);
        vstd::arithmetic::power::lemma_pow1(10);
        let x = digits_value(a);
        let p = pow(10, n);
        assert(pow(10, b.len()) == p * 10);
        assert(10 * (x * p) == x * (p * 10)) by (nonlinear_arith);
    }
}

/// A digit alone is worth itself.
pub proof fn law_single_digit(c: char)
    requires
        '0' as int <= c as int <= '9' as int,
    ensures
        digits_value(seq![c]) == c as int - '0' as int,
{
    assert(seq![c].drop_last() =~= Seq::<char>::empty());
    assert(digits_value(Seq::<char>::empty()) == 0);
    assert(seq![c].last() == c);
}

/// Zeros in front of a run of digits do not matter.
pub proof fn law_leading_zeros_do_not_matter(zeros: Seq<char>, s: Seq<char>)
    requires
        forall|i: int| 0 <= i < zeros.len() ==> #[trigger] zeros[i] == '0',
    ensures
        digits_value(zeros + s) == digits_value(s),
{
    lemma_zeros(zeros);
    law_digits_have_positional_value(zeros, s);
    assert(0 * pow(10, s.len()) == 0);
}

proof fn lemma_zeros(zeros: Seq<char>)
    requires
        forall|i: int| 0 <= i < zeros.len() ==> #[trigger] zeros[i] == '0',
    ensures
        digits_value(zeros) == 0,
    decreases zeros.len(),
{
    if zeros.len() > 0 {
        assert(zeros[zeros.len() - 1] == '0');
        assert forall|i: int| 0 <= i < zeros.drop_last().len() implies #[trigger] zeros.drop_last()[i]
            == '0' by {
            assert(zeros.drop_last()[i] == zeros[i]);
        }
        lemma_zeros(zeros.drop_last());
    }
}

/// A run of digits is worth less than the power of ten that its length gives.
pub proof fn law_digits_are_bounded(s: Seq<char>)
    requires
        forall|i: int| 0 <= i < s.len() ==> '0' as int <= (#[trigger] s[i]) as int <= '9' as int,
    ensures
        0 <= digits_value(s) < pow(10, s.len()),
    decreases s.len(),
{
    vstd::arithmetic::power::lemma_pow0(10);
    if s.len() > 0 {
        let n = (s.len() - 1) as nat;
        assert('0' as int <= s[s.len() - 1] as int <= '9' as int);
        assert forall|i: int| 0 <= i < s.drop_last().len() implies '0' as int <= (
        #[trigger] s.drop_last()[i]) as int <= '9' as int by {
            assert(s.drop_last()[i] == s[i]);
        }
        law_digits_are_bounded(s.drop_last());
        vstd::arithmetic::power::lemma_pow_adds(10, n, 1);
        vstd::arithmetic::power::lemma_pow1(10);
        assert(pow(10, s.len()) == pow(10, n) * 10);
    }
}

/// The digits that are written for a number are ASCII digits, start with no zero but that of
/// the number zero, and are read as the number.
pub proof fn law_decimal_is_canonical(n: nat)
    ensures
        decimal(n).len() > 0,
        forall|i: int|
            0 <= i < decimal(n).len() ==> '0' as int <= (#[trigger] decimal(n)[i]) as int
                <= '9' as int,
        n > 0 ==> decimal(n)[0] != '0',
        n == 0 ==> decimal(n) == seq!['0'],
        digits_value(decimal(n)) == n,
    decreases n,
{
    law_decimal_reads_back(n);
    assert forall|i: int| 0 <= i < decimal(n).len() implies '0' as int <= (
    #[trigger] decimal(n)[i]) as int <= '9' as int by {
        assert(is_digit(decimal(n)[i]));
    }
    if n >= 10 {
        law_decimal_is_canonical(n / 10);
        assert(decimal(n)[0] == decimal(n / 10)[0]);
    }
}

/// A negative number is written with a minus sign before its distance from zero, any other as
/// it is.
pub proof fn law_sign_of_signed_decimal(i: int)
    ensures
        i >= 0 ==> signed_decimal(i) == decimal(i as nat),
        i < 0 ==> signed_decimal(i) == seq!['-'] + decimal((-i) as nat),
{
}

/// Digits, alone or behind one sign, are a numeral if an `i64` can hold their value.
pub proof fn law_numeral_of_digits(digits: Seq<char>)
    requires
        digits.len() > 0,
        forall|i: int|
            0 <= i < digits.len() ==> '0' as int <= (#[trigger] digits[i]) as int <= '9' as int,
    ensures
        digits_value(digits) <= i64::MAX ==> {
            &&& numeral_value(digits) == Some(digits_value(digits))
            &&& numeral_value(seq!['+'] + digits) == Some(digits_value(digits))
        },
        digits_value(digits) > i64::MAX ==> {
            &&& numeral_value(digits) is None
            &&& numeral_value(seq!['+'] + digits) is None
        },
        -digits_value(digits) >= i64::MIN ==> numeral_value(seq!['-'] + digits) == Some(
            -digits_value(digits),
        ),
        -digits_value(digits) < i64::MIN ==> numeral_value(seq!['-'] + digits) is None,
{
    law_digits_are_bounded(digits);
    assert('0' as int <= digits[0] as int <= '9' as int);
    assert(all_digits(digits)) by {
        assert forall|i: int| 0 <= i < digits.len() implies is_digit(#[trigger] digits[i]) by {
            assert('0' as int <= digits[i] as int <= '9' as int);
        }
    }
    assert((seq!['+'] + digits).skip(1) =~= digits);
    assert((seq!['-'] + digits).skip(1) =~= digits);
}

/// Nothing else is a numeral: not a text without digits, and not one with a character that is
/// neither a digit nor a sign in front.
pub proof fn law_other_texts_are_no_numerals(s: Seq<char>, i: int)
    requires
        ({
            ||| s.len() == 0
            ||| s == seq!['+']
            ||| s == seq!['-']
            ||| 0 <= i < s.len() && !('0' as int <= s[i] as int <= '9' as int) && (i > 0 || s[i]
                != '+' && s[i] != '-')
        }),
    ensures
        numeral_value(s) is None,
{
    if s.len() > 1 && (s[0] == '-' || s[0] == '+') {
        assert(s.skip(1)[i - 1] == s[i]);
        assert(!is_digit(s.skip(1)[i - 1]));
    } else if s.len() > 0 && !(s[0] == '-' || s[0] == '+') {
        assert(!is_digit(s[i]));
    }
}

/// Trimming takes away whitespace at the two ends and no more: what it leaves starts and ends
/// with something else.
pub proof fn law_trimming_leaves_the_middle(
    before: Seq<char>,
    middle: Seq<char>,
    after: Seq<char>,
)
    requires
        forall|i: int| 0 <= i < before.len() ==> is_white_space(#[trigger] before[i]),
        forall|i: int| 0 <= i < after.len() ==> is_white_space(#[trigger] after[i]),
        middle.len() > 0 ==> !is_white_space(middle[0]) && !is_white_space(
            middle[middle.len() - 1],
        ),
    ensures
        trimmed(before + middle + after) == middle,
{
    lemma_trim_start(before, middle + after);
    assert(before + middle + after =~= before + (middle + after));
    if middle.len() == 0 {
        assert(middle + after =~= after);
        assert(after + middle =~= after);
        lemma_trim_start(after, middle);
        assert(trim_start(middle) == middle);
        assert(trim_end(middle) == middle);
    } else {
        assert((middle + after)[0] == middle[0]);
        assert(trim_start(middle + after) == middle + after);
        lemma_trim_end(middle, after);
        assert(middle.last() == middle[middle.len() - 1]);
        assert(trim_end(middle) == middle);
    }
}

proof fn lemma_trim_start(pad: Seq<char>, s: Seq<char>)
    requires
        forall|i: int| 0 <= i < pad.len() ==> is_white_space(#[trigger] pad[i]),
    ensures
        trim_start(pad + s) == trim_start(s),
    decreases pad.len(),
{
    if pad.len() == 0 {
        assert(pad + s =~= s);
    } else {
        assert(is_white_space(pad[0]));
        assert((pad + s)[0] == pad[0]);
        assert((pad + s).skip(1) =~= pad.skip(1) + s);
        assert forall|i: int| 0 <= i < pad.skip(1).len() implies is_white_space(
            #[trigger] pad.skip(1)[i],
        ) by {
            assert(pad.skip(1)[i] == pad[i + 1]);
        }
        lemma_trim_start(pad.skip(1), s);
    }
}

proof fn lemma_trim_end(s: Seq<char>, pad: Seq<char>)
    requires
        forall|i: int| 0 <= i < pad.len() ==> is_white_space(#[trigger] pad[i]),
    ensures
        trim_end(s + pad) == trim_end(s),
    decreases pad.len(),
{
    if pad.len() == 0 {
        assert(s + pad =~= s);
    } else {
        assert(is_white_space(pad[pad.len() - 1]));
        assert((s + pad).last() == pad.last());
        assert((s + pad).drop_last() =~= s + pad.drop_last());
        assert forall|i: int| 0 <= i < pad.drop_last().len() implies is_white_space(
            #[trigger] pad.drop_last()[i],
        ) by {
            assert(pad.drop_last()[i] == pad[i]);
        }
        lemma_trim_end(s, pad.drop_last());
    }
}

/// Exactly these characters are whitespace.
pub proof fn law_white_space_characters(c: char)
    ensures
        is_white_space(c) <==> {
            ||| '\t' as int <= c as int <= '\r' as int
            ||| c == ' '
            ||| c == '\u{85}'
            ||| c == '\u{a0}'
            ||| c == '\u{1680}'
            ||| '\u{2000}' as int <= c as int <= '\u{200a}' as int
            ||| c == '\u{2028}'
            ||| c == '\u{2029}'
            ||| c == '\u{202f}'
            ||| c == '\u{205f}'
            ||| c == '\u{3000}'
        },
{
}

/// A character is found at its first place, or nowhere.
pub proof fn law_position_is_the_first(s: Seq<char>, c: char)
    ensures
        0 <= position_of(s, c) <= s.len(),
        position_of(s, c) < s.len() ==> s[position_of(s, c)] == c,
        forall|i: int| 0 <= i < position_of(s, c) ==> #[trigger] s[i] != c,
    decreases s.len(),
{
    if s.len() > 0 && s[0] != c {
        law_position_is_the_first(s.skip(1), c);
        assert forall|i: int| 0 <= i < position_of(s, c) implies #[trigger] s[i] != c by {
            if i > 0 {
                assert(s.skip(1)[i - 1] == s[i]);
            }
        }
    }
}

/// A text mentions a word exactly when it has the word between two other parts.
pub proof fn law_mentioned_word_stands_between(s: Seq<char>, word: Seq<char>)
    ensures
        mentions(s, word) <==> exists|a: Seq<char>, b: Seq<char>| s == #[trigger] (a + word + b),
{
    if mentions(s, word) {
        let i = choose|i: int|
            0 <= i <= s.len() - word.len() && #[trigger] s.subrange(i, i + word.len()) == word;
        assert(s =~= s.take(i) + word + s.skip(i + word.len()));
    }
    if exists|a: Seq<char>, b: Seq<char>| s == #[trigger] (a + word + b) {
        let (a, b) = choose|a: Seq<char>, b: Seq<char>| s == #[trigger] (a + word + b);
        let i = a.len() as int;
        assert(s.subrange(i, i + word.len()) =~= word);
    }
}

} // verus!
