//! Text helpers: characters of a string, decimal digits, whitespace and searching.
use vstd::prelude::*;

verus! {

/// The characters of a string, in order.
pub fn chars_of(s: &str) -> (chars: Vec<char>)
    ensures
        chars@ == s@,
{
    let mut chars: Vec<char> = Vec::new();
    for c in it: s.chars()
        invariant
            chars@ == it.seq().take(it.index() as int),
            it.seq() == s@,
    {
        chars.push(c);
    }
    chars
}

/// The code point of a character.
pub fn char_code(c: char) -> (code: u32)
    ensures
        code as int == c as int,
{
    c as u32
}

// Decimal digits

/// `c` is one of the ten ASCII digits.
pub open spec fn is_digit(c: char) -> bool {
    '0' as int <= c as int <= '9' as int
}

/// The number that an ASCII digit stands for.
pub open spec fn digit_value(c: char) -> int {
    c as int - '0' as int
}

/// The ASCII digit for a number below ten.
pub open spec fn digit_char(d: int) -> char {
    (d + '0' as int) as char
}

/// `s` holds nothing but ASCII digits.
pub open spec fn all_digits(s: Seq<char>) -> bool {
    forall|i: int| 0 <= i < s.len() ==> is_digit(#[trigger] s[i])
}

/// The number that a run of digits stands for in base ten.
pub open spec fn digits_value(s: Seq<char>) -> int
    decreases s.len(),
{
    if s.len() == 0 {
        0
    } else {
        10 * digits_value(s.drop_last()) + digit_value(s.last())
    }
}

/// The digits of `n` in base ten, without leading zeros.
pub open spec fn decimal(n: nat) -> Seq<char>
    decreases n,
{
    if n < 10 {
        seq![digit_char(n as int)]
    } else {
        decimal(n / 10).push(digit_char(n as int % 10))
    }
}

/// The digits of `i` in base ten, with a leading minus sign when it is negative.
pub open spec fn signed_decimal(i: int) -> Seq<char> {
    if i < 0 {
        seq!['-'] + decimal((-i) as nat)
    } else {
        decimal(i as nat)
    }
}

/// The `i64` that a numeral stands for: an optional sign, then at least one digit and
/// nothing else, with a value that an `i64` can hold.
pub open spec fn numeral_value(s: Seq<char>) -> Option<int> {
    let signed = s.len() > 0 && (s[0] == '-' || s[0] == '+');
    let digits = if signed {
        s.skip(1)
    } else {
        s
    };
    let value = if signed && s[0] == '-' {
        -digits_value(digits)
    } else {
        digits_value(digits)
    };
    if digits.len() > 0 && all_digits(digits) && i64::MIN <= value <= i64::MAX {
        Some(value)
    } else {
        None
    }
}

proof fn lemma_digits_value_grows(s: Seq<char>, n: int)
    requires
        all_digits(s),
        0 <= n <= s.len(),
    ensures
        0 <= digits_value(s.take(n)) <= digits_value(s),
    decreases s.len(),
{
    if n == s.len() {
        assert(s.take(n) =~= s);
        if s.len() > 0 {
            assert(all_digits(s.drop_last()));
            lemma_digits_value_grows(s.drop_last(), s.len() - 1);
            assert(s.drop_last().take(s.len() - 1) =~= s.drop_last());
            assert(is_digit(s[s.len() - 1]));
        }
    } else {
        assert(all_digits(s.drop_last()));
        lemma_digits_value_grows(s.drop_last(), n);
        assert(s.drop_last().take(n) =~= s.take(n));
        assert(is_digit(s[s.len() - 1]));
    }
}

/// Reads the numeral in `chars[from..to]`.
pub fn parse_numeral(chars: &Vec<char>, from: usize, to: usize) -> (value: Option<i64>)
    requires
        from <= to <= chars@.len(),
    ensures
        match value {
            Some(v) => numeral_value(chars@.subrange(from as int, to as int)) == Some(v as int),
            None => numeral_value(chars@.subrange(from as int, to as int)) is None,
        },
{
    let ghost s = chars@.subrange(from as int, to as int);
    let mut start: usize = from;
    let mut negative: bool = false;
    if from < to && (chars[from] == '-' || chars[from] == '+') {
        negative = chars[from] == '-';
        start = from + 1;
    }
    let ghost digits = chars@.subrange(start as int, to as int);
    assert(digits =~= if start == from { s } else { s.skip(1) });
    if start == to {
        return None;
    }
    let limit: i128 = if negative {
        9_223_372_036_854_775_808
    } else {
        9_223_372_036_854_775_807
    };
    let mut acc: i128 = 0;
    let mut i: usize = start;
    assert(digits.take(0) =~= Seq::<char>::empty());
    while i < to
        invariant
            from <= start <= i <= to <= chars@.len(),
            start < to,
            digits == chars@.subrange(start as int, to as int),
            s == chars@.subrange(from as int, to as int),
            digits == if start == from { s } else { s.skip(1) },
            (start != from) <==> (s[0] == '-' || s[0] == '+'),
            negative <==> s[0] == '-',
            all_digits(digits.take(i - start)),
            acc == digits_value(digits.take(i - start)),
            0 <= acc <= limit <= 9_223_372_036_854_775_808,
            limit == if negative { -(i64::MIN as int) } else { i64::MAX as int },
        decreases to - i,
    {
        let c = chars[i];
        let code: u32 = char_code(c);
        if code < 48 || code > 57 {
            assert(!is_digit(digits[i - start]));
            return None;
        }
        assert(digits.take(i - start + 1).drop_last() =~= digits.take(i - start));
        assert(digits.take(i - start + 1).last() == c);
        acc = acc * 10 + (code - 48) as i128;
        assert forall|j: int| 0 <= j < i - start + 1 implies is_digit(
            #[trigger] digits.take(i - start + 1)[j],
        ) by {
            if j < i - start {
                assert(is_digit(digits.take(i - start)[j]));
            }
        }
        if acc > limit {
            proof {
                if all_digits(digits) {
                    lemma_digits_value_grows(digits, i - start + 1);
                }
            }
            return None;
        }
        i += 1;
    }
    assert(digits.take(to - start) =~= digits);
    if negative {
        Some((-acc) as i64)
    } else {
        Some(acc as i64)
    }
}

fn digit_text(d: u8) -> (text: &'static str)
    requires
        d < 10,
    ensures
        text@ == seq![digit_char(d as int)],
{
    proof {
        reveal_strlit("0");
        reveal_strlit("1");
        reveal_strlit("2");
        reveal_strlit("3");
        reveal_strlit("4");
        reveal_strlit("5");
        reveal_strlit("6");
        reveal_strlit("7");
        reveal_strlit("8");
        reveal_strlit("9");
    }
    match d {
        0 => "0",
        1 => "1",
        2 => "2",
        3 => "3",
        4 => "4",
        5 => "5",
        6 => "6",
        7 => "7",
        8 => "8",
        _ => "9",
    }
}

/// Appends the digits of `n` to `out`.
pub fn push_decimal(out: &mut String, n: u128)
    ensures
        final(out)@ == old(out)@ + decimal(n as nat),
    decreases n,
{
    if n >= 10 {
        push_decimal(out, n / 10);
    }
    out.append(digit_text((n % 10) as u8));
    assert(out@ =~= old(out)@ + decimal(n as nat));
}

/// Appends the digits of `i` to `out`, with a minus sign when it is negative.
pub fn push_signed_decimal(out: &mut String, i: i64)
    ensures
        final(out)@ == old(out)@ + signed_decimal(i as int),
{
    if i < 0 {
        proof {
            reveal_strlit("-");
        }
        out.append("-");
        push_decimal(out, (-(i as i128)) as u128);
        assert(out@ =~= old(out)@ + signed_decimal(i as int));
    } else {
        push_decimal(out, i as u128);
    }
}

/// Reading back the digits of a number gives the number.
pub proof fn law_decimal_reads_back(n: nat)
    ensures
        decimal(n).len() > 0,
        all_digits(decimal(n)),
        digits_value(decimal(n)) == n,
    decreases n,
{
    let s = decimal(n);
    if n < 10 {
        assert(s.drop_last() =~= Seq::<char>::empty());
        assert(digits_value(s.drop_last()) == 0);
    } else {
        law_decimal_reads_back(n / 10);
        assert(s.drop_last() =~= decimal(n / 10));
        assert forall|i: int| 0 <= i < s.len() implies is_digit(#[trigger] s[i]) by {
            if i < s.len() - 1 {
                assert(s[i] == decimal(n / 10)[i]);
            }
        }
    }
}

/// Two numbers with the same digits are the same number.
pub proof fn law_decimal_is_injective(a: nat, b: nat)
    requires
        decimal(a) == decimal(b),
    ensures
        a == b,
{
    law_decimal_reads_back(a);
    law_decimal_reads_back(b);
}

/// The numeral written for an `i64` is read as that `i64`.
pub proof fn law_signed_decimal_reads_back(i: i64)
    ensures
        numeral_value(signed_decimal(i as int)) == Some(i as int),
{
    let s = signed_decimal(i as int);
    if i < 0 {
        law_decimal_reads_back((-(i as int)) as nat);
        assert(s.skip(1) =~= decimal((-(i as int)) as nat));
    } else {
        law_decimal_reads_back(i as nat);
        assert(is_digit(s[0]));
    }
}

// Whitespace

/// The characters with the Unicode property `White_Space`.
pub open spec fn is_white_space(c: char) -> bool {
    let code = c as int;
    ||| 0x09 <= code <= 0x0d
    ||| code == 0x20
    ||| code == 0x85
    ||| code == 0xa0
    ||| code == 0x1680
    ||| 0x2000 <= code <= 0x200a
    ||| code == 0x2028
    ||| code == 0x2029
    ||| code == 0x202f
    ||| code == 0x205f
    ||| code == 0x3000
}

/// `s` without its leading whitespace.
pub open spec fn trim_start(s: Seq<char>) -> Seq<char>
    decreases s.len(),
{
    if s.len() > 0 && is_white_space(s[0]) {
        trim_start(s.skip(1))
    } else {
        s
    }
}

/// `s` without its trailing whitespace.
pub open spec fn trim_end(s: Seq<char>) -> Seq<char>
    decreases s.len(),
{
    if s.len() > 0 && is_white_space(s.last()) {
        trim_end(s.drop_last())
    } else {
        s
    }
}

/// `s` without the whitespace at its two ends.
pub open spec fn trimmed(s: Seq<char>) -> Seq<char> {
    trim_end(trim_start(s))
}

fn is_white_space_char(c: char) -> (yes: bool)
    ensures
        yes == is_white_space(c),
{
    let code: u32 = char_code(c);
    (0x09 <= code && code <= 0x0d) || code == 0x20 || code == 0x85 || code == 0xa0 || code == 0x1680
        || (0x2000 <= code && code <= 0x200a) || code == 0x2028 || code == 0x2029 || code == 0x202f
        || code == 0x205f || code == 0x3000
}

/// The bounds of what is left of `chars` once the whitespace at its two ends is gone.
pub fn trim_bounds(chars: &Vec<char>) -> (bounds: (usize, usize))
    ensures
        bounds.0 <= bounds.1 <= chars@.len(),
        chars@.subrange(bounds.0 as int, bounds.1 as int) == trimmed(chars@),
{
    let n: usize = chars.len();
    let mut from: usize = 0;
    assert(chars@.skip(0) =~= chars@);
    while from < n && is_white_space_char(chars[from])
        invariant
            from <= n == chars@.len(),
            trim_start(chars@.skip(from as int)) == trim_start(chars@),
        decreases n - from,
    {
        assert(chars@.skip(from as int).skip(1) =~= chars@.skip(from + 1));
        from += 1;
    }
    let mut to: usize = n;
    assert(chars@.subrange(from as int, n as int) =~= chars@.skip(from as int));
    while from < to && is_white_space_char(chars[to - 1])
        invariant
            from <= to <= n == chars@.len(),
            trim_end(chars@.subrange(from as int, to as int)) == trimmed(chars@),
        decreases to,
    {
        assert(chars@.subrange(from as int, to as int).drop_last() =~= chars@.subrange(
            from as int,
            to - 1,
        ));
        to -= 1;
    }
    (from, to)
}

// Searching

/// The first position of `c` in `s`, or the length of `s` where it does not occur.
pub open spec fn position_of(s: Seq<char>, c: char) -> int
    decreases s.len(),
{
    if s.len() == 0 || s[0] == c {
        0
    } else {
        1 + position_of(s.skip(1), c)
    }
}

/// `word` stands somewhere in `s`.
pub open spec fn mentions(s: Seq<char>, word: Seq<char>) -> bool {
    exists|i: int| 0 <= i <= s.len() - word.len() && #[trigger] s.subrange(i, i + word.len()) == word
}

/// The first position of `c` in `chars[from..to]`, or `to` where it does not occur there.
pub fn find_char(chars: &Vec<char>, from: usize, to: usize, c: char) -> (at: usize)
    requires
        from <= to <= chars@.len(),
    ensures
        from <= at <= to,
        at - from == position_of(chars@.subrange(from as int, to as int), c),
        at < to ==> chars@[at as int] == c,
{
    let ghost s = chars@.subrange(from as int, to as int);
    let mut at: usize = from;
    assert(s.skip(0) =~= s);
    while at < to && chars[at] != c
        invariant
            from <= at <= to <= chars@.len(),
            s == chars@.subrange(from as int, to as int),
            position_of(s, c) == at - from + position_of(s.skip(at - from), c),
        decreases to - at,
    {
        assert(s.skip(at - from).skip(1) =~= s.skip(at - from + 1));
        at += 1;
    }
    at
}

/// Says whether `word` stands somewhere in `s`.
pub fn has_word(s: &str, word: &str) -> (found: bool)
    ensures
        found == mentions(s@, word@),
{
    let chars = chars_of(s);
    let target = chars_of(word);
    let n: usize = chars.len();
    let m: usize = target.len();
    if m == 0 {
        assert(s@.subrange(0, 0 + m) =~= word@);
        return true;
    }
    let mut i: usize = 0;
    while n - i >= m
        invariant
            chars@ == s@,
            target@ == word@,
            n == chars@.len(),
            m == target@.len(),
            m > 0,
            i <= n,
            forall|k: int| 0 <= k < i ==> #[trigger] s@.subrange(k, k + m) != word@,
        decreases n - i,
    {
        let mut j: usize = 0;
        while j < m && chars[i + j] == target[j]
            invariant
                chars@ == s@,
                target@ == word@,
                n == chars@.len(),
                m == target@.len(),
                i + m <= n,
                j <= m,
                forall|k: int| 0 <= k < j ==> chars@[i + k] == #[trigger] target@[k],
            decreases m - j,
        {
            j += 1;
        }
        if j == m {
            assert(s@.subrange(i as int, i + m) =~= word@);
            return true;
        }
        assert(s@.subrange(i as int, i + m)[j as int] != word@[j as int]);
        i += 1;
    }
    false
}

} // verus!
