//! Text of numbers and lists: the pieces that URLs, settings and metric lines are made of.

use vstd::prelude::*;

verus! {

/// The character of the decimal digit `d`.
pub open spec fn digit_char(d: int) -> char {
    ('0' as int + d) as char
}

/// Whether `c` is one of `0` to `9`.
pub open spec fn is_digit(c: char) -> bool {
    '0' <= c && c <= '9'
}

/// The value of the decimal digit `c`.
pub open spec fn digit_value(c: char) -> int {
    c as int - '0' as int
}

/// `n` in base 10, without leading zeros.
pub open spec fn decimal(n: nat) -> Seq<char>
    decreases n,
{
    if n < 10 {
        seq![digit_char(n as int)]
    } else {
        decimal(n / 10).push(digit_char((n % 10) as int))
    }
}

/// `i` in base 10, with a leading `-` where it is negative.
pub open spec fn signed_decimal(i: int) -> Seq<char> {
    if i < 0 {
        seq!['-'] + decimal((-i) as nat)
    } else {
        decimal(i as nat)
    }
}

/// The number that a string of digits writes in base 10 (the empty string: 0).
pub open spec fn digits_value(s: Seq<char>) -> int
    decreases s.len(),
{
    if s.len() == 0 {
        0
    } else {
        10 * digits_value(s.drop_last()) + digit_value(s.last())
    }
}

/// Whether `s` holds digits only.
pub open spec fn all_digits(s: Seq<char>) -> bool {
    forall|i: int| 0 <= i < s.len() ==> is_digit(#[trigger] s[i])
}

/// `s` without its leading `+`, where it has one.
pub open spec fn without_plus(s: Seq<char>) -> Seq<char> {
    if s.len() > 0 && s[0] == '+' {
        s.skip(1)
    } else {
        s
    }
}

/// The unsigned number that `s` spells: an optional `+`, then one digit or more, and
/// nothing else. `None` where `s` is anything else.
pub open spec fn unsigned_number(s: Seq<char>) -> Option<nat> {
    let digits = without_plus(s);
    if digits.len() > 0 && all_digits(digits) {
        Some(digits_value(digits) as nat)
    } else {
        None
    }
}

/// The one-character string of a digit.
fn digit_str(d: u64) -> (s: &'static str)
    requires
        d < 10,
    ensures
        s@ == seq![digit_char(d as int)],
{
    proof {
        reveal_strlit("0");
        reveal_strlit("1");
        reveal_strlit("2");
        reveal_strlit("3");
        reveal_strlit("4");
        reveal_strlit("5");
        reveal_strlit("6");
        reveal_strlit("7");
        reveal_strlit("8");
        reveal_strlit("9");
    }
    let s = match d {
        0 => "0",
        1 => "1",
        2 => "2",
        3 => "3",
        4 => "4",
        5 => "5",
        6 => "6",
        7 => "7",
        8 => "8",
        _ => "9",
    };
    assert(s@ =~= seq![digit_char(d as int)]);
    s
}

/// Writes `n` in base 10.
pub(crate) fn decimal_string(n: u64) -> (s: String)
    ensures
        s@ == decimal(n as nat),
    decreases n,
{
    if n < 10 {
        String::from_str(digit_str(n))
    } else {
        let mut s = decimal_string(n / 10);
        s.append(digit_str(n % 10));
        assert(s@ =~= decimal(n as nat));
        s
    }
}

/// Writes `i` in base 10.
pub(crate) fn signed_decimal_string(i: i64) -> (s: String)
    ensures
        s@ == signed_decimal(i as int),
{
    if i < 0 {
        let magnitude: i128 = -(i as i128);
        let digits = decimal_string(magnitude as u64);
        proof {
            reveal_strlit("-");
        }
        let s = String::from_str("-").concat(digits.as_str());
        assert(s@ =~= signed_decimal(i as int));
        s
    } else {
        decimal_string(i as u64)
    }
}

/// Dropping characters at the end of a string of digits does not raise its value.
proof fn lemma_prefix_value(s: Seq<char>, k: int)
    requires
        all_digits(s),
        0 <= k <= s.len(),
    ensures
        0 <= digits_value(s.take(k)) <= digits_value(s),
    decreases s.len(),
{
    if s.len() == 0 {
        assert(s.take(k) =~= s);
    } else {
        assert(is_digit(s[s.len() - 1]));
        assert(forall|i: int| 0 <= i < s.drop_last().len() ==> s.drop_last()[i] == s[i]);
        if k == s.len() {
            assert(s.take(k) =~= s);
            lemma_prefix_value(s.drop_last(), k - 1);
        } else {
            lemma_prefix_value(s.drop_last(), k);
            assert(s.drop_last().take(k) =~= s.take(k));
        }
    }
}

/// Reads an unsigned number of at most `max`: an optional `+`, then digits. `None` where the
/// text is anything else, or the number is larger than `max`.
pub(crate) fn parse_unsigned(s: &str, max: u64) -> (n: Option<u64>)
    ensures
        match unsigned_number(s@) {
            Some(value) if value <= max => n == Some(value as u64),
            _ => n is None,
        },
{
    let len: usize = s.unicode_len();
    let start: usize = if len > 0 && s.get_char(0) == '+' {
        1
    } else {
        0
    };
    let ghost digits = without_plus(s@);
    assert(digits =~= s@.skip(start as int));
    if start == len {
        return None;
    }
    let mut value: u64 = 0;
    let mut i: usize = start;
    assert(digits.take(0) =~= Seq::<char>::empty());
    while i < len
        invariant
            len == s@.len(),
            start <= i <= len,
            start <= 1,
            digits == s@.skip(start as int),
            digits == without_plus(s@),
            digits.len() > 0,
            all_digits(digits.take(i - start)),
            value == digits_value(digits.take(i - start)),
            value <= max,
        decreases len - i,
    {
        let c = s.get_char(i);
        let ghost k = i - start;
        assert(c == digits[k]);
        if c < '0' || c > '9' {
            assert(!all_digits(digits));
            return None;
        }
        let digit: u64 = (c as u32 - '0' as u32) as u64;
        let next: u128 = 10 * (value as u128) + digit as u128;
        proof {
            assert(digits.take(k + 1).drop_last() =~= digits.take(k));
            assert(digits.take(k + 1).last() == digits[k]);
            assert(next == digits_value(digits.take(k + 1)));
            assert forall|j: int| 0 <= j < k + 1 implies is_digit(#[trigger] digits.take(k + 1)[j]) by {
                if j < k {
                    assert(is_digit(digits.take(k)[j]));
                }
            }
        }
        if next > max as u128 {
            proof {
                if all_digits(digits) {
                    lemma_prefix_value(digits, k + 1);
                }
            }
            return None;
        }
        value = next as u64;
        i = i + 1;
    }
    assert(digits.take(len - start) =~= digits);
    Some(value)
}

/// The decimal form of a number holds digits only, at least one, and spells that number.
pub proof fn law_decimal_spells_number(n: nat)
    ensures
        decimal(n).len() > 0,
        all_digits(decimal(n)),
        digits_value(decimal(n)) == n,
    decreases n,
{
    if n < 10 {
        assert(decimal(n).drop_last() =~= Seq::<char>::empty());
        assert(digits_value(decimal(n).drop_last()) == 0);
    } else {
        law_decimal_spells_number(n / 10);
        assert(decimal(n).drop_last() =~= decimal(n / 10));
        assert forall|i: int| 0 <= i < decimal(n).len() implies is_digit(#[trigger] decimal(n)[i]) by {
            if i < decimal(n / 10).len() {
                assert(is_digit(decimal(n / 10)[i]));
            }
        }
    }
}

/// Reading the decimal form of a number gives that number back.
pub proof fn law_decimal_reads_back(n: nat)
    ensures
        unsigned_number(decimal(n)) == Some(n),
{
    law_decimal_spells_number(n);
    assert(is_digit(decimal(n)[0]));
    assert(without_plus(decimal(n)) == decimal(n));
}

/// Two numbers with the same signed decimal form are the same number.
pub proof fn law_signed_decimal_injective(a: int, b: int)
    requires
        signed_decimal(a) == signed_decimal(b),
    ensures
        a == b,
{
    let magnitude = |i: int| if i < 0 { -i } else { i };
    law_decimal_spells_number(magnitude(a) as nat);
    law_decimal_spells_number(magnitude(b) as nat);
    let sa = signed_decimal(a);
    let sb = signed_decimal(b);
    assert(a >= 0 ==> is_digit(sa[0]));
    assert(b >= 0 ==> is_digit(sb[0]));
    assert(a < 0 ==> sa[0] == '-');
    assert(b < 0 ==> sb[0] == '-');
    if a < 0 {
        assert(sa.skip(1) =~= decimal((-a) as nat));
        assert(sb.skip(1) =~= decimal((-b) as nat));
    }
}

/// The parts in order, with `separator` between each two neighbours.
pub open spec fn join(parts: Seq<Seq<char>>, separator: char) -> Seq<char>
    decreases parts.len(),
{
    if parts.len() == 0 {
        Seq::empty()
    } else if parts.len() == 1 {
        parts[0]
    } else {
        parts[0].push(separator) + join(parts.skip(1), separator)
    }
}

/// Adding a part at the end adds the separator (but for the first part) and that part.
pub proof fn lemma_join_push(parts: Seq<Seq<char>>, last: Seq<char>, separator: char)
    ensures
        join(parts.push(last), separator) == if parts.len() == 0 {
            last
        } else {
            join(parts, separator).push(separator) + last
        },
    decreases parts.len(),
{
    if parts.len() == 0 {
        assert(parts.push(last)[0] == last);
    } else {
        let rest = parts.skip(1);
        assert(parts.push(last).skip(1) =~= rest.push(last));
        lemma_join_push(rest, last, separator);
        if parts.len() > 1 {
            assert(join(parts.push(last), separator) =~= join(parts, separator).push(separator)
                + last);
        } else {
            assert(join(parts.push(last), separator) =~= parts[0].push(separator) + last);
        }
    }
}

/// Whether `part` can be told apart in a joined list: it is not empty and does not hold the
/// separator.
pub open spec fn is_list_part(part: Seq<char>, separator: char) -> bool {
    part.len() > 0 && !part.contains(separator)
}

/// A joined list can be taken apart again: two lists with the same joined text are the same
/// list, as long as no part is empty or holds the separator.
pub proof fn law_join_injective(a: Seq<Seq<char>>, b: Seq<Seq<char>>, separator: char)
    requires
        forall|i: int| 0 <= i < a.len() ==> is_list_part(#[trigger] a[i], separator),
        forall|i: int| 0 <= i < b.len() ==> is_list_part(#[trigger] b[i], separator),
        join(a, separator) == join(b, separator),
    ensures
        a == b,
    decreases a.len(),
{
    let text = join(a, separator);
    if a.len() == 0 || b.len() == 0 {
        assert(a.len() > 0 ==> is_list_part(a[0], separator));
        assert(b.len() > 0 ==> is_list_part(b[0], separator));
        assert(a.len() > 0 ==> join(a, separator).len() >= a[0].len());
        assert(b.len() > 0 ==> join(b, separator).len() >= b[0].len());
        assert(a =~= b);
    } else {
        let n = a[0].len() as int;
        let m = b[0].len() as int;
        assert(is_list_part(a[0], separator) && is_list_part(b[0], separator));
        assert(forall|i: int| 0 <= i < n ==> text[i] == a[0][i]);
        assert(forall|i: int| 0 <= i < m ==> text[i] == b[0][i]);
        assert(a.len() > 1 ==> text[n] == separator);
        assert(b.len() > 1 ==> text[m] == separator);
        assert(a.len() == 1 ==> text.len() == n);
        assert(b.len() == 1 ==> text.len() == m);
        assert(text.len() >= n && text.len() >= m);
        if n < m {
            assert(text[n] == b[0][n]);
            assert(b[0].contains(b[0][n]));
        }
        if m < n {
            assert(text[m] == a[0][m]);
            assert(a[0].contains(a[0][m]));
        }
        assert forall|i: int| 0 <= i < n implies a[0][i] == b[0][i] by {
            assert(text[i] == a[0][i]);
        }
        assert(a[0] =~= b[0]);
        if a.len() > 1 && b.len() > 1 {
            let ra = a.skip(1);
            let rb = b.skip(1);
            assert(text.skip(n + 1) =~= join(ra, separator));
            assert(text.skip(n + 1) =~= join(rb, separator));
            assert(forall|i: int| 0 <= i < ra.len() ==> ra[i] == a[i + 1]);
            assert(forall|i: int| 0 <= i < rb.len() ==> rb[i] == b[i + 1]);
            law_join_injective(ra, rb, separator);
            assert(a =~= seq![a[0]] + ra);
            assert(b =~= seq![b[0]] + rb);
        } else {
            assert(a =~= b);
        }
    }
}

/// The decimal form of a number gives its digits by position: the character at place `i` from
/// the left has the code of `0` plus the digit of the power of ten at that place. There are as
/// many characters as the number needs, and no more.
pub proof fn law_decimal_by_position(n: nat)
    ensures
        decimal(n).len() > 0,
        n < vstd::arithmetic::power::pow(10, decimal(n).len()),
        decimal(n).len() > 1 ==> n >= vstd::arithmetic::power::pow(
            10,
            (decimal(n).len() - 1) as nat,
        ),
        forall|i: int|
            0 <= i < decimal(n).len() ==> #[trigger] decimal(n)[i] as int == 48 + (n as int
                / vstd::arithmetic::power::pow(10, (decimal(n).len() - 1 - i) as nat)) % 10,
    decreases n,
{
    vstd::arithmetic::power::lemma_pow0(10);
    vstd::arithmetic::power::lemma_pow1(10);
    let text = decimal(n);
    if n >= 10 {
        let front = decimal(n / 10);
        law_decimal_by_position(n / 10);
        reveal_with_fuel(vstd::arithmetic::power::pow, 2);
        assert(vstd::arithmetic::power::pow(10, text.len()) == 10 * vstd::arithmetic::power::pow(
            10,
            front.len(),
        ));
        if front.len() > 1 {
            assert(vstd::arithmetic::power::pow(10, front.len()) == 10
                * vstd::arithmetic::power::pow(10, (front.len() - 1) as nat));
        }
        assert forall|i: int| 0 <= i < text.len() implies #[trigger] text[i] as int == 48 + (n as int
            / vstd::arithmetic::power::pow(10, (text.len() - 1 - i) as nat)) % 10 by {
            if i < front.len() {
                let k = (front.len() - 1 - i) as nat;
                let p = vstd::arithmetic::power::pow(10, k);
                vstd::arithmetic::power::lemma_pow_positive(10, k);
                assert(text[i] == front[i]);
                assert(vstd::arithmetic::power::pow(10, k + 1) == 10 * p);
                vstd::arithmetic::div_mod::lemma_div_denominator(n as int, 10, p);
            }
        }
    }
}

/// A negative number is written as a minus sign and the decimal form of its absolute value,
/// every other number as its decimal form.
pub proof fn law_signed_decimal_sign(n: nat)
    ensures
        signed_decimal(n as int) == decimal(n),
        n > 0 ==> signed_decimal(-(n as int)) == seq!['-'] + decimal(n),
{
}

/// Reading a number goes digit by digit: a single digit gives its value, and one more digit at
/// the end makes ten times the number, plus the digit.
pub proof fn law_number_digit_by_digit(text: Seq<char>, digit: char)
    requires
        '0' <= digit && digit <= '9',
    ensures
        unsigned_number(seq![digit]) == Some((digit as int - 48) as nat),
        unsigned_number(text) matches Some(n) ==> unsigned_number(text.push(digit)) == Some(
            (10 * n + (digit as int - 48)) as nat,
        ),
{
    let one = seq![digit];
    assert(without_plus(one) == one);
    assert(one.drop_last() =~= Seq::empty());
    assert(digits_value(one.drop_last()) == 0);
    assert(digits_value(one) == digit as int - 48);
    if unsigned_number(text) is Some {
        let digits = without_plus(text);
        let longer = text.push(digit);
        assert(without_plus(longer) =~= digits.push(digit));
        assert(digits.push(digit).drop_last() =~= digits);
        lemma_prefix_value(digits, 0);
        assert forall|i: int| 0 <= i < digits.push(digit).len() implies is_digit(
            #[trigger] digits.push(digit)[i],
        ) by {
            if i < digits.len() {
                assert(is_digit(digits[i]));
            }
        }
    }
}

/// A leading `+` changes nothing. No text is a number that is empty, a `+` alone, or holds
/// anything but digits (a `+` at the front aside).
pub proof fn law_number_of_digits_only(text: Seq<char>)
    ensures
        text.len() == 0 ==> unsigned_number(text) is None,
        text =~= seq!['+'] ==> unsigned_number(text) is None,
        text.len() > 0 && text[0] != '+' ==> unsigned_number(seq!['+'] + text) == unsigned_number(
            text,
        ),
        (exists|i: int|
            0 <= i < text.len() && !('0' <= #[trigger] text[i] && text[i] <= '9') && !(i == 0
                && text[i] == '+')) ==> unsigned_number(text) is None,
{
    let digits = without_plus(text);
    if text.len() > 0 && text[0] != '+' {
        assert((seq!['+'] + text).skip(1) =~= text);
    }
    if exists|i: int|
        0 <= i < text.len() && !('0' <= #[trigger] text[i] && text[i] <= '9') && !(i == 0
            && text[i] == '+') {
        let i = choose|i: int|
            0 <= i < text.len() && !('0' <= #[trigger] text[i] && text[i] <= '9') && !(i == 0
                && text[i] == '+');
        if text[0] == '+' {
            assert(digits[i - 1] == text[i]);
            assert(!is_digit(digits[i - 1]));
        } else {
            assert(!is_digit(digits[i]));
        }
    }
}

/// Joining nothing gives nothing, joining one part gives that part, and a further part comes
/// last, after the separator.
pub proof fn law_join_part_by_part(parts: Seq<Seq<char>>, last: Seq<char>, separator: char)
    ensures
        join(Seq::empty(), separator) == Seq::<char>::empty(),
        join(seq![last], separator) == last,
        parts.len() > 0 ==> join(parts.push(last), separator) == join(parts, separator) + seq![
            separator,
        ] + last,
{
    lemma_join_push(parts, last, separator);
    if parts.len() > 0 {
        assert(join(parts, separator).push(separator) + last =~= join(parts, separator) + seq![
            separator,
        ] + last);
    }
}

} // verus!
