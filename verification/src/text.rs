//! Numerals and fixed-width text.
use vstd::prelude::*;

verus! {

/// The decimal digit `d`, for `d < 10`.
pub open spec fn digit(d: nat) -> char {
    (48 + d) as char
}

/// The decimal numeral of `n`, without leading zeros.
pub open spec fn decimal(n: nat) -> Seq<char>
    decreases n,
{
    if n < 10 {
        seq![digit(n)]
    } else {
        decimal(n / 10).push(digit(n % 10))
    }
}

/// A run of `n` spaces.
pub open spec fn spaces(n: nat) -> Seq<char> {
    Seq::new(n, |i: int| ' ')
}

/// How many spaces bring a text of `len` characters to `width` characters.
pub open spec fn fill(len: nat, width: nat) -> nat {
    if len < width {
        (width - len) as nat
    } else {
        0
    }
}

/// `s` aligned to the right in a field of `width` characters.
pub open spec fn align_right(s: Seq<char>, width: nat) -> Seq<char> {
    spaces(fill(s.len(), width)) + s
}

/// `s` aligned to the left in a field of `width` characters.
pub open spec fn align_left(s: Seq<char>, width: nat) -> Seq<char> {
    s + spaces(fill(s.len(), width))
}

/// Whether `c` is one of the ten ASCII digits.
pub open spec fn is_digit(c: char) -> bool {
    '0' <= c <= '9'
}

/// The number that the digit `c` stands for.
pub open spec fn digit_value(c: char) -> nat {
    if is_digit(c) {
        (c as nat - 48) as nat
    } else {
        0
    }
}

/// The number that a row of digits stands for, the most significant digit first.
pub open spec fn digits_value(s: Seq<char>) -> nat
    decreases s.len(),
{
    if s.len() == 0 {
        0
    } else {
        10 * digits_value(s.drop_last()) + digit_value(s.last())
    }
}

/// `s` without the plus sign that it may begin with.
pub open spec fn unsigned(s: Seq<char>) -> Seq<char> {
    if s.len() > 0 && s[0] == '+' {
        s.skip(1)
    } else {
        s
    }
}

/// Whether `s` is at least one digit, and nothing else, behind an optional plus sign.
pub open spec fn is_numeral(s: Seq<char>) -> bool {
    &&& unsigned(s).len() > 0
    &&& forall|i: int| 0 <= i < unsigned(s).len() ==> is_digit(#[trigger] unsigned(s)[i])
}

/// The number written in `s`: there is one where `s` is a numeral and the number fits in `usize`.
pub open spec fn parsed_usize(s: Seq<char>) -> Option<usize> {
    if is_numeral(s) && digits_value(unsigned(s)) <= usize::MAX {
        Some(digits_value(unsigned(s)) as usize)
    } else {
        None
    }
}

fn digit_text(d: u64) -> (r: &'static str)
    requires
        d < 10,
    ensures
        r@ == seq![digit(d as nat)],
{
    proof {
        reveal_strlit("0");
        reveal_strlit("1");
        reveal_strlit("2");
        reveal_strlit("3");
        reveal_strlit("4");
        reveal_strlit("5");
        reveal_strlit("6");
        reveal_strlit("7");
        reveal_strlit("8");
        reveal_strlit("9");
    }
    match d {
        0 => "0",
        1 => "1",
        2 => "2",
        3 => "3",
        4 => "4",
        5 => "5",
        6 => "6",
        7 => "7",
        8 => "8",
        _ => "9",
    }
}

/// Appends the decimal numeral of `n`.
pub fn push_decimal(out: &mut String, n: u64)
    ensures
        final(out)@ == old(out)@ + decimal(n as nat),
    decreases n,
{
    if n >= 10 {
        push_decimal(out, n / 10);
    }
    out.append(digit_text(n % 10));
}

/// The decimal numeral of `n`.
pub fn decimal_text(n: u64) -> (r: String)
    ensures
        r@ == decimal(n as nat),
{
    let mut out = String::new();
    push_decimal(&mut out, n);
    out
}

fn push_spaces(out: &mut String, n: usize)
    ensures
        final(out)@ == old(out)@ + spaces(n as nat),
{
    proof {
        reveal_strlit(" ");
    }
    let ghost before = out@;
    let mut i: usize = 0;
    while i < n
        invariant
            i <= n,
            out@ == before + spaces(i as nat),
            " "@ == seq![' '],
        decreases n - i,
    {
        out.append(" ");
        i += 1;
    }
}

/// Appends `s` aligned to the right in a field of `width` characters.
pub fn push_right(out: &mut String, s: &str, width: usize)
    ensures
        final(out)@ == old(out)@ + align_right(s@, width as nat),
{
    let len: usize = s.unicode_len();
    if len < width {
        push_spaces(out, width - len);
    }
    out.append(s);
}

/// Appends `s` aligned to the left in a field of `width` characters.
pub fn push_left(out: &mut String, s: &str, width: usize)
    ensures
        final(out)@ == old(out)@ + align_left(s@, width as nat),
{
    let len: usize = s.unicode_len();
    out.append(s);
    if len < width {
        push_spaces(out, width - len);
    }
}

/// Appends the decimal numeral of `n` aligned to the right in a field of `width` characters.
pub fn push_decimal_right(out: &mut String, n: u64, width: usize)
    ensures
        final(out)@ == old(out)@ + align_right(decimal(n as nat), width as nat),
{
    let numeral = decimal_text(n);
    push_right(out, numeral.as_str(), width);
}

proof fn lemma_prefix_value(s: Seq<char>, i: int)
    requires
        0 <= i <= s.len(),
    ensures
        digits_value(s.take(i)) <= digits_value(s),
    decreases s.len() - i,
{
    if i < s.len() {
        assert(s.take(i + 1).drop_last() =~= s.take(i));
        lemma_prefix_value(s, i + 1);
    } else {
        assert(s.take(i) =~= s);
    }
}

/// The number written in `s`, if `s` is a numeral of a `usize`.
pub fn parse_usize(s: &str) -> (r: Option<usize>)
    ensures
        r == parsed_usize(s@),
{
    let len: usize = s.unicode_len();
    let start: usize = if len > 0 && s.get_char(0) == '+' {
        1
    } else {
        0
    };
    if start == len {
        return None;
    }
    let ghost digits = unsigned(s@);
    let mut value: usize = 0;
    let mut i: usize = start;
    while i < len
        invariant
            start <= i <= len,
            len == s@.len(),
            digits == unsigned(s@),
            digits.len() == len - start,
            forall|k: int| 0 <= k < digits.len() ==> #[trigger] digits[k] == s@[k + start],
            forall|k: int| 0 <= k < i - start ==> is_digit(#[trigger] digits[k]),
            value == digits_value(digits.take(i - start)),
        decreases len - i,
    {
        let c = s.get_char(i);
        assert(digits[i - start] == c);
        if !('0' <= c && c <= '9') {
            return None;
        }
        let d: usize = (c as u32 - 48) as usize;
        proof {
            assert(digits.take(i - start + 1).drop_last() =~= digits.take(i - start));
            lemma_prefix_value(digits, i - start + 1);
        }
        if value > (usize::MAX - d) / 10 {
            return None;
        }
        value = 10 * value + d;
        i += 1;
    }
    proof {
        assert(digits.take(len - start) =~= digits);
    }
    Some(value)
}

/// A numeral is a row of digits, and stands for its number.
pub(crate) proof fn lemma_decimal_is_digits(n: nat)
    ensures
        decimal(n).len() > 0,
        forall|i: int| 0 <= i < decimal(n).len() ==> is_digit(#[trigger] decimal(n)[i]),
        digits_value(decimal(n)) == n,
    decreases n,
{
    if n < 10 {
        assert(decimal(n).drop_last() =~= Seq::<char>::empty());
        assert(digits_value(Seq::<char>::empty()) == 0);
    } else {
        lemma_decimal_is_digits(n / 10);
        assert(decimal(n).drop_last() =~= decimal(n / 10));
    }
}

/// A numeral has no more digits than the number is large.
pub(crate) proof fn lemma_decimal_is_short(n: nat)
    ensures
        decimal(n).len() <= n + 1,
    decreases n,
{
    if n >= 10 {
        lemma_decimal_is_short(n / 10);
    }
}

/// A numeral that this library writes is read back as the number that it was written for.
pub proof fn law_numeral_round_trip(n: usize)
    ensures
        parsed_usize(decimal(n as nat)) == Some(n),
{
    lemma_decimal_is_digits(n as nat);
    assert(is_digit(decimal(n as nat)[0]));
}

/// Two numbers with the same numeral are the same number.
pub proof fn law_numerals_differ(m: nat, n: nat)
    requires
        decimal(m) == decimal(n),
    ensures
        m == n,
{
    lemma_decimal_is_digits(m);
    lemma_decimal_is_digits(n);
}

/// Ten times a number and a digit more is written with that digit behind the number.
pub proof fn law_numerals_grow_by_a_digit(n: nat, d: nat)
    requires
        d < 10,
    ensures
        decimal(d) == seq!["0123456789"@[d as int]],
        n > 0 ==> decimal(10 * n + d) == decimal(n).push("0123456789"@[d as int]),
{
    reveal_strlit("0123456789");
    assert(digit(d) == "0123456789"@[d as int]);
    assert(decimal(d) =~= seq![digit(d)]);
    if n > 0 {
        assert((10 * n + d) / 10 == n);
        assert((10 * n + d) % 10 == d);
    }
}

/// Text that is aligned stands at its side of the field, with spaces on the other side, and is not
/// cut off where it is longer than the field.
pub proof fn law_aligned_text(s: Seq<char>, width: nat)
    ensures
        ({
            let len = if s.len() < width {
                width
            } else {
                s.len()
            };
            let right = align_right(s, width);
            let left = align_left(s, width);
            &&& right.len() == len
            &&& right.subrange(len - s.len(), len as int) == s
            &&& forall|i: int| 0 <= i < len - s.len() ==> #[trigger] right[i] == ' '
            &&& left.len() == len
            &&& left.subrange(0, s.len() as int) == s
            &&& forall|i: int| s.len() <= i < len ==> #[trigger] left[i] == ' '
        }),
{
    let right = align_right(s, width);
    let left = align_left(s, width);
    assert(right.subrange(right.len() - s.len(), right.len() as int) =~= s);
    assert(left.subrange(0, s.len() as int) =~= s);
}

/// A run of `n` zeros.
pub open spec fn zeros(n: nat) -> Seq<char> {
    Seq::new(n, |i: int| '0')
}

proof fn lemma_leading_zeros(n: nat, s: Seq<char>)
    ensures
        digits_value(zeros(n) + s) == digits_value(s),
    decreases n + s.len(),
{
    let all = zeros(n) + s;
    if s.len() > 0 {
        assert(all.drop_last() =~= zeros(n) + s.drop_last());
        lemma_leading_zeros(n, s.drop_last());
    } else if n > 0 {
        assert(all.drop_last() =~= zeros((n - 1) as nat) + s);
        lemma_leading_zeros((n - 1) as nat, s);
    } else {
        assert(all =~= s);
    }
}

proof fn lemma_digits_are_a_numeral(s: Seq<char>)
    requires
        s.len() > 0,
        forall|i: int| 0 <= i < s.len() ==> is_digit(#[trigger] s[i]),
    ensures
        decimal(digits_value(s)).len() <= s.len(),
        s == zeros((s.len() - decimal(digits_value(s)).len()) as nat) + decimal(digits_value(s)),
    decreases s.len(),
{
    let value = digits_value(s);
    let d = digit_value(s.last());
    assert(is_digit(s.last()));
    assert(digit(d) == s.last());
    if s.len() == 1 {
        assert(s.drop_last() =~= Seq::<char>::empty());
        assert(digits_value(s.drop_last()) == 0);
        assert(s =~= zeros(0) + decimal(value));
    } else {
        let front = s.drop_last();
        let before = digits_value(front);
        assert forall|i: int| 0 <= i < front.len() implies is_digit(#[trigger] front[i]) by {
            assert(front[i] == s[i]);
        }
        lemma_digits_are_a_numeral(front);
        assert(value / 10 == before);
        assert(value % 10 == d);
        if before == 0 {
            assert(front =~= zeros(front.len()));
            assert(s =~= zeros((s.len() - 1) as nat) + decimal(value));
        } else {
            let leading = (front.len() - decimal(before).len()) as nat;
            assert(decimal(value) == decimal(before).push(digit(d)));
            assert(s.len() - decimal(value).len() == leading);
            assert(s =~= front.push(s.last()));
            assert(s =~= zeros(leading) + decimal(before).push(digit(d)));
        }
    }
}

/// A numeral is read as its number, also with zeros before it, and with a plus sign before those.
pub proof fn law_numerals_are_read(n: usize, leading: nat)
    ensures
        parsed_usize(zeros(leading) + decimal(n as nat)) == Some(n),
        parsed_usize(seq!['+'] + zeros(leading) + decimal(n as nat)) == Some(n),
{
    let digits = zeros(leading) + decimal(n as nat);
    let signed = seq!['+'] + zeros(leading) + decimal(n as nat);
    lemma_decimal_is_digits(n as nat);
    lemma_leading_zeros(leading, decimal(n as nat));
    assert forall|i: int| 0 <= i < digits.len() implies is_digit(#[trigger] digits[i]) by {
        if i >= leading {
            assert(digits[i] == decimal(n as nat)[i - leading]);
        }
    }
    assert(is_digit(digits[0]));
    assert(signed.skip(1) =~= digits);
}

/// Nothing else is read: a text that is read as a number is its numeral, perhaps with zeros before
/// it, and perhaps with a plus sign before those.
pub proof fn law_only_numerals_are_read(s: Seq<char>, n: usize)
    requires
        parsed_usize(s) == Some(n),
    ensures
        exists|leading: nat|
            s == #[trigger] zeros(leading) + decimal(n as nat) || s == seq!['+'] + zeros(leading)
                + decimal(n as nat),
{
    let digits = unsigned(s);
    lemma_digits_are_a_numeral(digits);
    let leading = (digits.len() - decimal(n as nat).len()) as nat;
    assert(digits == zeros(leading) + decimal(n as nat));
    if s[0] == '+' {
        assert(s =~= seq!['+'] + digits);
        assert(s =~= seq!['+'] + (zeros(leading) + decimal(n as nat)));
        assert(s =~= seq!['+'] + zeros(leading) + decimal(n as nat));
    }
}

} // verus!
