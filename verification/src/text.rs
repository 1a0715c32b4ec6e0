//! Text primitives shared by the rest of the crate: decimal rendering of
//! integers and the character classes the parsers agree on.

use vstd::prelude::*;
use vstd::utf8::encode_utf8_decode_utf8;

verus! {

/// The character that writes the digit `d` (`d < 10`).
pub open spec fn digit_char(d: nat) -> char {
    if d == 0 {
        '0'
    } else if d == 1 {
        '1'
    } else if d == 2 {
        '2'
    } else if d == 3 {
        '3'
    } else if d == 4 {
        '4'
    } else if d == 5 {
        '5'
    } else if d == 6 {
        '6'
    } else if d == 7 {
        '7'
    } else if d == 8 {
        '8'
    } else {
        '9'
    }
}

/// Whether `c` is one of the ten ASCII digits.
pub open spec fn is_digit(c: char) -> bool {
    c == '0' || c == '1' || c == '2' || c == '3' || c == '4' || c == '5' || c == '6' || c == '7'
        || c == '8' || c == '9'
}

/// The number that the digit `c` stands for; 0 for any other character.
pub open spec fn digit_value(c: char) -> nat {
    if c == '1' {
        1
    } else if c == '2' {
        2
    } else if c == '3' {
        3
    } else if c == '4' {
        4
    } else if c == '5' {
        5
    } else if c == '6' {
        6
    } else if c == '7' {
        7
    } else if c == '8' {
        8
    } else if c == '9' {
        9
    } else {
        0
    }
}

/// The number written by a run of digits, most significant first.
pub open spec fn decimal_value(s: Seq<char>) -> nat
    decreases s.len(),
{
    if s.len() == 0 {
        0
    } else {
        decimal_value(s.drop_last()) * 10 + digit_value(s.last())
    }
}

/// Whether every character of `s` is a digit.
pub open spec fn all_digits(s: Seq<char>) -> bool {
    forall|i: int| 0 <= i < s.len() ==> is_digit(#[trigger] s[i])
}

/// The shortest decimal numeral for `n`: no sign, no leading zero except for
/// zero itself.
pub open spec fn decimal_text(n: nat) -> Seq<char>
    decreases n,
{
    if n < 10 {
        seq![digit_char(n)]
    } else {
        decimal_text(n / 10).push(digit_char(n % 10))
    }
}

/// A numeral is never empty and holds digits only.
pub proof fn lemma_decimal_text_digits(n: nat)
    ensures
        decimal_text(n).len() >= 1,
        all_digits(decimal_text(n)),
    decreases n,
{
    if n >= 10 {
        lemma_decimal_text_digits(n / 10);
    }
}

/// Reading a numeral back gives the number it was written for.
pub proof fn lemma_decimal_round_trip(n: nat)
    ensures
        decimal_value(decimal_text(n)) == n,
    decreases n,
{
    if n < 10 {
        let s = decimal_text(n);
        assert(s.drop_last() =~= Seq::<char>::empty());
        assert(decimal_value(s.drop_last()) == 0);
    } else {
        lemma_decimal_round_trip(n / 10);
        let s = decimal_text(n);
        assert(s.drop_last() =~= decimal_text(n / 10));
    }
}

fn digit_str(d: u8) -> (r: &'static str)
    requires
        d < 10,
    ensures
        r@ == seq![digit_char(d as nat)],
{
    proof {
        reveal_strlit("0");
        reveal_strlit("1");
        reveal_strlit("2");
        reveal_strlit("3");
        reveal_strlit("4");
        reveal_strlit("5");
        reveal_strlit("6");
        reveal_strlit("7");
        reveal_strlit("8");
        reveal_strlit("9");
    }
    let r = if d == 0 {
        "0"
    } else if d == 1 {
        "1"
    } else if d == 2 {
        "2"
    } else if d == 3 {
        "3"
    } else if d == 4 {
        "4"
    } else if d == 5 {
        "5"
    } else if d == 6 {
        "6"
    } else if d == 7 {
        "7"
    } else if d == 8 {
        "8"
    } else {
        "9"
    };
    assert(r@ =~= seq![digit_char(d as nat)]);
    r
}

/// Writes `n` in decimal.
pub fn decimal_string(n: u64) -> (r: String)
    ensures
        r@ == decimal_text(n as nat),
    decreases n,
{
    if n < 10 {
        String::from_str(digit_str(n as u8))
    } else {
        let mut s = decimal_string(n / 10);
        s.append(digit_str((n % 10) as u8));
        assert(s@ =~= decimal_text(n as nat));
        s
    }
}

/// The characters of `s`, one by one.
pub fn chars_of(s: &str) -> (v: Vec<char>)
    ensures
        v@ == s@,
{
    let mut v: Vec<char> = Vec::new();
    for c in it: s.chars()
        invariant
            v@ == it.seq().take(it.index()),
            it.seq() == s@,
    {
        v.push(c);
    }
    v
}

/// The characters of `text` from place `from` up to, not including, place
/// `to`, as a string.
pub fn slice_string(text: &str, from: usize, to: usize) -> (r: String)
    requires
        from <= to <= text@.len(),
    ensures
        r@ == text@.subrange(from as int, to as int),
{
    text.substring_char(from, to).to_owned()
}

/// Whether `c` is white space, as Unicode defines it: the space, the
/// controls from tab to carriage return, next line, the no-break spaces, and
/// the spaces and line separators of the general punctuation block.
pub open spec fn is_space(c: char) -> bool {
    let n = c as u32;
    n == 0x20 || 0x09 <= n <= 0x0D || n == 0x85 || n == 0xA0 || n == 0x1680 || 0x2000 <= n
        <= 0x200A || n == 0x2028 || n == 0x2029 || n == 0x202F || n == 0x205F || n == 0x3000
}

/// `s` without the white space it starts with.
pub open spec fn trim_start(s: Seq<char>) -> Seq<char>
    decreases s.len(),
{
    if s.len() > 0 && is_space(s[0]) {
        trim_start(s.drop_first())
    } else {
        s
    }
}

/// `s` without the white space it ends with.
pub open spec fn trim_end(s: Seq<char>) -> Seq<char>
    decreases s.len(),
{
    if s.len() > 0 && is_space(s.last()) {
        trim_end(s.drop_last())
    } else {
        s
    }
}

/// `s` without the white space around it.
pub open spec fn trimmed(s: Seq<char>) -> Seq<char> {
    trim_end(trim_start(s))
}

/// The place of the first `c` in `s`; the length of `s` if there is none.
pub open spec fn first_index(s: Seq<char>, c: char) -> int
    decreases s.len(),
{
    if s.len() == 0 {
        0
    } else if s[0] == c {
        0
    } else {
        1 + first_index(s.drop_first(), c)
    }
}

/// What [`first_index`] finds: a place within `s`, or its end, with no `c`
/// before it and, unless it is the end, `c` at it.
pub proof fn lemma_first_index(s: Seq<char>, c: char)
    ensures
        0 <= first_index(s, c) <= s.len(),
        forall|k: int| 0 <= k < first_index(s, c) ==> s[k] != c,
        first_index(s, c) < s.len() ==> s[first_index(s, c)] == c,
    decreases s.len(),
{
    if s.len() > 0 && s[0] != c {
        let rest = s.drop_first();
        lemma_first_index(rest, c);
        let r = first_index(rest, c);
        assert forall|k: int| 0 <= k < 1 + r implies s[k] != c by {
            if k > 0 {
                assert(rest[k - 1] == s[k]);
            }
        }
        if 1 + r < s.len() {
            assert(rest[r] == s[1 + r]);
        }
    }
}

/// Only one place is as [`lemma_first_index`] says.
pub proof fn lemma_first_index_is(s: Seq<char>, c: char, i: int)
    requires
        0 <= i <= s.len(),
        forall|k: int| 0 <= k < i ==> s[k] != c,
        i < s.len() ==> s[i] == c,
    ensures
        first_index(s, c) == i,
{
    lemma_first_index(s, c);
}

fn is_blank(c: char) -> (r: bool)
    ensures
        r == is_space(c),
{
    let n = c as u32;
    n == 0x20 || (0x09 <= n && n <= 0x0D) || n == 0x85 || n == 0xA0 || n == 0x1680 || (0x2000 <= n
        && n <= 0x200A) || n == 0x2028 || n == 0x2029 || n == 0x202F || n == 0x205F || n == 0x3000
}

/// Finds the first `c` among the characters of `chars` from place `from` up
/// to place `to`; gives `to` if there is none.
pub fn find_from(chars: &Vec<char>, from: usize, to: usize, c: char) -> (r: usize)
    requires
        from <= to <= chars.len(),
    ensures
        from <= r <= to,
        r - from == first_index(chars@.subrange(from as int, to as int), c),
{
    let mut i = from;
    while i < to && chars[i] != c
        invariant
            from <= i <= to <= chars.len(),
            forall|k: int| from <= k < i ==> chars@[k] != c,
        decreases to - i,
    {
        i += 1;
    }
    proof {
        lemma_first_index_is(chars@.subrange(from as int, to as int), c, i - from);
    }
    i
}

/// Narrows the range from `from` to `to` of `chars` to what is left of it
/// without the white space around it.
pub fn trim_range(chars: &Vec<char>, from: usize, to: usize) -> (r: (usize, usize))
    requires
        from <= to <= chars.len(),
    ensures
        from <= r.0 <= r.1 <= to,
        chars@.subrange(r.0 as int, r.1 as int) == trimmed(
            chars@.subrange(from as int, to as int),
        ),
{
    let mut a = from;
    while a < to && is_blank(chars[a])
        invariant
            from <= a <= to <= chars.len(),
            trim_start(chars@.subrange(from as int, to as int)) == trim_start(
                chars@.subrange(a as int, to as int),
            ),
        decreases to - a,
    {
        assert(chars@.subrange(a as int, to as int).drop_first() =~= chars@.subrange(
            a + 1,
            to as int,
        ));
        a += 1;
    }
    let mut b = to;
    while b > a && is_blank(chars[b - 1])
        invariant
            a <= b <= to <= chars.len(),
            trim_end(chars@.subrange(a as int, to as int)) == trim_end(
                chars@.subrange(a as int, b as int),
            ),
        decreases b - a,
    {
        assert(chars@.subrange(a as int, b as int).drop_last() =~= chars@.subrange(
            a as int,
            b - 1,
        ));
        b -= 1;
    }
    (a, b)
}

/// `s` without any `c`.
pub open spec fn without(s: Seq<char>, c: char) -> Seq<char>
    decreases s.len(),
{
    if s.len() == 0 {
        s
    } else if s.last() == c {
        without(s.drop_last(), c)
    } else {
        without(s.drop_last(), c).push(s.last())
    }
}

/// Taking `c` out of a text that has none changes nothing.
pub proof fn lemma_without_absent(s: Seq<char>, c: char)
    requires
        forall|i: int| 0 <= i < s.len() ==> s[i] != c,
    ensures
        without(s, c) == s,
    decreases s.len(),
{
    if s.len() > 0 {
        lemma_without_absent(s.drop_last(), c);
        assert(s.drop_last().push(s.last()) =~= s);
    }
}

/// Copies the characters of `chars` from place `from` up to place `to`,
/// leaving out every `c`.
pub fn strip_char(chars: &Vec<char>, from: usize, to: usize, c: char) -> (r: Vec<char>)
    requires
        from <= to <= chars.len(),
    ensures
        r@ == without(chars@.subrange(from as int, to as int), c),
{
    let mut out: Vec<char> = Vec::new();
    let mut i = from;
    assert(out@ =~= without(chars@.subrange(from as int, from as int), c));
    while i < to
        invariant
            from <= i <= to <= chars.len(),
            out@ == without(chars@.subrange(from as int, i as int), c),
        decreases to - i,
    {
        assert(chars@.subrange(from as int, i + 1).drop_last() =~= chars@.subrange(
            from as int,
            i as int,
        ));
        if chars[i] != c {
            out.push(chars[i]);
        }
        i += 1;
    }
    out
}

/// The number written by the digits `s` after a numeral worth `acc`.
pub open spec fn extend_value(acc: nat, s: Seq<char>) -> nat
    decreases s.len(),
{
    if s.len() == 0 {
        acc
    } else {
        extend_value(acc, s.drop_last()) * 10 + digit_value(s.last())
    }
}

/// More digits never make a numeral worth less.
pub proof fn lemma_extend_grows(acc: nat, s: Seq<char>)
    ensures
        extend_value(acc, s) >= acc,
    decreases s.len(),
{
    if s.len() > 0 {
        lemma_extend_grows(acc, s.drop_last());
    }
}

/// The worth of a numeral is that of its digits after nothing.
pub proof fn lemma_value_from_zero(s: Seq<char>)
    ensures
        decimal_value(s) == extend_value(0, s),
    decreases s.len(),
{
    if s.len() > 0 {
        lemma_value_from_zero(s.drop_last());
    }
}

/// The worth of two runs of digits set side by side.
pub proof fn lemma_value_of_concat(a: Seq<char>, b: Seq<char>)
    ensures
        decimal_value(a + b) == extend_value(decimal_value(a), b),
    decreases b.len(),
{
    if b.len() == 0 {
        assert(a + b =~= a);
    } else {
        lemma_value_of_concat(a, b.drop_last());
        assert((a + b).drop_last() =~= a + b.drop_last());
    }
}

fn digit_of(c: char) -> (r: Option<u8>)
    ensures
        r is Some == is_digit(c),
        r matches Some(d) ==> d == digit_value(c) && d < 10,
{
    if c == '0' {
        Some(0)
    } else if c == '1' {
        Some(1)
    } else if c == '2' {
        Some(2)
    } else if c == '3' {
        Some(3)
    } else if c == '4' {
        Some(4)
    } else if c == '5' {
        Some(5)
    } else if c == '6' {
        Some(6)
    } else if c == '7' {
        Some(7)
    } else if c == '8' {
        Some(8)
    } else if c == '9' {
        Some(9)
    } else {
        None
    }
}

/// Reads the characters of `chars` from place `from` up to place `to` as
/// digits that continue a numeral worth `acc`. The result is `None` if one of
/// them is no digit or the number does not fit.
pub fn read_digits(chars: &Vec<char>, from: usize, to: usize, acc: u128) -> (r: Option<u128>)
    requires
        from <= to <= chars.len(),
    ensures
        r == if all_digits(chars@.subrange(from as int, to as int)) && extend_value(
            acc as nat,
            chars@.subrange(from as int, to as int),
        ) <= u128::MAX {
            Some(extend_value(acc as nat, chars@.subrange(from as int, to as int)) as u128)
        } else {
            None
        },
{
    let mut value = acc;
    let mut valid = true;
    let mut fits = true;
    let mut i = from;
    while i < to
        invariant
            from <= i <= to <= chars.len(),
            valid == all_digits(chars@.subrange(from as int, i as int)),
            valid && fits ==> value == extend_value(
                acc as nat,
                chars@.subrange(from as int, i as int),
            ),
            valid && !fits ==> extend_value(acc as nat, chars@.subrange(from as int, i as int))
                > u128::MAX,
        decreases to - i,
    {
        let c = chars[i];
        let ghost seen = chars@.subrange(from as int, i as int);
        let ghost more = chars@.subrange(from as int, i + 1);
        proof {
            assert(more.drop_last() =~= seen);
            assert(more.last() == c);
            if all_digits(more) {
                assert forall|k: int| 0 <= k < seen.len() implies is_digit(#[trigger] seen[k]) by {
                    assert(more[k] == seen[k]);
                }
                assert(is_digit(more[i - from]));
            }
            if all_digits(seen) && is_digit(c) {
                assert forall|k: int| 0 <= k < more.len() implies is_digit(#[trigger] more[k]) by {
                    if k < seen.len() {
                        assert(more[k] == seen[k]);
                    }
                }
            }
        }
        match digit_of(c) {
            Some(d) => {
                if fits {
                    if value <= (u128::MAX - d as u128) / 10 {
                        value = value * 10 + d as u128;
                    } else {
                        fits = false;
                    }
                }
            },
            None => {
                valid = false;
            },
        }
        i += 1;
    }
    if valid && fits {
        Some(value)
    } else {
        None
    }
}

/// Whether two strings hold the same characters.
pub fn same_text(a: &str, b: &str) -> (r: bool)
    ensures
        r == (a@ == b@),
{
    let left = a.as_bytes();
    let right = b.as_bytes();
    proof {
        // A text is what its bytes decode to, so equal bytes make equal texts.
        encode_utf8_decode_utf8(a@);
        encode_utf8_decode_utf8(b@);
    }
    if left.len() != right.len() {
        return false;
    }
    let mut i: usize = 0;
    while i < left.len()
        invariant
            i <= left.len(),
            left.len() == right.len(),
            a@ == b@ ==> left@ == right@,
            left@ == right@ ==> a@ == b@,
            forall|k: int| 0 <= k < i ==> left@[k] == right@[k],
        decreases left.len() - i,
    {
        if left[i] != right[i] {
            return false;
        }
        i += 1;
    }
    assert(left@ =~= right@);
    true
}

} // verus!
