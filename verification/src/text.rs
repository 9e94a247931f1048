//! Text building blocks: decimal numbers written and read back, and strings
//! assembled from characters.

use vstd::prelude::*;
use vstd::string::StringExecFns;

verus! {

/// `String::push`: the string with one more character at its end.
#[verifier::external_body]
pub fn push_char(text: &mut String, c: char)
    ensures
        final(text)@ == old(text)@.push(c),
{
    text.push(c);
}

/// Append `tail` to `text`.
pub fn push_str(text: &mut String, tail: &str)
    ensures
        final(text)@ == old(text)@ + tail@,
{
    text.append(tail);
}

/// A string holding exactly the given characters.
pub fn string_of(chars: &Vec<char>) -> (text: String)
    ensures
        text@ == chars@,
{
    let mut text = String::new();
    let mut i: usize = 0;
    while i < chars.len()
        invariant
            i <= chars.len(),
            text@ == chars@.subrange(0, i as int),
        decreases chars.len() - i,
    {
        push_char(&mut text, chars[i]);
        assert(text@ =~= chars@.subrange(0, i + 1));
        i += 1;
    }
    assert(chars@.subrange(0, chars@.len() as int) =~= chars@);
    text
}

/// The characters of a string.
pub fn chars_of(text: &str) -> (chars: Vec<char>)
    ensures
        chars@ == text@,
{
    let mut chars: Vec<char> = Vec::new();
    for c in it: text.chars()
        invariant
            chars@ == it.seq().subrange(0, it.index() as int),
    {
        chars.push(c);
        assert(chars@ =~= it.seq().subrange(0, it.index() + 1));
    }
    chars
}

/// The character of a decimal digit.
pub open spec fn digit_char(d: nat) -> char {
    ((48 + d) as u8) as char
}

/// The decimal representation of a natural number, without leading zeros.
pub open spec fn decimal_chars(n: nat) -> Seq<char>
    decreases n,
{
    if n < 10 {
        seq![digit_char(n)]
    } else {
        decimal_chars(n / 10).push(digit_char(n % 10))
    }
}

/// The decimal representation of an integer, with a leading `-` when negative.
pub open spec fn signed_decimal_chars(n: int) -> Seq<char> {
    if n < 0 {
        seq!['-'] + decimal_chars((-n) as nat)
    } else {
        decimal_chars(n as nat)
    }
}

/// `chars` padded on the left with `pad` up to `width` characters.
pub open spec fn pad_left(chars: Seq<char>, width: nat, pad: char) -> Seq<char> {
    if chars.len() >= width {
        chars
    } else {
        Seq::new((width - chars.len()) as nat, |i: int| pad) + chars
    }
}

/// A decimal number padded with zeros to `width` characters, the sign
/// counting toward the width as `format!("{:0width$}")` counts it.
pub open spec fn zero_padded_chars(n: int, width: nat) -> Seq<char> {
    if n < 0 {
        seq!['-'] + pad_left(decimal_chars((-n) as nat), if width > 0 {
            (width - 1) as nat
        } else {
            0
        }, '0')
    } else {
        pad_left(decimal_chars(n as nat), width, '0')
    }
}

proof fn lemma_decimal_chars_len(n: nat)
    ensures
        decimal_chars(n).len() >= 1,
    decreases n,
{
    if n >= 10 {
        lemma_decimal_chars_len(n / 10);
    }
}

/// Write a natural number in decimal.
pub fn push_decimal(text: &mut String, n: u64)
    ensures
        final(text)@ == old(text)@ + decimal_chars(n as nat),
    decreases n,
{
    if n >= 10 {
        push_decimal(text, n / 10);
        push_char(text, ((48 + n % 10) as u8) as char);
        assert(final(text)@ =~= old(text)@ + decimal_chars(n as nat));
    } else {
        push_char(text, ((48 + n) as u8) as char);
        assert(final(text)@ =~= old(text)@ + decimal_chars(n as nat));
    }
}

/// The decimal representation of a natural number.
pub fn decimal(n: u64) -> (text: String)
    ensures
        text@ == decimal_chars(n as nat),
{
    let mut text = String::new();
    push_decimal(&mut text, n);
    assert(text@ =~= decimal_chars(n as nat));
    text
}

/// Write an integer in decimal, with a leading `-` when negative.
pub fn push_signed_decimal(text: &mut String, n: i64)
    ensures
        final(text)@ == old(text)@ + signed_decimal_chars(n as int),
{
    if n < 0 {
        push_char(text, '-');
        let magnitude: u64 = if n == i64::MIN {
            9_223_372_036_854_775_808u64
        } else {
            (-n) as u64
        };
        push_decimal(text, magnitude);
        assert(final(text)@ =~= old(text)@ + signed_decimal_chars(n as int));
    } else {
        push_decimal(text, n as u64);
    }
}

/// Write a number in decimal padded with zeros to `width` characters.
pub fn push_zero_padded(text: &mut String, n: i64, width: usize)
    ensures
        final(text)@ == old(text)@ + zero_padded_chars(n as int, width as nat),
{
    let negative = n < 0;
    let magnitude: u64 = if n == i64::MIN {
        9_223_372_036_854_775_808u64
    } else if negative {
        (-n) as u64
    } else {
        n as u64
    };
    let digits = decimal(magnitude);
    let target: usize = if negative && width > 0 {
        width - 1
    } else if negative {
        0
    } else {
        width
    };
    let count = digits.as_str().unicode_len();
    if negative {
        push_char(text, '-');
    }
    let ghost before = text@;
    if count < target {
        let mut i = count;
        while i < target
            invariant
                count <= i <= target,
                text@ == before + Seq::new((i - count) as nat, |j: int| '0'),
            decreases target - i,
        {
            push_char(text, '0');
            assert(text@ =~= before + Seq::new((i + 1 - count) as nat, |j: int| '0'));
            i += 1;
        }
    } else {
        assert(text@ =~= before + Seq::new(0, |j: int| '0'));
    }
    let ghost zeros = text@.subrange(before.len() as int, text@.len() as int);
    push_str(text, digits.as_str());
    proof {
        let dec = decimal_chars(magnitude as nat);
        assert(digits@ == dec);
        if negative {
            assert(magnitude as int == -(n as int));
            assert(final(text)@ =~= old(text)@ + zero_padded_chars(n as int, width as nat));
        } else {
            assert(final(text)@ =~= old(text)@ + zero_padded_chars(n as int, width as nat));
        }
    }
}

/// The value of a sequence of ASCII decimal digits.
pub open spec fn digits_value(digits: Seq<char>) -> int
    decreases digits.len(),
{
    if digits.len() == 0 {
        0
    } else {
        digits_value(digits.drop_last()) * 10 + (digits.last() as int - 48)
    }
}

pub open spec fn is_digit_char(c: char) -> bool {
    '0' <= c <= '9'
}

pub open spec fn all_digit_chars(digits: Seq<char>) -> bool {
    forall|i: int| 0 <= i < digits.len() ==> is_digit_char(#[trigger] digits[i])
}

/// What `str::parse::<usize>` accepts: an optional `+`, then at least one
/// decimal digit, with a value that fits.
pub open spec fn parse_natural(text: Seq<char>, limit: int) -> Option<int> {
    let digits = if text.len() > 0 && text[0] == '+' {
        text.drop_first()
    } else {
        text
    };
    if digits.len() > 0 && all_digit_chars(digits) && digits_value(digits) <= limit {
        Some(digits_value(digits))
    } else {
        None
    }
}

proof fn lemma_digits_prefix_le(digits: Seq<char>, k: int)
    requires
        0 <= k <= digits.len(),
        all_digit_chars(digits),
    ensures
        0 <= digits_value(digits.subrange(0, k)) <= digits_value(digits),
    decreases digits.len(),
{
    if digits.len() > 0 {
        let shorter = digits.drop_last();
        assert(all_digit_chars(shorter)) by {
            assert forall|i: int| 0 <= i < shorter.len() implies is_digit_char(#[trigger] shorter[i]) by {
                assert(shorter[i] == digits[i]);
            }
        }
        if k == digits.len() {
            assert(digits.subrange(0, k) =~= digits);
            lemma_digits_prefix_le(shorter, k - 1);
            lemma_digits_prefix_le(shorter, shorter.len() as int);
            assert(shorter.subrange(0, shorter.len() as int) =~= shorter);
        } else {
            lemma_digits_prefix_le(shorter, k);
            assert(shorter.subrange(0, k) =~= digits.subrange(0, k));
            lemma_digits_prefix_le(shorter, shorter.len() as int);
            assert(shorter.subrange(0, shorter.len() as int) =~= shorter);
        }
    } else {
        assert(digits.subrange(0, k) =~= digits);
    }
}

/// Read a natural number no larger than `limit` as `str::parse` does.
pub fn parse_natural_text(text: &str, limit: u64) -> (value: Option<u64>)
    ensures
        value matches Some(v) ==> parse_natural(text@, limit as int) == Some(v as int),
        value is None ==> parse_natural(text@, limit as int) is None,
{
    let chars = chars_of(text);
    let start: usize = if chars.len() > 0 && chars[0] == '+' {
        1
    } else {
        0
    };
    let ghost digits = if text@.len() > 0 && text@[0] == '+' {
        text@.drop_first()
    } else {
        text@
    };
    assert(digits =~= chars@.subrange(start as int, chars@.len() as int));
    if start == chars.len() {
        return None;
    }
    let mut value: u64 = 0;
    let mut i = start;
    while i < chars.len()
        invariant
            start <= i <= chars.len(),
            start < chars.len(),
            chars@ == text@,
            digits == chars@.subrange(start as int, chars@.len() as int),
            digits == (if text@.len() > 0 && text@[0] == '+' {
                text@.drop_first()
            } else {
                text@
            }),
            forall|j: int| 0 <= j < i - start ==> is_digit_char(#[trigger] digits[j]),
            value == digits_value(digits.subrange(0, i - start)),
            value <= limit,
        decreases chars.len() - i,
    {
        let c = chars[i];
        if c < '0' || c > '9' {
            assert(!is_digit_char(digits[i - start]));
            assert(!all_digit_chars(digits));
            return None;
        }
        assert(digits.subrange(0, i + 1 - start).drop_last() =~= digits.subrange(0, i - start));
        assert(digits.subrange(0, i + 1 - start).last() == c);
        let d = (c as u32 - 48) as u64;
        if d > limit || value > (limit - d) / 10 {
            proof {
                if d <= limit {
                    assert(value * 10 + d > limit) by (nonlinear_arith)
                        requires
                            value > (limit - d) / 10,
                            d <= limit,
                    ;
                }
                if all_digit_chars(digits) {
                    lemma_digits_prefix_le(digits, i + 1 - start);
                }
            }
            return None;
        }
        proof {
            assert(value * 10 + d <= limit) by (nonlinear_arith)
                requires
                    value <= (limit - d) / 10,
                    d <= limit,
            ;
        }
        value = value * 10 + d;
        i += 1;
    }
    assert(digits.subrange(0, digits.len() as int) =~= digits);
    Some(value)
}

/// Text that converts into an owned `String`, as `Into<String>` does for
/// string slices and strings.
pub trait IntoText {
    /// The characters of the text.
    spec fn text_chars(&self) -> Seq<char>;

    fn into_text(self) -> (text: String)
        ensures
            text@ == self.text_chars(),
    ;
}

impl<'a> IntoText for &'a str {
    open spec fn text_chars(&self) -> Seq<char> {
        (*self)@
    }

    fn into_text(self) -> (text: String) {
        self.to_owned()
    }
}

impl IntoText for String {
    open spec fn text_chars(&self) -> Seq<char> {
        self@
    }

    fn into_text(self) -> (text: String) {
        self
    }
}

impl<'a> IntoText for &'a String {
    open spec fn text_chars(&self) -> Seq<char> {
        (*self)@
    }

    fn into_text(self) -> (text: String) {
        self.clone()
    }
}

/// `chars` joined with `separator` between each two.
pub open spec fn join_with(parts: Seq<Seq<char>>, separator: Seq<char>) -> Seq<char>
    decreases parts.len(),
{
    if parts.len() == 0 {
        Seq::empty()
    } else if parts.len() == 1 {
        parts[0]
    } else {
        join_with(parts.drop_last(), separator) + separator + parts.last()
    }
}

/// The characters of each string.
pub open spec fn strings_view(strings: Seq<String>) -> Seq<Seq<char>> {
    strings.map_values(|s: String| s@)
}

/// The strings joined with `separator` between each two.
pub fn join_strings(strings: &Vec<String>, separator: &str) -> (text: String)
    ensures
        text@ == join_with(strings_view(strings@), separator@),
{
    let mut text = String::new();
    let mut i: usize = 0;
    while i < strings.len()
        invariant
            i <= strings.len(),
            text@ == join_with(strings_view(strings@.subrange(0, i as int)), separator@),
        decreases strings.len() - i,
    {
        if i > 0 {
            push_str(&mut text, separator);
        }
        push_str(&mut text, strings[i].as_str());
        proof {
            let before = strings_view(strings@.subrange(0, i as int));
            let after = strings_view(strings@.subrange(0, i + 1));
            assert(after.drop_last() =~= before);
            assert(after.last() == strings@[i as int]@);
            if i == 0 {
                assert(text@ =~= join_with(after, separator@));
            } else {
                assert(text@ =~= join_with(after, separator@));
            }
        }
        i += 1;
    }
    assert(strings@.subrange(0, strings@.len() as int) =~= strings@);
    text
}

/// Write `chars` right-aligned in a field of `width` characters filled with
/// spaces, as `format!("{:>width$}")` does.
pub fn push_right_aligned(text: &mut String, value: &str, width: usize)
    ensures
        final(text)@ == old(text)@ + pad_left(value@, width as nat, ' '),
{
    let count = value.unicode_len();
    let ghost before = text@;
    if count < width {
        let mut i = count;
        while i < width
            invariant
                count <= i <= width,
                text@ == before + Seq::new((i - count) as nat, |j: int| ' '),
            decreases width - i,
        {
            push_char(text, ' ');
            assert(text@ =~= before + Seq::new((i + 1 - count) as nat, |j: int| ' '));
            i += 1;
        }
    }
    push_str(text, value);
    assert(final(text)@ =~= old(text)@ + pad_left(value@, width as nat, ' '));
}

/// The digits of a number have a value of at least zero.
pub proof fn lemma_digits_value_natural(digits: Seq<char>)
    requires
        all_digit_chars(digits),
    ensures
        digits_value(digits) >= 0,
    decreases digits.len(),
{
    if digits.len() > 0 {
        let shorter = digits.drop_last();
        assert(all_digit_chars(shorter)) by {
            assert forall|i: int| 0 <= i < shorter.len() implies is_digit_char(#[trigger] shorter[i]) by {
                assert(shorter[i] == digits[i]);
            }
        }
        lemma_digits_value_natural(shorter);
        assert(is_digit_char(digits[digits.len() - 1]));
    }
}

/// The decimal digits of a number are digits, and read back as it.
pub proof fn lemma_decimal_chars_value(n: nat)
    ensures
        all_digit_chars(decimal_chars(n)),
        digits_value(decimal_chars(n)) == n,
        decimal_chars(n).len() >= 1,
    decreases n,
{
    if n < 10 {
        let d = decimal_chars(n);
        assert(d.drop_last() =~= Seq::<char>::empty());
        assert(digits_value(d.drop_last()) == 0);
    } else {
        lemma_decimal_chars_value(n / 10);
        let d = decimal_chars(n);
        let head = decimal_chars(n / 10);
        assert(d.drop_last() =~= head);
        assert(d.last() == digit_char(n % 10));
        assert forall|i: int| 0 <= i < d.len() implies is_digit_char(#[trigger] d[i]) by {
            if i < head.len() {
                assert(d[i] == head[i]);
            }
        }
    }
}

/// A run of `k` zero characters.
pub open spec fn zeros(k: nat) -> Seq<char> {
    Seq::new(k, |i: int| '0')
}

/// Leading zeros change neither that a text is digits nor its value.
pub proof fn lemma_leading_zeros(k: nat, digits: Seq<char>)
    requires
        all_digit_chars(digits),
    ensures
        all_digit_chars(zeros(k) + digits),
        digits_value(zeros(k) + digits) == digits_value(digits),
    decreases digits.len() + k,
{
    let whole = zeros(k) + digits;
    assert forall|i: int| 0 <= i < whole.len() implies is_digit_char(#[trigger] whole[i]) by {
        if i >= k {
            assert(whole[i] == digits[i - k]);
        }
    }
    if digits.len() == 0 {
        if k > 0 {
            assert(whole.drop_last() =~= zeros((k - 1) as nat) + digits);
            lemma_leading_zeros((k - 1) as nat, digits);
        } else {
            assert(whole =~= Seq::<char>::empty());
        }
    } else {
        let shorter = digits.drop_last();
        assert(all_digit_chars(shorter)) by {
            assert forall|i: int| 0 <= i < shorter.len() implies is_digit_char(#[trigger] shorter[i]) by {
                assert(shorter[i] == digits[i]);
            }
        }
        assert(whole.drop_last() =~= zeros(k) + shorter);
        assert(whole.last() == digits.last());
        lemma_leading_zeros(k, shorter);
    }
}

/// A zero-padded number from 0 on reads back as itself, when it fits the
/// limit.
pub proof fn lemma_zero_padded_parses(n: nat, width: nat, limit: int)
    requires
        n <= limit,
    ensures
        parse_natural(zero_padded_chars(n as int, width), limit) == Some(n as int),
        all_digit_chars(zero_padded_chars(n as int, width)),
{
    lemma_decimal_chars_value(n);
    let d = decimal_chars(n);
    let text = zero_padded_chars(n as int, width);
    if d.len() >= width {
        assert(text == d);
    } else {
        let k = (width - d.len()) as nat;
        assert(text =~= zeros(k) + d);
        lemma_leading_zeros(k, d);
    }
    assert(is_digit_char(text[0]));
}

/// A parsed natural number is at least zero.
pub proof fn lemma_parse_natural_natural(text: Seq<char>, limit: int)
    ensures
        parse_natural(text, limit) matches Some(n) ==> n >= 0,
{
    let digits = if text.len() > 0 && text[0] == '+' {
        text.drop_first()
    } else {
        text
    };
    if digits.len() > 0 && all_digit_chars(digits) {
        lemma_digits_value_natural(digits);
    }
}

/// Whether `a` comes before `b` in the order of their characters, a proper
/// prefix first: the order of `str`, whose bytes follow the characters.
pub open spec fn text_before(a: Seq<char>, b: Seq<char>) -> bool
    decreases a.len(),
{
    if b.len() == 0 {
        false
    } else if a.len() == 0 {
        true
    } else if a[0] != b[0] {
        a[0] < b[0]
    } else {
        text_before(a.drop_first(), b.drop_first())
    }
}

/// Of two different texts, one comes before the other.
pub proof fn lemma_text_before_total(a: Seq<char>, b: Seq<char>)
    requires
        a != b,
    ensures
        text_before(a, b) || text_before(b, a),
    decreases a.len(),
{
    if a.len() == 0 {
        assert(b.len() != 0) by {
            if b.len() == 0 {
                assert(a =~= b);
            }
        }
    } else if b.len() == 0 {
    } else if a[0] == b[0] {
        assert(a.drop_first() != b.drop_first()) by {
            if a.drop_first() == b.drop_first() {
                assert(a =~= seq![a[0]] + a.drop_first());
                assert(b =~= seq![b[0]] + b.drop_first());
            }
        }
        lemma_text_before_total(a.drop_first(), b.drop_first());
    }
}

/// The order of texts is transitive.
pub proof fn lemma_text_before_transitive(a: Seq<char>, b: Seq<char>, c: Seq<char>)
    requires
        text_before(a, b),
        text_before(b, c),
    ensures
        text_before(a, c),
    decreases a.len(),
{
    if a.len() > 0 && b.len() > 0 && c.len() > 0 && a[0] == b[0] && b[0] == c[0] {
        lemma_text_before_transitive(a.drop_first(), b.drop_first(), c.drop_first());
    }
}

/// Compare two texts in the order of their characters.
pub fn is_text_before(a: &str, b: &str) -> (before: bool)
    ensures
        before == text_before(a@, b@),
{
    let xs = chars_of(a);
    let ys = chars_of(b);
    let mut i: usize = 0;
    assert(xs@.subrange(0, xs@.len() as int) =~= xs@);
    assert(ys@.subrange(0, ys@.len() as int) =~= ys@);
    while i < xs.len() && i < ys.len()
        invariant
            i <= xs@.len(),
            i <= ys@.len(),
            xs@ == a@,
            ys@ == b@,
            forall|k: int| 0 <= k < i ==> xs@[k] == ys@[k],
            text_before(a@, b@) == text_before(xs@.subrange(i as int, xs@.len() as int), ys@.subrange(i as int, ys@.len() as int)),
        decreases xs@.len() - i,
    {
        let ghost rx = xs@.subrange(i as int, xs@.len() as int);
        let ghost ry = ys@.subrange(i as int, ys@.len() as int);
        if xs[i] != ys[i] {
            return xs[i] < ys[i];
        }
        assert(rx.drop_first() =~= xs@.subrange(i + 1, xs@.len() as int));
        assert(ry.drop_first() =~= ys@.subrange(i + 1, ys@.len() as int));
        i += 1;
    }
    i < ys.len()
}

/// A character with an ASCII capital made small.
pub open spec fn ascii_lower(c: char) -> char {
    if 'A' <= c <= 'Z' {
        ((c as u32) + 32) as char
    } else {
        c
    }
}

pub fn to_ascii_lower(c: char) -> (lower: char)
    ensures
        lower == ascii_lower(c),
{
    if 'A' <= c && c <= 'Z' {
        ((c as u8) + 32) as char
    } else {
        c
    }
}

/// Text with every ASCII capital made small.
pub open spec fn lower_text(text: Seq<char>) -> Seq<char> {
    Seq::new(text.len(), |i: int| ascii_lower(text[i]))
}

/// The characters of a text with every ASCII capital made small.
pub fn lower_chars(text: &str) -> (lowered: Vec<char>)
    ensures
        lowered@ == lower_text(text@),
{
    let chars = chars_of(text);
    let mut lowered: Vec<char> = Vec::new();
    let mut i: usize = 0;
    while i < chars.len()
        invariant
            i <= chars@.len(),
            chars@ == text@,
            lowered@ == lower_text(chars@.subrange(0, i as int)),
        decreases chars@.len() - i,
    {
        lowered.push(to_ascii_lower(chars[i]));
        assert(lowered@ =~= lower_text(chars@.subrange(0, i + 1)));
        i += 1;
    }
    assert(chars@.subrange(0, chars@.len() as int) =~= chars@);
    lowered
}

/// Whether `needle` stands in `hay` from position `at`.
pub open spec fn occurs_at(hay: Seq<char>, needle: Seq<char>, at: int) -> bool {
    0 <= at && at + needle.len() <= hay.len() && hay.subrange(at, at + needle.len()) == needle
}

/// The first position from `from` on where `needle` stands in `hay`.
pub open spec fn first_occurrence_from(hay: Seq<char>, needle: Seq<char>, from: int) -> Option<int>
    decreases hay.len() + 1 - from,
{
    if from < 0 || from + needle.len() > hay.len() {
        None
    } else if occurs_at(hay, needle, from) {
        Some(from)
    } else {
        first_occurrence_from(hay, needle, from + 1)
    }
}

/// The first position where `needle` stands in `hay`.
pub open spec fn first_occurrence(hay: Seq<char>, needle: Seq<char>) -> Option<int> {
    first_occurrence_from(hay, needle, 0)
}

/// Find the first position where `needle` stands in `hay`.
pub fn find_chars(hay: &Vec<char>, needle: &Vec<char>) -> (found: Option<usize>)
    ensures
        found matches Some(at) ==> first_occurrence(hay@, needle@) == Some(at as int) && occurs_at(hay@, needle@, at as int),
        found is None ==> first_occurrence(hay@, needle@) is None,
{
    if needle.len() > hay.len() {
        return None;
    }
    let last = hay.len() - needle.len();
    let mut at: usize = 0;
    loop
        invariant
            last == hay@.len() - needle@.len(),
            needle@.len() <= hay@.len(),
            hay@.len() == hay.len(),
            at <= last,
            first_occurrence(hay@, needle@) == first_occurrence_from(hay@, needle@, at as int),
        decreases last - at,
    {
        let mut j: usize = 0;
        let mut same = true;
        while j < needle.len()
            invariant
                last == hay@.len() - needle@.len(),
                needle@.len() <= hay@.len(),
                hay@.len() == hay.len(),
                at <= last,
                j <= needle@.len(),
                same == forall|k: int| 0 <= k < j ==> hay@[at + k] == #[trigger] needle@[k],
            decreases needle@.len() - j,
        {
            if hay[at + j] != needle[j] {
                same = false;
            }
            j += 1;
        }
        if same {
            assert(hay@.subrange(at as int, at + needle@.len()) =~= needle@);
            return Some(at);
        }
        proof {
            if occurs_at(hay@, needle@, at as int) {
                assert forall|k: int| 0 <= k < needle@.len() implies hay@[at + k] == #[trigger] needle@[k] by {
                    assert(hay@.subrange(at as int, at + needle@.len())[k] == hay@[at + k]);
                }
            }
        }
        if at == last {
            assert(first_occurrence_from(hay@, needle@, at + 1) is None);
            return None;
        }
        at += 1;
    }
}

/// A string of the characters `from` to `to`.
pub fn string_of_range(chars: &Vec<char>, from: usize, to: usize) -> (text: String)
    requires
        from <= to <= chars@.len(),
    ensures
        text@ == chars@.subrange(from as int, to as int),
{
    let mut text = String::new();
    let mut i: usize = from;
    while i < to
        invariant
            from <= i <= to,
            to <= chars@.len(),
            text@ == chars@.subrange(from as int, i as int),
        decreases to - i,
    {
        push_char(&mut text, chars[i]);
        assert(text@ =~= chars@.subrange(from as int, i + 1));
        i += 1;
    }
    text
}

/// What `Debug` writes for a character: the character in single quotes,
/// escaped as Rust escapes it.
pub uninterp spec fn char_debug_text(c: char) -> Seq<char>;

/// The `Debug` text of a character, by std's `<char as Debug>::fmt`. It is
/// a function of the character alone; what it holds is not stated here.
#[verifier::external_body]
pub fn char_debug(c: char) -> (text: String)
    ensures
        text@ == char_debug_text(c),
{
    format!("{:?}", c)
}

/// Whether some characters are exactly the text `word`.
pub fn chars_are(chars: &Vec<char>, word: &str) -> (same: bool)
    ensures
        same == (chars@ == word@),
{
    let expected = chars_of(word);
    if expected.len() != chars.len() {
        return false;
    }
    let mut i: usize = 0;
    while i < chars.len()
        invariant
            i <= chars@.len(),
            expected@.len() == chars@.len(),
            expected@ == word@,
            forall|k: int| 0 <= k < i ==> chars@[k] == expected@[k],
        decreases chars@.len() - i,
    {
        if chars[i] != expected[i] {
            return false;
        }
        i += 1;
    }
    assert(chars@ =~= expected@);
    true
}

/// Whether some characters begin with the text `prefix`; the length of the
/// prefix when they do.
pub fn strip_prefix_len(chars: &Vec<char>, prefix: &str) -> (stripped: Option<usize>)
    ensures
        match stripped {
            Some(n) => n == prefix@.len() && prefix@.len() <= chars@.len() && chars@.subrange(0, n as int) == prefix@,
            None => !(prefix@.len() <= chars@.len() && chars@.subrange(0, prefix@.len() as int) == prefix@),
        },
{
    let expected = chars_of(prefix);
    if expected.len() > chars.len() {
        return None;
    }
    let mut i: usize = 0;
    while i < expected.len()
        invariant
            i <= expected@.len(),
            expected@.len() <= chars@.len(),
            expected@ == prefix@,
            forall|k: int| 0 <= k < i ==> chars@[k] == expected@[k],
        decreases expected@.len() - i,
    {
        if chars[i] != expected[i] {
            assert(chars@.subrange(0, expected@.len() as int)[i as int] != expected@[i as int]);
            return None;
        }
        i += 1;
    }
    assert(chars@.subrange(0, expected@.len() as int) =~= expected@);
    Some(expected.len())
}

} // verus!
