use vstd::prelude::*;

verus! {

/// A piece of on-screen text and the vertex range that draws it.
#[derive(Clone, Debug)]
pub struct RenderedText {
    pub text: String,
    pub vertex_start: u32,
    pub vertex_end: u32,
}

impl RenderedText {
    pub fn new(text: String) -> (t: RenderedText)
        ensures
            t.text@ == text@,
            t.vertex_start == 0,
            t.vertex_end == 0,
    {
        RenderedText { text: text, vertex_start: 0, vertex_end: 0 }
    }

    pub fn change_text(&mut self, new_text: String)
        ensures
            final(self).text@ == new_text@,
            final(self).vertex_start == old(self).vertex_start,
            final(self).vertex_end == old(self).vertex_end,
    {
        self.text = new_text;
    }
}

/// The character of a decimal digit.
pub open spec fn digit_char(d: int) -> char {
    (48 + d) as char
}

/// The decimal representation of `n`, without leading zeros.
pub open spec fn decimal_digits(n: nat) -> Seq<char>
    decreases n,
{
    if n < 10 {
        seq![digit_char(n as int)]
    } else {
        decimal_digits(n / 10).push(digit_char((n % 10) as int))
    }
}

/// `number` in decimal, cut to its first `length` digits when longer and
/// padded with leading zeros to `length` when shorter.
pub open spec fn exact_length_digits(number: nat, length: nat) -> Seq<char> {
    let d = decimal_digits(number);
    if d.len() >= length {
        d.take(length as int)
    } else {
        Seq::new((length - d.len()) as nat, |i: int| '0') + d
    }
}

/// `String::push`: appends one character.
#[verifier::external_body]
fn push_char(s: &mut String, c: char)
    ensures
        final(s)@ == old(s)@.push(c),
{
    s.push(c);
}

/// The character of the decimal digit `d`.
fn digit_to_char(d: u32) -> (c: char)
    requires
        d < 10,
    ensures
        c == digit_char(d as int),
{
    ((48u32 + d) as u8) as char
}

/// The decimal digits of `number`, least significant first.
fn digits_reversed(number: u32) -> (digits: Vec<char>)
    ensures
        digits@.reverse() == decimal_digits(number as nat),
{
    let mut m = number;
    let mut digits: Vec<char> = Vec::new();
    digits.push(digit_to_char(m % 10));
    m = m / 10;
    proof {
        assert(digits@.reverse() =~= seq![digit_char((number % 10) as int)]);
        assert(decimal_digits(number as nat) == if m > 0 {
            decimal_digits(m as nat)
        } else {
            Seq::<char>::empty()
        } + digits@.reverse());
    }
    while m > 0
        invariant
            decimal_digits(number as nat) == (if m > 0 {
                decimal_digits(m as nat)
            } else {
                Seq::<char>::empty()
            }) + digits@.reverse(),
        decreases m,
    {
        let ghost prev = digits@;
        let d = m % 10;
        digits.push(digit_to_char(d));
        proof {
            assert(digits@.reverse() =~= seq![digit_char(d as int)] + prev.reverse());
        }
        m = m / 10;
    }
    digits
}

/// Formats `number` in decimal to exactly `length` characters: longer
/// numbers keep their leading digits, shorter ones get leading zeros.
pub fn format_to_exact_length(number: u32, length: usize) -> (s: String)
    ensures
        s@ == exact_length_digits(number as nat, length as nat),
{
    let digits = digits_reversed(number);
    let ghost dec = decimal_digits(number as nat);
    let count = digits.len();
    let mut out = String::new();
    if count > length {
        let mut i: usize = 0;
        while i < length
            invariant
                i <= length < count,
                count == digits@.len(),
                dec == digits@.reverse(),
                out@ == dec.take(i as int),
            decreases length - i,
        {
            push_char(&mut out, digits[count - 1 - i]);
            proof {
                assert(dec.take(i + 1) =~= dec.take(i as int).push(dec[i as int]));
            }
            i = i + 1;
        }
    } else {
        let pad = length - count;
        let mut i: usize = 0;
        while i < pad
            invariant
                i <= pad,
                out@ == Seq::new(i as nat, |j: int| '0'),
            decreases pad - i,
        {
            push_char(&mut out, '0');
            proof {
                assert(out@ =~= Seq::new((i + 1) as nat, |j: int| '0'));
            }
            i = i + 1;
        }
        let mut k: usize = 0;
        while k < count
            invariant
                k <= count,
                count == digits@.len(),
                dec == digits@.reverse(),
                out@ == Seq::new(pad as nat, |j: int| '0') + dec.take(k as int),
            decreases count - k,
        {
            push_char(&mut out, digits[count - 1 - k]);
            proof {
                assert(dec.take(k + 1) =~= dec.take(k as int).push(dec[k as int]));
            }
            k = k + 1;
        }
        proof {
            assert(dec.take(count as int) =~= dec);
        }
    }
    out
}

} // verus!

verus! {

/// Every decimal representation is made of the digit characters.
pub proof fn lemma_decimal_digits_are_digits(n: nat)
    ensures
        decimal_digits(n).len() >= 1,
        forall|i: int|
            0 <= i < decimal_digits(n).len() ==> '0' <= #[trigger] decimal_digits(n)[i] <= '9',
    decreases n,
{
    if n >= 10 {
        lemma_decimal_digits_are_digits(n / 10);
    }
}

/// `format_to_exact_length` always produces exactly `length` digit
/// characters; when the number has at most `length` digits, they are its
/// digits behind leading zeros.
pub proof fn lemma_exact_length(number: nat, length: nat)
    ensures
        exact_length_digits(number, length).len() == length,
        forall|i: int|
            0 <= i < length ==> '0' <= #[trigger] exact_length_digits(number, length)[i] <= '9',
        decimal_digits(number).len() <= length ==> exact_length_digits(number, length).skip(
            length - decimal_digits(number).len(),
        ) == decimal_digits(number),
{
    lemma_decimal_digits_are_digits(number);
    let d = decimal_digits(number);
    let s = exact_length_digits(number, length);
    if d.len() < length {
        assert(s.skip(length - d.len()) =~= d);
        assert forall|i: int| 0 <= i < length implies '0' <= #[trigger] s[i] <= '9' by {
            if i >= length - d.len() {
                assert(s[i] == d[i - (length - d.len())]);
            }
        }
    } else if d.len() == length {
        assert(s =~= d);
        assert(s.skip(0) =~= d);
    }
}

} // verus!

verus! {

/// The number that a string of decimal digits denotes.
pub open spec fn decimal_value(s: Seq<char>) -> int
    decreases s.len(),
{
    if s.len() == 0 {
        0
    } else {
        decimal_value(s.drop_last()) * 10 + (s.last() as int - 48)
    }
}

/// Leading zeros do not change the number that digits denote.
proof fn lemma_leading_zeros(k: nat, d: Seq<char>)
    ensures
        decimal_value(Seq::new(k, |i: int| '0') + d) == decimal_value(d),
    decreases d.len(),
{
    let z = Seq::new(k, |i: int| '0');
    if d.len() == 0 {
        assert(z + d =~= z);
        lemma_zeros_value(k);
    } else {
        assert((z + d).drop_last() =~= z + d.drop_last());
        lemma_leading_zeros(k, d.drop_last());
    }
}

proof fn lemma_zeros_value(k: nat)
    ensures
        decimal_value(Seq::new(k, |i: int| '0')) == 0,
    decreases k,
{
    if k > 0 {
        assert(Seq::new(k, |i: int| '0').drop_last() =~= Seq::new((k - 1) as nat, |i: int| '0'));
        lemma_zeros_value((k - 1) as nat);
    }
}

/// The decimal digits of a number denote that number.
pub proof fn lemma_decimal_round_trip(n: nat)
    ensures
        decimal_value(decimal_digits(n)) == n,
    decreases n,
{
    let d = (n % 10) as int;
    assert(digit_char(d) as int == 48 + d);
    if n >= 10 {
        lemma_decimal_round_trip(n / 10);
        assert(decimal_digits(n).drop_last() =~= decimal_digits(n / 10));
        assert(decimal_digits(n).last() == digit_char(d));
        assert(n == (n / 10) * 10 + d);
    } else {
        assert(decimal_digits(n).drop_last() =~= Seq::<char>::empty());
        assert(decimal_digits(n).last() == digit_char(d));
        assert(decimal_value(Seq::<char>::empty()) == 0);
        assert(d == n);
    }
}

/// When the number fits in `length` digits, the formatted string denotes
/// the number itself.
pub proof fn lemma_exact_length_value(number: nat, length: nat)
    requires
        decimal_digits(number).len() <= length,
    ensures
        decimal_value(exact_length_digits(number, length)) == number,
{
    let d = decimal_digits(number);
    lemma_decimal_round_trip(number);
    if d.len() < length {
        lemma_leading_zeros((length - d.len()) as nat, d);
    } else {
        assert(d.take(length as int) =~= d);
    }
}

} // verus!

verus! {

/// The character count of a text as a vertex count (`len as u32`).
pub open spec fn vertex_count(text_len: usize) -> u32 {
    #[verifier::truncate] (text_len as u32)
}

/// The vertices that a text of `text_len` characters takes when placed after
/// the `start` vertices already in use: it starts at `start`, and the used
/// vertices then end where it ends.
pub fn text_vertex_range(start: u32, text_len: usize) -> (r: (u32, u32))
    requires
        start + vertex_count(text_len) <= u32::MAX,
    ensures
        r.0 == start,
        r.1 == start + vertex_count(text_len),
{
    let count = #[verifier::truncate] (text_len as u32);
    (start, start + count)
}

/// Texts placed one after another take adjacent, disjoint vertex ranges
/// `[start, end1)` and `[end1, end2)`: the second starts where the first
/// ends, and each is as long as its text.
pub proof fn lemma_text_ranges_adjacent(start: u32, len1: usize, len2: usize)
    requires
        start + vertex_count(len1) + vertex_count(len2) <= u32::MAX,
    ensures
        ({
            let end1 = start + vertex_count(len1);
            let end2 = end1 + vertex_count(len2);
            &&& start <= end1 <= end2
            &&& end1 - start == vertex_count(len1)
            &&& end2 - end1 == vertex_count(len2)
        }),
{
}

} // verus!

verus! {

/// A number of at least `length` digits is cut to its leading digits: the
/// formatted string is a prefix of its decimal representation.
pub proof fn lemma_exact_length_prefix(number: nat, length: nat)
    requires
        decimal_digits(number).len() >= length,
    ensures
        exact_length_digits(number, length).len() == length,
        forall|i: int|
            0 <= i < length ==> #[trigger] exact_length_digits(number, length)[i] == decimal_digits(
                number,
            )[i],
{
}

/// The decimal representation has no leading zero (but for zero itself),
/// and has one digit more for every further factor of ten.
pub proof fn lemma_decimal_digits_canonical(n: nat)
    ensures
        n > 0 ==> decimal_digits(n)[0] != '0',
        n == 0 ==> decimal_digits(n) == seq!['0'],
        n >= 10 ==> decimal_digits(n).len() == decimal_digits(n / 10).len() + 1,
        n < 10 ==> decimal_digits(n).len() == 1,
    decreases n,
{
    if n >= 10 {
        lemma_decimal_digits_canonical(n / 10);
        assert(decimal_digits(n)[0] == decimal_digits(n / 10)[0]);
    } else {
        assert(digit_char(n as int) as int == 48 + n);
    }
}

} // verus!
