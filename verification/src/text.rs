//! Character-sequence building blocks: decimal rendering of integers,
//! zero-padding, joining parts with a separator, and the conversions between
//! `str`/`String` and vectors of characters.

use vstd::prelude::*;

verus! {

/// The character for one decimal digit.
pub open spec fn spec_digit(d: nat) -> char
    recommends
        d < 10,
{
    if d == 0 {
        '0'
    } else if d == 1 {
        '1'
    } else if d == 2 {
        '2'
    } else if d == 3 {
        '3'
    } else if d == 4 {
        '4'
    } else if d == 5 {
        '5'
    } else if d == 6 {
        '6'
    } else if d == 7 {
        '7'
    } else if d == 8 {
        '8'
    } else {
        '9'
    }
}

/// The decimal digits of `n`, most significant first, with no sign and no
/// leading zero except for `n == 0` itself.
pub open spec fn spec_udec(n: nat) -> Seq<char>
    decreases n,
{
    if n < 10 {
        seq![spec_digit(n)]
    } else {
        spec_udec(n / 10).push(spec_digit(n % 10))
    }
}

/// The decimal digits of `n`, left-padded with zeros to at least `width`
/// characters.
pub open spec fn spec_padded(n: nat, width: nat) -> Seq<char> {
    let d = spec_udec(n);
    if d.len() >= width {
        d
    } else {
        Seq::new((width - d.len()) as nat, |i: int| '0') + d
    }
}

/// `parts` joined into one sequence with `sep` between consecutive parts.
pub open spec fn spec_join(parts: Seq<Seq<char>>, sep: Seq<char>) -> Seq<char>
    decreases parts.len(),
{
    if parts.len() == 0 {
        Seq::empty()
    } else if parts.len() == 1 {
        parts[0]
    } else {
        spec_join(parts.drop_last(), sep) + sep + parts.last()
    }
}

/// True when `c` is a decimal digit character.
pub open spec fn spec_is_digit(c: char) -> bool {
    c == '0' || c == '1' || c == '2' || c == '3' || c == '4' || c == '5' || c == '6' || c == '7'
        || c == '8' || c == '9'
}

/// True when no character of `s` is a double quote.
pub open spec fn quote_free(s: Seq<char>) -> bool {
    forall|i: int| 0 <= i < s.len() ==> s[i] != '"'
}

/// Joining one more part appends it after a separator, unless it is the
/// first part.
pub proof fn lemma_join_push(parts: Seq<Seq<char>>, sep: Seq<char>, x: Seq<char>)
    ensures
        spec_join(parts.push(x), sep) == if parts.len() == 0 {
            x
        } else {
            spec_join(parts, sep) + sep + x
        },
{
    assert(parts.push(x).drop_last() =~= parts);
    assert(parts.push(x).last() == x);
    if parts.len() == 0 {
        assert(spec_join(parts.push(x), sep) == parts.push(x)[0]);
    }
}

/// Every character of a rendered number is a digit.
pub proof fn lemma_udec_digits(n: nat)
    ensures
        forall|i: int| 0 <= i < spec_udec(n).len() ==> spec_is_digit(#[trigger] spec_udec(n)[i]),
    decreases n,
{
    if n < 10 {
        assert(spec_udec(n) =~= seq![spec_digit(n)]);
    } else {
        lemma_udec_digits(n / 10);
        assert forall|i: int| 0 <= i < spec_udec(n).len() implies spec_is_digit(
            spec_udec(n)[i],
        ) by {
            if i < spec_udec(n).len() - 1 {
                assert(spec_udec(n)[i] == spec_udec(n / 10)[i]);
            } else {
                assert(spec_udec(n)[i] == spec_digit(n % 10));
            }
        }
    }
}

/// Ten to the power `k`.
pub open spec fn pow10(k: nat) -> nat
    decreases k,
{
    if k == 0 {
        1
    } else {
        10 * pow10((k - 1) as nat)
    }
}

/// A number below `10^k` renders in at most `k` digits; one digit at least
/// always comes out.
pub proof fn lemma_udec_len(n: nat, k: nat)
    requires
        k >= 1,
        n < pow10(k),
    ensures
        1 <= spec_udec(n).len() <= k,
    decreases k,
{
    if n >= 10 {
        assert(pow10(k) == 10 * pow10((k - 1) as nat));
        assert(pow10((k - 1) as nat) >= 1) by {
            lemma_pow10_positive((k - 1) as nat);
        }
        assert(k >= 2);
        vstd::arithmetic::div_mod::lemma_fundamental_div_mod(n as int, 10);
        assert(n / 10 < pow10((k - 1) as nat));
        lemma_udec_len(n / 10, (k - 1) as nat);
    }
}

/// A rendered number is never empty.
pub proof fn lemma_udec_nonempty(n: nat)
    ensures
        spec_udec(n).len() >= 1,
{
}

/// Ten to any power is positive.
pub proof fn lemma_pow10_positive(k: nat)
    ensures
        pow10(k) >= 1,
    decreases k,
{
    if k > 0 {
        lemma_pow10_positive((k - 1) as nat);
    }
}

/// A padded number is exactly `width` characters when the bare digits fit.
pub proof fn lemma_padded_len(n: nat, width: nat)
    requires
        spec_udec(n).len() <= width,
    ensures
        spec_padded(n, width).len() == width,
        forall|i: int|
            0 <= i < width ==> spec_is_digit(#[trigger] spec_padded(n, width)[i]),
{
    lemma_udec_digits(n);
}

/// Concatenation keeps text free of quotes.
pub proof fn lemma_quote_free_concat(x: Seq<char>, y: Seq<char>)
    requires
        quote_free(x),
        quote_free(y),
    ensures
        quote_free(x + y),
{
    assert forall|i: int| 0 <= i < (x + y).len() implies (x + y)[i] != '"' by {
        if i < x.len() {
            assert((x + y)[i] == x[i]);
        } else {
            assert((x + y)[i] == y[i - x.len()]);
        }
    }
}

/// A rendered number holds digits only, so no quote.
pub proof fn lemma_udec_quote_free(n: nat)
    ensures
        quote_free(spec_udec(n)),
{
    lemma_udec_digits(n);
    assert forall|i: int| 0 <= i < spec_udec(n).len() implies spec_udec(n)[i] != '"' by {
        assert(spec_is_digit(spec_udec(n)[i]));
    }
}

/// A zero-padded number holds digits only, so no quote.
pub proof fn lemma_padded_quote_free(n: nat, width: nat)
    ensures
        quote_free(spec_padded(n, width)),
{
    lemma_udec_quote_free(n);
    let d = spec_udec(n);
    if d.len() < width {
        let zeros = Seq::new((width - d.len()) as nat, |i: int| '0');
        assert(quote_free(zeros));
        lemma_quote_free_concat(zeros, d);
    }
}

/// Joining quote-free parts with a quote-free separator stays quote-free.
pub proof fn lemma_join_quote_free(parts: Seq<Seq<char>>, sep: Seq<char>)
    requires
        quote_free(sep),
        forall|i: int| 0 <= i < parts.len() ==> quote_free(#[trigger] parts[i]),
    ensures
        quote_free(spec_join(parts, sep)),
    decreases parts.len(),
{
    if parts.len() == 1 {
        assert(spec_join(parts, sep) == parts[0]);
    } else if parts.len() > 1 {
        assert(forall|i: int|
            0 <= i < parts.drop_last().len() ==> quote_free(#[trigger] parts.drop_last()[i]));
        lemma_join_quote_free(parts.drop_last(), sep);
        lemma_quote_free_concat(spec_join(parts.drop_last(), sep), sep);
        lemma_quote_free_concat(spec_join(parts.drop_last(), sep) + sep, parts.last());
    }
}

/// The character for one decimal digit.
pub fn digit_char(d: u64) -> (c: char)
    requires
        d < 10,
    ensures
        c == spec_digit(d as nat),
{
    if d == 0 {
        '0'
    } else if d == 1 {
        '1'
    } else if d == 2 {
        '2'
    } else if d == 3 {
        '3'
    } else if d == 4 {
        '4'
    } else if d == 5 {
        '5'
    } else if d == 6 {
        '6'
    } else if d == 7 {
        '7'
    } else if d == 8 {
        '8'
    } else {
        '9'
    }
}

/// Appends a copy of `src` to `dst`.
pub fn append_chars(dst: &mut Vec<char>, src: &Vec<char>)
    ensures
        final(dst)@ == old(dst)@ + src@,
{
    let mut j: usize = 0;
    while j < src.len()
        invariant
            j <= src.len(),
            dst@ == old(dst)@ + src@.take(j as int),
        decreases src.len() - j,
    {
        dst.push(src[j]);
        assert(src@.take(j + 1) =~= src@.take(j as int).push(src@[j as int]));
        j += 1;
    }
    assert(src@.take(src.len() as int) =~= src@);
}

/// The characters of `v` from `a` (inclusive) to `b` (exclusive).
pub fn subrange_chars(v: &Vec<char>, a: usize, b: usize) -> (r: Vec<char>)
    requires
        a <= b <= v.len(),
    ensures
        r@ == v@.subrange(a as int, b as int),
{
    let mut r: Vec<char> = Vec::new();
    let mut j: usize = a;
    while j < b
        invariant
            a <= j <= b <= v.len(),
            r@ == v@.subrange(a as int, j as int),
        decreases b - j,
    {
        r.push(v[j]);
        assert(v@.subrange(a as int, j + 1) =~= v@.subrange(a as int, j as int).push(
            v@[j as int],
        ));
        j += 1;
    }
    r
}

/// The decimal digits of `n`, most significant first.
pub fn udec_chars(n: u64) -> (r: Vec<char>)
    ensures
        r@ == spec_udec(n as nat),
    decreases n,
{
    if n < 10 {
        let mut r: Vec<char> = Vec::new();
        r.push(digit_char(n));
        assert(r@ =~= seq![spec_digit(n as nat)]);
        r
    } else {
        let mut r = udec_chars(n / 10);
        r.push(digit_char(n % 10));
        r
    }
}

/// The decimal digits of `n`, left-padded with zeros to at least `width`
/// characters.
pub fn padded_chars(n: u64, width: usize) -> (r: Vec<char>)
    ensures
        r@ == spec_padded(n as nat, width as nat),
{
    let digits = udec_chars(n);
    if digits.len() >= width {
        digits
    } else {
        let pad = width - digits.len();
        let mut r: Vec<char> = Vec::new();
        let mut j: usize = 0;
        while j < pad
            invariant
                j <= pad,
                r@ =~= Seq::new(j as nat, |i: int| '0'),
            decreases pad - j,
        {
            r.push('0');
            assert(r@ =~= Seq::new((j + 1) as nat, |i: int| '0'));
            j += 1;
        }
        append_chars(&mut r, &digits);
        assert(r@ =~= Seq::new(pad as nat, |i: int| '0') + digits@);
        r
    }
}

/// Relies on `str::chars`: the characters of `s`, in order, as a vector.
#[verifier::external_body]
pub fn chars_of(s: &str) -> (r: Vec<char>)
    ensures
        r@ == s@,
{
    s.chars().collect()
}

/// Relies on `String`'s `FromIterator` over characters: the string whose
/// characters are exactly those of `v`, in order.
#[verifier::external_body]
pub fn string_from_chars(v: &Vec<char>) -> (r: String)
    ensures
        r@ == v@,
{
    v.iter().collect()
}

} // verus!
