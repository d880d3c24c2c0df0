//! Wire primitives for the compact claims encoding: decimal numbers with a
//! `;` terminator and length-prefixed raw strings. Every parser is proved
//! against a specification-level parser, and each specification parser is
//! proved to invert the corresponding serializer, which is what the token
//! round trip rests on.

use vstd::prelude::*;

verus! {

/// Appends the given char to the end of this String (std's documented
/// behaviour of `String::push`).
pub assume_specification[ String::push ](s: &mut String, ch: char)
    ensures
        final(s)@ == old(s)@.push(ch),
;

pub open spec fn is_digit(c: char) -> bool {
    '0' <= c && c <= '9'
}

pub open spec fn digit_char(n: int) -> char {
    if n == 0 { '0' } else if n == 1 { '1' } else if n == 2 { '2' } else if n == 3 { '3' }
    else if n == 4 { '4' } else if n == 5 { '5' } else if n == 6 { '6' } else if n == 7 { '7' }
    else if n == 8 { '8' } else { '9' }
}

pub open spec fn digit_val(c: char) -> int {
    c as int - 48
}

/// Decimal digits of `n`, most significant first.
pub open spec fn dec_digits(n: nat) -> Seq<char>
    decreases n,
{
    if n < 10 {
        seq![digit_char(n as int)]
    } else {
        dec_digits(n / 10) + seq![digit_char((n % 10) as int)]
    }
}

/// A serialized number: its decimal digits and a `;` terminator.
pub open spec fn ser_num(n: nat) -> Seq<char> {
    dec_digits(n) + seq![';']
}

/// A serialized string: its length, then its characters raw.
pub open spec fn ser_str(s: Seq<char>) -> Seq<char> {
    ser_num(s.len()) + s
}

pub open spec fn all_digits(s: Seq<char>) -> bool {
    forall|i: int| 0 <= i < s.len() ==> is_digit(#[trigger] s[i])
}

/// Numeric value of a digit sequence (most significant first).
pub open spec fn val_of_digits(s: Seq<char>) -> nat
    decreases s.len(),
{
    if s.len() == 0 {
        0
    } else {
        (val_of_digits(s.drop_last()) * 10 + digit_val(s.last())) as nat
    }
}

/// Splits a sequence into its longest digit prefix and the rest.
pub open spec fn split_digits(s: Seq<char>) -> (Seq<char>, Seq<char>)
    decreases s.len(),
{
    if s.len() > 0 && is_digit(s[0]) {
        let (d, r) = split_digits(s.drop_first());
        (seq![s[0]] + d, r)
    } else {
        (Seq::<char>::empty(), s)
    }
}

/// Parses a `;`-terminated decimal number from the front; yields the value
/// and the remainder. Rejects an empty digit run, a missing terminator, and
/// values beyond `u128::MAX`.
pub open spec fn parse_num(s: Seq<char>) -> Option<(nat, Seq<char>)> {
    let (d, r) = split_digits(s);
    if d.len() == 0 {
        None
    } else if r.len() > 0 && r[0] == ';' && val_of_digits(d) <= u128::MAX {
        Some((val_of_digits(d), r.drop_first()))
    } else {
        None
    }
}

/// Parses a length-prefixed string from the front.
pub open spec fn parse_str(s: Seq<char>) -> Option<(Seq<char>, Seq<char>)> {
    match parse_num(s) {
        None => None,
        Some((n, r)) => if n <= r.len() {
            Some((r.take(n as int), r.skip(n as int)))
        } else {
            None
        },
    }
}

// ---------------------------------------------------------------------------
// Round-trip lemmas at the specification level.
// ---------------------------------------------------------------------------

pub proof fn lemma_dec_digits_all_digits(n: nat)
    ensures
        all_digits(dec_digits(n)),
        dec_digits(n).len() >= 1,
    decreases n,
{
    if n >= 10 {
        lemma_dec_digits_all_digits(n / 10);
        assert forall|i: int| 0 <= i < dec_digits(n).len() implies is_digit(
            #[trigger] dec_digits(n)[i],
        ) by {
            if i < dec_digits(n / 10).len() {
                assert(dec_digits(n)[i] == dec_digits(n / 10)[i]);
            }
        }
    }
}

/// The ten digit characters decode back to their values.
pub proof fn lemma_digit_roundtrip(k: int)
    requires
        0 <= k < 10,
    ensures
        digit_val(digit_char(k)) == k,
        is_digit(digit_char(k)),
{
    assert(digit_val(digit_char(0)) == 0 && is_digit(digit_char(0)));
    assert(digit_val(digit_char(1)) == 1 && is_digit(digit_char(1)));
    assert(digit_val(digit_char(2)) == 2 && is_digit(digit_char(2)));
    assert(digit_val(digit_char(3)) == 3 && is_digit(digit_char(3)));
    assert(digit_val(digit_char(4)) == 4 && is_digit(digit_char(4)));
    assert(digit_val(digit_char(5)) == 5 && is_digit(digit_char(5)));
    assert(digit_val(digit_char(6)) == 6 && is_digit(digit_char(6)));
    assert(digit_val(digit_char(7)) == 7 && is_digit(digit_char(7)));
    assert(digit_val(digit_char(8)) == 8 && is_digit(digit_char(8)));
    assert(digit_val(digit_char(9)) == 9 && is_digit(digit_char(9)));
}

pub proof fn lemma_val_of_dec_digits(n: nat)
    ensures
        val_of_digits(dec_digits(n)) == n,
    decreases n,
{
    assert(val_of_digits(Seq::<char>::empty()) == 0);
    if n < 10 {
        lemma_digit_roundtrip(n as int);
        let d = dec_digits(n);
        assert(d == seq![digit_char(n as int)]);
        assert(d.drop_last() =~= Seq::<char>::empty());
        assert(d.last() == digit_char(n as int));
        assert(val_of_digits(d) == (val_of_digits(d.drop_last()) * 10 + digit_val(d.last())) as nat);
        assert(val_of_digits(d) == n);
    } else {
        lemma_val_of_dec_digits(n / 10);
        lemma_digit_roundtrip((n % 10) as int);
        let d = dec_digits(n);
        assert(d == dec_digits(n / 10) + seq![digit_char((n % 10) as int)]);
        assert(d.len() == dec_digits(n / 10).len() + 1);
        assert(d.drop_last() =~= dec_digits(n / 10));
        assert(d.last() == digit_char((n % 10) as int));
        assert(val_of_digits(d) == (val_of_digits(d.drop_last()) * 10 + digit_val(d.last())) as nat);
        assert(digit_val(digit_char((n % 10) as int)) == n % 10);
        vstd::arithmetic::div_mod::lemma_fundamental_div_mod(n as int, 10);
        assert(val_of_digits(d) == ((n / 10) * 10 + n % 10) as nat);
    }
}

/// The longest digit prefix of `d + rest` is exactly `d` when `d` is all
/// digits and `rest` does not begin with one.
pub proof fn lemma_split_digits_concat(d: Seq<char>, rest: Seq<char>)
    requires
        all_digits(d),
        rest.len() == 0 || !is_digit(rest[0]),
    ensures
        split_digits(d + rest) == (d, rest),
    decreases d.len(),
{
    if d.len() == 0 {
        assert(d + rest =~= rest);
        if rest.len() > 0 {
            assert(split_digits(rest) == (Seq::<char>::empty(), rest));
        }
        assert(split_digits(d + rest).0 =~= d);
    } else {
        assert(is_digit(d[0]));
        lemma_split_digits_concat(d.drop_first(), rest);
        assert((d + rest).drop_first() =~= d.drop_first() + rest);
        assert((d + rest)[0] == d[0]);
        let (dd, rr) = split_digits((d + rest).drop_first());
        assert(dd == d.drop_first() && rr == rest);
        assert(seq![(d + rest)[0]] + dd =~= d);
    }
}

/// Parsing inverts serialization for numbers, whatever follows.
pub proof fn lemma_parse_ser_num(n: nat, rest: Seq<char>)
    requires
        n <= u128::MAX,
    ensures
        parse_num(ser_num(n) + rest) == Some((n, rest)),
{
    lemma_dec_digits_all_digits(n);
    lemma_val_of_dec_digits(n);
    let tail = seq![';'] + rest;
    assert(ser_num(n) + rest =~= dec_digits(n) + tail);
    assert(!is_digit(tail[0]));
    lemma_split_digits_concat(dec_digits(n), tail);
    assert(split_digits(dec_digits(n) + tail) == (dec_digits(n), tail));
    assert(tail.drop_first() =~= rest);
}

/// Parsing inverts serialization for strings, whatever follows.
pub proof fn lemma_parse_ser_str(s: Seq<char>, rest: Seq<char>)
    requires
        s.len() <= u128::MAX,
    ensures
        parse_str(ser_str(s) + rest) == Some((s, rest)),
{
    lemma_parse_ser_num(s.len(), s + rest);
    assert(ser_str(s) + rest =~= ser_num(s.len()) + (s + rest));
    assert((s + rest).take(s.len() as int) =~= s);
    assert((s + rest).skip(s.len() as int) =~= rest);
}

// ---------------------------------------------------------------------------
// Executable serialization.
// ---------------------------------------------------------------------------

fn digit_char_exec(n: u128) -> (c: char)
    requires
        n < 10,
    ensures
        c == digit_char(n as int),
{
    if n == 0 { '0' } else if n == 1 { '1' } else if n == 2 { '2' } else if n == 3 { '3' }
    else if n == 4 { '4' } else if n == 5 { '5' } else if n == 6 { '6' } else if n == 7 { '7' }
    else if n == 8 { '8' } else { '9' }
}

fn push_digits(out: &mut String, n: u128)
    ensures
        final(out)@ == old(out)@ + dec_digits(n as nat),
    decreases n,
{
    if n < 10 {
        out.push(digit_char_exec(n));
        assert(final(out)@ =~= old(out)@ + dec_digits(n as nat));
    } else {
        push_digits(out, n / 10);
        out.push(digit_char_exec(n % 10));
        assert(final(out)@ =~= old(out)@ + dec_digits(n as nat));
    }
}

/// Appends `ser_num(n)` to `out`.
pub fn push_num(out: &mut String, n: u128)
    ensures
        final(out)@ == old(out)@ + ser_num(n as nat),
{
    push_digits(out, n);
    out.push(';');
    assert(final(out)@ =~= old(out)@ + ser_num(n as nat));
}

/// Appends `ser_str(s@)` to `out`.
pub fn push_str(out: &mut String, s: &str)
    ensures
        final(out)@ == old(out)@ + ser_str(s@),
{
    let len = s.unicode_len();
    push_num(out, len as u128);
    let mut i: usize = 0;
    while i < len
        invariant
            len == s@.len(),
            0 <= i <= len,
            out@ == old(out)@ + ser_num(len as nat) + s@.take(i as int),
        decreases len - i,
    {
        let c = s.get_char(i);
        out.push(c);
        assert(s@.take(i as int).push(s@[i as int]) =~= s@.take(i + 1));
        i = i + 1;
    }
    assert(s@.take(len as int) =~= s@);
    assert(out@ =~= old(out)@ + ser_str(s@));
}

// ---------------------------------------------------------------------------
// Executable parsing. Each function takes the input and a position and
// returns the parsed value with the next position; the contract ties it to
// the specification parser applied to the suffix at that position.
// ---------------------------------------------------------------------------

fn digit_val_exec(c: char) -> (v: u128)
    requires
        is_digit(c),
    ensures
        v == digit_val(c),
        v < 10,
{
    (c as u32 - 48) as u128
}

fn is_digit_exec(c: char) -> (b: bool)
    ensures
        b == is_digit(c),
{
    '0' <= c && c <= '9'
}

/// Parses a `;`-terminated number at position `i`.
pub fn parse_num_at(s: &str, i: usize) -> (r: Option<(u128, usize)>)
    requires
        i <= s@.len(),
    ensures
        match r {
            Some((v, j)) => {
                &&& i <= j <= s@.len()
                &&& parse_num(s@.skip(i as int)) == Some((v as nat, s@.skip(j as int)))
            },
            None => parse_num(s@.skip(i as int)) is None,
        },
{
    let ghost suff = s@.skip(i as int);
    let len = s.unicode_len();
    let mut j: usize = i;
    // find the end of the digit run
    while j < len && is_digit_exec(s.get_char(j))
        invariant
            i <= j <= len,
            len == s@.len(),
            forall|t: int| i <= t < j ==> is_digit(#[trigger] s@[t]),
        decreases len - j,
    {
        j = j + 1;
    }
    proof {
        assert(suff =~= s@.subrange(i as int, j as int) + s@.skip(j as int));
        lemma_split_digits_concat(s@.subrange(i as int, j as int), s@.skip(j as int));
    }
    if j == i {
        // no digits
        return None;
    }
    if j == len {
        // missing terminator
        return None;
    }
    if s.get_char(j) != ';' {
        return None;
    }
    // accumulate the value, watching for overflow
    let ghost digits = s@.subrange(i as int, j as int);
    proof {
        assert(split_digits(suff) == (digits, s@.skip(j as int)));
        assert(s@.skip(j as int)[0] == s@[j as int]);
    }
    let mut v: u128 = 0;
    let mut k: usize = i;
    while k < j
        invariant
            i <= k <= j < s@.len(),
            suff == s@.skip(i as int),
            digits == s@.subrange(i as int, j as int),
            split_digits(suff) == (digits, s@.skip(j as int)),
            s@[j as int] == ';',
            forall|t: int| i <= t < j ==> is_digit(#[trigger] s@[t]),
            v == val_of_digits(s@.subrange(i as int, k as int)),
            v <= u128::MAX,
        decreases j - k,
    {
        let c = s.get_char(k);
        let d = digit_val_exec(c);
        if v > (u128::MAX - d) / 10 {
            // the full digit run exceeds u128::MAX
            proof {
                lemma_val_digits_monotone(s@, i as int, k as int + 1, j as int);
                assert(val_of_digits(s@.subrange(i as int, k as int + 1)) > u128::MAX) by {
                    assert(s@.subrange(i as int, k as int + 1).drop_last() =~= s@.subrange(
                        i as int,
                        k as int,
                    ));
                    assert(s@.subrange(i as int, k as int + 1).last() == s@[k as int]);
                };
            }
            return None;
        }
        proof {
            assert(s@.subrange(i as int, k as int + 1).drop_last() =~= s@.subrange(
                i as int,
                k as int,
            ));
            assert(s@.subrange(i as int, k as int + 1).last() == s@[k as int]);
        }
        v = v * 10 + d;
        k = k + 1;
    }
    proof {
        assert(s@.subrange(i as int, j as int) =~= digits);
        assert(digits.len() > 0);
        assert(s@.skip(j as int)[0] == s@[j as int]);
        assert(s@.skip(j as int).drop_first() =~= s@.skip(j as int + 1));
    }
    Some((v, j + 1))
}

/// The value of a digit run only grows as the run extends.
proof fn lemma_val_digits_monotone(s: Seq<char>, i: int, m: int, j: int)
    requires
        0 <= i <= m <= j <= s.len(),
        forall|t: int| i <= t < j ==> is_digit(#[trigger] s[t]),
    ensures
        val_of_digits(s.subrange(i, j)) >= val_of_digits(s.subrange(i, m)),
    decreases j - m,
{
    if m < j {
        lemma_val_digits_monotone(s, i, m + 1, j);
        assert(s.subrange(i, m + 1).drop_last() =~= s.subrange(i, m));
        assert(s.subrange(i, m + 1).last() == s[m]);
        assert(is_digit(s[m]));
        assert(val_of_digits(s.subrange(i, m + 1)) >= val_of_digits(s.subrange(i, m)));
    } else {
        assert(s.subrange(i, j) =~= s.subrange(i, m));
    }
}

/// Parses a length-prefixed string at position `i`.
pub fn parse_str_at(s: &str, i: usize) -> (r: Option<(String, usize)>)
    requires
        i <= s@.len(),
    ensures
        match r {
            Some((v, j)) => {
                &&& i <= j <= s@.len()
                &&& parse_str(s@.skip(i as int)) == Some((v@, s@.skip(j as int)))
            },
            None => parse_str(s@.skip(i as int)) is None,
        },
{
    match parse_num_at(s, i) {
        None => None,
        Some((n, j)) => {
            let len = s.unicode_len();
            if n > (len - j) as u128 {
                proof {
                    assert(s@.skip(j as int).len() == len - j);
                }
                return None;
            }
            let e = j + (n as usize);
            let part = s.substring_char(j, e);
            proof {
                assert(s@.skip(j as int).take(n as int) =~= s@.subrange(j as int, e as int));
                assert(s@.skip(j as int).skip(n as int) =~= s@.skip(e as int));
            }
            Some((part.to_owned(), e))
        },
    }
}

} // verus!
