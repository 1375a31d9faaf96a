//! Character-level toolkit for the daemon's wire format.
//!
//! The control channel and the configuration file both carry a small
//! JSON-shaped text format. This module defines the format's primitives:
//! string literals with escapes, unsigned decimal numbers, fixed tokens and
//! whitespace. Each primitive has a specification-level printer and parser,
//! an executable counterpart proved against it, and a round-trip lemma
//! showing that the parser inverts the printer.

use vstd::prelude::*;

verus! {

/// Relies on String::push: appends the given character to the end of the string.
#[verifier::external_body]
pub(crate) fn push_char(out: &mut String, c: char)
    ensures
        final(out)@ == old(out)@ + seq![c],
{
    out.push(c);
}

// ---------------------------------------------------------------------------
// Whitespace
// ---------------------------------------------------------------------------

/// The whitespace characters the parser skips between tokens.
pub open spec fn is_ws(c: char) -> bool {
    c == ' ' || c == '\t' || c == '\n' || c == '\r'
}

/// The given text with its leading whitespace removed.
pub open spec fn skip_ws(t: Seq<char>) -> Seq<char>
    decreases t.len(),
{
    if t.len() > 0 && is_ws(t[0]) {
        skip_ws(t.skip(1))
    } else {
        t
    }
}

/// Text that does not begin with whitespace is unchanged by `skip_ws`.
pub proof fn lemma_skip_ws_no_ws(t: Seq<char>)
    requires
        t.len() == 0 || !is_ws(t[0]),
    ensures
        skip_ws(t) == t,
{
}

/// What `skip_ws` leaves never begins with whitespace.
pub proof fn lemma_skip_ws_head(t: Seq<char>)
    ensures
        skip_ws(t).len() == 0 || !is_ws(skip_ws(t)[0]),
    decreases t.len(),
{
    if t.len() > 0 && is_ws(t[0]) {
        lemma_skip_ws_head(t.skip(1));
    }
}

/// Advances the position past any whitespace.
pub(crate) fn skip_ws_at(s: &str, i: usize) -> (j: usize)
    requires
        i <= s@.len(),
    ensures
        i <= j <= s@.len(),
        s@.skip(j as int) == skip_ws(s@.skip(i as int)),
{
    let n = s.unicode_len();
    let mut j = i;
    loop
        invariant
            i <= j <= n == s@.len(),
            skip_ws(s@.skip(i as int)) == skip_ws(s@.skip(j as int)),
        decreases n - j,
    {
        if j >= n {
            proof {
                assert(s@.skip(j as int).len() == 0);
                lemma_skip_ws_no_ws(s@.skip(j as int));
            }
            return j;
        }
        let c = s.get_char(j);
        if !(c == ' ' || c == '\t' || c == '\n' || c == '\r') {
            proof {
                assert(s@.skip(j as int)[0] == c);
                lemma_skip_ws_no_ws(s@.skip(j as int));
            }
            return j;
        }
        proof {
            assert(s@.skip(j as int)[0] == c);
            assert(s@.skip(j as int).skip(1) =~= s@.skip(j + 1));
        }
        j = j + 1;
    }
}

// ---------------------------------------------------------------------------
// Fixed tokens
// ---------------------------------------------------------------------------

/// Consumes the exact literal `lit` at the head of `t`, yielding the rest.
pub open spec fn sp_lit(t: Seq<char>, lit: Seq<char>) -> Option<Seq<char>> {
    if lit.len() <= t.len() && t.take(lit.len() as int) == lit {
        Some(t.skip(lit.len() as int))
    } else {
        None
    }
}

/// Parsing a literal off the front of itself leaves exactly the tail.
pub proof fn lemma_sp_lit_roundtrip(lit: Seq<char>, rest: Seq<char>)
    ensures
        sp_lit(lit + rest, lit) == Some(rest),
{
    assert((lit + rest).take(lit.len() as int) =~= lit);
    assert((lit + rest).skip(lit.len() as int) =~= rest);
}

/// Consumes the literal `lit` at position `i`, after any leading whitespace.
#[verifier::loop_isolation(false)]
pub(crate) fn eat_lit(s: &str, i: usize, lit: &str) -> (r: Option<usize>)
    requires
        i <= s@.len(),
    ensures
        match r {
            Some(j) => i + lit@.len() <= j <= s@.len() && sp_lit(
                skip_ws(s@.skip(i as int)),
                lit@,
            ) == Some(s@.skip(j as int)),
            None => sp_lit(skip_ws(s@.skip(i as int)), lit@) is None,
        },
{
    let start = skip_ws_at(s, i);
    let ghost t = s@.skip(start as int);
    let n = s.unicode_len();
    let m = lit.unicode_len();
    if m > n - start {
        proof {
            assert(t.len() == n - start);
        }
        return None;
    }
    let mut k: usize = 0;
    while k < m
        invariant
            0 <= k <= m <= n - start,
            start + m <= n == s@.len(),
            m == lit@.len(),
            t == s@.skip(start as int),
            t.take(k as int) =~= lit@.take(k as int),
        decreases m - k,
    {
        let a = s.get_char(start + k);
        let b = lit.get_char(k);
        if a != b {
            proof {
                assert(t[k as int] == a && lit@[k as int] == b);
                assert(t.take(m as int) != lit@) by {
                    assert(t.take(m as int)[k as int] == a);
                }
            }
            return None;
        }
        proof {
            assert(t.take(k + 1) =~= lit@.take(k + 1));
        }
        k = k + 1;
    }
    proof {
        assert(t.take(m as int) =~= lit@);
        assert(t.skip(m as int) =~= s@.skip(start + m));
    }
    Some(start + m)
}

// ---------------------------------------------------------------------------
// Quoted strings
// ---------------------------------------------------------------------------

/// The escape sequence (or the character itself) the printer emits for `c`.
pub open spec fn esc_char(c: char) -> Seq<char> {
    if c == '"' {
        seq!['\\', '"']
    } else if c == '\\' {
        seq!['\\', '\\']
    } else if c == '\n' {
        seq!['\\', 'n']
    } else if c == '\r' {
        seq!['\\', 'r']
    } else if c == '\t' {
        seq!['\\', 't']
    } else {
        seq![c]
    }
}

/// The body of a quoted string: every character escaped as needed.
pub open spec fn esc(s: Seq<char>) -> Seq<char>
    decreases s.len(),
{
    if s.len() == 0 {
        Seq::empty()
    } else {
        esc_char(s[0]) + esc(s.skip(1))
    }
}

/// A full quoted string token.
pub open spec fn enc_string(s: Seq<char>) -> Seq<char> {
    seq!['"'] + esc(s) + seq!['"']
}

/// Escaping distributes over concatenation.
pub proof fn lemma_esc_append(a: Seq<char>, b: Seq<char>)
    ensures
        esc(a + b) == esc(a) + esc(b),
    decreases a.len(),
{
    if a.len() == 0 {
        assert(a + b =~= b);
        assert(esc(a) + esc(b) =~= esc(b));
    } else {
        assert((a + b).skip(1) =~= a.skip(1) + b);
        lemma_esc_append(a.skip(1), b);
        assert(esc_char((a + b)[0]) + (esc(a.skip(1)) + esc(b)) =~= (esc_char(a[0]) + esc(
            a.skip(1),
        )) + esc(b));
    }
}

/// The character an escape sequence `\x` stands for, if `x` is recognised.
pub open spec fn unesc_char(c: char) -> Option<char> {
    if c == '"' {
        Some('"')
    } else if c == '\\' {
        Some('\\')
    } else if c == 'n' {
        Some('\n')
    } else if c == 'r' {
        Some('\r')
    } else if c == 't' {
        Some('\t')
    } else {
        None
    }
}

/// Parses the body of a quoted string up to and including the closing quote,
/// yielding the unescaped content and the rest of the text.
pub open spec fn sp_strbody(t: Seq<char>) -> Option<(Seq<char>, Seq<char>)>
    decreases t.len(),
{
    if t.len() == 0 {
        None
    } else if t[0] == '"' {
        Some((Seq::empty(), t.skip(1)))
    } else if t[0] == '\\' {
        if t.len() >= 2 {
            match unesc_char(t[1]) {
                Some(c) => match sp_strbody(t.skip(2)) {
                    Some((v, rest)) => Some((seq![c] + v, rest)),
                    None => None,
                },
                None => None,
            }
        } else {
            None
        }
    } else {
        match sp_strbody(t.skip(1)) {
            Some((v, rest)) => Some((seq![t[0]] + v, rest)),
            None => None,
        }
    }
}

/// Parses a full quoted string token.
pub open spec fn sp_string(t: Seq<char>) -> Option<(Seq<char>, Seq<char>)> {
    if t.len() >= 1 && t[0] == '"' {
        sp_strbody(t.skip(1))
    } else {
        None
    }
}

/// The string-body parser inverts the escape printer, whatever follows the
/// closing quote.
pub proof fn lemma_strbody_roundtrip(x: Seq<char>, rest: Seq<char>)
    ensures
        sp_strbody(esc(x) + seq!['"'] + rest) == Some((x, rest)),
    decreases x.len(),
{
    let t = esc(x) + seq!['"'] + rest;
    if x.len() == 0 {
        assert(t =~= seq!['"'] + rest);
        assert(t[0] == '"');
        assert(t.skip(1) =~= rest);
    } else {
        let c = x[0];
        let tail = esc(x.skip(1)) + seq!['"'] + rest;
        lemma_strbody_roundtrip(x.skip(1), rest);
        assert(t =~= esc_char(c) + tail);
        if c == '"' || c == '\\' || c == '\n' || c == '\r' || c == '\t' {
            assert(esc_char(c).len() == 2);
            assert(t[0] == '\\');
            assert(t[1] == esc_char(c)[1]);
            assert(unesc_char(esc_char(c)[1]) == Some(c));
            assert(t.skip(2) =~= tail);
            assert(seq![c] + x.skip(1) =~= x);
        } else {
            assert(t[0] == c);
            assert(t.skip(1) =~= tail);
            assert(seq![c] + x.skip(1) =~= x);
        }
    }
}

/// A quoted string token parses back to the string it was printed from.
pub proof fn lemma_string_roundtrip(x: Seq<char>, rest: Seq<char>)
    ensures
        sp_string(enc_string(x) + rest) == Some((x, rest)),
{
    let t = enc_string(x) + rest;
    assert(t[0] == '"');
    assert(t.skip(1) =~= esc(x) + seq!['"'] + rest);
    lemma_strbody_roundtrip(x, rest);
}

/// Appends the quoted, escaped form of `s` to `out`.
#[verifier::loop_isolation(false)]
pub(crate) fn write_string(out: &mut String, s: &str)
    ensures
        final(out)@ == old(out)@ + enc_string(s@),
{
    push_char(out, '"');
    let n = s.unicode_len();
    let mut k: usize = 0;
    while k < n
        invariant
            0 <= k <= n == s@.len(),
            out@ == old(out)@ + seq!['"'] + esc(s@.take(k as int)),
        decreases n - k,
    {
        let c = s.get_char(k);
        if c == '"' {
            push_char(out, '\\');
            push_char(out, '"');
        } else if c == '\\' {
            push_char(out, '\\');
            push_char(out, '\\');
        } else if c == '\n' {
            push_char(out, '\\');
            push_char(out, 'n');
        } else if c == '\r' {
            push_char(out, '\\');
            push_char(out, 'r');
        } else if c == '\t' {
            push_char(out, '\\');
            push_char(out, 't');
        } else {
            push_char(out, c);
        }
        proof {
            assert(s@.take(k + 1) =~= s@.take(k as int) + seq![s@[k as int]]);
            lemma_esc_append(s@.take(k as int), seq![s@[k as int]]);
            assert(seq![s@[k as int]].skip(1) =~= Seq::<char>::empty());
            assert(esc(seq![s@[k as int]]) =~= esc_char(s@[k as int]) + esc(Seq::<char>::empty()));
            assert(esc(seq![s@[k as int]]) =~= esc_char(s@[k as int]));
            assert(out@ =~= old(out)@ + seq!['"'] + esc(s@.take(k + 1)));
        }
        k = k + 1;
    }
    proof {
        assert(s@.take(n as int) =~= s@);
    }
    push_char(out, '"');
    proof {
        assert(out@ =~= old(out)@ + enc_string(s@));
    }
}

/// Parses a quoted string token at position `i`, after any leading
/// whitespace, returning the unescaped content.
#[verifier::loop_isolation(false)]
pub(crate) fn p_string(s: &str, i: usize) -> (r: Option<(String, usize)>)
    requires
        i <= s@.len(),
    ensures
        match r {
            Some((v, j)) => i + 2 <= j <= s@.len() && sp_string(skip_ws(s@.skip(i as int)))
                == Some((v@, s@.skip(j as int))),
            None => sp_string(skip_ws(s@.skip(i as int))) is None,
        },
{
    let start = skip_ws_at(s, i);
    let n = s.unicode_len();
    if start >= n || s.get_char(start) != '"' {
        proof {
            if start < n {
                assert(s@.skip(start as int)[0] != '"');
            }
        }
        return None;
    }
    let ghost body0 = s@.skip(start + 1);
    proof {
        assert(s@.skip(start as int)[0] == '"');
        assert(s@.skip(start as int).skip(1) =~= body0);
    }
    let mut acc = String::new();
    let mut k: usize = start + 1;
    loop
        invariant
            start + 1 <= k <= n,
            sp_strbody(body0) == match sp_strbody(s@.skip(k as int)) {
                Some((v, rest)) => Some((acc@ + v, rest)),
                None => None::<(Seq<char>, Seq<char>)>,
            },
        decreases n - k,
    {
        if k >= n {
            proof {
                assert(s@.skip(k as int).len() == 0);
            }
            return None;
        }
        let c = s.get_char(k);
        proof {
            assert(s@.skip(k as int)[0] == c);
        }
        if c == '"' {
            proof {
                assert(s@.skip(k as int).skip(1) =~= s@.skip(k + 1));
                assert(acc@ + Seq::<char>::empty() =~= acc@);
            }
            return Some((acc, k + 1));
        } else if c == '\\' {
            if k + 1 >= n {
                proof {
                    assert(s@.skip(k as int).len() == 1);
                }
                return None;
            }
            let e = s.get_char(k + 1);
            proof {
                assert(s@.skip(k as int)[1] == e);
                assert(s@.skip(k as int).skip(2) =~= s@.skip(k + 2));
            }
            let u: char;
            if e == '"' {
                u = '"';
            } else if e == '\\' {
                u = '\\';
            } else if e == 'n' {
                u = '\n';
            } else if e == 'r' {
                u = '\r';
            } else if e == 't' {
                u = '\t';
            } else {
                return None;
            }
            let ghost acc0 = acc@;
            push_char(&mut acc, u);
            proof {
                assert forall|v: Seq<char>| acc0 + (seq![u] + v) =~= (acc0 + seq![u]) + v by {}
            }
            k = k + 2;
        } else {
            proof {
                assert(s@.skip(k as int).skip(1) =~= s@.skip(k + 1));
            }
            let ghost acc0 = acc@;
            push_char(&mut acc, c);
            proof {
                assert forall|v: Seq<char>| acc0 + (seq![c] + v) =~= (acc0 + seq![c]) + v by {}
            }
            k = k + 1;
        }
    }
}

// ---------------------------------------------------------------------------
// Unsigned decimal numbers
// ---------------------------------------------------------------------------

/// Whether `c` is a decimal digit.
pub open spec fn is_digit(c: char) -> bool {
    48 <= c as u32 <= 57
}

/// The numeric value of a digit character.
pub open spec fn digit_val(c: char) -> nat
    recommends
        is_digit(c),
{
    (c as u32 - 48) as nat
}

/// The digit character for a value below ten.
pub open spec fn digit_char(d: nat) -> char {
    if d == 0 {
        '0'
    } else if d == 1 {
        '1'
    } else if d == 2 {
        '2'
    } else if d == 3 {
        '3'
    } else if d == 4 {
        '4'
    } else if d == 5 {
        '5'
    } else if d == 6 {
        '6'
    } else if d == 7 {
        '7'
    } else if d == 8 {
        '8'
    } else {
        '9'
    }
}

/// The numeric value of a digit string, most significant digit first.
pub open spec fn val_of(ds: Seq<char>) -> nat
    decreases ds.len(),
{
    if ds.len() == 0 {
        0
    } else {
        val_of(ds.drop_last()) * 10 + digit_val(ds.last())
    }
}

/// Whether every character of `ds` is a digit.
pub open spec fn all_digits(ds: Seq<char>) -> bool {
    forall|k: int| 0 <= k < ds.len() ==> is_digit(ds[k])
}

/// Splits the longest digit prefix off the front of `t`.
pub open spec fn sp_digits(t: Seq<char>) -> (Seq<char>, Seq<char>)
    decreases t.len(),
{
    if t.len() > 0 && is_digit(t[0]) {
        let (ds, rest) = sp_digits(t.skip(1));
        (seq![t[0]] + ds, rest)
    } else {
        (Seq::empty(), t)
    }
}

/// Parses an unsigned decimal number; at least one digit, and the value must
/// fit in a `u64`.
pub open spec fn sp_u64(t: Seq<char>) -> Option<(u64, Seq<char>)> {
    let (ds, rest) = sp_digits(t);
    if ds.len() == 0 {
        None
    } else if val_of(ds) <= u64::MAX {
        Some(((val_of(ds) as u64), rest))
    } else {
        None
    }
}

/// The canonical decimal digits of `n`, without leading zeros.
pub open spec fn dec_digits(n: nat) -> Seq<char>
    decreases n,
{
    if n < 10 {
        seq![digit_char(n)]
    } else {
        dec_digits(n / 10) + seq![digit_char(n % 10)]
    }
}

/// `digit_char` and `digit_val` invert each other below ten.
pub proof fn lemma_digit_char_val(d: nat)
    requires
        d < 10,
    ensures
        is_digit(digit_char(d)),
        digit_val(digit_char(d)) == d,
{
}

/// Every character the decimal printer emits is a digit.
pub proof fn lemma_dec_digits_all(n: nat)
    ensures
        all_digits(dec_digits(n)),
        dec_digits(n).len() >= 1,
    decreases n,
{
    if n < 10 {
        lemma_digit_char_val(n);
    } else {
        lemma_dec_digits_all(n / 10);
        lemma_digit_char_val(n % 10);
        assert forall|k: int| 0 <= k < dec_digits(n).len() implies is_digit(dec_digits(n)[k]) by {
            if k < dec_digits(n / 10).len() {
                assert(dec_digits(n)[k] == dec_digits(n / 10)[k]);
            }
        }
    }
}

/// The digit string the printer emits evaluates back to the printed value.
pub proof fn lemma_val_of_dec_digits(n: nat)
    ensures
        val_of(dec_digits(n)) == n,
    decreases n,
{
    if n < 10 {
        lemma_digit_char_val(n);
        assert(dec_digits(n).drop_last() =~= Seq::<char>::empty());
        assert(val_of(Seq::<char>::empty()) == 0);
        assert(dec_digits(n).last() == digit_char(n));
        assert(val_of(dec_digits(n)) == val_of(dec_digits(n).drop_last()) * 10 + digit_val(
            dec_digits(n).last(),
        ));
    } else {
        lemma_val_of_dec_digits(n / 10);
        lemma_digit_char_val(n % 10);
        assert(dec_digits(n).drop_last() =~= dec_digits(n / 10));
        assert(dec_digits(n).last() == digit_char(n % 10));
        assert(dec_digits(n).len() > 0);
        assert(val_of(dec_digits(n)) == val_of(dec_digits(n / 10)) * 10 + digit_val(
            digit_char(n % 10),
        ));
        assert(val_of(dec_digits(n)) == (n / 10) * 10 + (n % 10));
        vstd::arithmetic::div_mod::lemma_fundamental_div_mod(n as int, 10);
        assert(n == 10 * (n / 10) + n % 10);
    }
}

/// The digit scanner takes exactly the digit prefix and leaves the rest,
/// provided the rest does not begin with a digit.
pub proof fn lemma_sp_digits_of(ds: Seq<char>, rest: Seq<char>)
    requires
        all_digits(ds),
        rest.len() == 0 || !is_digit(rest[0]),
    ensures
        sp_digits(ds + rest).0 == ds,
        sp_digits(ds + rest).1 == rest,
    decreases ds.len(),
{
    if ds.len() == 0 {
        assert(ds + rest =~= rest);
        assert(sp_digits(rest).0 =~= ds);
    } else {
        assert((ds + rest)[0] == ds[0]);
        assert((ds + rest).skip(1) =~= ds.skip(1) + rest);
        assert(all_digits(ds.skip(1)));
        lemma_sp_digits_of(ds.skip(1), rest);
        assert(seq![ds[0]] + ds.skip(1) =~= ds);
    }
}

/// A value's digit string grows monotonically in numeric value.
pub proof fn lemma_val_of_prefix(a: Seq<char>, b: Seq<char>)
    ensures
        val_of(a) <= val_of(a + b),
    decreases b.len(),
{
    if b.len() == 0 {
        assert(a + b =~= a);
    } else {
        lemma_val_of_prefix(a, b.drop_last());
        assert((a + b).drop_last() =~= a + b.drop_last());
    }
}

/// A decimal number parses back to the value it was printed from, whatever
/// non-digit text follows it.
pub proof fn lemma_u64_roundtrip(n: u64, rest: Seq<char>)
    requires
        rest.len() == 0 || !is_digit(rest[0]),
    ensures
        sp_u64(dec_digits(n as nat) + rest) == Some((n, rest)),
{
    lemma_dec_digits_all(n as nat);
    lemma_val_of_dec_digits(n as nat);
    lemma_sp_digits_of(dec_digits(n as nat), rest);
}

// ---------------------------------------------------------------------------
// Round-trip steps through leading whitespace
// ---------------------------------------------------------------------------

/// A printed literal at the head of the text parses off exactly, since the
/// printer emits no leading whitespace.
pub proof fn lemma_lit_step(lit: Seq<char>, rest: Seq<char>)
    requires
        lit.len() > 0,
        !is_ws(lit[0]),
    ensures
        sp_lit(skip_ws(lit + rest), lit) == Some(rest),
{
    assert((lit + rest)[0] == lit[0]);
    lemma_skip_ws_no_ws(lit + rest);
    lemma_sp_lit_roundtrip(lit, rest);
}

/// A printed string token at the head of the text parses back exactly.
pub proof fn lemma_string_step(x: Seq<char>, rest: Seq<char>)
    ensures
        sp_string(skip_ws(enc_string(x) + rest)) == Some((x, rest)),
{
    assert((enc_string(x) + rest)[0] == '"');
    lemma_skip_ws_no_ws(enc_string(x) + rest);
    lemma_string_roundtrip(x, rest);
}

/// A digit is not whitespace.
pub proof fn lemma_digit_not_ws(c: char)
    requires
        is_digit(c),
    ensures
        !is_ws(c),
{
    assert(' ' as u32 == 32 && '\t' as u32 == 9 && '\n' as u32 == 10 && '\r' as u32 == 13);
}

/// A printed decimal number at the head of the text parses back exactly,
/// provided the text after it does not begin with a digit.
pub proof fn lemma_u64_step(n: u64, rest: Seq<char>)
    requires
        rest.len() == 0 || !is_digit(rest[0]),
    ensures
        sp_u64(skip_ws(dec_digits(n as nat) + rest)) == Some((n, rest)),
{
    lemma_dec_digits_all(n as nat);
    let t = dec_digits(n as nat) + rest;
    assert(t[0] == dec_digits(n as nat)[0]);
    lemma_digit_not_ws(t[0]);
    lemma_skip_ws_no_ws(t);
    lemma_u64_roundtrip(n, rest);
}

/// The digit character for a value below ten, as executable code.
fn digit_to_char(d: u64) -> (c: char)
    requires
        d < 10,
    ensures
        c == digit_char(d as nat),
{
    if d == 0 {
        '0'
    } else if d == 1 {
        '1'
    } else if d == 2 {
        '2'
    } else if d == 3 {
        '3'
    } else if d == 4 {
        '4'
    } else if d == 5 {
        '5'
    } else if d == 6 {
        '6'
    } else if d == 7 {
        '7'
    } else if d == 8 {
        '8'
    } else {
        '9'
    }
}

/// Appends the decimal form of `n` to `out`.
pub(crate) fn write_u64(out: &mut String, n: u64)
    ensures
        final(out)@ == old(out)@ + dec_digits(n as nat),
    decreases n,
{
    if n >= 10 {
        write_u64(out, n / 10);
    }
    push_char(out, digit_to_char(n % 10));
    proof {
        if n >= 10 {
            assert(old(out)@ + dec_digits((n / 10) as nat) + seq![digit_char((n % 10) as nat)]
                =~= old(out)@ + dec_digits(n as nat));
        } else {
            assert(old(out)@ + seq![digit_char(n as nat)] =~= old(out)@ + dec_digits(n as nat));
        }
    }
}

/// Parses an unsigned decimal number at position `i`, after any leading
/// whitespace.
#[verifier::loop_isolation(false)]
pub(crate) fn p_u64(s: &str, i: usize) -> (r: Option<(u64, usize)>)
    requires
        i <= s@.len(),
    ensures
        match r {
            Some((v, j)) => i < j <= s@.len() && sp_u64(skip_ws(s@.skip(i as int))) == Some(
                (v, s@.skip(j as int)),
            ),
            None => sp_u64(skip_ws(s@.skip(i as int))) is None,
        },
{
    let start = skip_ws_at(s, i);
    let ghost t = s@.skip(start as int);
    let n = s.unicode_len();
    let mut k: usize = start;
    let mut acc: u64 = 0;
    let mut overflowed = false;
    loop
        invariant
            start <= k <= n,
            all_digits(s@.subrange(start as int, k as int)),
            sp_digits(t).0 == s@.subrange(start as int, k as int) + sp_digits(s@.skip(k as int)).0,
            sp_digits(t).1 == sp_digits(s@.skip(k as int)).1,
            !overflowed ==> acc == val_of(s@.subrange(start as int, k as int)),
            overflowed ==> val_of(s@.subrange(start as int, k as int)) > u64::MAX,
        decreases n - k,
    {
        let ghost pre = s@.subrange(start as int, k as int);
        if k >= n {
            proof {
                assert(s@.skip(k as int).len() == 0);
            }
            break ;
        }
        let c = s.get_char(k);
        let u = c as u32;
        if !(48 <= u && u <= 57) {
            proof {
                assert(s@.skip(k as int)[0] == c);
            }
            break ;
        }
        proof {
            assert(s@.skip(k as int)[0] == c);
            assert(s@.skip(k as int).skip(1) =~= s@.skip(k + 1));
            assert(s@.subrange(start as int, k + 1) =~= pre + seq![c]);
            assert((pre + seq![c]).drop_last() =~= pre);
            assert(seq![c] + sp_digits(s@.skip(k + 1)).0 =~= sp_digits(s@.skip(k as int)).0);
            assert(pre + (seq![c] + sp_digits(s@.skip(k + 1)).0) =~= (pre + seq![c]) + sp_digits(
                s@.skip(k + 1),
            ).0);
        }
        let d = (u - 48) as u64;
        if !overflowed {
            match acc.checked_mul(10) {
                Some(x) => match x.checked_add(d) {
                    Some(y) => {
                        acc = y;
                    },
                    None => {
                        overflowed = true;
                    },
                },
                None => {
                    overflowed = true;
                },
            }
        } else {
            proof {
                lemma_val_of_prefix(pre, seq![c]);
            }
        }
        k = k + 1;
    }
    let ghost ds = sp_digits(t).0;
    let ghost pre = s@.subrange(start as int, k as int);
    proof {
        assert(sp_digits(s@.skip(k as int)).0 =~= Seq::<char>::empty());
        assert(ds =~= pre);
        assert(sp_digits(t).1 =~= s@.skip(k as int));
    }
    if k == start {
        proof {
            assert(ds.len() == 0);
        }
        return None;
    }
    if overflowed {
        return None;
    }
    Some((acc, k))
}

} // verus!
