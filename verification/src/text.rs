//! Text scanning primitives shared by the wire-format readers: literal
//! matching, decimal digit runs, and their values.

use vstd::prelude::*;
use vstd::string::StrSliceExecFns;
use vstd::string::StringExecFns;

verus! {

/// A decimal digit `'0'..='9'`.
pub open spec fn is_dec_digit(c: char) -> bool {
    48 <= (c as int) && (c as int) <= 57
}

/// The value of a decimal digit.
pub open spec fn dec_digit_val(c: char) -> nat {
    ((c as int) - 48) as nat
}

/// The value of a run of decimal digits, most significant first.
pub open spec fn dec_val(s: Seq<char>) -> nat
    decreases s.len(),
{
    if s.len() == 0 {
        0
    } else {
        dec_val(s.drop_last()) * 10 + dec_digit_val(s.last())
    }
}

/// The end of the maximal run of decimal digits starting at `i`.
pub open spec fn digit_run_end(s: Seq<char>, i: int) -> int
    decreases s.len() - i,
{
    if 0 <= i && i < s.len() && is_dec_digit(s[i]) {
        digit_run_end(s, i + 1)
    } else {
        i
    }
}

/// The character of a decimal digit.
pub open spec fn dec_digit_char(d: nat) -> char {
    ((48 + d) as u8) as char
}

/// The canonical decimal rendering of a number: no leading zeros.
pub open spec fn dec_str(n: nat) -> Seq<char>
    decreases n,
{
    if n < 10 {
        seq![dec_digit_char(n)]
    } else {
        dec_str(n / 10).push(dec_digit_char(n % 10))
    }
}

/// The canonical rendering is a non-empty digit run without a leading zero,
/// and its value is the number.
pub proof fn lemma_dec_str_wf(n: nat)
    ensures
        dec_str(n).len() >= 1,
        forall|t: int| 0 <= t < dec_str(n).len() ==> is_dec_digit(#[trigger] dec_str(n)[t]),
        dec_str(n).len() == 1 || dec_str(n)[0] != '0',
        dec_val(dec_str(n)) == n,
    decreases n,
{
    if n < 10 {
        let s = dec_str(n);
        assert(s == seq![dec_digit_char(n)]);
        assert((dec_digit_char(n) as int) == 48 + n);
        assert(s.drop_last() =~= Seq::<char>::empty());
        assert(dec_val(s) == dec_val(s.drop_last()) * 10 + dec_digit_val(s.last()));
    } else {
        let q = n / 10;
        let rem = n % 10;
        assert(1 <= q < n);
        lemma_dec_str_wf(q);
        let p = dec_str(q);
        let s = dec_str(n);
        assert(s == p.push(dec_digit_char(rem)));
        assert((dec_digit_char(rem) as int) == 48 + rem);
        assert forall|t: int| 0 <= t < s.len() implies is_dec_digit(#[trigger] s[t]) by {
            if t < p.len() {
                assert(s[t] == p[t]);
            }
        }
        assert(s[0] == p[0]);
        if q < 10 {
            assert(p == seq![dec_digit_char(q)]);
            assert((p[0] as int) == 48 + q);
            assert(p[0] != '0');
        } else {
            lemma_dec_str_wf(q / 10);
            assert(p == dec_str(q / 10).push(dec_digit_char(q % 10)));
            assert(p.len() >= 2);
            assert(p[0] != '0');
        }
        lemma_dec_val_push(p, dec_digit_char(rem));
        assert(q * 10 + rem == n);
    }
}

/// A non-empty all-digit span of `s`, bordered on the right by the end or a
/// non-digit, is the maximal digit run there; if it carries no leading zero
/// and its value fits, the scan reads exactly it.
pub proof fn lemma_digit_run_end_is(s: Seq<char>, i: int, j: int)
    requires
        0 <= i <= j <= s.len(),
        forall|t: int| i <= t < j ==> is_dec_digit(#[trigger] s[t]),
        j == s.len() || !is_dec_digit(s[j]),
    ensures
        digit_run_end(s, i) == j,
    decreases j - i,
{
    if i < j {
        lemma_digit_run_end_is(s, i + 1, j);
    }
}

/// The scan at the start of an embedded canonical digit run reads exactly
/// that run and its value.
pub proof fn lemma_scan_embedded(s: Seq<char>, i: int, d: Seq<char>)
    requires
        0 <= i,
        i + d.len() <= s.len(),
        s.subrange(i, i + d.len() as int) == d,
        d.len() >= 1,
        forall|t: int| 0 <= t < d.len() ==> is_dec_digit(#[trigger] d[t]),
        d.len() == 1 || d[0] != '0',
        dec_val(d) <= u64::MAX,
        i + d.len() == s.len() || !is_dec_digit(s[i + d.len()]),
    ensures
        spec_scan_u64(s, i) == Some((dec_val(d) as u64, i + d.len() as int)),
{
    assert forall|t: int| i <= t < i + d.len() implies is_dec_digit(#[trigger] s[t]) by {
        assert(s[t] == s.subrange(i, i + d.len() as int)[t - i]);
    }
    lemma_digit_run_end_is(s, i, i + d.len() as int);
    assert(s[i] == d[0]);
}

/// `lit` occurs in `s` at position `i`.
pub open spec fn match_at(s: Seq<char>, i: int, lit: Seq<char>) -> bool {
    &&& 0 <= i
    &&& i + lit.len() <= s.len()
    &&& s.subrange(i, i + lit.len() as int) == lit
}

/// The result of reading a canonical decimal number at position `i` of `s`:
/// the maximal digit run starting there must be non-empty, carry no leading
/// zero, and have a value that fits in `u64`; the result pairs the value
/// with the position just past the run.
pub open spec fn spec_scan_u64(s: Seq<char>, i: int) -> Option<(u64, int)> {
    let j = digit_run_end(s, i);
    if i < j && (j - i == 1 || s[i] != '0') && dec_val(s.subrange(i, j)) <= u64::MAX {
        Some((dec_val(s.subrange(i, j)) as u64, j))
    } else {
        None
    }
}

/// Appending a digit multiplies the run's value by ten and adds the digit.
pub proof fn lemma_dec_val_push(s: Seq<char>, c: char)
    ensures
        dec_val(s.push(c)) == dec_val(s) * 10 + dec_digit_val(c),
{
    assert(s.push(c).drop_last() =~= s);
    assert(s.push(c).last() == c);
}

/// Every position of the maximal digit run holds a digit, and the run ends
/// at the string's end or just before a non-digit.
pub proof fn lemma_digit_run_end_props(s: Seq<char>, i: int)
    requires
        0 <= i <= s.len(),
    ensures
        i <= digit_run_end(s, i) <= s.len(),
        forall|t: int| i <= t < digit_run_end(s, i) ==> is_dec_digit(s[t]),
        digit_run_end(s, i) == s.len() || !is_dec_digit(s[digit_run_end(s, i)]),
    decreases s.len() - i,
{
    if i < s.len() && is_dec_digit(s[i]) {
        lemma_digit_run_end_props(s, i + 1);
    }
}

/// The lowercase hex digit for a nibble.
pub open spec fn hex_digit_char(d: nat) -> char {
    if d < 10 {
        ((48 + d) as u8) as char
    } else {
        ((87 + d) as u8) as char
    }
}

/// The JSON escape of one character inside a string literal: quote,
/// backslash and the named control characters get two-character escapes,
/// any other control character a `\u00XX` escape, anything else itself.
pub open spec fn quote_char(c: char) -> Seq<char> {
    if c == '"' {
        seq!['\\', '"']
    } else if c == '\\' {
        seq!['\\', '\\']
    } else if c == '\n' {
        seq!['\\', 'n']
    } else if c == '\r' {
        seq!['\\', 'r']
    } else if c == '\t' {
        seq!['\\', 't']
    } else if (c as int) < 32 {
        seq!['\\', 'u', '0', '0', hex_digit_char(((c as int) / 16) as nat), hex_digit_char(
            ((c as int) % 16) as nat,
        )]
    } else {
        seq![c]
    }
}

/// The body of the JSON string literal encoding `s`: each character's
/// escape, in order.
pub open spec fn json_quoted_body(s: Seq<char>) -> Seq<char>
    decreases s.len(),
{
    if s.len() == 0 {
        Seq::empty()
    } else {
        json_quoted_body(s.drop_last()) + quote_char(s.last())
    }
}

/// The JSON string literal encoding `s`: the escaped body in double quotes.
pub open spec fn json_quoted(s: Seq<char>) -> Seq<char> {
    seq!['"'] + json_quoted_body(s) + seq!['"']
}

/// Appends the lowercase hex digit of a nibble.
fn append_hex_digit(out: &mut String, d: u8)
    requires
        d < 16,
    ensures
        final(out)@ == old(out)@ + seq![hex_digit_char(d as nat)],
{
    let lit: &str = if d == 0 {
        "0"
    } else if d == 1 {
        "1"
    } else if d == 2 {
        "2"
    } else if d == 3 {
        "3"
    } else if d == 4 {
        "4"
    } else if d == 5 {
        "5"
    } else if d == 6 {
        "6"
    } else if d == 7 {
        "7"
    } else if d == 8 {
        "8"
    } else if d == 9 {
        "9"
    } else if d == 10 {
        "a"
    } else if d == 11 {
        "b"
    } else if d == 12 {
        "c"
    } else if d == 13 {
        "d"
    } else if d == 14 {
        "e"
    } else {
        "f"
    };
    proof {
        reveal_strlit("0");
        reveal_strlit("1");
        reveal_strlit("2");
        reveal_strlit("3");
        reveal_strlit("4");
        reveal_strlit("5");
        reveal_strlit("6");
        reveal_strlit("7");
        reveal_strlit("8");
        reveal_strlit("9");
        reveal_strlit("a");
        reveal_strlit("b");
        reveal_strlit("c");
        reveal_strlit("d");
        reveal_strlit("e");
        reveal_strlit("f");
        assert(lit@ =~= seq![hex_digit_char(d as nat)]);
    }
    out.append(lit);
}

/// Encodes `s` as a JSON string literal, per [`json_quoted`].
pub fn json_quote(s: &str) -> (r: String)
    ensures
        r@ == json_quoted(s@),
{
    let n = s.unicode_len();
    let mut out = String::new();
    out.append("\"");
    proof {
        reveal_strlit("\"");
        assert(out@ =~= seq!['"']);
    }
    let mut k: usize = 0;
    while k < n
        invariant
            k <= n,
            n == s@.len(),
            out@ == seq!['"'] + json_quoted_body(s@.subrange(0, k as int)),
        decreases n - k,
    {
        let c = s.get_char(k);
        let ghost prev = out@;
        if c == '"' {
            out.append("\\\"");
            proof {
                reveal_strlit("\\\"");
                assert(out@ =~= prev + quote_char(c));
            }
        } else if c == '\\' {
            out.append("\\\\");
            proof {
                reveal_strlit("\\\\");
                assert(out@ =~= prev + quote_char(c));
            }
        } else if c == '\n' {
            out.append("\\n");
            proof {
                reveal_strlit("\\n");
                assert(out@ =~= prev + quote_char(c));
            }
        } else if c == '\r' {
            out.append("\\r");
            proof {
                reveal_strlit("\\r");
                assert(out@ =~= prev + quote_char(c));
            }
        } else if c == '\t' {
            out.append("\\t");
            proof {
                reveal_strlit("\\t");
                assert(out@ =~= prev + quote_char(c));
            }
        } else if (c as u32) < 32 {
            out.append("\\u00");
            let code = c as u32;
            append_hex_digit(&mut out, (code / 16) as u8);
            append_hex_digit(&mut out, (code % 16) as u8);
            proof {
                reveal_strlit("\\u00");
                assert(out@ =~= prev + quote_char(c));
            }
        } else {
            let one = char_string(c);
            out.append(one.as_str());
            proof {
                assert(out@ =~= prev + quote_char(c));
            }
        }
        proof {
            assert(s@.subrange(0, k + 1).drop_last() =~= s@.subrange(0, k as int));
            assert(out@ =~= seq!['"'] + json_quoted_body(s@.subrange(0, k + 1)));
        }
        k += 1;
    }
    out.append("\"");
    proof {
        reveal_strlit("\"");
        assert(s@.subrange(0, n as int) =~= s@);
        assert(out@ =~= json_quoted(s@));
    }
    out
}

/// A one-character `String` holding exactly `c`.
/// Relies on char::to_string from std: the string of one character is that
/// character.
#[verifier::external_body]
pub fn char_string(c: char) -> (r: String)
    ensures
        r@ == seq![c],
{
    c.to_string()
}

/// String equality over views.
pub fn str_eq(a: &str, b: &str) -> (r: bool)
    ensures
        r == (a@ == b@),
{
    let sa: String = a.to_owned();
    let sb: String = b.to_owned();
    sa == sb
}

/// Whether `lit` occurs in `s` at position `i`.
pub fn match_lit(s: &str, i: usize, lit: &str) -> (r: bool)
    requires
        i <= s@.len(),
    ensures
        r == match_at(s@, i as int, lit@),
{
    let sl = s.unicode_len();
    let ll = lit.unicode_len();
    if ll > sl - i {
        return false;
    }
    let mut k: usize = 0;
    while k < ll
        invariant
            k <= ll,
            i + ll <= s@.len(),
            s@.len() <= usize::MAX,
            ll == lit@.len(),
            forall|t: int| 0 <= t < k ==> s@[i + t] == lit@[t],
        decreases ll - k,
    {
        if s.get_char(i + k) != lit.get_char(k) {
            proof {
                let sub = s@.subrange(i as int, i + lit@.len() as int);
                if sub == lit@ {
                    assert(sub[k as int] == s@[i + k]);
                }
            }
            return false;
        }
        k += 1;
    }
    proof {
        assert(s@.subrange(i as int, i + lit@.len() as int) =~= lit@);
    }
    true
}

/// Reads a canonical decimal `u64` from position `start` of `s`, as
/// [`spec_scan_u64`] describes: the maximal digit run there, rejected if it
/// is empty, has a leading zero, or exceeds `u64::MAX`.
pub fn scan_u64(s: &str, start: usize) -> (r: Option<(u64, usize)>)
    requires
        start <= s@.len(),
    ensures
        match r {
            Some((v, j)) => spec_scan_u64(s@, start as int) == Some((v, j as int)) && start < j
                <= s@.len(),
            None => spec_scan_u64(s@, start as int) is None,
        },
{
    let n = s.unicode_len();

    // Find the end of the maximal digit run.
    let mut j = start;
    let mut stop = false;
    while j < n && !stop
        invariant
            start <= j <= n,
            n == s@.len(),
            forall|t: int| start <= t < j ==> is_dec_digit(s@[t]),
            digit_run_end(s@, start as int) == digit_run_end(s@, j as int),
            stop ==> (j < s@.len() && !is_dec_digit(s@[j as int])),
        decreases n - j + (if stop { 0int } else { 1int }),
    {
        let c = s.get_char(j);
        let u = c as u32;
        if 48 <= u && u <= 57 {
            j += 1;
        } else {
            stop = true;
        }
    }
    proof {
        assert(digit_run_end(s@, j as int) == j);
    }
    let ghost run = s@.subrange(start as int, j as int);

    if j == start {
        return None;
    }
    if j - start > 1 && s.get_char(start) as u32 == 48 {
        return None;
    }

    // Accumulate the value, tracking overflow past u64::MAX.
    let mut value: u64 = 0;
    let mut over = false;
    let mut k = start;
    while k < j
        invariant
            start <= k <= j <= s@.len(),
            forall|t: int| start <= t < j ==> is_dec_digit(s@[t]),
            !over ==> value as nat == dec_val(s@.subrange(start as int, k as int)),
            over ==> dec_val(s@.subrange(start as int, k as int)) > u64::MAX,
        decreases j - k,
    {
        let c = s.get_char(k);
        let d = (c as u32 - 48) as u64;
        proof {
            assert(s@.subrange(start as int, k + 1) =~= s@.subrange(
                start as int,
                k as int,
            ).push(s@[k as int]));
            lemma_dec_val_push(s@.subrange(start as int, k as int), s@[k as int]);
        }
        if over || value > 1844674407370955161 || (value == 1844674407370955161 && d > 5) {
            over = true;
        } else {
            value = value * 10 + d;
        }
        k += 1;
    }

    if over {
        return None;
    }
    Some((value, j))
}

} // verus!
