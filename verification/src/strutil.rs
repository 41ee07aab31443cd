//! Verified string helpers shared by the address and registry layers:
//! decimal formatting and parsing, character classes, trimming, and
//! plain string comparison.

use vstd::prelude::*;
use vstd::string::StrSliceExecFns;

verus! {

/// The character for one decimal digit value.
pub open spec fn dec_digit(d: nat) -> char {
    if d == 0 {
        '0'
    } else if d == 1 {
        '1'
    } else if d == 2 {
        '2'
    } else if d == 3 {
        '3'
    } else if d == 4 {
        '4'
    } else if d == 5 {
        '5'
    } else if d == 6 {
        '6'
    } else if d == 7 {
        '7'
    } else if d == 8 {
        '8'
    } else {
        '9'
    }
}

/// Decimal representation of a number, most significant digit first,
/// with no leading zeros (a single `'0'` for zero).
pub open spec fn dec_str(n: nat) -> Seq<char>
    decreases n,
{
    if n < 10 {
        seq![dec_digit(n)]
    } else {
        dec_str(n / 10).push(dec_digit(n % 10))
    }
}

/// A decimal digit character.
pub open spec fn is_digit(c: char) -> bool {
    48 <= c as int <= 57
}

/// The value of one decimal digit character.
pub open spec fn digit_val(c: char) -> nat {
    (c as int - 48) as nat
}

pub open spec fn all_digits(s: Seq<char>) -> bool {
    forall|i: int| 0 <= i < s.len() ==> is_digit(#[trigger] s[i])
}

/// The number a sequence of digit characters denotes.
pub open spec fn digits_val(s: Seq<char>) -> nat
    decreases s.len(),
{
    if s.len() == 0 {
        0
    } else {
        digits_val(s.drop_last()) * 10 + digit_val(s.last())
    }
}

/// What `str::parse::<u16>` accepts: an optional leading `'+'`, then one or
/// more decimal digits whose value fits in sixteen bits.
pub open spec fn spec_parse_u16(s: Seq<char>) -> Option<u16> {
    let digs = if s.len() >= 1 && s[0] == '+' {
        s.drop_first()
    } else {
        s
    };
    if digs.len() >= 1 && all_digits(digs) && digits_val(digs) <= 65535 {
        Some(digits_val(digs) as u16)
    } else {
        None
    }
}

/// A character the normalizer treats as whitespace: the Unicode
/// `White_Space` set, as `char::is_whitespace` reports it.
pub open spec fn is_space(c: char) -> bool {
    let x = c as int;
    x == 0x20 || (0x09 <= x && x <= 0x0d) || x == 0x85 || x == 0xa0 || x == 0x1680 || (0x2000 <= x
        && x <= 0x200a) || x == 0x2028 || x == 0x2029 || x == 0x202f || x == 0x205f || x == 0x3000
}

/// The input with leading and trailing whitespace removed.
pub open spec fn spec_trim(s: Seq<char>) -> Seq<char>
    decreases s.len(),
{
    if s.len() > 0 && is_space(s.first()) {
        spec_trim(s.drop_first())
    } else if s.len() > 0 && is_space(s.last()) {
        spec_trim(s.drop_last())
    } else {
        s
    }
}

/// The views of a string result, for stating contracts over one.
pub open spec fn res_view(r: Result<String, String>) -> Result<Seq<char>, Seq<char>> {
    match r {
        Ok(s) => Ok(s@),
        Err(e) => Err(e@),
    }
}

/// The view of an optional string.
pub open spec fn opt_view(o: Option<String>) -> Option<Seq<char>> {
    match o {
        Some(s) => Some(s@),
        None => None,
    }
}

/// Relies on `String::push`: appends exactly the given character.
#[verifier::external_body]
pub(crate) fn push_char(s: &mut String, c: char)
    ensures
        final(s)@ == old(s)@.push(c),
{
    s.push(c);
}

fn digit_char(d: u64) -> (c: char)
    requires
        d < 10,
    ensures
        c == dec_digit(d as nat),
{
    match d {
        0 => '0',
        1 => '1',
        2 => '2',
        3 => '3',
        4 => '4',
        5 => '5',
        6 => '6',
        7 => '7',
        8 => '8',
        _ => '9',
    }
}

/// Formats a number in decimal, as ports and counts are printed.
pub fn u64_to_string(n: u64) -> (r: String)
    ensures
        r@ == dec_str(n as nat),
    decreases n,
{
    if n < 10 {
        let mut s = String::new();
        push_char(&mut s, digit_char(n));
        s
    } else {
        let mut s = u64_to_string(n / 10);
        push_char(&mut s, digit_char(n % 10));
        s
    }
}

/// Every decimal representation consists of digits and denotes the number
/// it was formed from.
pub proof fn lemma_dec_str_digits(n: nat)
    ensures
        dec_str(n).len() >= 1,
        all_digits(dec_str(n)),
        digits_val(dec_str(n)) == n,
    decreases n,
{
    if n < 10 {
        let s = dec_str(n);
        assert(s == seq![dec_digit(n)]);
        assert(s.drop_last() =~= Seq::<char>::empty());
        assert(digits_val(Seq::<char>::empty()) == 0);
        assert(digits_val(s) == digits_val(s.drop_last()) * 10 + digit_val(s.last()));
        assert(digit_val(dec_digit(n)) == n);
    } else {
        lemma_dec_str_digits(n / 10);
        let p = dec_str(n / 10);
        let s = p.push(dec_digit(n % 10));
        assert(s.drop_last() =~= p);
        assert(s.last() == dec_digit(n % 10));
        assert(digit_val(dec_digit(n % 10)) == n % 10);
        assert(digits_val(s) == digits_val(p) * 10 + n % 10);
        assert(n / 10 * 10 + n % 10 == n) by (nonlinear_arith);
        assert(forall|i: int| 0 <= i < s.len() ==> is_digit(#[trigger] s[i]));
    }
}

/// A digit prefix never denotes more than the whole digit string.
pub proof fn lemma_digits_val_prefix_le(s: Seq<char>, j: int)
    requires
        0 <= j <= s.len(),
    ensures
        digits_val(s.take(j)) <= digits_val(s),
    decreases s.len() - j,
{
    if j == s.len() {
        assert(s.take(j) =~= s);
    } else {
        lemma_digits_val_prefix_le(s, j + 1);
        assert(s.take(j + 1).drop_last() =~= s.take(j));
        assert(digits_val(s.take(j + 1)) == digits_val(s.take(j)) * 10 + digit_val(
            s.take(j + 1).last(),
        ));
        assert(digits_val(s.take(j)) * 10 >= digits_val(s.take(j))) by (nonlinear_arith);
    }
}

/// Parses as `str::parse::<u16>` does: optional `'+'`, then decimal digits,
/// rejecting values over 65535.
pub fn parse_u16(s: &str) -> (r: Option<u16>)
    ensures
        r == spec_parse_u16(s@),
{
    let n = s.unicode_len();
    let start: usize = if n >= 1 && s.get_char(0) == '+' {
        1
    } else {
        0
    };
    let ghost digs = if s@.len() >= 1 && s@[0] == '+' {
        s@.drop_first()
    } else {
        s@
    };
    assert(digs =~= s@.subrange(start as int, n as int));
    if n == start {
        assert(digs.len() == 0);
        return None;
    }
    let mut acc: u32 = 0;
    let mut i: usize = start;
    while i < n
        invariant
            start <= i <= n,
            n == s@.len(),
            digs == (if s@.len() >= 1 && s@[0] == '+' {
                s@.drop_first()
            } else {
                s@
            }),
            digs =~= s@.subrange(start as int, n as int),
            acc <= 65535,
            acc == digits_val(digs.take(i - start)),
            all_digits(digs.take(i - start)),
        decreases n - i,
    {
        let c = s.get_char(i);
        let x = c as u32;
        if x < 48 || x > 57 {
            assert(digs[i - start] == s@[i as int]);
            assert(!is_digit(digs[i - start]));
            return None;
        }
        let d = x - 48;
        assert(is_digit(s@[i as int]) && digit_val(s@[i as int]) == d);
        assert(digs.take(i - start + 1).drop_last() =~= digs.take(i - start));
        assert(digs.take(i - start + 1).last() == digs[i - start]);
        assert(digits_val(digs.take(i - start + 1)) == acc * 10 + d);
        if acc > 6553 || (acc == 6553 && d > 5) {
            proof {
                assert(acc * 10 + d > 65535) by (nonlinear_arith)
                    requires
                        acc <= 65535 && d < 10 && (acc > 6553 || (acc == 6553 && d > 5)),
                ;
                if all_digits(digs) && digits_val(digs) <= 65535 {
                    lemma_digits_val_prefix_le(digs, i - start + 1);
                    assert(false);
                }
            }
            return None;
        }
        assert(acc * 10 + d <= 65535) by (nonlinear_arith)
            requires
                acc <= 6553 && d < 10 && !(acc > 6553 || (acc == 6553 && d > 5)),
        ;
        acc = acc * 10 + d;
        i = i + 1;
    }
    assert(digs.take(n - start) =~= digs);
    Some(acc as u16)
}

/// Plain string equality, stated over the views.
pub fn str_eq(a: &str, b: &str) -> (r: bool)
    ensures
        r == (a@ == b@),
{
    let na = a.unicode_len();
    let nb = b.unicode_len();
    if na != nb {
        assert(a@ != b@);
        return false;
    }
    let mut i: usize = 0;
    while i < na
        invariant
            i <= na,
            na == a@.len(),
            na == b@.len(),
            forall|k: int| 0 <= k < i ==> a@[k] == b@[k],
        decreases na - i,
    {
        if a.get_char(i) != b.get_char(i) {
            return false;
        }
        i = i + 1;
    }
    assert(a@ =~= b@);
    true
}

fn is_space_char(c: char) -> (r: bool)
    ensures
        r == is_space(c),
{
    let x = c as u32;
    x == 0x20 || (0x09 <= x && x <= 0x0d) || x == 0x85 || x == 0xa0 || x == 0x1680 || (0x2000 <= x
        && x <= 0x200a) || x == 0x2028 || x == 0x2029 || x == 0x202f || x == 0x205f || x == 0x3000
}

/// Removes leading and trailing whitespace, as the normalizer's first step.
pub fn trim_str<'a>(s: &'a str) -> (r: &'a str)
    ensures
        r@ == spec_trim(s@),
{
    let n = s.unicode_len();
    proof {
        assert(s@.subrange(0, n as int) =~= s@);
    }
    let mut i: usize = 0;
    while i < n && is_space_char(s.get_char(i))
        invariant
            i <= n,
            n == s@.len(),
            spec_trim(s@) == spec_trim(s@.subrange(i as int, n as int)),
        decreases n - i,
    {
        proof {
            let t = s@.subrange(i as int, n as int);
            assert(t.first() == s@[i as int]);
            assert(t.drop_first() =~= s@.subrange(i + 1, n as int));
        }
        i = i + 1;
    }
    let mut j: usize = n;
    while j > i && is_space_char(s.get_char(j - 1))
        invariant
            i <= j <= n,
            n == s@.len(),
            i < n ==> !is_space(s@[i as int]),
            i == n ==> j == n,
            spec_trim(s@) == spec_trim(s@.subrange(i as int, j as int)),
        decreases j,
    {
        proof {
            let t = s@.subrange(i as int, j as int);
            assert(t.first() == s@[i as int]);
            assert(t.last() == s@[j - 1]);
            assert(t.drop_last() =~= s@.subrange(i as int, j - 1));
        }
        j = j - 1;
    }
    proof {
        let t = s@.subrange(i as int, j as int);
        if t.len() > 0 {
            assert(t.first() == s@[i as int]);
            assert(t.last() == s@[j - 1]);
        }
        assert(spec_trim(t) == t);
    }
    s.substring_char(i, j)
}

} // verus!
