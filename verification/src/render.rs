//! Numbered names for generated and cloned sections ("Daire {n}",
//! "1. Kat" -> "2. Kat") and the decimal text of integers they use.

use vstd::prelude::*;
use crate::text::{from_char_range, from_chars, owned, to_chars, join2};
use crate::naming::{is_ascii_digit, spec_ascii_digit};

verus! {

pub open spec fn digit_char(d: int) -> char {
    if d == 0 {
        '0'
    } else if d == 1 {
        '1'
    } else if d == 2 {
        '2'
    } else if d == 3 {
        '3'
    } else if d == 4 {
        '4'
    } else if d == 5 {
        '5'
    } else if d == 6 {
        '6'
    } else if d == 7 {
        '7'
    } else if d == 8 {
        '8'
    } else {
        '9'
    }
}

pub open spec fn digit_value(c: char) -> int {
    c as int - '0' as int
}

fn digit_of(d: u64) -> (c: char)
    requires
        d < 10,
    ensures
        c == digit_char(d as int),
        spec_ascii_digit(c),
{
    if d == 0 {
        '0'
    } else if d == 1 {
        '1'
    } else if d == 2 {
        '2'
    } else if d == 3 {
        '3'
    } else if d == 4 {
        '4'
    } else if d == 5 {
        '5'
    } else if d == 6 {
        '6'
    } else if d == 7 {
        '7'
    } else if d == 8 {
        '8'
    } else {
        '9'
    }
}

/// The decimal digits of a natural number, most significant first.
pub open spec fn decimal(v: nat) -> Seq<char>
    decreases v,
{
    if v < 10 {
        seq![digit_char(v as int)]
    } else {
        decimal(v / 10).push(digit_char((v % 10) as int))
    }
}

/// The decimal text of an integer, with a `-` for negatives.
pub open spec fn int_text(v: int) -> Seq<char> {
    if v < 0 {
        seq!['-'] + decimal((-v) as nat)
    } else {
        decimal(v as nat)
    }
}

pub open spec fn zeros(n: int) -> Seq<char> {
    Seq::new(if n > 0 { n as nat } else { 0 }, |i: int| '0')
}

/// Zero padded decimal text of `v` at least `width` characters wide; the
/// sign counts toward the width and the zeros follow it.
pub open spec fn padded(v: int, width: int) -> Seq<char> {
    if v < 0 {
        seq!['-'] + zeros(width - 1 - decimal((-v) as nat).len()) + decimal((-v) as nat)
    } else {
        zeros(width - decimal(v as nat).len()) + decimal(v as nat)
    }
}

fn decimal_digits(v: u64) -> (r: Vec<char>)
    ensures
        r@ == decimal(v as nat),
        r@.len() >= 1,
{
    let mut x = v;
    let mut acc: Vec<char> = Vec::new();
    while x >= 10
        invariant
            decimal(v as nat) == decimal(x as nat) + acc@,
        decreases x,
    {
        let d = x % 10;
        let c = digit_of(d);
        let ghost prev = acc@;
        acc.insert(0, c);
        proof {
            assert(decimal(x as nat) == decimal((x / 10) as nat).push(digit_char((x % 10) as int)));
            assert(acc@ =~= seq![c] + prev);
            assert(decimal((x / 10) as nat).push(c) + prev =~= decimal((x / 10) as nat) + acc@);
        }
        x = x / 10;
    }
    let c = digit_of(x);
    let ghost prev = acc@;
    acc.insert(0, c);
    assert(decimal(x as nat) == seq![c]);
    assert(acc@ =~= decimal(x as nat) + prev);
    acc
}

/// The decimal text of an unsigned number.
pub fn nat_to_string(v: u64) -> (r: String)
    ensures
        r@ == decimal(v as nat),
{
    let digits = decimal_digits(v);
    from_chars(&digits)
}

fn magnitude(v: i64) -> (r: u64)
    ensures
        r == if v < 0 { -v } else { v as int },
{
    if v < 0 {
        (-(v as i128)) as u64
    } else {
        v as u64
    }
}

/// The decimal text of `v`, as `to_string` writes it.
pub fn int_to_string(v: i64) -> (r: String)
    ensures
        r@ == int_text(v as int),
{
    let digits = decimal_digits(magnitude(v));
    if v < 0 {
        let mut out: Vec<char> = Vec::new();
        out.push('-');
        let mut i: usize = 0;
        while i < digits.len()
            invariant
                i <= digits@.len(),
                out@ == seq!['-'] + digits@.subrange(0, i as int),
            decreases digits@.len() - i,
        {
            out.push(digits[i]);
            i = i + 1;
            assert(out@ =~= seq!['-'] + digits@.subrange(0, i as int));
        }
        assert(digits@.subrange(0, digits@.len() as int) =~= digits@);
        from_chars(&out)
    } else {
        from_chars(&digits)
    }
}

/// The text of `v` zero padded to `width` characters, as `{:0width$}` writes
/// it.
pub fn padded_to_string(v: i64, width: usize) -> (r: String)
    ensures
        r@ == padded(v as int, width as int),
{
    let digits = decimal_digits(magnitude(v));
    let mut out: Vec<char> = Vec::new();
    let sign: usize = if v < 0 { 1 } else { 0 };
    if v < 0 {
        out.push('-');
    }
    let fill: usize = if width >= sign && width - sign > digits.len() {
        width - sign - digits.len()
    } else {
        0
    };
    let mut z: usize = 0;
    while z < fill
        invariant
            z <= fill,
            out@.len() == sign + z,
            out@ == (if v < 0 { seq!['-'] } else { Seq::<char>::empty() }) + zeros(z as int),
        decreases fill - z,
    {
        out.push('0');
        z = z + 1;
        assert(out@ =~= (if v < 0 { seq!['-'] } else { Seq::<char>::empty() }) + zeros(z as int));
    }
    let ghost head = out@;
    let mut i: usize = 0;
    while i < digits.len()
        invariant
            i <= digits@.len(),
            out@ == head + digits@.subrange(0, i as int),
        decreases digits@.len() - i,
    {
        out.push(digits[i]);
        i = i + 1;
        assert(out@ =~= head + digits@.subrange(0, i as int));
    }
    assert(digits@.subrange(0, digits@.len() as int) =~= digits@);
    proof {
        let w = width as int;
        let d = digits@.len() as int;
        if v < 0 {
            assert(zeros(fill as int) =~= zeros(w - 1 - d));
            assert(out@ =~= seq!['-'] + zeros(w - 1 - d) + digits@);
        } else {
            assert(zeros(fill as int) =~= zeros(w - d));
            assert(out@ =~= zeros(w - d) + digits@);
        }
    }
    from_chars(&out)
}

// ---------------------------------------------------------------------------
// Placeholder replacement
// ---------------------------------------------------------------------------

/// Every occurrence of `pat` in `s`, scanned left to right without overlap,
/// replaced by `with` (std `str::replace` for a non-empty pattern).
pub open spec fn replace_all(s: Seq<char>, pat: Seq<char>, with: Seq<char>) -> Seq<char>
    recommends
        pat.len() > 0,
    decreases s.len(),
{
    if s.len() == 0 || pat.len() == 0 {
        s
    } else if s.len() >= pat.len() && s.subrange(0, pat.len() as int) == pat {
        with + replace_all(s.subrange(pat.len() as int, s.len() as int), pat, with)
    } else {
        seq![s[0]] + replace_all(s.drop_first(), pat, with)
    }
}

/// `pat` occurs somewhere in `s`.
pub open spec fn occurs_in(s: Seq<char>, pat: Seq<char>) -> bool {
    exists|i: int| 0 <= i && i + pat.len() <= s.len() && #[trigger] s.subrange(i, i + pat.len()) == pat
}

/// Whether `pat` occurs in `s` (std `str::contains` with a string pattern).
pub fn contains_text(s: &str, pat: &str) -> (r: bool)
    ensures
        r == occurs_in(s@, pat@),
{
    let v = to_chars(s);
    let p = to_chars(pat);
    let n = v.len();
    let mut i: usize = 0;
    while i < n
        invariant
            n == v@.len(),
            v@ == s@,
            p@ == pat@,
            i <= n,
            forall|j: int| 0 <= j < i && j + pat@.len() <= s@.len() ==> #[trigger] s@.subrange(j, j + pat@.len()) != pat@,
        decreases n - i,
    {
        if starts_at(&v, i, &p) {
            assert(s@.subrange(i as int, i + pat@.len()) == pat@);
            return true;
        }
        i = i + 1;
    }
    if starts_at(&v, n, &p) {
        assert(s@.subrange(n as int, n + pat@.len()) == pat@);
        return true;
    }
    false
}

fn starts_at(v: &Vec<char>, i: usize, pat: &Vec<char>) -> (r: bool)
    requires
        i <= v@.len(),
    ensures
        r == (v@.len() - i >= pat@.len() && v@.subrange(i as int, i + pat@.len()) == pat@),
{
    if v.len() - i < pat.len() {
        return false;
    }
    let mut j: usize = 0;
    assert(v@.len() == v.len());
    while j < pat.len()
        invariant
            j <= pat@.len(),
            i <= v@.len(),
            v@.len() <= usize::MAX,
            v@.len() - i >= pat@.len(),
            forall|k: int| 0 <= k < j ==> v@[i + k] == pat@[k],
        decreases pat@.len() - j,
    {
        if v[i + j] != pat[j] {
            assert(v@.subrange(i as int, i + pat@.len())[j as int] != pat@[j as int]);
            return false;
        }
        j = j + 1;
    }
    assert(v@.subrange(i as int, i + pat@.len()) =~= pat@);
    true
}

/// `s` with every occurrence of `pat` replaced by `with`.
pub fn replace_text(s: &str, pat: &str, with: &str) -> (r: String)
    requires
        pat@.len() > 0,
    ensures
        r@ == replace_all(s@, pat@, with@),
{
    let v = to_chars(s);
    let p = to_chars(pat);
    let w = to_chars(with);
    let n = v.len();
    let mut out: Vec<char> = Vec::new();
    let mut i: usize = 0;
    assert(v@.subrange(0, n as int) =~= v@);
    assert(out@ + replace_all(v@, p@, w@) =~= replace_all(v@, p@, w@));
    while i < n
        invariant
            n == v@.len(),
            v@ == s@,
            p@ == pat@,
            w@ == with@,
            p@.len() > 0,
            i <= n,
            out@ + replace_all(v@.subrange(i as int, n as int), p@, w@) == replace_all(v@, p@, w@),
        decreases n - i,
    {
        let ghost rest = v@.subrange(i as int, n as int);
        if starts_at(&v, i, &p) {
            proof {
                assert(rest.subrange(0, p@.len() as int) =~= v@.subrange(i as int, i + p@.len()));
                assert(rest.subrange(p@.len() as int, rest.len() as int) =~= v@.subrange(i + p@.len(), n as int));
                assert(out@ + w@ + replace_all(v@.subrange(i + p@.len(), n as int), p@, w@)
                    =~= out@ + (w@ + replace_all(v@.subrange(i + p@.len(), n as int), p@, w@)));
            }
            let mut k: usize = 0;
            let ghost before = out@;
            while k < w.len()
                invariant
                    k <= w@.len(),
                    out@ == before + w@.subrange(0, k as int),
                decreases w@.len() - k,
            {
                out.push(w[k]);
                k = k + 1;
                assert(out@ =~= before + w@.subrange(0, k as int));
            }
            assert(w@.subrange(0, w@.len() as int) =~= w@);
            i = i + p.len();
        } else {
            proof {
                if rest.len() >= p@.len() {
                    assert(rest.subrange(0, p@.len() as int) =~= v@.subrange(i as int, i + p@.len()));
                }
                assert(rest.drop_first() =~= v@.subrange(i + 1, n as int));
                assert(out@.push(v@[i as int]) + replace_all(v@.subrange(i + 1, n as int), p@, w@)
                    =~= out@ + (seq![rest[0]] + replace_all(rest.drop_first(), p@, w@)));
            }
            out.push(v[i]);
            i = i + 1;
        }
    }
    assert(v@.subrange(n as int, n as int) =~= Seq::<char>::empty());
    assert(out@ + Seq::<char>::empty() =~= out@);
    from_chars(&out)
}

/// A section name from a format: `{n:2}` and `{n:3}` become the number
/// zero padded to two and three characters, then `{n}` the plain number.
pub open spec fn spec_render(format: Seq<char>, n: int) -> Seq<char> {
    let a = replace_all(format, "{n:2}"@, padded(n, 2));
    let b = replace_all(a, "{n:3}"@, padded(n, 3));
    replace_all(b, "{n}"@, int_text(n))
}

/// Renders a name format with the sequence number `n`.
pub fn render_format(format: &str, n: i64) -> (r: String)
    ensures
        r@ == spec_render(format@, n as int),
{
    proof {
        reveal_strlit("{n:2}");
        reveal_strlit("{n:3}");
        reveal_strlit("{n}");
    }
    let p2 = padded_to_string(n, 2);
    let a = replace_text(format, "{n:2}", p2.as_str());
    let p3 = padded_to_string(n, 3);
    let b = replace_text(a.as_str(), "{n:3}", p3.as_str());
    let t = int_to_string(n);
    replace_text(b.as_str(), "{n}", t.as_str())
}

// ---------------------------------------------------------------------------
// Clone names
// ---------------------------------------------------------------------------

/// Number of leading ASCII digits.
pub open spec fn leading_digits(s: Seq<char>) -> nat
    decreases s.len(),
{
    if s.len() > 0 && spec_ascii_digit(s[0]) {
        1 + leading_digits(s.drop_first())
    } else {
        0
    }
}

/// The value of a string of decimal digits.
pub open spec fn digits_value(s: Seq<char>) -> int
    decreases s.len(),
{
    if s.len() == 0 {
        0
    } else {
        digits_value(s.drop_last()) * 10 + digit_value(s.last())
    }
}

/// The leading number as a 64-bit value, or 0 when it does not fit.
pub open spec fn leading_number(s: Seq<char>) -> int {
    let v = digits_value(s.subrange(0, leading_digits(s) as int));
    if v <= i64::MAX {
        v
    } else {
        0
    }
}

/// The name of the `k`-th copy: a leading number is advanced by `k` keeping
/// its width ("1. Kat" -> "2. Kat", "08 Kat" -> "09 Kat"); a name without
/// one gets a copy suffix ("A Blok" -> "A Blok (kopya 1)").
pub open spec fn spec_clone_name(source: Seq<char>, k: int) -> Seq<char> {
    let w = leading_digits(source);
    if w == 0 {
        source + " (kopya "@ + int_text(k) + ")"@
    } else {
        padded(leading_number(source) + k, w as int) + source.subrange(w as int, source.len() as int)
    }
}

/// The advanced number fits in 64 bits.
pub open spec fn clone_name_fits(source: Seq<char>, k: int) -> bool {
    leading_digits(source) == 0 || i64::MIN <= leading_number(source) + k <= i64::MAX
}

proof fn lemma_leading_digits_bound(s: Seq<char>)
    ensures
        leading_digits(s) <= s.len(),
        forall|i: int| 0 <= i < leading_digits(s) ==> spec_ascii_digit(#[trigger] s[i]),
        leading_digits(s) < s.len() ==> !spec_ascii_digit(s[leading_digits(s) as int]),
    decreases s.len(),
{
    if s.len() > 0 && spec_ascii_digit(s[0]) {
        lemma_leading_digits_bound(s.drop_first());
        assert forall|i: int| 0 <= i < leading_digits(s) implies spec_ascii_digit(#[trigger] s[i]) by {
            if i > 0 {
                assert(s[i] == s.drop_first()[i - 1]);
            }
        }
    }
}

proof fn lemma_leading_digits_prefix(s: Seq<char>, i: int)
    requires
        0 <= i <= s.len(),
        forall|j: int| 0 <= j < i ==> spec_ascii_digit(#[trigger] s[j]),
        i == s.len() || !spec_ascii_digit(s[i]),
    ensures
        leading_digits(s) == i,
    decreases i,
{
    if i > 0 {
        assert forall|j: int| 0 <= j < i - 1 implies spec_ascii_digit(#[trigger] s.drop_first()[j]) by {
            assert(s.drop_first()[j] == s[j + 1]);
        }
        if i - 1 < s.drop_first().len() {
            assert(s.drop_first()[i - 1] == s[i]);
        }
        lemma_leading_digits_prefix(s.drop_first(), i - 1);
    }
}

proof fn lemma_digits_value_nonneg(s: Seq<char>)
    requires
        forall|i: int| 0 <= i < s.len() ==> spec_ascii_digit(#[trigger] s[i]),
    ensures
        digits_value(s) >= 0,
    decreases s.len(),
{
    if s.len() > 0 {
        assert forall|i: int| 0 <= i < s.drop_last().len() implies spec_ascii_digit(#[trigger] s.drop_last()[i]) by {
            assert(s.drop_last()[i] == s[i]);
        }
        lemma_digits_value_nonneg(s.drop_last());
        assert(spec_ascii_digit(s[s.len() - 1]));
    }
}

/// The leading number of a name is never negative.
pub proof fn lemma_leading_number_nonneg(s: Seq<char>)
    ensures
        leading_number(s) >= 0,
{
    lemma_leading_digits_bound(s);
    let w = leading_digits(s) as int;
    assert forall|i: int| 0 <= i < s.subrange(0, w).len() implies spec_ascii_digit(#[trigger] s.subrange(0, w)[i]) by {
        assert(s.subrange(0, w)[i] == s[i]);
    }
    lemma_digits_value_nonneg(s.subrange(0, w));
}

/// Width and value of the leading number of `v`.
fn scan_leading_number(v: &Vec<char>) -> (res: (usize, i64))
    ensures
        res.0 == leading_digits(v@),
        res.1 == leading_number(v@),
        res.1 >= 0,
{
    let n = v.len();
    let mut w: usize = 0;
    // value of the digits read so far, saturating once past i64::MAX
    let mut value: u128 = 0;
    let mut overflow = false;
    while w < n && is_ascii_digit(v[w])
        invariant
            w <= n,
            n == v@.len(),
            forall|j: int| 0 <= j < w ==> spec_ascii_digit(#[trigger] v@[j]),
            overflow == (digits_value(v@.subrange(0, w as int)) > i64::MAX),
            !overflow ==> value == digits_value(v@.subrange(0, w as int)),
        decreases n - w,
    {
        let d = (v[w] as u32 - '0' as u32) as u128;
        proof {
            assert(v@.subrange(0, w + 1).drop_last() =~= v@.subrange(0, w as int));
            assert(v@.subrange(0, w + 1).last() == v@[w as int]);
            lemma_digits_value_nonneg(v@.subrange(0, w as int));
        }
        if !overflow {
            value = value * 10 + d;
            if value > 0x7fff_ffff_ffff_ffff {
                overflow = true;
            }
        }
        w = w + 1;
    }
    proof {
        lemma_leading_digits_prefix(v@, w as int);
        lemma_digits_value_nonneg(v@.subrange(0, w as int));
    }
    let num: i64 = if overflow { 0 } else { value as i64 };
    (w, num)
}

/// Whether the `k`-th clone name of `source` can be formed without leaving
/// the 64-bit range.
pub fn clone_name_fits_check(source: &str, k: i64) -> (r: bool)
    ensures
        r == clone_name_fits(source@, k as int),
{
    let v = to_chars(source);
    let (w, num) = scan_leading_number(&v);
    if w == 0 {
        true
    } else {
        num as i128 + k as i128 <= 0x7fff_ffff_ffff_ffff && num as i128 + k as i128 >= -0x8000_0000_0000_0000
    }
}

/// The name of the `k`-th clone of a section named `source`.
pub fn derive_clone_name(source: &str, k: i64) -> (r: String)
    requires
        clone_name_fits(source@, k as int),
    ensures
        r@ == spec_clone_name(source@, k as int),
{
    let v = to_chars(source);
    let n = v.len();
    let (w, num) = scan_leading_number(&v);
    if w == 0 {
        let mut r = join2(source, " (kopya ");
        let t = int_to_string(k);
        r.append(t.as_str());
        r.append(")");
        return r;
    }
    proof {
        lemma_leading_digits_bound(v@);
    }
    let mut r = padded_to_string(num + k, w);
    let rest = from_char_range(&v, w, n);
    r.append(rest.as_str());
    r
}

} // verus!
