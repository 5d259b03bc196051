//! Plain-text forms of the values the service stores: decimal renderings
//! of identifiers, and the one-decimal-place measurement format used for
//! sensor values. Measurements are held in tenths of a unit, so the text
//! `"22.5"` corresponds to 225 tenths.

use vstd::prelude::*;

verus! {

/// Whether `c` is a decimal digit.
pub open spec fn is_dec_digit(c: char) -> bool {
    '0' <= c <= '9'
}

/// The numeric value of a decimal digit.
pub open spec fn digit_val(c: char) -> int {
    c as int - '0' as int
}

/// The digit character for a value below ten.
pub open spec fn digit_char(d: int) -> char {
    if d == 0 {
        '0'
    } else if d == 1 {
        '1'
    } else if d == 2 {
        '2'
    } else if d == 3 {
        '3'
    } else if d == 4 {
        '4'
    } else if d == 5 {
        '5'
    } else if d == 6 {
        '6'
    } else if d == 7 {
        '7'
    } else if d == 8 {
        '8'
    } else {
        '9'
    }
}

/// The decimal rendering of a non-negative integer, without sign or
/// leading zeros (`0` itself renders as `"0"`).
pub open spec fn dec_nat(n: int) -> Seq<char>
    decreases n,
{
    if n < 10 {
        seq![digit_char(n)]
    } else {
        dec_nat(n / 10) + seq![digit_char(n % 10)]
    }
}

/// The decimal rendering of an integer, `'-'`-prefixed when negative.
pub open spec fn dec_int(v: int) -> Seq<char> {
    if v < 0 {
        seq!['-'] + dec_nat(-v)
    } else {
        dec_nat(v)
    }
}

/// The one-decimal-place rendering of a signed count of tenths:
/// 225 tenths render as `"22.5"`, -5 tenths as `"-0.5"`.
pub open spec fn tenths_text(t: int) -> Seq<char> {
    if t < 0 {
        seq!['-'] + tenths_text_nat(-t)
    } else {
        tenths_text_nat(t)
    }
}

/// The one-decimal-place rendering of a non-negative count of tenths.
pub open spec fn tenths_text_nat(m: int) -> Seq<char> {
    dec_nat(m / 10) + seq!['.'] + seq![digit_char(m % 10)]
}

/// The single-character string for a decimal digit.
fn digit_str(d: u64) -> (r: &'static str)
    requires
        d < 10,
    ensures
        r@ == seq![digit_char(d as int)],
{
    let r: &'static str = if d == 0 {
        "0"
    } else if d == 1 {
        "1"
    } else if d == 2 {
        "2"
    } else if d == 3 {
        "3"
    } else if d == 4 {
        "4"
    } else if d == 5 {
        "5"
    } else if d == 6 {
        "6"
    } else if d == 7 {
        "7"
    } else if d == 8 {
        "8"
    } else {
        "9"
    };
    proof {
        reveal_strlit("0");
        reveal_strlit("1");
        reveal_strlit("2");
        reveal_strlit("3");
        reveal_strlit("4");
        reveal_strlit("5");
        reveal_strlit("6");
        reveal_strlit("7");
        reveal_strlit("8");
        reveal_strlit("9");
        assert(r@ =~= seq![digit_char(d as int)]);
    }
    r
}

/// The decimal rendering of an unsigned machine integer.
pub fn u64_to_dec_string(n: u64) -> (r: String)
    ensures
        r@ == dec_nat(n as int),
{
    // least-significant digits first
    let mut digits: Vec<u64> = Vec::new();
    let mut m: u64 = n;
    proof {
        lemma_rev_digits_single(n % 10);
    }
    digits.push(m % 10);
    m = m / 10;
    while m > 0
        invariant
            digits@.len() > 0,
            forall|k: int| 0 <= k < digits@.len() ==> 0 <= #[trigger] digits@[k] < 10,
            dec_nat(n as int) == if m > 0 {
                dec_nat(m as int) + rev_digits(digits@)
            } else {
                rev_digits(digits@)
            },
        decreases m,
    {
        proof {
            let ghost ds = digits@;
            lemma_rev_digits_push(ds, m % 10);
            if m >= 10 {
                assert(dec_nat(m as int) + rev_digits(ds) =~= dec_nat(m as int / 10)
                    + rev_digits(ds.push(m % 10)));
            } else {
                assert(dec_nat(m as int) + rev_digits(ds) =~= rev_digits(ds.push(m % 10)));
            }
        }
        digits.push(m % 10);
        m = m / 10;
    }
    let mut out = String::new();
    let mut i: usize = digits.len();
    proof {
        assert(digits@.subrange(i as int, digits@.len() as int) =~= Seq::<u64>::empty());
    }
    while i > 0
        invariant
            i <= digits@.len(),
            forall|k: int| 0 <= k < digits@.len() ==> 0 <= #[trigger] digits@[k] < 10,
            out@ == rev_digits(digits@.subrange(i as int, digits@.len() as int)),
            dec_nat(n as int) == rev_digits(digits@),
        decreases i,
    {
        i -= 1;
        let d = digits[i];
        out.append(digit_str(d));
        proof {
            assert(digits@.subrange(i as int, digits@.len() as int).drop_first() =~= digits@
                .subrange(i + 1, digits@.len() as int));
            assert(out@ =~= rev_digits(digits@.subrange(i as int, digits@.len() as int)));
        }
    }
    proof {
        assert(digits@.subrange(0, digits@.len() as int) =~= digits@);
    }
    out
}

/// The rendering of digits collected least significant first: the first
/// collected digit comes out last.
spec fn rev_digits(digits: Seq<u64>) -> Seq<char>
    decreases digits.len(),
{
    if digits.len() == 0 {
        Seq::empty()
    } else {
        rev_digits(digits.drop_first()) + seq![digit_char(digits[0] as int)]
    }
}

proof fn lemma_rev_digits_single(d: u64)
    ensures
        rev_digits(seq![d]) == seq![digit_char(d as int)],
{
    reveal_with_fuel(rev_digits, 2);
    assert(seq![d].drop_first() =~= Seq::<u64>::empty());
    assert(rev_digits(seq![d]) =~= seq![digit_char(d as int)]);
}

proof fn lemma_rev_digits_push(digits: Seq<u64>, d: u64)
    ensures
        rev_digits(digits.push(d)) == seq![digit_char(d as int)] + rev_digits(digits),
    decreases digits.len(),
{
    if digits.len() == 0 {
        reveal_with_fuel(rev_digits, 2);
        assert(digits.push(d).drop_first() =~= Seq::<u64>::empty());
        assert(digits.push(d) =~= seq![d]);
        assert(rev_digits(digits.push(d)) =~= seq![digit_char(d as int)] + rev_digits(digits));
    } else {
        assert(digits.push(d).drop_first() =~= digits.drop_first().push(d));
        lemma_rev_digits_push(digits.drop_first(), d);
        assert(rev_digits(digits.push(d)) =~= seq![digit_char(d as int)] + rev_digits(digits));
    }
}

/// The unsigned magnitude of a signed machine integer.
fn magnitude(v: i64) -> (r: u64)
    ensures
        v >= 0 ==> r == v,
        v < 0 ==> r == -(v as int),
{
    if v < 0 {
        if v == i64::MIN {
            9223372036854775808u64
        } else {
            (-v) as u64
        }
    } else {
        v as u64
    }
}

/// The decimal rendering of a signed machine integer.
pub fn i64_to_dec_string(v: i64) -> (r: String)
    ensures
        r@ == dec_int(v as int),
{
    let mag = magnitude(v);
    let digits = u64_to_dec_string(mag);
    if v < 0 {
        let mut out = String::from_str("-");
        out.append(digits.as_str());
        proof {
            reveal_strlit("-");
            assert(out@ =~= dec_int(v as int));
        }
        out
    } else {
        digits
    }
}

/// The one-decimal-place rendering of a signed count of tenths.
pub fn format_tenths(t: i64) -> (r: String)
    ensures
        r@ == tenths_text(t as int),
{
    let mag = magnitude(t);
    let mut body = u64_to_dec_string(mag / 10);
    body.append(".");
    body.append(digit_str(mag % 10));
    proof {
        reveal_strlit(".");
        assert(body@ =~= tenths_text_nat(mag as int));
    }
    if t < 0 {
        let mut out = String::from_str("-");
        out.append(body.as_str());
        proof {
            reveal_strlit("-");
            assert(out@ =~= tenths_text(t as int));
        }
        out
    } else {
        body
    }
}

/// Whether every character of the sequence is a decimal digit.
pub open spec fn all_dec_digits(s: Seq<char>) -> bool {
    forall|i: int| 0 <= i < s.len() ==> is_dec_digit(#[trigger] s[i])
}

/// The value of a non-empty, all-digit sequence read as a decimal number;
/// nothing otherwise.
pub open spec fn parse_digits(s: Seq<char>) -> Option<int>
    decreases s.len(),
{
    if s.len() == 0 {
        None
    } else if s.len() == 1 {
        if is_dec_digit(s[0]) {
            Some(digit_val(s[0]))
        } else {
            None
        }
    } else {
        match parse_digits(s.drop_last()) {
            Some(v) => if is_dec_digit(s.last()) {
                Some(v * 10 + digit_val(s.last()))
            } else {
                None
            },
            None => None,
        }
    }
}

/// The index of the first `'.'`, or the length when there is none.
pub open spec fn first_dot_index(s: Seq<char>) -> int
    decreases s.len(),
{
    if s.len() == 0 {
        0
    } else if s[0] == '.' {
        0
    } else {
        1 + first_dot_index(s.drop_first())
    }
}

/// The count of tenths a decimal text denotes, under this library's
/// grammar: an optional sign, then at least one and at most seventeen
/// integer digits, then optionally a dot followed by at least one digit.
/// Fractional digits beyond the first are read but do not contribute, so
/// the value is truncated towards zero to one decimal place. Seventeen
/// integer digits keep every accepted value within machine range.
pub open spec fn parse_tenths_spec(s: Seq<char>) -> Option<int> {
    if s.len() == 0 {
        None
    } else if s[0] == '-' {
        match parse_unsigned_tenths(s.drop_first()) {
            Some(v) => Some(-v),
            None => None,
        }
    } else if s[0] == '+' {
        parse_unsigned_tenths(s.drop_first())
    } else {
        parse_unsigned_tenths(s)
    }
}

/// The count of tenths an unsigned decimal text denotes.
pub open spec fn parse_unsigned_tenths(s: Seq<char>) -> Option<int> {
    let k = first_dot_index(s);
    if k > 17 {
        None
    } else if k == s.len() {
        match parse_digits(s) {
            Some(v) => Some(10 * v),
            None => None,
        }
    } else {
        let intpart = s.subrange(0, k);
        let frac = s.subrange(k + 1, s.len() as int);
        match parse_digits(intpart) {
            Some(v) => if frac.len() >= 1 && all_dec_digits(frac) {
                Some(10 * v + digit_val(frac[0]))
            } else {
                None
            },
            None => None,
        }
    }
}

/// Ten to the given power.
pub open spec fn pow10(k: nat) -> int
    decreases k,
{
    if k == 0 {
        1
    } else {
        10 * pow10((k - 1) as nat)
    }
}

proof fn lemma_pow10_le(a: nat, b: nat)
    requires
        a <= b,
    ensures
        pow10(a) <= pow10(b),
    decreases b,
{
    if a < b {
        lemma_pow10_le(a, (b - 1) as nat);
        lemma_pow10_pos((b - 1) as nat);
    }
}

proof fn lemma_pow10_17()
    ensures
        pow10(17) == 100000000000000000,
{
    reveal_with_fuel(pow10, 18);
}

proof fn lemma_pow10_pos(k: nat)
    ensures
        pow10(k) >= 1,
    decreases k,
{
    if k > 0 {
        lemma_pow10_pos((k - 1) as nat);
    }
}

/// Reading digits from the left: appending a digit multiplies the value by
/// ten and adds the digit; appending anything else spoils the parse.
proof fn lemma_parse_digits_push(s: Seq<char>, c: char)
    ensures
        parse_digits(s.push(c)) == (if s.len() == 0 {
            if is_dec_digit(c) {
                Some(digit_val(c))
            } else {
                None
            }
        } else {
            match parse_digits(s) {
                Some(v) => if is_dec_digit(c) {
                    Some(v * 10 + digit_val(c))
                } else {
                    None
                },
                None => None,
            }
        }),
{
    reveal_with_fuel(parse_digits, 2);
    if s.len() == 0 {
        assert(s.push(c) =~= seq![c]);
    } else {
        assert(s.push(c).drop_last() =~= s);
    }
}

/// A digit sequence parses exactly when it is non-empty and all digits.
proof fn lemma_parse_digits_iff(s: Seq<char>)
    ensures
        parse_digits(s) is Some <==> (s.len() > 0 && all_dec_digits(s)),
    decreases s.len(),
{
    if s.len() > 1 {
        lemma_parse_digits_iff(s.drop_last());
        assert(all_dec_digits(s) ==> all_dec_digits(s.drop_last()) && is_dec_digit(s.last())) by {
            if all_dec_digits(s) {
                assert(forall|i: int|
                    0 <= i < s.drop_last().len() ==> is_dec_digit(#[trigger] s.drop_last()[i]))
                    by {
                    assert(forall|i: int|
                        0 <= i < s.drop_last().len() ==> s.drop_last()[i] == s[i]);
                }
            }
        }
        assert(all_dec_digits(s.drop_last()) && is_dec_digit(s.last()) ==> all_dec_digits(s)) by {
            if all_dec_digits(s.drop_last()) && is_dec_digit(s.last()) {
                assert(forall|i: int| 0 <= i < s.len() - 1 ==> s[i] == s.drop_last()[i]);
            }
        }
    }
}

/// The first-dot index of a sequence is where the scan says it is.
pub proof fn lemma_first_dot_at(s: Seq<char>, k: int)
    requires
        0 <= k <= s.len(),
        forall|j: int| 0 <= j < k ==> s[j] != '.',
        k < s.len() ==> s[k] == '.',
    ensures
        first_dot_index(s) == k,
    decreases s.len(),
{
    if s.len() > 0 && s[0] != '.' {
        lemma_first_dot_at(s.drop_first(), k - 1);
    }
}

/// The digit value of a character, when it has one.
fn char_digit(c: char) -> (r: Option<u64>)
    ensures
        match r {
            Some(d) => is_dec_digit(c) && d == digit_val(c) && d < 10,
            None => !is_dec_digit(c),
        },
{
    if c == '0' {
        Some(0)
    } else if c == '1' {
        Some(1)
    } else if c == '2' {
        Some(2)
    } else if c == '3' {
        Some(3)
    } else if c == '4' {
        Some(4)
    } else if c == '5' {
        Some(5)
    } else if c == '6' {
        Some(6)
    } else if c == '7' {
        Some(7)
    } else if c == '8' {
        Some(8)
    } else if c == '9' {
        Some(9)
    } else {
        None
    }
}

/// Read a decimal text as a signed count of tenths, under the grammar of
/// `parse_tenths_spec`.
#[verifier::loop_isolation(false)]
#[verifier::rlimit(50)]
pub fn parse_tenths(s: &str) -> (r: Option<i64>)
    ensures
        r is Some <==> parse_tenths_spec(s@) is Some,
        r matches Some(t) ==> parse_tenths_spec(s@) == Some(t as int),
{
    let len = s.unicode_len();
    if len == 0 {
        return None;
    }
    let c0 = s.get_char(0);
    let neg = c0 == '-';
    let i0: usize = if c0 == '-' || c0 == '+' {
        1
    } else {
        0
    };
    proof {
        if i0 == 1 {
            assert(s@.drop_first() =~= s@.subrange(1, s@.len() as int));
        } else {
            assert(s@ =~= s@.subrange(0, s@.len() as int));
        }
    }
    let ghost body = s@.subrange(i0 as int, len as int);

    // find the first dot after the sign
    let mut k: usize = i0;
    while k < len && s.get_char(k) != '.'
        invariant
            i0 <= k <= len,
            len == s@.len(),
            forall|j: int| i0 <= j < k ==> s@[j] != '.',
        decreases len - k,
    {
        k += 1;
    }
    proof {
        lemma_first_dot_at(body, k - i0);
    }
    if k - i0 > 17 {
        return None;
    }
    // the integer digits
    let mut acc: u64 = 0;
    let mut j: usize = i0;
    while j < k
        invariant
            i0 <= j <= k <= len,
            len == s@.len(),
            k - i0 <= 17,
            body == s@.subrange(i0 as int, len as int),
            j > i0 ==> parse_digits(s@.subrange(i0 as int, j as int)) == Some(acc as int),
            j == i0 ==> acc == 0,
            acc < pow10((j - i0) as nat),
        decreases k - j,
    {
        let c = s.get_char(j);
        match char_digit(c) {
            Some(d) => {
                proof {
                    lemma_pow10_le(((j + 1) - i0) as nat, 17);
                    lemma_pow10_17();
                    assert(pow10(((j + 1) - i0) as nat) == 10 * pow10((j - i0) as nat));
                    assert(s@.subrange(i0 as int, j + 1) =~= s@.subrange(
                        i0 as int,
                        j as int,
                    ).push(s@[j as int]));
                    lemma_parse_digits_push(s@.subrange(i0 as int, j as int), s@[j as int]);
                }
                acc = acc * 10 + d;
                j += 1;
            },
            None => {
                proof {
                    lemma_parse_digits_iff(s@.subrange(i0 as int, k as int));
                    assert(s@.subrange(i0 as int, k as int)[j - i0] == s@[j as int]);
                    assert(!all_dec_digits(s@.subrange(i0 as int, k as int)));
                    assert(body.subrange(0, k - i0) =~= s@.subrange(i0 as int, k as int));
                }
                return None;
            },
        }
    }
    if k == i0 {
        proof {
            lemma_parse_digits_iff(s@.subrange(i0 as int, k as int));
            assert(body.subrange(0, 0) =~= Seq::<char>::empty());
            if (k as int) < len {
                assert(body.subrange(0, k - i0) =~= s@.subrange(i0 as int, k as int));
            }
        }
        return None;
    }
    proof {
        assert(body.subrange(0, k - i0) =~= s@.subrange(i0 as int, k as int));
        lemma_pow10_le((k - i0) as nat, 17);
        lemma_pow10_17();
    }
    if k == len {
        // no fractional part
        proof {
            assert(body =~= s@.subrange(i0 as int, k as int));
        }
        let t = (acc * 10) as i64;
        return if neg {
            Some(-t)
        } else {
            Some(t)
        };
    }
    // the fractional digits; only the first contributes
    if k + 1 == len {
        proof {
            assert(body.subrange(k - i0 + 1, body.len() as int).len() == 0);
        }
        return None;
    }
    let mut q: usize = k + 1;
    while q < len
        invariant
            k + 1 <= q <= len,
            len == s@.len(),
            forall|j2: int| k + 1 <= j2 < q ==> is_dec_digit(#[trigger] s@[j2]),
        decreases len - q,
    {
        let c = s.get_char(q);
        match char_digit(c) {
            Some(_) => {
                q += 1;
            },
            None => {
                proof {
                    let ghost frac = body.subrange(k - i0 + 1, body.len() as int);
                    assert(frac[q - k - 1] == s@[q as int]);
                    assert(!all_dec_digits(frac));
                }
                return None;
            },
        }
    }
    let f = match char_digit(s.get_char(k + 1)) {
        Some(d) => d,
        None => {
            // unreachable: the scan above checked this character
            proof {
                assert(false);
            }
            0
        },
    };
    proof {
        let ghost frac = body.subrange(k - i0 + 1, body.len() as int);
        assert(forall|j2: int|
            0 <= j2 < frac.len() ==> #[trigger] frac[j2] == s@[j2 + k + 1]);
        assert(all_dec_digits(frac));
        assert(frac[0] == s@[k + 1]);
    }
    let t = (acc * 10 + f) as i64;
    if neg {
        Some(-t)
    } else {
        Some(t)
    }
}

/// Whether two string slices hold the same characters.
pub fn str_eq(a: &str, b: &str) -> (r: bool)
    ensures
        r == (a@ == b@),
{
    let la = a.unicode_len();
    let lb = b.unicode_len();
    if la != lb {
        return false;
    }
    let mut i: usize = 0;
    while i < la
        invariant
            la == a@.len(),
            lb == b@.len(),
            la == lb,
            i <= la,
            forall|j: int| 0 <= j < i ==> a@[j] == b@[j],
        decreases la - i,
    {
        if a.get_char(i) != b.get_char(i) {
            return false;
        }
        i += 1;
    }
    proof {
        assert(a@ =~= b@);
    }
    true
}

} // verus!
