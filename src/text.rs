//! Character-sequence helpers shared by the URL builders and parsers.
use vstd::prelude::*;
use vstd::string::{StrSliceExecFns, StringExecFns};

verus! {

/// `w` occurs in `s` starting at position `k`.
pub open spec fn occurs_at(s: Seq<char>, w: Seq<char>, k: int) -> bool {
    0 <= k && k + w.len() <= s.len() && s.subrange(k, k + w.len()) == w
}

/// `w` occurs somewhere in `s`.
pub open spec fn contains(s: Seq<char>, w: Seq<char>) -> bool {
    exists|k: int| #[trigger] occurs_at(s, w, k)
}

/// `s` ends with `w`.
pub open spec fn ends_with(s: Seq<char>, w: Seq<char>) -> bool {
    w.len() <= s.len() && s.subrange(s.len() - w.len(), s.len() as int) == w
}

/// `s` begins with `w`.
pub open spec fn starts_with(s: Seq<char>, w: Seq<char>) -> bool {
    w.len() <= s.len() && s.subrange(0, w.len() as int) == w
}

/// The pieces of `s` between occurrences of `sep`; there is always one more
/// piece than there are separators.
pub open spec fn split_on(s: Seq<char>, sep: char) -> Seq<Seq<char>>
    decreases s.len(),
{
    if s.len() == 0 {
        seq![seq![]]
    } else {
        let earlier = split_on(s.drop_last(), sep);
        if s.last() == sep {
            earlier.push(seq![])
        } else {
            earlier.update(earlier.len() - 1, earlier.last().push(s.last()))
        }
    }
}

/// The ASCII digit of value `d`.
pub open spec fn digit_char(d: nat) -> char {
    if d == 0 { '0' }
    else if d == 1 { '1' }
    else if d == 2 { '2' }
    else if d == 3 { '3' }
    else if d == 4 { '4' }
    else if d == 5 { '5' }
    else if d == 6 { '6' }
    else if d == 7 { '7' }
    else if d == 8 { '8' }
    else { '9' }
}

/// Decimal notation of a natural number, without leading zeros.
pub open spec fn nat_decimal(n: nat) -> Seq<char>
    decreases n,
{
    if n < 10 {
        seq![digit_char(n)]
    } else {
        nat_decimal(n / 10).push(digit_char(n % 10))
    }
}

/// Decimal notation of an integer, with a leading `-` when it is negative.
pub open spec fn int_decimal(n: int) -> Seq<char> {
    if n < 0 {
        seq!['-'] + nat_decimal((-n) as nat)
    } else {
        nat_decimal(n as nat)
    }
}

pub open spec fn is_ascii_digit(c: char) -> bool {
    '0' <= c && c <= '9'
}

/// Value of a sequence of ASCII digits, read in base ten.
pub open spec fn digits_value(s: Seq<char>) -> nat
    decreases s.len(),
{
    if s.len() == 0 {
        0
    } else {
        digits_value(s.drop_last()) * 10 + ((s.last() as int) - ('0' as int)) as nat
    }
}

pub open spec fn all_digits(s: Seq<char>) -> bool {
    forall|i: int| 0 <= i < s.len() ==> is_ascii_digit(#[trigger] s[i])
}

/// Whether `a` holds the text `b`.
pub fn text_equals(a: &String, b: &str) -> (r: bool)
    ensures
        r == (a@ == b@),
{
    let bs = String::from_str(b);
    *a == bs
}

/// The characters of `s`, one by one.
pub fn chars_of(s: &str) -> (r: Vec<char>)
    ensures
        r@ == s@,
{
    let mut r: Vec<char> = Vec::new();
    for c in it: s.chars()
        invariant
            r@ == it.seq().subrange(0, it.index() as int),
            it.seq() == s@,
    {
        r.push(c);
    }
    r
}


/// Whether `w` occurs in `s` at position `k`.
fn occurs_at_exec(s: &Vec<char>, w: &Vec<char>, k: usize) -> (r: bool)
    requires
        k + w@.len() <= s@.len(),
    ensures
        r == occurs_at(s@, w@, k as int),
{
    // Reading the length bounds it by `usize::MAX` for the sums below.
    let _ = s.len();
    let mut i: usize = 0;
    while i < w.len()
        invariant
            k + w@.len() <= s@.len(),
            s@.len() <= usize::MAX,
            0 <= i <= w@.len(),
            forall|j: int| 0 <= j < i ==> s@[k + j] == w@[j],
        decreases w@.len() - i,
    {
        if s[k + i] != w[i] {
            proof {
                assert(s@.subrange(k as int, k + w@.len())[i as int] != w@[i as int]);
            }
            return false;
        }
        i = i + 1;
    }
    assert(s@.subrange(k as int, k + w@.len()) =~= w@);
    true
}

/// Whether `w` occurs in `s`, on character vectors.
pub fn contains_chars(s: &Vec<char>, w: &Vec<char>) -> (r: bool)
    ensures
        r == contains(s@, w@),
{
    if w.len() > s.len() {
        assert forall|k: int| !occurs_at(s@, w@, k) by {}
        return false;
    }
    if w.len() == 0 {
        assert(occurs_at(s@, w@, 0)) by {
            assert(s@.subrange(0, 0) =~= w@);
        }
        return true;
    }
    let last: usize = s.len() - w.len();
    let mut k: usize = 0;
    while k <= last
        invariant
            last + w@.len() == s@.len(),
            w@.len() > 0,
            s@.len() <= usize::MAX,
            forall|j: int| 0 <= j < k ==> !occurs_at(s@, w@, j),
        decreases last + 1 - k,
    {
        if occurs_at_exec(s, w, k) {
            return true;
        }
        k = k + 1;
    }
    assert forall|j: int| !occurs_at(s@, w@, j) by {
        if 0 <= j < k {
        }
    }
    false
}

/// Whether `w` occurs in `s`.
pub fn contains_text(s: &str, w: &str) -> (r: bool)
    ensures
        r == contains(s@, w@),
{
    let sc = chars_of(s);
    let wc = chars_of(w);
    contains_chars(&sc, &wc)
}

/// Whether `s` ends with `w`.
pub fn ends_with_text(s: &str, w: &str) -> (r: bool)
    ensures
        r == ends_with(s@, w@),
{
    let sc = chars_of(s);
    let wc = chars_of(w);
    if wc.len() > sc.len() {
        return false;
    }
    let r = occurs_at_exec(&sc, &wc, sc.len() - wc.len());
    r
}

/// The one-character string of the digit `d`.
fn digit_text(d: u128) -> (r: &'static str)
    requires
        d < 10,
    ensures
        r@ == seq![digit_char(d as nat)],
{
    let table = "0123456789";
    proof {
        reveal_strlit("0123456789");
    }
    let r = table.substring_char(d as usize, d as usize + 1);
    assert(r@ =~= seq![digit_char(d as nat)]);
    r
}

/// Decimal notation of `n`.
pub fn nat_to_text(n: u128) -> (r: String)
    ensures
        r@ == nat_decimal(n as nat),
    decreases n,
{
    if n < 10 {
        String::from_str(digit_text(n))
    } else {
        let mut r = nat_to_text(n / 10);
        r.append(digit_text(n % 10));
        r
    }
}

/// Decimal notation of `n`, with a leading `-` when it is negative.
pub fn int_to_text(n: i128) -> (r: String)
    ensures
        r@ == int_decimal(n as int),
{
    if n < 0 {
        let m: u128 = if n == i128::MIN {
            0x8000_0000_0000_0000_0000_0000_0000_0000u128
        } else {
            (-n) as u128
        };
        let digits = nat_to_text(m);
        let mut r = String::from_str("-");
        proof {
            reveal_strlit("-");
        }
        r.append(digits.as_str());
        assert(r@ =~= int_decimal(n as int));
        r
    } else {
        nat_to_text(n as u128)
    }
}

/// A run of digits reads at least as large as any of its prefixes.
proof fn lemma_digits_value_prefix_le(s: Seq<char>, j: int)
    requires
        all_digits(s),
        0 <= j <= s.len(),
    ensures
        digits_value(s.subrange(0, j)) <= digits_value(s),
    decreases s.len(),
{
    if j < s.len() {
        let t = s.drop_last();
        assert(t.subrange(0, j) =~= s.subrange(0, j));
        assert(all_digits(t)) by {
            assert forall|i: int| 0 <= i < t.len() implies is_ascii_digit(#[trigger] t[i]) by {
                assert(t[i] == s[i]);
            }
        }
        lemma_digits_value_prefix_le(t, j);
    } else {
        assert(s.subrange(0, j) =~= s);
    }
}

/// Reads `s` as a base-ten number: `None` unless it is a non-empty run of
/// ASCII digits whose value is at most `max`.
pub fn parse_digits(s: &Vec<char>, max: u64) -> (r: Option<u64>)
    ensures
        r == (if s@.len() > 0 && all_digits(s@) && digits_value(s@) <= max {
            Some(digits_value(s@) as u64)
        } else {
            None::<u64>
        }),
{
    if s.len() == 0 {
        return None;
    }
    let mut acc: u64 = 0;
    let mut i: usize = 0;
    while i < s.len()
        invariant
            0 <= i <= s@.len(),
            all_digits(s@.subrange(0, i as int)),
            acc as nat == digits_value(s@.subrange(0, i as int)),
            acc <= max,
        decreases s@.len() - i,
    {
        let c = s[i];
        let ghost prefix = s@.subrange(0, i as int + 1);
        assert(prefix.drop_last() =~= s@.subrange(0, i as int));
        if !('0' <= c && c <= '9') {
            assert(!all_digits(s@)) by {
                assert(!is_ascii_digit(s@[i as int]));
            }
            return None;
        }
        let d: u64 = (c as u32 - '0' as u32) as u64;
        assert(digits_value(prefix) == acc * 10 + d);
        if d > max || acc > (max - d) / 10 {
            proof {
                if all_digits(s@) {
                    lemma_digits_value_prefix_le(s@, i as int + 1);
                }
                if d <= max {
                    assert((acc + 1) * 10 > max - d) by (nonlinear_arith)
                        requires acc > (max - d) / 10, d <= max;
                }
            }
            return None;
        }
        assert(acc * 10 + d <= max) by (nonlinear_arith)
            requires acc <= (max - d) / 10, d <= max;
        acc = acc * 10 + d;
        i = i + 1;
        assert forall|j: int| 0 <= j < i implies is_ascii_digit(#[trigger] s@.subrange(0, i as int)[j]) by {
            if j < i - 1 {
                assert(s@.subrange(0, i as int)[j] == s@.subrange(0, i as int - 1)[j]);
            }
        }
    }
    assert(s@.subrange(0, s@.len() as int) =~= s@);
    Some(acc)
}

/// What `i64`'s `from_str` reads from `s`: an optional sign, then ASCII
/// digits, within the range of `i64`.
pub open spec fn i64_value(s: Seq<char>) -> Option<i64> {
    if s.len() > 0 && s[0] == '-' {
        let d = s.drop_first();
        if d.len() > 0 && all_digits(d) && digits_value(d) <= 0x8000_0000_0000_0000 {
            Some((-digits_value(d)) as i64)
        } else {
            None
        }
    } else {
        let d = if s.len() > 0 && s[0] == '+' {
            s.drop_first()
        } else {
            s
        };
        if d.len() > 0 && all_digits(d) && digits_value(d) <= i64::MAX {
            Some(digits_value(d) as i64)
        } else {
            None
        }
    }
}

/// Reads `s` as an `i64` in base ten, as `i64`'s `from_str` does.
pub fn parse_i64(s: &str) -> (r: Option<i64>)
    ensures
        r == i64_value(s@),
{
    let chars = chars_of(s);
    let negative = chars.len() > 0 && chars[0] == '-';
    let signed = chars.len() > 0 && (chars[0] == '-' || chars[0] == '+');
    let mut digits: Vec<char> = Vec::new();
    let mut i: usize = if signed { 1 } else { 0 };
    let skip = i;
    while i < chars.len()
        invariant
            skip <= i <= chars@.len(),
            skip <= 1,
            digits@ == chars@.subrange(skip as int, i as int),
        decreases chars@.len() - i,
    {
        digits.push(chars[i]);
        i = i + 1;
    }
    proof {
        if signed {
            assert(digits@ =~= s@.drop_first());
        } else {
            assert(digits@ =~= s@);
        }
    }
    if negative {
        match parse_digits(&digits, 0x8000_0000_0000_0000u64) {
            Some(v) => Some((-(v as i128)) as i64),
            None => None,
        }
    } else {
        match parse_digits(&digits, i64::MAX as u64) {
            Some(v) => Some(v as i64),
            None => None,
        }
    }
}

/// `prefix` followed by `detail`.
pub fn prefixed(prefix: &str, detail: &str) -> (r: String)
    ensures
        r@ == prefix@ + detail@,
{
    let mut r = String::from_str(prefix);
    r.append(detail);
    r
}

/// Whether `s` begins with `w`.
pub fn starts_with_text(s: &str, w: &str) -> (r: bool)
    ensures
        r == starts_with(s@, w@),
{
    let sc = chars_of(s);
    let wc = chars_of(w);
    if wc.len() > sc.len() {
        return false;
    }
    let r = occurs_at_exec(&sc, &wc, 0);
    r
}

/// The pieces of `s` between occurrences of `sep`.
pub fn split_text(s: &str, sep: char) -> (r: Vec<String>)
    ensures
        r.deep_view() == split_on(s@, sep),
{
    let chars = chars_of(s);
    let n = chars.len();
    let mut r: Vec<String> = Vec::new();
    let mut start: usize = 0;
    let mut i: usize = 0;
    assert(s@.subrange(0, 0) =~= Seq::<char>::empty());
    assert(r.deep_view() =~= Seq::<Seq<char>>::empty());
    assert(split_on(s@.subrange(0, 0), sep) =~= r.deep_view().push(s@.subrange(0, 0)));
    while i < n
        invariant
            chars@ == s@,
            n == chars@.len(),
            0 <= start <= i <= n,
            split_on(s@.subrange(0, i as int), sep) == r.deep_view().push(s@.subrange(start as int, i as int)),
        decreases n - i,
    {
        let ghost prefix = s@.subrange(0, i + 1);
        assert(prefix.drop_last() =~= s@.subrange(0, i as int));
        assert(prefix.last() == chars@[i as int]);
        if chars[i] == sep {
            let piece = String::from_str(s.substring_char(start, i));
            let ghost before = r.deep_view();
            let ghost pv = piece@;
            r.push(piece);
            assert(r.deep_view() =~= before.push(pv));
            assert(s@.subrange(i + 1, i + 1) =~= Seq::<char>::empty());
            start = i + 1;
        } else {
            assert(s@.subrange(start as int, i + 1) =~= s@.subrange(start as int, i as int).push(chars@[i as int]));
            assert(r.deep_view().push(s@.subrange(start as int, i + 1)) =~= r.deep_view().push(
                s@.subrange(start as int, i as int),
            ).update(r.deep_view().len() as int, s@.subrange(start as int, i as int).push(chars@[i as int])));
        }
        i = i + 1;
    }
    assert(s@.subrange(0, n as int) =~= s@);
    let last = String::from_str(s.substring_char(start, n));
    let ghost before = r.deep_view();
    let ghost lv = last@;
    r.push(last);
    assert(r.deep_view() =~= before.push(lv));
    r
}

} // verus!
