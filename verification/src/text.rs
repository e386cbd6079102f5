use vstd::prelude::*;
use vstd::string::*;

verus! {

/// True of the ten decimal digit characters.
pub open spec fn is_digit(c: char) -> bool {
    48 <= c as int && c as int <= 57
}

/// The numeric value of a decimal digit character.
pub open spec fn digit_of(c: char) -> int {
    c as int - 48
}

/// The decimal digit character for a value between 0 and 9.
pub open spec fn digit_char(d: int) -> char {
    "0123456789"@[d]
}

pub open spec fn all_digits(s: Seq<char>) -> bool {
    forall|i: int| 0 <= i < s.len() ==> is_digit(#[trigger] s[i])
}

/// The value of a sequence of decimal digit characters, most significant first.
pub open spec fn digits_val(s: Seq<char>) -> int
    decreases s.len(),
{
    if s.len() == 0 {
        0
    } else {
        digits_val(s.drop_last()) * 10 + digit_of(s.last())
    }
}

/// The decimal digit characters of a non-negative number, most significant first,
/// with no leading zero.
pub open spec fn dec_digits(n: int) -> Seq<char>
    decreases n,
{
    if n <= 9 {
        seq![digit_char(n)]
    } else {
        dec_digits(n / 10) + seq![digit_char(n % 10)]
    }
}

pub open spec fn pow10(k: nat) -> int
    decreases k,
{
    if k == 0 {
        1
    } else {
        10 * pow10((k - 1) as nat)
    }
}

/// The length of the maximal run of digit characters starting at position `j`.
pub open spec fn digit_run(s: Seq<char>, j: int) -> int
    decreases s.len() - j,
    when 0 <= j <= s.len()
{
    if j < s.len() && is_digit(s[j]) {
        1 + digit_run(s, j + 1)
    } else {
        0
    }
}

pub proof fn lemma_digit_run_props(s: Seq<char>, j: int)
    requires
        0 <= j <= s.len(),
    ensures
        0 <= digit_run(s, j),
        j + digit_run(s, j) <= s.len(),
        forall|t: int| j <= t < j + digit_run(s, j) ==> is_digit(#[trigger] s[t]),
        j + digit_run(s, j) < s.len() ==> !is_digit(s[j + digit_run(s, j)]),
    decreases s.len() - j,
{
    if j < s.len() && is_digit(s[j]) {
        lemma_digit_run_props(s, j + 1);
    }
}

/// A run of digits bounded on the right by the end or a non-digit has exactly
/// that length.
pub proof fn lemma_digit_run_exact(s: Seq<char>, j: int, m: int)
    requires
        0 <= j <= m <= s.len(),
        forall|t: int| j <= t < m ==> is_digit(#[trigger] s[t]),
        m < s.len() ==> !is_digit(s[m]),
    ensures
        digit_run(s, j) == m - j,
    decreases m - j,
{
    if j < m {
        lemma_digit_run_exact(s, j + 1, m);
    }
}

pub proof fn lemma_pow10_pos(k: nat)
    ensures
        pow10(k) > 0,
    decreases k,
{
    if k > 0 {
        lemma_pow10_pos((k - 1) as nat);
    }
}

pub proof fn lemma_pow10_monotone(a: nat, b: nat)
    requires
        a <= b,
    ensures
        0 < pow10(a) <= pow10(b),
    decreases b,
{
    lemma_pow10_pos(a);
    if a < b {
        lemma_pow10_monotone(a, (b - 1) as nat);
    }
}

/// The digit characters are digits and carry their decimal value.
pub proof fn lemma_digit_char_val(d: int)
    requires
        0 <= d <= 9,
    ensures
        is_digit(digit_char(d)),
        digit_of(digit_char(d)) == d,
{
    reveal_strlit("0123456789");
    if d == 0 {
        assert(digit_char(0) == '0');
    } else if d == 1 {
        assert(digit_char(1) == '1');
    } else if d == 2 {
        assert(digit_char(2) == '2');
    } else if d == 3 {
        assert(digit_char(3) == '3');
    } else if d == 4 {
        assert(digit_char(4) == '4');
    } else if d == 5 {
        assert(digit_char(5) == '5');
    } else if d == 6 {
        assert(digit_char(6) == '6');
    } else if d == 7 {
        assert(digit_char(7) == '7');
    } else {
        assert(digit_char(8) == '8');
        assert(digit_char(9) == '9');
    }
}

pub proof fn lemma_pow10_18()
    ensures
        pow10(18) == 1000000000000000000,
{
    reveal_with_fuel(pow10, 19);
}

/// A digit sequence's value is bounded by the power of ten of its length.
pub proof fn lemma_digits_val_bound(s: Seq<char>)
    requires
        all_digits(s),
    ensures
        0 <= digits_val(s) < pow10(s.len()),
    decreases s.len(),
{
    if s.len() > 0 {
        assert(all_digits(s.drop_last())) by {
            assert(forall|i: int|
                0 <= i < s.drop_last().len() ==> #[trigger] s.drop_last()[i] == s[i]);
        }
        lemma_digits_val_bound(s.drop_last());
    }
}

pub proof fn lemma_dec_digits_props(n: int)
    requires
        n >= 0,
    ensures
        dec_digits(n).len() >= 1,
        all_digits(dec_digits(n)),
        digits_val(dec_digits(n)) == n,
    decreases n,
{
    if n <= 9 {
        lemma_digit_char_val(n);
        assert(dec_digits(n) =~= seq![digit_char(n)]);
        assert(dec_digits(n).drop_last() =~= Seq::<char>::empty());
        assert(digits_val(Seq::<char>::empty()) == 0);
        assert(dec_digits(n).last() == digit_char(n));
    } else {
        lemma_dec_digits_props(n / 10);
        lemma_digit_char_val(n % 10);
        let d = dec_digits(n);
        assert(d.drop_last() =~= dec_digits(n / 10));
        assert(d.last() == digit_char(n % 10));
        assert forall|i: int| 0 <= i < d.len() implies is_digit(#[trigger] d[i]) by {
            if i < dec_digits(n / 10).len() {
                assert(d[i] == dec_digits(n / 10)[i]);
            }
        }
    }
}

/// dec_digits(n) has at most k digits when n < pow10(k).
pub proof fn lemma_dec_digits_len(n: int, k: nat)
    requires
        0 <= n < pow10(k),
        k >= 1,
    ensures
        dec_digits(n).len() <= k,
    decreases n,
{
    if n > 9 {
        assert(pow10(k) == 10 * pow10((k - 1) as nat));
        lemma_dec_digits_len(n / 10, (k - 1) as nat);
    }
}

/// Formats a number as its decimal digit characters.
pub fn u64_to_string(n: u64) -> (r: String)
    ensures
        r@ == dec_digits(n as int),
    decreases n,
{
    proof {
        reveal_strlit("0123456789");
    }
    let d: usize = (n % 10) as usize;
    let ds: &str = "0123456789".substring_char(d, d + 1);
    proof {
        assert(ds@ =~= seq![digit_char(n as int % 10)]);
    }
    if n <= 9 {
        ds.to_owned()
    } else {
        let mut r = u64_to_string(n / 10);
        r.append(ds);
        r
    }
}

/// Reads the value of the digit characters of `s` in positions
/// `start .. start + len`, most significant first.
pub fn digits_value(s: &str, n: usize, start: usize, len: usize) -> (r: u64)
    requires
        n == s@.len(),
        start + len <= n,
        forall|t: int| start <= t < start + len ==> is_digit(#[trigger] s@[t]),
        len <= 18,
    ensures
        r == digits_val(s@.subrange(start as int, start as int + len as int)),
{
    let mut acc: u64 = 0;
    let mut j: usize = start;
    let end: usize = start + len;
    proof {
        assert(s@.subrange(start as int, start as int) =~= Seq::<char>::empty());
    }
    while j < end
        invariant
            start <= j <= end,
            end == start + len,
            end <= n == s@.len(),
            len <= 18,
            forall|t: int| start <= t < start + len ==> is_digit(#[trigger] s@[t]),
            acc == digits_val(s@.subrange(start as int, j as int)),
            acc < pow10((j - start) as nat),
        decreases end - j,
    {
        let c = s.get_char(j);
        let d: u64 = (c as u32 as u64) - 48;
        proof {
            let pre = s@.subrange(start as int, j as int);
            let cur = s@.subrange(start as int, j as int + 1);
            assert(cur.drop_last() =~= pre);
            assert(cur.last() == s@[j as int]);
            lemma_pow10_monotone(((j - start) + 1) as nat, 18);
            lemma_pow10_18();
        }
        acc = acc * 10 + d;
        j = j + 1;
    }
    acc
}

/// The length of the maximal digit run starting at `j`.
pub fn scan_digit_run(s: &str, n: usize, j: usize) -> (l: usize)
    requires
        n == s@.len(),
        j <= n,
    ensures
        l == digit_run(s@, j as int),
        j + l <= n,
{
    let mut t: usize = j;
    loop
        invariant
            j <= t <= n,
            n == s@.len(),
            digit_run(s@, j as int) == (t - j) + digit_run(s@, t as int),
        ensures
            t <= n,
            digit_run(s@, j as int) == t - j,
        decreases n - t,
    {
        if t >= n {
            break;
        }
        let c = s.get_char(t);
        let u = c as u32;
        if !(48 <= u && u <= 57) {
            break;
        }
        t = t + 1;
    }
    t - j
}

} // verus!
