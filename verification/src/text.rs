//! Text helpers: Unicode whitespace trimming and decimal rendering.

use vstd::prelude::*;
use vstd::string::*;

verus! {

/// The Unicode `White_Space` property, the set of characters for which
/// `char::is_whitespace` holds.
pub open spec fn is_whitespace_spec(c: char) -> bool {
    let u = c as u32;
    ||| 0x09 <= u <= 0x0D
    ||| u == 0x20
    ||| u == 0x85
    ||| u == 0xA0
    ||| u == 0x1680
    ||| 0x2000 <= u <= 0x200A
    ||| u == 0x2028
    ||| u == 0x2029
    ||| u == 0x202F
    ||| u == 0x205F
    ||| u == 0x3000
}

/// Whether `c` is Unicode whitespace.
pub fn is_whitespace(c: char) -> (r: bool)
    ensures
        r == is_whitespace_spec(c),
{
    let u = c as u32;
    (0x09 <= u && u <= 0x0D) || u == 0x20 || u == 0x85 || u == 0xA0 || u == 0x1680 || (0x2000
        <= u && u <= 0x200A) || u == 0x2028 || u == 0x2029 || u == 0x202F || u == 0x205F || u
        == 0x3000
}

/// `s` without its leading whitespace.
pub open spec fn trim_start_spec(s: Seq<char>) -> Seq<char>
    decreases s.len(),
{
    if s.len() > 0 && is_whitespace_spec(s[0]) {
        trim_start_spec(s.drop_first())
    } else {
        s
    }
}

/// `s` without its trailing whitespace.
pub open spec fn trim_end_spec(s: Seq<char>) -> Seq<char>
    decreases s.len(),
{
    if s.len() > 0 && is_whitespace_spec(s.last()) {
        trim_end_spec(s.drop_last())
    } else {
        s
    }
}

/// `s` without leading and trailing whitespace, as `str::trim` gives it.
pub open spec fn trim_spec(s: Seq<char>) -> Seq<char> {
    trim_end_spec(trim_start_spec(s))
}

proof fn lemma_trim_start_skip(s: Seq<char>, i: int)
    requires
        0 <= i < s.len(),
        is_whitespace_spec(s[i]),
    ensures
        trim_start_spec(s.subrange(i, s.len() as int)) == trim_start_spec(
            s.subrange(i + 1, s.len() as int),
        ),
{
    assert(s.subrange(i, s.len() as int).drop_first() =~= s.subrange(i + 1, s.len() as int));
}

proof fn lemma_trim_end_skip(s: Seq<char>, a: int, j: int)
    requires
        0 <= a < j <= s.len(),
        is_whitespace_spec(s[j - 1]),
    ensures
        trim_end_spec(s.subrange(a, j)) == trim_end_spec(s.subrange(a, j - 1)),
{
    assert(s.subrange(a, j).drop_last() =~= s.subrange(a, j - 1));
}

/// Removes leading and trailing whitespace.
pub fn trim(s: &str) -> (r: String)
    ensures
        r@ == trim_spec(s@),
        exists|i: int, j: int|
            {
                &&& 0 <= i <= j <= s@.len()
                &&& #[trigger] s@.subrange(i, j) == r@
                &&& forall|k: int| 0 <= k < i ==> is_whitespace_spec(#[trigger] s@[k])
                &&& forall|k: int| j <= k < s@.len() ==> is_whitespace_spec(#[trigger] s@[k])
                &&& i < j ==> !is_whitespace_spec(s@[i]) && !is_whitespace_spec(s@[j - 1])
            },
        s@.len() > 0 ==> !is_whitespace_spec(s@[0]) && !is_whitespace_spec(s@.last()) ==> r@
            == s@,
        s@.len() == 0 ==> r@.len() == 0,
{
    proof {
        lemma_trim_keeps_the_middle(s@);
    }
    let n = s.unicode_len();
    let mut start: usize = 0;
    assert(s@.subrange(0, n as int) =~= s@);
    while start < n && is_whitespace(s.get_char(start))
        invariant
            n == s@.len(),
            start <= n,
            trim_start_spec(s@) == trim_start_spec(s@.subrange(start as int, n as int)),
        decreases n - start,
    {
        proof {
            lemma_trim_start_skip(s@, start as int);
        }
        start = start + 1;
    }
    let ghost rest = s@.subrange(start as int, n as int);
    assert(trim_start_spec(s@) == rest) by {
        if start < n {
            assert(rest[0] == s@[start as int]);
        } else {
            assert(rest.len() == 0);
        }
    }
    let mut end: usize = n;
    assert(rest =~= s@.subrange(start as int, end as int));
    while end > start && is_whitespace(s.get_char(end - 1))
        invariant
            n == s@.len(),
            start <= end <= n,
            rest == s@.subrange(start as int, n as int),
            trim_end_spec(rest) == trim_end_spec(s@.subrange(start as int, end as int)),
        decreases end,
    {
        proof {
            lemma_trim_end_skip(s@, start as int, end as int);
        }
        end = end - 1;
    }
    let ghost kept = s@.subrange(start as int, end as int);
    assert(trim_end_spec(kept) == kept) by {
        if end > start {
            assert(kept.last() == s@[end - 1]);
        } else {
            assert(kept.len() == 0);
        }
    }
    let sub = s.substring_char(start, end);
    proof {
        if s@.len() == 0 || (!is_whitespace_spec(s@[0]) && !is_whitespace_spec(s@.last())) {
            lemma_trim_of_trimmed_text(s@);
        }
    }
    String::from_str(sub)
}

/// The decimal digit for `d` (taken modulo ten).
pub open spec fn digit_char(d: nat) -> char {
    let d = d % 10;
    if d == 0 {
        '0'
    } else if d == 1 {
        '1'
    } else if d == 2 {
        '2'
    } else if d == 3 {
        '3'
    } else if d == 4 {
        '4'
    } else if d == 5 {
        '5'
    } else if d == 6 {
        '6'
    } else if d == 7 {
        '7'
    } else if d == 8 {
        '8'
    } else {
        '9'
    }
}

/// The decimal digits of `n`, most significant first, without leading zeros.
pub open spec fn decimal(n: nat) -> Seq<char>
    decreases n,
{
    if n < 10 {
        seq![digit_char(n)]
    } else {
        decimal(n / 10).push(digit_char(n % 10))
    }
}

/// The decimal rendering of `i`, with a `-` before negative values, as `Display` writes
/// integers.
pub open spec fn signed_decimal(i: int) -> Seq<char> {
    if i < 0 {
        seq!['-'] + decimal((-i) as nat)
    } else {
        decimal(i as nat)
    }
}

/// `s` preceded by as many `0` as needed to reach `width` characters.
pub open spec fn zero_pad(s: Seq<char>, width: nat) -> Seq<char> {
    if s.len() < width {
        Seq::new((width - s.len()) as nat, |_i: int| '0') + s
    } else {
        s
    }
}

/// Appends one decimal digit.
fn append_digit(out: &mut String, d: u64)
    requires
        d < 10,
    ensures
        final(out)@ == old(out)@.push(digit_char(d as nat)),
{
    proof {
        reveal_strlit("0");
        reveal_strlit("1");
        reveal_strlit("2");
        reveal_strlit("3");
        reveal_strlit("4");
        reveal_strlit("5");
        reveal_strlit("6");
        reveal_strlit("7");
        reveal_strlit("8");
        reveal_strlit("9");
    }
    let digit = if d == 0 {
        "0"
    } else if d == 1 {
        "1"
    } else if d == 2 {
        "2"
    } else if d == 3 {
        "3"
    } else if d == 4 {
        "4"
    } else if d == 5 {
        "5"
    } else if d == 6 {
        "6"
    } else if d == 7 {
        "7"
    } else if d == 8 {
        "8"
    } else {
        "9"
    };
    out.append(digit);
    assert(final(out)@ =~= old(out)@.push(digit_char(d as nat)));
}

/// Appends the decimal digits of `n`.
pub fn append_decimal(out: &mut String, n: u64)
    ensures
        final(out)@ == old(out)@ + decimal(n as nat),
    decreases n,
{
    if n < 10 {
        append_digit(out, n);
        assert(final(out)@ =~= old(out)@ + decimal(n as nat));
    } else {
        append_decimal(out, n / 10);
        append_digit(out, n % 10);
        assert(final(out)@ =~= old(out)@ + decimal(n as nat));
    }
}

/// Appends `n` in decimal, with a leading `-` when negative.
pub fn append_signed_decimal(out: &mut String, n: i64)
    ensures
        final(out)@ == old(out)@ + signed_decimal(n as int),
{
    if n < 0 {
        proof {
            reveal_strlit("-");
        }
        out.append("-");
        let magnitude: u64 = (0i128 - (n as i128)) as u64;
        append_decimal(out, magnitude);
        assert(final(out)@ =~= old(out)@ + signed_decimal(n as int));
    } else {
        append_decimal(out, n as u64);
    }
}

/// Appends the decimal digits of `n`, zero-padded to `width` characters.
pub fn append_zero_padded(out: &mut String, n: u64, width: u64)
    requires
        width <= 20,
    ensures
        final(out)@ == old(out)@ + zero_pad(decimal(n as nat), width as nat),
{
    let len = decimal_len(n);
    let mut i: u64 = len;
    let ghost start = out@;
    while i < width
        invariant
            len == decimal(n as nat).len(),
            len <= i,
            i <= width || len > width,
            len >= width ==> i == len,
            out@ == start + Seq::new((i - len) as nat, |_j: int| '0'),
        decreases width - i,
    {
        proof {
            reveal_strlit("0");
        }
        out.append("0");
        assert(out@ =~= start + Seq::new((i + 1 - len) as nat, |_j: int| '0'));
        i = i + 1;
    }
    append_decimal(out, n);
    assert(final(out)@ =~= old(out)@ + zero_pad(decimal(n as nat), width as nat));
}

/// The number of decimal digits of `n`.
fn decimal_len(n: u64) -> (r: u64)
    ensures
        r == decimal(n as nat).len(),
        1 <= r <= 20,
    decreases n,
{
    if n < 10 {
        1
    } else {
        let r = decimal_len(n / 10);
        proof {
            lemma_decimal_len_bound(n as nat);
        }
        r + 1
    }
}

proof fn lemma_decimal_len_bound(n: nat)
    requires
        n <= u64::MAX,
    ensures
        1 <= decimal(n).len() <= 20,
    decreases n,
{
    if n >= 10 {
        assert(pow10(19) == 10000000000000000000nat) by {
            reveal_with_fuel(pow10, 20);
        }
        lemma_decimal_len_small(n / 10, 19);
    }
}

/// A value below `10^k` has at most `k` digits.
pub proof fn lemma_decimal_len_small(n: nat, k: nat)
    requires
        n < pow10(k),
        k >= 1,
    ensures
        1 <= decimal(n).len() <= k,
    decreases n,
{
    if n >= 10 {
        assert(k >= 2) by {
            if k < 2 {
                assert(pow10(k) == 10) by {
                    assert(pow10(0) == 1);
                }
            }
        }
        assert(n / 10 < pow10((k - 1) as nat)) by {
            assert(pow10(k) == 10 * pow10((k - 1) as nat));
        }
        lemma_decimal_len_small(n / 10, (k - 1) as nat);
    }
}

/// Ten to the power `k`.
pub open spec fn pow10(k: nat) -> nat
    decreases k,
{
    if k == 0 {
        1
    } else {
        10 * pow10((k - 1) as nat)
    }
}

/// Whether the two texts are the same.
pub fn same_text(a: &str, b: &str) -> (r: bool)
    ensures
        r == (a@ == b@),
{
    String::from_str(a) == String::from_str(b)
}

proof fn lemma_trim_start_front(s: Seq<char>)
    ensures
        trim_start_spec(s).len() == 0 || !is_whitespace_spec(trim_start_spec(s)[0]),
    decreases s.len(),
{
    if s.len() > 0 && is_whitespace_spec(s[0]) {
        lemma_trim_start_front(s.drop_first());
    }
}

proof fn lemma_trim_end_back(s: Seq<char>)
    ensures
        trim_end_spec(s).len() == 0 || !is_whitespace_spec(trim_end_spec(s).last()),
    decreases s.len(),
{
    if s.len() > 0 && is_whitespace_spec(s.last()) {
        lemma_trim_end_back(s.drop_last());
    }
}

proof fn lemma_trim_end_keeps_front(s: Seq<char>)
    ensures
        trim_end_spec(s).len() <= s.len(),
        trim_end_spec(s) == s.subrange(0, trim_end_spec(s).len() as int),
        s.len() > 0 && !is_whitespace_spec(s[0]) ==> trim_end_spec(s).len() > 0,
    decreases s.len(),
{
    if s.len() > 0 && is_whitespace_spec(s.last()) {
        let d = s.drop_last();
        lemma_trim_end_keeps_front(d);
        assert(d.subrange(0, trim_end_spec(d).len() as int) =~= s.subrange(
            0,
            trim_end_spec(d).len() as int,
        ));
        if s.len() == 1 {
            assert(s[0] == s.last());
        } else {
            assert(d[0] == s[0]);
        }
    } else {
        assert(s.subrange(0, s.len() as int) =~= s);
    }
}

/// Trimming is idempotent: trimmed text has no whitespace left to remove.
pub proof fn lemma_trim_idempotent(s: Seq<char>)
    ensures
        trim_spec(trim_spec(s)) == trim_spec(s),
{
    let u = trim_start_spec(s);
    let t = trim_end_spec(u);
    lemma_trim_start_front(s);
    lemma_trim_end_keeps_front(u);
    lemma_trim_end_back(u);
    if t.len() > 0 {
        assert(t[0] == u[0]);
        assert(trim_start_spec(t) == t);
    } else {
        assert(trim_start_spec(t) == t);
    }
    assert(trim_end_spec(t) == t);
}

/// The index of the first non-whitespace character of `s` (its length if there is none).
proof fn trim_start_index(s: Seq<char>) -> (i: int)
    ensures
        0 <= i <= s.len(),
        trim_start_spec(s) == s.subrange(i, s.len() as int),
        forall|k: int| 0 <= k < i ==> is_whitespace_spec(#[trigger] s[k]),
        i < s.len() ==> !is_whitespace_spec(s[i]),
    decreases s.len(),
{
    if s.len() > 0 && is_whitespace_spec(s[0]) {
        let d = s.drop_first();
        let j = trim_start_index(d);
        assert(d.subrange(j, d.len() as int) =~= s.subrange(j + 1, s.len() as int));
        assert forall|k: int| 0 <= k < j + 1 implies is_whitespace_spec(#[trigger] s[k]) by {
            if k > 0 {
                assert(s[k] == d[k - 1]);
            }
        }
        j + 1
    } else {
        assert(s.subrange(0, s.len() as int) =~= s);
        0
    }
}

/// One past the index of the last non-whitespace character of `s` (0 if there is none).
proof fn trim_end_index(s: Seq<char>) -> (j: int)
    ensures
        0 <= j <= s.len(),
        trim_end_spec(s) == s.subrange(0, j),
        forall|k: int| j <= k < s.len() ==> is_whitespace_spec(#[trigger] s[k]),
        j > 0 ==> !is_whitespace_spec(s[j - 1]),
    decreases s.len(),
{
    if s.len() > 0 && is_whitespace_spec(s.last()) {
        let d = s.drop_last();
        let j = trim_end_index(d);
        assert(d.subrange(0, j) =~= s.subrange(0, j));
        assert forall|k: int| j <= k < s.len() implies is_whitespace_spec(#[trigger] s[k]) by {
            if k < s.len() - 1 {
                assert(s[k] == d[k]);
            }
        }
        j
    } else {
        assert(s.subrange(0, s.len() as int) =~= s);
        s.len() as int
    }
}

/// Trimming cuts off exactly the whitespace at both ends: the result is the slice
/// `s[i..j]` of `s`, everything before `i` and from `j` on is whitespace, and a non-empty
/// result starts and ends with a character that is not. Nothing inside is touched,
/// whatever the length of the text.
pub proof fn lemma_trim_keeps_the_middle(s: Seq<char>)
    ensures
        exists|i: int, j: int|
            {
                &&& 0 <= i <= j <= s.len()
                &&& #[trigger] s.subrange(i, j) == trim_spec(s)
                &&& forall|k: int| 0 <= k < i ==> is_whitespace_spec(#[trigger] s[k])
                &&& forall|k: int| j <= k < s.len() ==> is_whitespace_spec(#[trigger] s[k])
                &&& i < j ==> !is_whitespace_spec(s[i]) && !is_whitespace_spec(s[j - 1])
            },
{
    let i = trim_start_index(s);
    let u = s.subrange(i, s.len() as int);
    let j = trim_end_index(u);
    assert(u.subrange(0, j) =~= s.subrange(i, i + j));
    assert forall|k: int| i + j <= k < s.len() implies is_whitespace_spec(#[trigger] s[k]) by {
        assert(s[k] == u[k - i]);
    }
    if j > 0 {
        assert(s[i] == u[0]);
        assert(s[i + j - 1] == u[j - 1]);
    }
    assert(s.subrange(i, i + j) == trim_spec(s));
}

/// Text with no whitespace at either end is left exactly as it is by trimming.
pub proof fn lemma_trim_of_trimmed_text(s: Seq<char>)
    requires
        s.len() > 0 ==> !is_whitespace_spec(s[0]) && !is_whitespace_spec(s.last()),
    ensures
        trim_spec(s) == s,
{
    let i = trim_start_index(s);
    if s.len() > 0 {
        assert(i == 0);
    }
    assert(s.subrange(i, s.len() as int) =~= s);
    let j = trim_end_index(s);
    if s.len() > 0 {
        assert(j == s.len());
    }
    assert(s.subrange(0, j) =~= s);
}

/// The value of a decimal digit character.
pub open spec fn digit_value(c: char) -> int {
    (c as u32) - ('0' as u32)
}

/// The number a text of decimal digits denotes, most significant first.
pub open spec fn digits_value(s: Seq<char>) -> int
    decreases s.len(),
{
    if s.len() == 0 {
        0
    } else {
        digits_value(s.drop_last()) * 10 + digit_value(s.last())
    }
}

/// The number a decimal text with an optional `-` or `+` sign denotes.
pub open spec fn signed_digits_value(s: Seq<char>) -> int {
    if s.len() > 0 && s[0] == '-' {
        -digits_value(s.drop_first())
    } else if s.len() > 0 && s[0] == '+' {
        digits_value(s.drop_first())
    } else {
        digits_value(s)
    }
}

/// Every character of `s` is a decimal digit.
pub open spec fn all_digits(s: Seq<char>) -> bool {
    forall|k: int| 0 <= k < s.len() ==> '0' <= #[trigger] s[k] <= '9'
}

/// A digit character denotes its digit.
pub proof fn lemma_digit_char_value(d: nat)
    ensures
        digit_value(digit_char(d)) == d % 10,
        '0' <= digit_char(d) <= '9',
{
}

/// The decimal text of `n` consists of digits and reads back as `n`.
pub proof fn lemma_decimal_reads_back(n: nat)
    ensures
        decimal(n).len() >= 1,
        all_digits(decimal(n)),
        digits_value(decimal(n)) == n,
    decreases n,
{
    lemma_digit_char_value(n);
    if n >= 10 {
        lemma_decimal_reads_back(n / 10);
        lemma_digit_char_value(n % 10);
        let t = decimal(n);
        assert(t.drop_last() =~= decimal(n / 10));
        assert(t.last() == digit_char(n % 10));
        assert(digit_value(t.last()) == n % 10);
        assert(digits_value(t) == digits_value(decimal(n / 10)) * 10 + digit_value(t.last()));
        assert((n / 10) * 10 + n % 10 == n);
        assert forall|k: int| 0 <= k < t.len() implies '0' <= #[trigger] t[k] <= '9' by {
            if k < t.len() - 1 {
                assert(t[k] == decimal(n / 10)[k]);
            }
        }
    } else {
        assert(decimal(n).drop_last() =~= Seq::<char>::empty());
        assert(decimal(n).last() == digit_char(n));
        assert(digits_value(decimal(n)) == digits_value(Seq::<char>::empty()) * 10 + digit_value(
            digit_char(n),
        ));
    }
}

/// Leading zeros do not change the number a digit text denotes.
pub proof fn lemma_zero_pad_reads_back(s: Seq<char>, width: nat)
    requires
        all_digits(s),
    ensures
        all_digits(zero_pad(s, width)),
        digits_value(zero_pad(s, width)) == digits_value(s),
        zero_pad(s, width).len() >= s.len(),
        zero_pad(s, width).len() >= width,
    decreases s.len(),
{
    if s.len() < width {
        let z = Seq::new((width - s.len()) as nat, |_i: int| '0');
        lemma_zeros_then_digits(z, s);
    }
}

proof fn lemma_zeros_then_digits(z: Seq<char>, s: Seq<char>)
    requires
        forall|k: int| 0 <= k < z.len() ==> #[trigger] z[k] == '0',
        all_digits(s),
    ensures
        digits_value(z + s) == digits_value(s),
        all_digits(z + s),
    decreases s.len(),
{
    assert forall|k: int| 0 <= k < (z + s).len() implies '0' <= #[trigger] (z + s)[k] <= '9' by {
        if k < z.len() {
            assert((z + s)[k] == z[k]);
        } else {
            assert((z + s)[k] == s[k - z.len()]);
        }
    }
    if s.len() == 0 {
        assert(z + s =~= z);
        lemma_zeros_value(z);
    } else {
        assert((z + s).drop_last() =~= z + s.drop_last());
        lemma_zeros_then_digits(z, s.drop_last());
    }
}

proof fn lemma_zeros_value(z: Seq<char>)
    requires
        forall|k: int| 0 <= k < z.len() ==> #[trigger] z[k] == '0',
    ensures
        digits_value(z) == 0,
    decreases z.len(),
{
    if z.len() > 0 {
        lemma_zeros_value(z.drop_last());
    }
}

/// The signed decimal text of `i` is a run of digits, after a `-` where `i` is negative,
/// and reads back as `i`.
pub proof fn lemma_signed_decimal_reads_back(i: int)
    ensures
        i >= 0 ==> signed_decimal(i).len() >= 1 && all_digits(signed_decimal(i)),
        i < 0 ==> signed_decimal(i).len() >= 2 && signed_decimal(i)[0] == '-' && all_digits(
            signed_decimal(i).drop_first(),
        ),
        signed_digits_value(signed_decimal(i)) == i,
{
    if i < 0 {
        lemma_decimal_reads_back((-i) as nat);
        let t = signed_decimal(i);
        assert(t[0] == '-');
        assert(t.drop_first() =~= decimal((-i) as nat));
    } else {
        lemma_decimal_reads_back(i as nat);
        assert('0' <= decimal(i as nat)[0] <= '9');
    }
}

} // verus!
