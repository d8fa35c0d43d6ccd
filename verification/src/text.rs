//! String helpers with exact contracts over the character sequence of a string.
use vstd::prelude::*;

verus! {

/// `s` with every trailing occurrence of `c` removed.
pub open spec fn without_trailing(s: Seq<char>, c: char) -> Seq<char>
    decreases s.len(),
{
    if s.len() > 0 && s.last() == c {
        without_trailing(s.drop_last(), c)
    } else {
        s
    }
}

/// Removes every trailing occurrence of `c` from `s`.
pub fn trim_end_char(s: &str, c: char) -> (res: String)
    ensures
        res@ == without_trailing(s@, c),
{
    let n = s.unicode_len();
    let mut end: usize = n;
    proof {
        assert(s@.subrange(0, n as int) =~= s@);
    }
    while end > 0 && s.get_char(end - 1) == c
        invariant
            n == s@.len(),
            end <= n,
            without_trailing(s@.subrange(0, end as int), c) == without_trailing(s@, c),
        decreases end,
    {
        let ghost prefix = s@.subrange(0, end as int);
        assert(prefix.drop_last() =~= s@.subrange(0, end - 1));
        end = end - 1;
    }
    let kept = s.substring_char(0, end);
    String::from_str(kept)
}


/// The characters with the Unicode `White_Space` property, which is what
/// `char::is_whitespace` and `str::trim` go by.
pub open spec fn is_white_space(c: char) -> bool {
    ||| ('\u{9}' <= c && c <= '\u{d}')
    ||| c == ' '
    ||| c == '\u{85}'
    ||| c == '\u{a0}'
    ||| c == '\u{1680}'
    ||| ('\u{2000}' <= c && c <= '\u{200a}')
    ||| c == '\u{2028}'
    ||| c == '\u{2029}'
    ||| c == '\u{202f}'
    ||| c == '\u{205f}'
    ||| c == '\u{3000}'
}

/// Decides `is_white_space`.
pub fn white_space(c: char) -> (res: bool)
    ensures
        res == is_white_space(c),
{
    ('\u{9}' <= c && c <= '\u{d}') || c == ' ' || c == '\u{85}' || c == '\u{a0}' || c
        == '\u{1680}' || ('\u{2000}' <= c && c <= '\u{200a}') || c == '\u{2028}' || c
        == '\u{2029}' || c == '\u{202f}' || c == '\u{205f}' || c == '\u{3000}'
}

/// `s` without its leading white space.
pub open spec fn without_leading_space(s: Seq<char>) -> Seq<char>
    decreases s.len(),
{
    if s.len() > 0 && is_white_space(s[0]) {
        without_leading_space(s.drop_first())
    } else {
        s
    }
}

/// `s` without its trailing white space.
pub open spec fn without_trailing_space(s: Seq<char>) -> Seq<char>
    decreases s.len(),
{
    if s.len() > 0 && is_white_space(s.last()) {
        without_trailing_space(s.drop_last())
    } else {
        s
    }
}

/// `s` without leading and trailing white space.
pub open spec fn trimmed(s: Seq<char>) -> Seq<char> {
    without_trailing_space(without_leading_space(s))
}

/// Removes leading and trailing white space from `s`.
pub fn trim_white_space(s: &str) -> (res: String)
    ensures
        res@ == trimmed(s@),
{
    let n = s.unicode_len();
    let mut start: usize = 0;
    proof {
        assert(s@.subrange(0, n as int) =~= s@);
    }
    while start < n && white_space(s.get_char(start))
        invariant
            n == s@.len(),
            start <= n,
            without_leading_space(s@.subrange(start as int, n as int)) == without_leading_space(
                s@,
            ),
        decreases n - start,
    {
        let ghost rest = s@.subrange(start as int, n as int);
        assert(rest.drop_first() =~= s@.subrange(start + 1, n as int));
        start = start + 1;
    }
    let ghost front = s@.subrange(start as int, n as int);
    assert(without_leading_space(front) == front);
    let mut end: usize = n;
    while end > start && white_space(s.get_char(end - 1))
        invariant
            n == s@.len(),
            start <= end <= n,
            front == s@.subrange(start as int, n as int),
            without_trailing_space(s@.subrange(start as int, end as int))
                == without_trailing_space(front),
        decreases end,
    {
        let ghost part = s@.subrange(start as int, end as int);
        assert(part.drop_last() =~= s@.subrange(start as int, end - 1));
        end = end - 1;
    }
    let kept = s.substring_char(start, end);
    String::from_str(kept)
}

/// What `String::from_utf8_lossy` makes of a byte sequence.
pub uninterp spec fn lossy_utf8(bytes: Seq<u8>) -> Seq<char>;

/// Calls `String::from_utf8_lossy`. Its documentation promises that valid UTF-8
/// comes back decoded as it is; what an invalid sequence becomes (each invalid
/// part replaced by U+FFFD) is only named here, as `lossy_utf8`.
#[verifier::external_body]
pub(crate) fn utf8_lossy(bytes: &[u8]) -> (res: String)
    ensures
        res@ == lossy_utf8(bytes@),
        vstd::utf8::valid_utf8(bytes@) ==> res@ == vstd::utf8::decode_utf8(bytes@),
{
    String::from_utf8_lossy(bytes).into_owned()
}

/// A copy of a list of strings.
pub fn copy_strings(v: &Vec<String>) -> (res: Vec<String>)
    ensures
        res@ == v@,
{
    let mut res: Vec<String> = Vec::new();
    let mut i: usize = 0;
    while i < v.len()
        invariant
            i <= v.len(),
            res@ == v@.subrange(0, i as int),
        decreases v.len() - i,
    {
        res.push(v[i].clone());
        assert(res@ =~= v@.subrange(0, i + 1));
        i = i + 1;
    }
    assert(res@ =~= v@);
    res
}


/// The decimal digit for `d`, where `d < 10`.
pub open spec fn digit_char(d: nat) -> char {
    if d == 0 { '0' }
    else if d == 1 { '1' }
    else if d == 2 { '2' }
    else if d == 3 { '3' }
    else if d == 4 { '4' }
    else if d == 5 { '5' }
    else if d == 6 { '6' }
    else if d == 7 { '7' }
    else if d == 8 { '8' }
    else { '9' }
}

/// `n` written in decimal, without leading zeros.
pub open spec fn decimal(n: nat) -> Seq<char>
    decreases n,
{
    if n < 10 {
        seq![digit_char(n)]
    } else {
        decimal(n / 10).push(digit_char(n % 10))
    }
}

/// `n` written in decimal, with leading zeros up to `width` characters.
pub open spec fn zero_padded(n: nat, width: nat) -> Seq<char> {
    if decimal(n).len() < width {
        Seq::new((width - decimal(n).len()) as nat, |i: int| '0') + decimal(n)
    } else {
        decimal(n)
    }
}

/// The number a decimal digit stands for.
pub open spec fn digit_value(c: char) -> int {
    (c as int) - ('0' as int)
}

/// The number that a run of decimal digits stands for, read left to right.
pub open spec fn digits_value(s: Seq<char>) -> int
    decreases s.len(),
{
    if s.len() == 0 {
        0
    } else {
        digits_value(s.drop_last()) * 10 + digit_value(s.last())
    }
}

/// `decimal(n)` is a run of decimal digits that stands for `n`, with no leading
/// zero unless `n` is zero.
pub proof fn lemma_decimal_reads_back(n: nat)
    ensures
        digits_value(decimal(n)) == n,
        decimal(n).len() > 0,
        forall|i: int| 0 <= i < decimal(n).len() ==> '0' <= #[trigger] decimal(n)[i] <= '9',
        decimal(n)[0] == '0' ==> n == 0,
    decreases n,
{
    let d = (n % 10) as nat;
    assert(digit_value(digit_char(d)) == d as int && '0' <= digit_char(d) <= '9') by {
        assert(d < 10);
    }
    if n >= 10 {
        lemma_decimal_reads_back(n / 10);
        let s = decimal(n);
        assert(s.drop_last() =~= decimal(n / 10));
        assert(s.last() == digit_char(d));
        assert(s[0] == decimal(n / 10)[0]);
        assert forall|i: int| 0 <= i < s.len() implies '0' <= #[trigger] s[i] <= '9' by {
            if i < s.len() - 1 {
                assert(s[i] == decimal(n / 10)[i]);
            }
        }
    } else {
        let s = decimal(n);
        assert(s.drop_last() =~= Seq::<char>::empty());
        assert(digits_value(s.drop_last()) == 0);
    }
}

/// Different numbers are written differently.
pub proof fn lemma_decimal_injective(a: nat, b: nat)
    ensures
        decimal(a) == decimal(b) ==> a == b,
{
    lemma_decimal_reads_back(a);
    lemma_decimal_reads_back(b);
}

/// Ten to the power `k`.
pub open spec fn pow10(k: nat) -> nat
    decreases k,
{
    if k == 0 {
        1
    } else {
        10 * pow10((k - 1) as nat)
    }
}

/// A number below `10^w` takes at most `w` digits.
pub proof fn lemma_decimal_fits(n: nat, w: nat)
    requires
        w >= 1,
        n < pow10(w),
    ensures
        decimal(n).len() <= w,
    decreases n,
{
    if n >= 10 {
        assert(w >= 2) by {
            if w == 1 {
                assert(pow10(1) == 10 * pow10(0));
            }
        }
        assert(pow10(w) == 10 * pow10((w - 1) as nat));
        assert(n / 10 < pow10((w - 1) as nat));
        lemma_decimal_fits(n / 10, (w - 1) as nat);
    }
}

/// Leading zeros do not change the number that digits stand for.
pub proof fn lemma_leading_zeros(k: nat, s: Seq<char>)
    ensures
        digits_value(Seq::new(k, |i: int| '0') + s) == digits_value(s),
    decreases s.len(), k,
{
    let z = Seq::new(k, |i: int| '0');
    if s.len() == 0 {
        assert(z + s =~= z);
        if k > 0 {
            lemma_leading_zeros((k - 1) as nat, s);
            assert(z.drop_last() =~= Seq::new((k - 1) as nat, |i: int| '0') + s);
            assert(digit_value(z.last()) == 0);
        }
    } else {
        lemma_leading_zeros(k, s.drop_last());
        assert((z + s).drop_last() =~= z + s.drop_last());
        assert((z + s).last() == s.last());
    }
}

/// A number below `10^w` written with leading zeros to `w` characters takes
/// exactly `w` digits, which stand for the number.
pub proof fn lemma_zero_padded_reads_back(n: nat, w: nat)
    requires
        w >= 1,
        n < pow10(w),
    ensures
        zero_padded(n, w).len() == w,
        digits_value(zero_padded(n, w)) == n,
        forall|i: int| 0 <= i < w ==> '0' <= #[trigger] zero_padded(n, w)[i] <= '9',
{
    lemma_decimal_fits(n, w);
    lemma_decimal_reads_back(n);
    let d = decimal(n);
    if d.len() < w {
        let k = (w - d.len()) as nat;
        lemma_leading_zeros(k, d);
        let p = zero_padded(n, w);
        assert forall|i: int| 0 <= i < w implies '0' <= #[trigger] p[i] <= '9' by {
            if i >= k {
                assert(p[i] == d[i - k]);
            }
        }
    }
}

/// The one-character string of the digit `d`.
fn digit_str(d: u64) -> (res: &'static str)
    requires
        d < 10,
    ensures
        res@ == seq![digit_char(d as nat)],
{
    proof {
        reveal_strlit("0");
        reveal_strlit("1");
        reveal_strlit("2");
        reveal_strlit("3");
        reveal_strlit("4");
        reveal_strlit("5");
        reveal_strlit("6");
        reveal_strlit("7");
        reveal_strlit("8");
        reveal_strlit("9");
    }
    let res = if d == 0 { "0" }
    else if d == 1 { "1" }
    else if d == 2 { "2" }
    else if d == 3 { "3" }
    else if d == 4 { "4" }
    else if d == 5 { "5" }
    else if d == 6 { "6" }
    else if d == 7 { "7" }
    else if d == 8 { "8" }
    else { "9" };
    assert(res@ =~= seq![digit_char(d as nat)]);
    res
}

/// Appends `n` in decimal.
pub fn push_decimal(s: &mut String, n: u64)
    ensures
        final(s)@ == old(s)@ + decimal(n as nat),
    decreases n,
{
    if n >= 10 {
        push_decimal(s, n / 10);
    }
    s.append(digit_str(n % 10));
    proof {
        if n >= 10 {
            assert(decimal(n as nat) =~= decimal((n / 10) as nat) + seq![digit_char((n % 10) as nat)]);
        } else {
            assert(decimal(n as nat) =~= seq![digit_char((n % 10) as nat)]);
        }
    }
}

/// The number of decimal digits of `n`.
fn decimal_len(n: u64) -> (res: u64)
    ensures
        res == decimal(n as nat).len(),
        res <= n as nat + 1,
    decreases n,
{
    if n < 10 {
        1
    } else {
        decimal_len(n / 10) + 1
    }
}

/// Appends `n` in decimal, with leading zeros up to `width` characters.
pub fn push_zero_padded(s: &mut String, n: u64, width: u64)
    ensures
        final(s)@ == old(s)@ + zero_padded(n as nat, width as nat),
{
    let len = decimal_len(n);
    let ghost start = s@;
    let mut k: u64 = len;
    while k < width
        invariant
            len == decimal(n as nat).len(),
            len <= k,
            k <= width || k == len,
            s@ == start + Seq::new((k - len) as nat, |i: int| '0'),
        decreases width - k,
    {
        s.append("0");
        proof {
            reveal_strlit("0");
        }
        assert(s@ =~= start + Seq::new((k + 1 - len) as nat, |i: int| '0'));
        k = k + 1;
    }
    push_decimal(s, n);
    assert(s@ =~= start + zero_padded(n as nat, width as nat));
}

/// Removing the trailing `c`s leaves a prefix of `s` that does not end in `c`,
/// and removing them again changes nothing.
pub proof fn lemma_without_trailing_normal(s: Seq<char>, c: char)
    ensures
        without_trailing(s, c).len() <= s.len(),
        without_trailing(s, c) == s.subrange(0, without_trailing(s, c).len() as int),
        without_trailing(s, c).len() == 0 || without_trailing(s, c).last() != c,
        without_trailing(without_trailing(s, c), c) == without_trailing(s, c),
        forall|i: int|
            without_trailing(s, c).len() <= i < s.len() ==> #[trigger] s[i] == c,
    decreases s.len(),
{
    if s.len() > 0 && s.last() == c {
        lemma_without_trailing_normal(s.drop_last(), c);
        let r = without_trailing(s.drop_last(), c);
        assert(s.drop_last().subrange(0, r.len() as int) =~= s.subrange(0, r.len() as int));
        assert forall|i: int| r.len() <= i < s.len() implies #[trigger] s[i] == c by {
            if i < s.len() - 1 {
                assert(s.drop_last()[i] == s[i]);
            }
        }
    } else {
        assert(s.subrange(0, s.len() as int) =~= s);
    }
}

/// Removing leading white space leaves a suffix of `s` that does not start
/// with white space.
pub proof fn lemma_without_leading_space_normal(s: Seq<char>)
    ensures
        without_leading_space(s).len() <= s.len(),
        without_leading_space(s) == s.subrange(
            s.len() - without_leading_space(s).len(),
            s.len() as int,
        ),
        without_leading_space(s).len() == 0 || !is_white_space(without_leading_space(s)[0]),
    decreases s.len(),
{
    if s.len() > 0 && is_white_space(s[0]) {
        lemma_without_leading_space_normal(s.drop_first());
        let r = without_leading_space(s.drop_first());
        assert(s.drop_first().subrange(s.len() - 1 - r.len(), s.len() - 1) =~= s.subrange(
            s.len() - r.len(),
            s.len() as int,
        ));
    } else {
        assert(s.subrange(0, s.len() as int) =~= s);
    }
}

/// Removing trailing white space leaves a prefix of `s` that does not end with
/// white space, and keeps a first character that is not white space.
pub proof fn lemma_without_trailing_space_normal(s: Seq<char>)
    ensures
        without_trailing_space(s).len() <= s.len(),
        without_trailing_space(s) == s.subrange(0, without_trailing_space(s).len() as int),
        without_trailing_space(s).len() == 0 || !is_white_space(without_trailing_space(s).last()),
        s.len() > 0 && !is_white_space(s[0]) ==> without_trailing_space(s).len() > 0,
    decreases s.len(),
{
    if s.len() > 0 && is_white_space(s.last()) {
        lemma_without_trailing_space_normal(s.drop_last());
        let r = without_trailing_space(s.drop_last());
        assert(s.drop_last().subrange(0, r.len() as int) =~= s.subrange(0, r.len() as int));
        if s.len() > 0 && !is_white_space(s[0]) {
            assert(s.len() > 1);
            assert(s.drop_last()[0] == s[0]);
        }
    } else {
        assert(s.subrange(0, s.len() as int) =~= s);
    }
}

/// A trimmed string is a piece of the original that neither starts nor ends
/// with white space; it is empty only when the original is all white space.
pub proof fn lemma_trimmed_normal(s: Seq<char>)
    ensures
        trimmed(s).len() <= without_leading_space(s).len() <= s.len(),
        trimmed(s) == s.subrange(
            s.len() - without_leading_space(s).len(),
            s.len() - without_leading_space(s).len() + trimmed(s).len(),
        ),
        trimmed(s).len() == 0 || (!is_white_space(trimmed(s)[0]) && !is_white_space(
            trimmed(s).last(),
        )),
        trimmed(s).len() == 0 <==> forall|i: int| 0 <= i < s.len() ==> is_white_space(#[trigger] s[i]),
{
    let f = without_leading_space(s);
    lemma_without_leading_space_normal(s);
    lemma_without_trailing_space_normal(f);
    let t = trimmed(s);
    let i = s.len() - f.len();
    assert(t == s.subrange(i, i + t.len())) by {
        assert(f.subrange(0, t.len() as int) =~= s.subrange(i, i + t.len()));
    }
    if t.len() > 0 {
        assert(t[0] == f[0]);
    }
    if t.len() == 0 {
        assert(f.len() == 0);
        lemma_leading_space_all(s);
    } else {
        assert(s[i] == t[0]);
    }
}

/// When removing leading white space leaves nothing, every character was white
/// space.
proof fn lemma_leading_space_all(s: Seq<char>)
    requires
        without_leading_space(s).len() == 0,
    ensures
        forall|i: int| 0 <= i < s.len() ==> is_white_space(#[trigger] s[i]),
    decreases s.len(),
{
    if s.len() > 0 {
        lemma_leading_space_all(s.drop_first());
        assert forall|i: int| 0 <= i < s.len() implies is_white_space(#[trigger] s[i]) by {
            if i > 0 {
                assert(s.drop_first()[i - 1] == s[i]);
            }
        }
    }
}

} // verus!
