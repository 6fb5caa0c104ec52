//! Verified text utilities: trimming, prefix and suffix tests, splitting into
//! lines and words, joining, and decimal formatting.
//!
//! Whitespace here is the ASCII whitespace set (space, tab, line feed,
//! vertical tab, form feed, carriage return).

use vstd::prelude::*;
use vstd::string::*;

verus! {

/// ASCII whitespace.
pub open spec fn is_space(c: char) -> bool {
    c == ' ' || c == '\t' || c == '\n' || c == '\r' || c == '\u{0B}' || c == '\u{0C}'
}

/// `s` without its leading whitespace.
pub open spec fn trim_start(s: Seq<char>) -> Seq<char>
    decreases s.len(),
{
    if s.len() > 0 && is_space(s[0]) {
        trim_start(s.drop_first())
    } else {
        s
    }
}

/// `s` without its trailing whitespace.
pub open spec fn trim_end(s: Seq<char>) -> Seq<char>
    decreases s.len(),
{
    if s.len() > 0 && is_space(s.last()) {
        trim_end(s.drop_last())
    } else {
        s
    }
}

/// `s` without leading and trailing whitespace.
pub open spec fn spec_trim(s: Seq<char>) -> Seq<char> {
    trim_end(trim_start(s))
}

/// If the first `i` characters are whitespace and the `i`-th (if any) is not,
/// trimming the start drops exactly those `i` characters.
proof fn lemma_trim_start_skip(s: Seq<char>, i: int)
    requires
        0 <= i <= s.len(),
        forall|j: int| 0 <= j < i ==> is_space(s[j]),
        i < s.len() ==> !is_space(s[i]),
    ensures
        trim_start(s) == s.skip(i),
    decreases i,
{
    if i == 0 {
        assert(s.skip(0) =~= s);
    } else {
        let t = s.drop_first();
        assert(forall|j: int| 0 <= j < i - 1 ==> t[j] == s[j + 1] && is_space(t[j]));
        lemma_trim_start_skip(t, i - 1);
        assert(t.skip(i - 1) =~= s.skip(i));
    }
}

/// If the characters from `k` on are whitespace and the one before `k`
/// (if any) is not, trimming the end keeps exactly the first `k`.
proof fn lemma_trim_end_take(s: Seq<char>, k: int)
    requires
        0 <= k <= s.len(),
        forall|j: int| k <= j < s.len() ==> is_space(s[j]),
        k > 0 ==> !is_space(s[k - 1]),
    ensures
        trim_end(s) == s.take(k),
    decreases s.len() - k,
{
    if k == s.len() {
        assert(s.take(k) =~= s);
        if s.len() > 0 {
            assert(s.last() == s[k - 1]);
        }
    } else {
        let t = s.drop_last();
        assert(is_space(s.last()));
        assert(forall|j: int| k <= j < t.len() ==> is_space(t[j]));
        lemma_trim_end_take(t, k);
        assert(t.take(k) =~= s.take(k));
    }
}

/// Whether `c` is ASCII whitespace.
pub fn is_space_char(c: char) -> (r: bool)
    ensures
        r == is_space(c),
{
    c == ' ' || c == '\t' || c == '\n' || c == '\r' || c == '\u{0B}' || c == '\u{0C}'
}

/// Relies on `String::push`: appends one character.
#[verifier::external_body]
pub fn push_char(s: &mut String, c: char)
    ensures
        final(s)@ == old(s)@.push(c),
{
    s.push(c);
}

/// `s` without leading and trailing whitespace, as a fresh string.
pub fn trim(s: &str) -> (r: String)
    ensures
        r@ == spec_trim(s@),
{
    let n = s.unicode_len();
    let mut i: usize = 0;
    while i < n && is_space_char(s.get_char(i))
        invariant
            0 <= i <= n,
            n == s@.len(),
            forall|j: int| 0 <= j < i ==> is_space(s@[j]),
        decreases n - i,
    {
        i = i + 1;
    }
    proof {
        lemma_trim_start_skip(s@, i as int);
    }
    if i == n {
        let r = String::new();
        proof {
            assert(s@.skip(i as int) =~= Seq::<char>::empty());
        }
        return r;
    }
    let mut j: usize = n;
    while j > i + 1 && is_space_char(s.get_char(j - 1))
        invariant
            i < j <= n,
            n == s@.len(),
            forall|m: int| j <= m < n ==> is_space(s@[m]),
        decreases j,
    {
        j = j - 1;
    }
    let sub = s.substring_char(i, j);
    let r = String::from_str(sub);
    proof {
        let tail = s@.skip(i as int);
        assert(!is_space(tail[0]));
        assert(forall|m: int| j - i <= m < tail.len() ==> tail[m] == s@[m + i] && is_space(tail[m]));
        if j > i + 1 {
            assert(!is_space(s@[j - 1]));
            assert(tail[j - i - 1] == s@[j - 1]);
        }
        lemma_trim_end_take(tail, j - i);
        assert(tail.take(j - i) =~= s@.subrange(i as int, j as int));
    }
    r
}

/// `p` is a prefix of `s`.
pub open spec fn spec_starts_with(s: Seq<char>, p: Seq<char>) -> bool {
    s.len() >= p.len() && s.subrange(0, p.len() as int) == p
}

/// `p` is a suffix of `s`.
pub open spec fn spec_ends_with(s: Seq<char>, p: Seq<char>) -> bool {
    s.len() >= p.len() && s.subrange(s.len() - p.len(), s.len() as int) == p
}

/// Whether `p` is a prefix of `s`.
pub fn starts_with(s: &str, p: &str) -> (r: bool)
    ensures
        r == spec_starts_with(s@, p@),
{
    let n = s.unicode_len();
    let m = p.unicode_len();
    if n < m {
        return false;
    }
    let mut i: usize = 0;
    while i < m
        invariant
            0 <= i <= m,
            m <= n,
            n == s@.len(),
            m == p@.len(),
            forall|j: int| 0 <= j < i ==> s@[j] == p@[j],
        decreases m - i,
    {
        if s.get_char(i) != p.get_char(i) {
            proof {
                assert(s@.subrange(0, m as int)[i as int] == s@[i as int]);
            }
            return false;
        }
        i = i + 1;
    }
    proof {
        assert(s@.subrange(0, m as int) =~= p@);
    }
    true
}

/// Whether `p` is a suffix of `s`.
pub fn ends_with(s: &str, p: &str) -> (r: bool)
    ensures
        r == spec_ends_with(s@, p@),
{
    let n = s.unicode_len();
    let m = p.unicode_len();
    if n < m {
        return false;
    }
    let off = n - m;
    let mut i: usize = 0;
    while i < m
        invariant
            0 <= i <= m,
            off == n - m,
            m <= n,
            n == s@.len(),
            m == p@.len(),
            forall|j: int| 0 <= j < i ==> s@[off + j] == p@[j],
        decreases m - i,
    {
        if s.get_char(off + i) != p.get_char(i) {
            proof {
                assert(s@.subrange(off as int, n as int)[i as int] == s@[off + i]);
            }
            return false;
        }
        i = i + 1;
    }
    proof {
        assert(s@.subrange(off as int, n as int) =~= p@);
    }
    true
}

/// The decimal digit character for `d < 10`.
pub open spec fn spec_digit(d: int) -> char {
    if d == 0 {
        '0'
    } else if d == 1 {
        '1'
    } else if d == 2 {
        '2'
    } else if d == 3 {
        '3'
    } else if d == 4 {
        '4'
    } else if d == 5 {
        '5'
    } else if d == 6 {
        '6'
    } else if d == 7 {
        '7'
    } else if d == 8 {
        '8'
    } else {
        '9'
    }
}

/// The decimal digits of `n`, most significant first, no leading zeros
/// (except for `n == 0`, which is `"0"`).
pub open spec fn spec_dec(n: int) -> Seq<char>
    decreases n,
{
    if n < 10 {
        seq![spec_digit(n)]
    } else {
        spec_dec(n / 10).push(spec_digit(n % 10))
    }
}

/// `s` left-padded with `'0'` to width `w` (unchanged if already that wide).
pub open spec fn spec_zero_pad(s: Seq<char>, w: int) -> Seq<char>
    decreases w - s.len(),
{
    if s.len() >= w {
        s
    } else {
        spec_zero_pad(seq!['0'] + s, w)
    }
}

fn digit_char(d: u64) -> (c: char)
    requires
        d < 10,
    ensures
        c == spec_digit(d as int),
{
    match d {
        0 => '0',
        1 => '1',
        2 => '2',
        3 => '3',
        4 => '4',
        5 => '5',
        6 => '6',
        7 => '7',
        8 => '8',
        _ => '9',
    }
}

/// The decimal digits of `n`, least significant first.
fn dec_digits_rev(n: u64) -> (r: Vec<char>)
    ensures
        r@.reverse() == spec_dec(n as int),
        r@.len() >= 1,
{
    let mut digits: Vec<char> = Vec::new();
    let mut m: u64 = n;
    digits.push(digit_char(m % 10));
    m = m / 10;
    while m > 0
        invariant
            digits@.len() >= 1,
            spec_dec(n as int) == if m > 0 {
                spec_dec(m as int) + digits@.reverse()
            } else {
                digits@.reverse()
            },
        decreases m,
    {
        let d = m % 10;
        let m2 = m / 10;
        proof {
            let old_digits = digits@;
            if m >= 10 {
                assert(spec_dec(m as int) == spec_dec(m2 as int).push(spec_digit(d as int)));
                assert(spec_dec(m2 as int).push(spec_digit(d as int)) + old_digits.reverse()
                    =~= spec_dec(m2 as int) + old_digits.push(spec_digit(d as int)).reverse());
            } else {
                assert(spec_dec(m as int) == seq![spec_digit(d as int)]);
                assert(seq![spec_digit(d as int)] + old_digits.reverse()
                    =~= old_digits.push(spec_digit(d as int)).reverse());
            }
        }
        digits.push(digit_char(d));
        m = m2;
    }
    proof {
        if n < 10 {
            assert(digits@.reverse() =~= spec_dec(n as int));
        }
    }
    digits
}

/// `n` in decimal.
pub fn u64_to_string(n: u64) -> (r: String)
    ensures
        r@ == spec_dec(n as int),
{
    let digits = dec_digits_rev(n);
    let mut r = String::new();
    let len = digits.len();
    let mut i: usize = 0;
    while i < len
        invariant
            0 <= i <= len,
            len == digits@.len(),
            r@ =~= digits@.reverse().take(i as int),
        decreases len - i,
    {
        let c = digits[len - 1 - i];
        proof {
            assert(digits@.reverse()[i as int] == digits@[len - 1 - i]);
            assert(digits@.reverse().take(i + 1 as int)
                =~= digits@.reverse().take(i as int).push(digits@.reverse()[i as int]));
        }
        push_char(&mut r, c);
        i = i + 1;
    }
    proof {
        assert(digits@.reverse().take(len as int) =~= digits@.reverse());
    }
    r
}

/// `n` in decimal, left-padded with zeros to `width`.
pub fn u64_to_string_padded(n: u64, width: usize) -> (r: String)
    ensures
        r@ == spec_zero_pad(spec_dec(n as int), width as int),
{
    let digits = dec_digits_rev(n);
    let len = digits.len();
    let mut r = String::new();
    let mut pad: usize = 0;
    proof {
        lemma_zero_pad_shape(spec_dec(n as int), width as int);
    }
    while pad + len < width
        invariant
            len == digits@.len(),
            len >= 1,
            r@.len() == pad,
            pad == 0 || pad + len <= width,
            forall|j: int| 0 <= j < pad ==> r@[j] == '0',
        decreases width - pad,
    {
        push_char(&mut r, '0');
        pad = pad + 1;
    }
    let mut i: usize = 0;
    while i < len
        invariant
            0 <= i <= len,
            len == digits@.len(),
            r@.len() == pad + i,
            forall|j: int| 0 <= j < pad ==> r@[j] == '0',
            forall|j: int| 0 <= j < i ==> r@[pad + j] == digits@.reverse()[j],
        decreases len - i,
    {
        let c = digits[len - 1 - i];
        proof {
            assert(digits@.reverse()[i as int] == digits@[len - 1 - i]);
        }
        push_char(&mut r, c);
        i = i + 1;
    }
    proof {
        let d = spec_dec(n as int);
        let padded = spec_zero_pad(d, width as int);
        assert(d == digits@.reverse());
        assert(d.len() == len);
        assert(pad + len >= width);
        if len >= width {
            assert(pad == 0);
            assert(padded == d);
        } else {
            assert(pad + len == width);
        }
        assert(padded.len() == pad + len);
        assert(padded.subrange(pad as int, padded.len() as int) == d);
        assert forall|j: int| 0 <= j < pad + len implies r@[j] == padded[j] by {
            if j < pad {
                assert(padded[j] == '0');
            } else {
                assert(padded.subrange(pad as int, padded.len() as int)[j - pad] == padded[j]);
                assert(r@[pad + (j - pad)] == digits@.reverse()[j - pad]);
            }
        }
        assert(r@ =~= padded);
    }
    r
}

/// Zero-padding keeps the digits as a suffix and pads with zeros up to the
/// width (or does nothing if the digits are already wide enough).
proof fn lemma_zero_pad_shape(s: Seq<char>, w: int)
    ensures
        spec_zero_pad(s, w).len() == if s.len() >= w {
            s.len() as int
        } else {
            w
        },
        spec_ends_with(spec_zero_pad(s, w), s),
        forall|j: int| 0 <= j < spec_zero_pad(s, w).len() - s.len() ==> spec_zero_pad(s, w)[j] == '0',
    decreases w - s.len(),
{
    if s.len() >= w {
        assert(spec_zero_pad(s, w) == s);
        assert(s.subrange(0, s.len() as int) =~= s);
    } else {
        let s2 = seq!['0'] + s;
        lemma_zero_pad_shape(s2, w);
        let p = spec_zero_pad(s, w);
        assert(p == spec_zero_pad(s2, w));
        assert(p.subrange(p.len() - s2.len(), p.len() as int) == s2);
        assert(p.subrange(p.len() - s.len(), p.len() as int)
            =~= p.subrange(p.len() - s2.len(), p.len() as int).subrange(1, s2.len() as int));
        assert(p.subrange(p.len() - s.len(), p.len() as int) =~= s);
        assert forall|j: int| 0 <= j < p.len() - s.len() implies p[j] == '0' by {
            if j < p.len() - s2.len() {
            } else {
                assert(p.subrange(p.len() - s2.len(), p.len() as int)[0] == '0');
            }
        }
    }
}

/// A line's trailing carriage return is dropped (it belonged to the line
/// terminator).
pub open spec fn strip_cr(l: Seq<char>) -> Seq<char> {
    if l.len() > 0 && l.last() == '\r' {
        l.drop_last()
    } else {
        l
    }
}

/// Accumulator form of splitting into lines: `cur` is the line being read,
/// `acc` the lines already read.
pub open spec fn lines_acc(s: Seq<char>, cur: Seq<char>, acc: Seq<Seq<char>>) -> Seq<Seq<char>>
    decreases s.len(),
{
    if s.len() == 0 {
        if cur.len() == 0 {
            acc
        } else {
            acc.push(cur)
        }
    } else if s[0] == '\n' {
        lines_acc(s.drop_first(), Seq::empty(), acc.push(strip_cr(cur)))
    } else {
        lines_acc(s.drop_first(), cur.push(s[0]), acc)
    }
}

/// The lines of `s`: split at line feeds, a carriage return just before a
/// line feed belongs to the terminator, and a trailing terminator opens no
/// final empty line.
pub open spec fn spec_lines(s: Seq<char>) -> Seq<Seq<char>> {
    lines_acc(s, Seq::empty(), Seq::empty())
}

/// `s` without one trailing carriage return.
pub fn strip_trailing_cr(s: &str) -> (r: String)
    ensures
        r@ == strip_cr(s@),
{
    let n = s.unicode_len();
    if n > 0 && s.get_char(n - 1) == '\r' {
        let sub = s.substring_char(0, n - 1);
        proof {
            assert(s@.subrange(0, n - 1 as int) =~= s@.drop_last());
        }
        String::from_str(sub)
    } else {
        String::from_str(s)
    }
}

/// The lines of `s`, as fresh strings.
pub fn split_lines(s: &str) -> (r: Vec<String>)
    ensures
        r.deep_view() == spec_lines(s@),
{
    let n = s.unicode_len();
    let mut acc: Vec<String> = Vec::new();
    let mut cur = String::new();
    let mut i: usize = 0;
    proof {
        assert(s@.skip(0) =~= s@);
        assert(acc.deep_view() =~= Seq::<Seq<char>>::empty());
    }
    while i < n
        invariant
            0 <= i <= n,
            n == s@.len(),
            lines_acc(s@.skip(i as int), cur@, acc.deep_view()) == spec_lines(s@),
        decreases n - i,
    {
        let c = s.get_char(i);
        proof {
            let rest = s@.skip(i as int);
            assert(rest[0] == s@[i as int]);
            assert(rest.drop_first() =~= s@.skip(i + 1 as int));
        }
        if c == '\n' {
            let stripped = strip_trailing_cr(cur.as_str());
            let ghost old_accv = acc.deep_view();
            acc.push(stripped);
            proof {
                assert(acc.deep_view() =~= old_accv.push(strip_cr(cur@)));
            }
            cur = String::new();
        } else {
            push_char(&mut cur, c);
        }
        i = i + 1;
    }
    proof {
        assert(s@.skip(n as int) =~= Seq::<char>::empty());
    }
    if cur.as_str().unicode_len() > 0 {
        let ghost old_accv = acc.deep_view();
        let ghost curv = cur@;
        acc.push(cur);
        proof {
            assert(acc.deep_view() =~= old_accv.push(curv));
        }
    }
    acc
}

/// The lines joined back with single line feeds, no trailing one.
pub open spec fn spec_join_lines(ls: Seq<Seq<char>>) -> Seq<char>
    decreases ls.len(),
{
    if ls.len() == 0 {
        Seq::empty()
    } else if ls.len() == 1 {
        ls[0]
    } else {
        spec_join_lines(ls.drop_last()) + seq!['\n'] + ls.last()
    }
}

/// Joins lines with single line feeds.
pub fn join_lines(ls: &Vec<String>) -> (r: String)
    ensures
        r@ == spec_join_lines(ls.deep_view()),
{
    let mut r = String::new();
    let n = ls.len();
    let mut i: usize = 0;
    while i < n
        invariant
            0 <= i <= n,
            n == ls@.len(),
            ls.deep_view().len() == n,
            r@ == spec_join_lines(ls.deep_view().take(i as int)),
        decreases n - i,
    {
        proof {
            let lsv = ls.deep_view();
            assert(lsv.take(i + 1 as int).drop_last() =~= lsv.take(i as int));
            assert(lsv.take(i + 1 as int).last() == lsv[i as int]);
            assert(lsv[i as int] == ls@[i as int]@);
        }
        if i > 0 {
            push_char(&mut r, '\n');
        }
        let mut line = String::new();
        line = line.concat(ls[i].as_str());
        r = r.concat(line.as_str());
        proof {
            let lsv = ls.deep_view();
            if i == 0 {
                assert(r@ =~= spec_join_lines(lsv.take(1)));
            } else {
                assert(r@ =~= spec_join_lines(lsv.take(i as int)) + seq!['\n'] + lsv[i as int]);
            }
        }
        i = i + 1;
    }
    proof {
        assert(ls.deep_view().take(n as int) =~= ls.deep_view());
    }
    r
}

/// Accumulator form of splitting into whitespace-separated words.
pub open spec fn words_acc(s: Seq<char>, cur: Seq<char>, acc: Seq<Seq<char>>) -> Seq<Seq<char>>
    decreases s.len(),
{
    if s.len() == 0 {
        if cur.len() == 0 {
            acc
        } else {
            acc.push(cur)
        }
    } else if is_space(s[0]) {
        if cur.len() == 0 {
            words_acc(s.drop_first(), cur, acc)
        } else {
            words_acc(s.drop_first(), Seq::empty(), acc.push(cur))
        }
    } else {
        words_acc(s.drop_first(), cur.push(s[0]), acc)
    }
}

/// The whitespace-separated words of `s`, in order, never empty strings.
pub open spec fn spec_words(s: Seq<char>) -> Seq<Seq<char>> {
    words_acc(s, Seq::empty(), Seq::empty())
}

/// The whitespace-separated words of `s`.
pub fn split_words(s: &str) -> (r: Vec<String>)
    ensures
        r.deep_view() == spec_words(s@),
{
    let n = s.unicode_len();
    let mut acc: Vec<String> = Vec::new();
    let mut cur = String::new();
    let mut i: usize = 0;
    proof {
        assert(s@.skip(0) =~= s@);
        assert(acc.deep_view() =~= Seq::<Seq<char>>::empty());
    }
    while i < n
        invariant
            0 <= i <= n,
            n == s@.len(),
            words_acc(s@.skip(i as int), cur@, acc.deep_view()) == spec_words(s@),
        decreases n - i,
    {
        let c = s.get_char(i);
        proof {
            let rest = s@.skip(i as int);
            assert(rest[0] == s@[i as int]);
            assert(rest.drop_first() =~= s@.skip(i + 1 as int));
        }
        if is_space_char(c) {
            if cur.as_str().unicode_len() > 0 {
                let ghost old_accv = acc.deep_view();
                let ghost curv = cur@;
                acc.push(cur);
                proof {
                    assert(acc.deep_view() =~= old_accv.push(curv));
                }
                cur = String::new();
            }
        } else {
            push_char(&mut cur, c);
        }
        i = i + 1;
    }
    proof {
        assert(s@.skip(n as int) =~= Seq::<char>::empty());
    }
    if cur.as_str().unicode_len() > 0 {
        let ghost old_accv = acc.deep_view();
        let ghost curv = cur@;
        acc.push(cur);
        proof {
            assert(acc.deep_view() =~= old_accv.push(curv));
        }
    }
    acc
}

/// A signed value in decimal: a leading `'-'` for negatives.
pub open spec fn spec_dec_signed(n: int) -> Seq<char> {
    if n >= 0 {
        spec_dec(n)
    } else {
        seq!['-'] + spec_dec(-n)
    }
}

/// `n` in decimal, with a leading minus sign when negative.
pub fn i32_to_string(n: i32) -> (r: String)
    ensures
        r@ == spec_dec_signed(n as int),
{
    if n >= 0 {
        let r = u64_to_string(n as u64);
        r
    } else {
        let mag: i64 = -(n as i64);
        let mut r = String::new();
        push_char(&mut r, '-');
        let digits = u64_to_string(mag as u64);
        let r2 = r.concat(digits.as_str());
        proof {
            assert(r2@ =~= seq!['-'] + spec_dec(-(n as int)));
        }
        r2
    }
}

} // verus!
