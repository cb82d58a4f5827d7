//! Characters and strings: decimal digits, Unicode white space, and the
//! few string operations the rest of the crate is built from.

use vstd::prelude::*;

verus! {

/// The character of a decimal digit `d` (`0 <= d < 10`).
pub open spec fn digit_char(d: int) -> char {
    (d + 48) as char
}

/// The decimal digits of `n` without leading zeros; empty for zero.
pub open spec fn nat_digits(n: nat) -> Seq<char>
    decreases n,
{
    if n == 0 {
        Seq::empty()
    } else {
        nat_digits(n / 10).push(digit_char((n % 10) as int))
    }
}

/// How std's `Display` writes an integer: a minus sign for negative values,
/// then the decimal digits of the magnitude ("0" for zero).
pub open spec fn int_text(n: int) -> Seq<char> {
    if n == 0 {
        seq!['0']
    } else if n < 0 {
        seq!['-'] + nat_digits((-n) as nat)
    } else {
        nat_digits(n as nat)
    }
}

/// Appends one character to a string: std's `String::push`.
#[verifier::external_body]
pub(crate) fn push_char(s: &mut String, c: char)
    ensures
        final(s)@ == old(s)@.push(c),
{
    s.push(c);
}

/// Appends the characters of `t` to `s`.
pub(crate) fn push_str(s: &mut String, t: &str)
    ensures
        final(s)@ == old(s)@ + t@,
{
    s.append(t);
}

/// The digits of `n`, most significant first, without leading zeros.
fn digits_of(n: u64) -> (res: Vec<char>)
    ensures
        res@ == nat_digits(n as nat),
{
    let mut v: u64 = n;
    let mut buf: Vec<char> = Vec::new();
    while v > 0
        invariant
            nat_digits(n as nat) == nat_digits(v as nat) + buf@,
        decreases v,
    {
        let d: u64 = v % 10;
        let c: char = ((d as u8) + 48u8) as char;
        assert(c == digit_char(d as int));
        let ghost old_buf = buf@;
        buf.insert(0, c);
        assert(nat_digits(v as nat) == nat_digits((v / 10) as nat).push(c));
        assert(nat_digits((v / 10) as nat) + buf@ =~= nat_digits(v as nat) + old_buf);
        v = v / 10;
    }
    assert(nat_digits(0) + buf@ =~= buf@);
    buf
}

/// Appends std's decimal text of the integer `n` to `s`.
pub(crate) fn push_int(s: &mut String, n: i64)
    requires
        n > i64::MIN,
    ensures
        final(s)@ == old(s)@ + int_text(n as int),
{
    if n == 0 {
        push_char(s, '0');
        assert(int_text(0) =~= seq!['0']);
        return;
    }
    if n < 0 {
        push_char(s, '-');
    }
    assert(s@ == old(s)@ + (if n < 0 { seq!['-'] } else { Seq::<char>::empty() }));
    let mag: u64 = if n < 0 { (-n) as u64 } else { n as u64 };
    let digits = digits_of(mag);
    let ghost start = s@;
    let mut i: usize = 0;
    while i < digits.len()
        invariant
            i <= digits.len(),
            s@ == start + digits@.subrange(0, i as int),
        decreases digits.len() - i,
    {
        push_char(s, digits[i]);
        assert(digits@.subrange(0, i + 1) =~= digits@.subrange(0, i as int).push(digits@[i as int]));
        i = i + 1;
    }
    assert(digits@.subrange(0, digits.len() as int) =~= digits@);
    assert(s@ =~= old(s)@ + int_text(n as int));
}

/// The decimal text of an integer, as std's `Display` writes it.
pub fn int_to_string(n: i64) -> (res: String)
    requires
        n > i64::MIN,
    ensures
        res@ == int_text(n as int),
{
    let mut s = String::new();
    push_int(&mut s, n);
    assert(s@ =~= int_text(n as int));
    s
}

/// The characters with Unicode's White_Space property, which std's
/// `char::is_whitespace` tests for.
pub open spec fn is_space(c: char) -> bool {
    let u = c as u32;
    ||| 0x09 <= u <= 0x0d
    ||| u == 0x20
    ||| u == 0x85
    ||| u == 0xa0
    ||| u == 0x1680
    ||| 0x2000 <= u <= 0x200a
    ||| u == 0x2028
    ||| u == 0x2029
    ||| u == 0x202f
    ||| u == 0x205f
    ||| u == 0x3000
}

/// Whether `c` is white space, as `char::is_whitespace` decides.
pub fn is_space_char(c: char) -> (res: bool)
    ensures
        res == is_space(c),
{
    let u = c as u32;
    (0x09 <= u && u <= 0x0d) || u == 0x20 || u == 0x85 || u == 0xa0 || u == 0x1680 || (0x2000 <= u
        && u <= 0x200a) || u == 0x2028 || u == 0x2029 || u == 0x202f || u == 0x205f || u == 0x3000
}

/// The words of `s`: its maximal runs of characters that are not white
/// space, in order (what `str::split_whitespace` yields). Read from the
/// left: white space ends a word; any other character either extends the
/// word before it or starts a new one.
pub open spec fn words(s: Seq<char>) -> Seq<Seq<char>>
    decreases s.len(),
{
    if s.len() == 0 {
        Seq::empty()
    } else {
        let init = s.drop_last();
        let c = s.last();
        let w = words(init);
        if is_space(c) {
            w
        } else if init.len() > 0 && !is_space(init.last()) {
            w.update(w.len() - 1, w.last().push(c))
        } else {
            w.push(seq![c])
        }
    }
}

/// A word of non-space characters after a space in `a` adds one word to
/// the words of `a`.
pub proof fn lemma_words_after_space(a: Seq<char>, w: Seq<char>)
    requires
        w.len() > 0,
        forall|i: int| 0 <= i < w.len() ==> !is_space(#[trigger] w[i]),
    ensures
        words(a + seq![' '] + w) == words(a).push(w),
    decreases w.len(),
{
    let sp = a + seq![' '];
    assert(sp.drop_last() =~= a);
    assert(is_space(' '));
    let c = w.last();
    let w0 = w.drop_last();
    assert((sp + w).drop_last() =~= sp + w0);
    assert((sp + w).last() == c);
    assert(!is_space(c));
    assert(sp.last() == ' ');
    assert(words(sp) == words(a));
    assert(w0.push(c) =~= w);
    if w0.len() == 0 {
        assert(sp + w0 =~= sp);
        assert(w =~= seq![c]);
        assert(words(sp + w) == words(sp).push(seq![c]));
    } else {
        assert forall|i: int| 0 <= i < w0.len() implies !is_space(#[trigger] w0[i]) by {
            assert(w0[i] == w[i]);
        }
        lemma_words_after_space(a, w0);
        assert((sp + w0).last() == w0.last());
        assert(w0.last() == w[w0.len() - 1]);
        assert(!is_space(w0.last()));
        let ws = words(sp + w0);
        assert(ws == words(a).push(w0));
        assert(words(sp + w) == ws.update(ws.len() - 1, ws.last().push(c)));
        assert(ws.update(ws.len() - 1, ws.last().push(c)) =~= words(a).push(w));
    }
}

/// A non-empty text without white space is one word.
pub proof fn lemma_single_word(w: Seq<char>)
    requires
        w.len() > 0,
        forall|i: int| 0 <= i < w.len() ==> !is_space(#[trigger] w[i]),
    ensures
        words(w) == seq![w],
    decreases w.len(),
{
    let c = w.last();
    let w0 = w.drop_last();
    assert(!is_space(w[w.len() - 1]));
    if w0.len() == 0 {
        assert(words(w0) =~= Seq::<Seq<char>>::empty());
        assert(w =~= seq![c]);
    } else {
        assert forall|i: int| 0 <= i < w0.len() implies !is_space(#[trigger] w0[i]) by {
            assert(w0[i] == w[i]);
        }
        lemma_single_word(w0);
        assert(!is_space(w0[w0.len() - 1]));
        assert(w0.push(c) =~= w);
        assert(seq![w0].update(0, w0.push(c)) =~= seq![w]);
    }
}

/// The views of a sequence of strings.
pub open spec fn views(v: Seq<String>) -> Seq<Seq<char>> {
    v.map_values(|x: String| x@)
}

/// The words of `s`, as `str::split_whitespace` yields them.
pub fn split_whitespace(s: &str) -> (res: Vec<String>)
    ensures
        views(res@) == words(s@),
{
    let n = s.unicode_len();
    let mut done: Vec<String> = Vec::new();
    let mut cur = String::new();
    let mut in_word = false;
    let mut i: usize = 0;
    while i < n
        invariant
            n == s@.len(),
            i <= n,
            in_word <==> (i > 0 && !is_space(s@[i - 1])),
            in_word ==> views(done@).push(cur@) == words(s@.subrange(0, i as int)),
            !in_word ==> views(done@) == words(s@.subrange(0, i as int)),
            !in_word ==> cur@.len() == 0,
        decreases n - i,
    {
        let c = s.get_char(i);
        let ghost pre = s@.subrange(0, i as int);
        let ghost next = s@.subrange(0, i + 1);
        assert(next.drop_last() =~= pre);
        assert(next.last() == c);
        assert(i > 0 ==> pre.last() == s@[i - 1]);
        let ghost dv = views(done@);
        let ghost oc = cur@;
        if is_space_char(c) {
            if in_word {
                done.push(cur);
                cur = String::new();
                assert(views(done@) =~= dv.push(oc));
            }
            in_word = false;
        } else {
            push_char(&mut cur, c);
            if in_word {
                assert(words(pre).update(words(pre).len() - 1, words(pre).last().push(c))
                    =~= dv.push(cur@));
            } else {
                assert(cur@ =~= seq![c]);
            }
            in_word = true;
        }
        i = i + 1;
    }
    let ghost dv = views(done@);
    let ghost oc = cur@;
    if in_word {
        done.push(cur);
        assert(views(done@) =~= dv.push(oc));
    }
    assert(s@.subrange(0, n as int) =~= s@);
    done
}

/// `p` is a prefix of `s`.
pub open spec fn has_prefix(s: Seq<char>, p: Seq<char>) -> bool {
    p.len() <= s.len() && s.subrange(0, p.len() as int) == p
}

/// Whether `s` starts with `prefix` (`str::starts_with`).
pub fn starts_with(s: &str, prefix: &str) -> (res: bool)
    ensures
        res == has_prefix(s@, prefix@),
{
    let n = s.unicode_len();
    let m = prefix.unicode_len();
    if m > n {
        return false;
    }
    let mut k: usize = 0;
    while k < m
        invariant
            n == s@.len(),
            m == prefix@.len(),
            m <= n,
            k <= m,
            forall|j: int| 0 <= j < k ==> s@[j] == prefix@[j],
        decreases m - k,
    {
        if s.get_char(k) != prefix.get_char(k) {
            assert(s@.subrange(0, m as int)[k as int] != prefix@[k as int]);
            return false;
        }
        k = k + 1;
    }
    assert(s@.subrange(0, m as int) =~= prefix@);
    true
}

/// Whether `a` and `b` hold the same characters.
pub fn str_equal(a: &str, b: &str) -> (res: bool)
    ensures
        res == (a@ == b@),
{
    if a.unicode_len() != b.unicode_len() {
        return false;
    }
    let r = starts_with(a, b);
    assert(a@.len() == b@.len());
    assert(a@.subrange(0, b@.len() as int) =~= a@);
    r
}

/// The characters of `s` after its first `k`.
pub fn skip_chars(s: &str, k: usize) -> (res: String)
    requires
        k <= s@.len(),
    ensures
        res@ == s@.skip(k as int),
{
    let n = s.unicode_len();
    let t = s.substring_char(k, n);
    assert(s@.subrange(k as int, n as int) =~= s@.skip(k as int));
    t.to_owned()
}

/// `s` without its leading white space (`str::trim_start`).
pub open spec fn trim_start(s: Seq<char>) -> Seq<char>
    decreases s.len(),
{
    if s.len() > 0 && is_space(s[0]) {
        trim_start(s.drop_first())
    } else {
        s
    }
}

/// `s` without its trailing white space (`str::trim_end`).
pub open spec fn trim_end(s: Seq<char>) -> Seq<char>
    decreases s.len(),
{
    if s.len() > 0 && is_space(s.last()) {
        trim_end(s.drop_last())
    } else {
        s
    }
}

/// `s` without leading and trailing white space (`str::trim`).
pub open spec fn trim(s: Seq<char>) -> Seq<char> {
    trim_end(trim_start(s))
}

proof fn lemma_trim_start(s: Seq<char>, a: int)
    requires
        0 <= a <= s.len(),
        forall|j: int| 0 <= j < a ==> is_space(#[trigger] s[j]),
        a < s.len() ==> !is_space(s[a]),
    ensures
        trim_start(s) == s.subrange(a, s.len() as int),
    decreases a,
{
    if a > 0 {
        assert forall|j: int| 0 <= j < a - 1 implies is_space(#[trigger] s.drop_first()[j]) by {
            assert(s.drop_first()[j] == s[j + 1]);
        }
        lemma_trim_start(s.drop_first(), a - 1);
        assert(s.drop_first().subrange(a - 1, s.len() - 1) =~= s.subrange(a, s.len() as int));
    } else {
        assert(s.subrange(0, s.len() as int) =~= s);
    }
}

proof fn lemma_trim_end(s: Seq<char>, b: int)
    requires
        0 <= b <= s.len(),
        forall|j: int| b <= j < s.len() ==> is_space(#[trigger] s[j]),
        b > 0 ==> !is_space(s[b - 1]),
    ensures
        trim_end(s) == s.subrange(0, b),
    decreases s.len() - b,
{
    if b < s.len() {
        assert forall|j: int| b <= j < s.len() - 1 implies is_space(#[trigger] s.drop_last()[j]) by {
            assert(s.drop_last()[j] == s[j]);
        }
        lemma_trim_end(s.drop_last(), b);
        assert(s.drop_last().subrange(0, b) =~= s.subrange(0, b));
    } else {
        assert(s.subrange(0, s.len() as int) =~= s);
    }
}

/// `s` without leading and trailing white space (`str::trim`).
pub fn trim_str(s: &str) -> (res: String)
    ensures
        res@ == trim(s@),
{
    let n = s.unicode_len();
    let mut a: usize = 0;
    while a < n && is_space_char(s.get_char(a))
        invariant
            n == s@.len(),
            a <= n,
            forall|j: int| 0 <= j < a ==> is_space(#[trigger] s@[j]),
        decreases n - a,
    {
        a = a + 1;
    }
    let mut b: usize = n;
    while b > a && is_space_char(s.get_char(b - 1))
        invariant
            n == s@.len(),
            a <= b <= n,
            forall|j: int| b <= j < n ==> is_space(#[trigger] s@[j]),
        decreases b,
    {
        b = b - 1;
    }
    proof {
        lemma_trim_start(s@, a as int);
        let t = s@.subrange(a as int, n as int);
        assert forall|j: int| (b - a) <= j < t.len() implies is_space(#[trigger] t[j]) by {
            assert(t[j] == s@[a + j]);
        }
        if b > a {
            assert(t[b - a - 1] == s@[b - 1]);
        }
        lemma_trim_end(t, (b - a) as int);
        assert(t.subrange(0, (b - a) as int) =~= s@.subrange(a as int, b as int));
    }
    s.substring_char(a, b).to_owned()
}

} // verus!
