//! Character-level helpers for assembly listings: whitespace tokenizing,
//! prefix tests, quote search, and decimal numbers in both directions.
use vstd::prelude::*;
use vstd::string::*;

verus! {

/// The characters that `char::is_whitespace` accepts (Unicode `White_Space`).
pub open spec fn is_ws(c: char) -> bool {
    let u = c as u32;
    (0x9 <= u && u <= 0xd) || u == 0x20 || u == 0x85 || u == 0xa0 || u == 0x1680 || (0x2000 <= u
        && u <= 0x200a) || u == 0x2028 || u == 0x2029 || u == 0x202f || u == 0x205f || u == 0x3000
}

/// Whether `s` begins with `p`.
pub open spec fn starts_with(s: Seq<char>, p: Seq<char>) -> bool {
    p.len() <= s.len() && s.subrange(0, p.len() as int) == p
}

/// Whether the last character of `s` is `c`.
pub open spec fn ends_with_char(s: Seq<char>, c: char) -> bool {
    s.len() > 0 && s.last() == c
}

/// The maximal runs of non-whitespace characters of `s`, in order.
pub open spec fn split_ws(s: Seq<char>) -> Seq<Seq<char>>
    decreases s.len(),
{
    if s.len() == 0 {
        seq![]
    } else {
        let t = split_ws(s.drop_last());
        let c = s.last();
        if is_ws(c) {
            t
        } else if s.len() >= 2 && !is_ws(s[s.len() - 2]) {
            t.drop_last().push(t.last().push(c))
        } else {
            t.push(seq![c])
        }
    }
}

/// The first position at or after `i` that holds `c`, or `s.len()` if none does.
pub open spec fn find_from(s: Seq<char>, c: char, i: int) -> int
    decreases s.len() - i,
{
    if i < 0 || i >= s.len() {
        s.len() as int
    } else if s[i] == c {
        i
    } else {
        find_from(s, c, i + 1)
    }
}

pub open spec fn is_digit(c: char) -> bool {
    '0' <= c && c <= '9'
}

pub open spec fn digit_value(c: char) -> nat {
    (c as u32 - '0' as u32) as nat
}

/// The number written by the decimal digits `d`.
pub open spec fn digits_value(d: Seq<char>) -> nat
    decreases d.len(),
{
    if d.len() == 0 {
        0
    } else {
        digits_value(d.drop_last()) * 10 + digit_value(d.last())
    }
}

pub open spec fn all_digits(d: Seq<char>) -> bool {
    forall|i: int| 0 <= i < d.len() ==> is_digit(#[trigger] d[i])
}

/// The digits of a token read as an unsigned number: an optional `+`, then at
/// least one decimal digit, and nothing else.
pub open spec fn unsigned_digits(t: Seq<char>) -> Option<Seq<char>> {
    let d = if t.len() > 0 && t[0] == '+' {
        t.subrange(1, t.len() as int)
    } else {
        t
    };
    if d.len() > 0 && all_digits(d) {
        Some(d)
    } else {
        None
    }
}

/// The value of a token read as a `usize`; `None` when it is not an unsigned
/// decimal number or does not fit.
pub open spec fn parse_usize(t: Seq<char>) -> Option<usize> {
    match unsigned_digits(t) {
        Some(d) => if digits_value(d) <= usize::MAX {
            Some(digits_value(d) as usize)
        } else {
            None
        },
        None => None,
    }
}

pub open spec fn digit_char(d: nat) -> char {
    ((d + '0' as u32) as u32) as char
}

/// The decimal rendering of `n`, without leading zeros.
pub open spec fn dec(n: nat) -> Seq<char>
    decreases n,
{
    if n < 10 {
        seq![digit_char(n)]
    } else {
        dec(n / 10).push(digit_char(n % 10))
    }
}

/// `t[0] t[1] ...` separated by single spaces.
pub open spec fn join_space(t: Seq<Seq<char>>) -> Seq<char>
    decreases t.len(),
{
    if t.len() == 0 {
        seq![]
    } else if t.len() == 1 {
        t[0]
    } else {
        join_space(t.drop_last()) + seq![' '] + t.last()
    }
}

pub fn is_ws_char(c: char) -> (r: bool)
    ensures
        r == is_ws(c),
{
    let u = c as u32;
    (0x9 <= u && u <= 0xd) || u == 0x20 || u == 0x85 || u == 0xa0 || u == 0x1680 || (0x2000 <= u
        && u <= 0x200a) || u == 0x2028 || u == 0x2029 || u == 0x202f || u == 0x205f || u == 0x3000
}

pub fn has_prefix(s: &str, p: &str) -> (r: bool)
    ensures
        r == starts_with(s@, p@),
{
    let n = s.unicode_len();
    let m = p.unicode_len();
    if m > n {
        return false;
    }
    let mut i: usize = 0;
    while i < m
        invariant
            m == p@.len(),
            n == s@.len(),
            m <= n,
            i <= m,
            forall|j: int| 0 <= j < i ==> s@[j] == p@[j],
        decreases m - i,
    {
        if s.get_char(i) != p.get_char(i) {
            assert(s@.subrange(0, m as int)[i as int] != p@[i as int]);
            return false;
        }
        i = i + 1;
    }
    assert(s@.subrange(0, m as int) =~= p@);
    true
}

pub fn last_is(s: &str, c: char) -> (r: bool)
    ensures
        r == ends_with_char(s@, c),
{
    let n = s.unicode_len();
    n > 0 && s.get_char(n - 1) == c
}

pub fn find_char(s: &str, c: char, from: usize) -> (r: usize)
    requires
        from <= s@.len(),
    ensures
        r as int == find_from(s@, c, from as int),
        from <= r <= s@.len(),
{
    let n = s.unicode_len();
    let mut k = from;
    while k < n
        invariant
            n == s@.len(),
            from <= k <= n,
            find_from(s@, c, from as int) == find_from(s@, c, k as int),
        decreases n - k,
    {
        if s.get_char(k) == c {
            return k;
        }
        k = k + 1;
    }
    k
}

/// Splits `s` at whitespace, as `str::split_whitespace` does.
pub fn split_whitespace(s: &str) -> (r: Vec<String>)
    ensures
        r@.map_values(|x: String| x@) == split_ws(s@),
{
    let n = s.unicode_len();
    let mut toks: Vec<String> = Vec::new();
    let mut start: usize = 0;
    let mut i: usize = 0;
    while i < n
        invariant
            n == s@.len(),
            i <= n,
            start <= i,
            toks@.map_values(|x: String| x@) == split_ws(s@.subrange(0, i as int)),
            i > 0 && !is_ws(s@[i - 1]) ==> toks@.len() > 0 && toks@.last()@ == s@.subrange(
                start as int,
                i as int,
            ),
        decreases n - i,
    {
        let ghost prev = s@.subrange(0, i as int);
        let ghost cur = s@.subrange(0, i + 1);
        assert(cur.drop_last() =~= prev);
        let c = s.get_char(i);
        if is_ws_char(c) {
            i = i + 1;
        } else if i > 0 && !is_ws_char(s.get_char(i - 1)) {
            let ghost before = toks@;
            toks.pop();
            toks.push(String::from_str(s.substring_char(start, i + 1)));
            assert(s@.subrange(start as int, i + 1) =~= s@.subrange(start as int, i as int).push(
                c,
            ));
            assert(toks@.map_values(|x: String| x@) =~= split_ws(cur));
            i = i + 1;
        } else {
            start = i;
            toks.push(String::from_str(s.substring_char(i, i + 1)));
            assert(s@.subrange(i as int, i + 1) =~= seq![c]);
            assert(toks@.map_values(|x: String| x@) =~= split_ws(cur));
            i = i + 1;
        }
    }
    assert(s@.subrange(0, n as int) =~= s@);
    toks
}

proof fn lemma_digits_value_mono(d: Seq<char>, k: int, m: int)
    requires
        0 <= k <= m <= d.len(),
    ensures
        digits_value(d.subrange(0, k)) <= digits_value(d.subrange(0, m)),
    decreases m - k,
{
    if k < m {
        lemma_digits_value_mono(d, k, m - 1);
        assert(d.subrange(0, m).drop_last() =~= d.subrange(0, m - 1));
    }
}

/// Reads a token as a `usize`, as `str::parse::<usize>` does.
pub fn parse_unsigned(t: &str) -> (r: Option<usize>)
    ensures
        r == parse_usize(t@),
{
    let n = t.unicode_len();
    let mut i: usize = 0;
    if n > 0 && t.get_char(0) == '+' {
        i = 1;
    }
    let ghost start = i as int;
    let ghost d = t@.subrange(start, n as int);
    assert(t@.subrange(0, n as int) =~= t@);
    assert(unsigned_digits(t@) == if d.len() > 0 && all_digits(d) {
        Some(d)
    } else {
        None::<Seq<char>>
    });
    if i == n {
        return None;
    }
    let mut v: usize = 0;
    while i < n
        invariant
            n == t@.len(),
            0 <= start <= i <= n,
            d == t@.subrange(start, n as int),
            d.len() == n - start,
            unsigned_digits(t@) == if d.len() > 0 && all_digits(d) {
                Some(d)
            } else {
                None::<Seq<char>>
            },
            all_digits(t@.subrange(start, i as int)),
            v as nat == digits_value(d.subrange(0, i - start)),
        decreases n - i,
    {
        let c = t.get_char(i);
        if !('0' <= c && c <= '9') {
            assert(d[i - start] == c);
            return None;
        }
        let dv = (c as u32 - '0' as u32) as usize;
        assert(d.subrange(0, i + 1 - start).drop_last() =~= d.subrange(0, i - start));
        assert(d.subrange(0, i + 1 - start).last() == c);
        if v > (usize::MAX - dv) / 10 {
            assert(v * 10 + dv > usize::MAX) by (nonlinear_arith)
                requires
                    v > (usize::MAX - dv) / 10,
                    dv <= 9,
            ;
            proof {
                lemma_digits_value_mono(d, i + 1 - start, d.len() as int);
                assert(d.subrange(0, d.len() as int) =~= d);
            }
            return None;
        }
        assert(v * 10 + dv <= usize::MAX) by (nonlinear_arith)
            requires
                v <= (usize::MAX - dv) / 10,
                dv <= 9,
        ;
        v = v * 10 + dv;
        i = i + 1;
        assert(t@.subrange(start, i as int) =~= t@.subrange(start, i - 1).push(c));
    }
    assert(d.subrange(0, n - start) =~= d);
    Some(v)
}

/// The decimal rendering of `n`.
pub fn decimal(n: usize) -> (r: String)
    ensures
        r@ == dec(n as nat),
    decreases n,
{
    let digits = "0123456789";
    proof {
        reveal_strlit("0123456789");
    }
    let d = n % 10;
    let one = digits.substring_char(d, d + 1);
    assert(one@ =~= seq![digit_char(d as nat)]);
    if n < 10 {
        String::from_str(one)
    } else {
        let mut s = decimal(n / 10);
        s.append(one);
        s
    }
}

/// The strings of `t` joined by single spaces.
pub fn join_with_space(t: &Vec<String>) -> (r: String)
    ensures
        r@ == join_space(t@.map_values(|x: String| x@)),
{
    let ghost m = t@.map_values(|x: String| x@);
    let mut r = String::new();
    let mut i: usize = 0;
    while i < t.len()
        invariant
            m == t@.map_values(|x: String| x@),
            i <= t@.len(),
            r@ == join_space(m.subrange(0, i as int)),
        decreases t@.len() - i,
    {
        let ghost sub = m.subrange(0, i + 1);
        assert(sub.drop_last() =~= m.subrange(0, i as int));
        if i > 0 {
            r.append(" ");
            proof {
                reveal_strlit(" ");
            }
        }
        r.append(t[i].as_str());
        proof {
            if i == 0 {
                assert(r@ =~= sub[0]);
            } else {
                assert(r@ =~= join_space(sub));
            }
        }
        i = i + 1;
    }
    assert(m.subrange(0, t@.len() as int) =~= m);
    r
}

pub fn same_text(a: &str, b: &str) -> (r: bool)
    ensures
        r == (a@ == b@),
{
    let r = a.unicode_len() == b.unicode_len() && has_prefix(a, b);
    proof {
        if a@.len() == b@.len() {
            assert(a@.subrange(0, b@.len() as int) =~= a@);
        }
    }
    r
}

/// A line whose last character is not whitespace has at least one token.
pub proof fn lemma_split_ws_nonempty(s: Seq<char>)
    requires
        s.len() > 0,
        !is_ws(s.last()),
    ensures
        split_ws(s).len() > 0,
    decreases s.len(),
{
    if s.len() >= 2 && !is_ws(s[s.len() - 2]) {
        lemma_split_ws_nonempty(s.drop_last());
    }
}

/// A single space separates tokens: the tokens of `x y` are those of `x`, then those of `y`.
pub proof fn lemma_split_ws_space(x: Seq<char>, y: Seq<char>)
    ensures
        split_ws(x + seq![' '] + y) == split_ws(x) + split_ws(y),
    decreases y.len(),
{
    let xs = x + seq![' '];
    if y.len() == 0 {
        assert(xs + y =~= xs);
        assert(xs.drop_last() =~= x);
        assert(split_ws(y) =~= seq![]);
        assert(split_ws(x) + split_ws(y) =~= split_ws(x));
    } else {
        let yp = y.drop_last();
        let c = y.last();
        let whole = xs + y;
        assert(whole.drop_last() =~= xs + yp);
        lemma_split_ws_space(x, yp);
        if is_ws(c) {
        } else if yp.len() > 0 && !is_ws(yp.last()) {
            assert(whole[whole.len() - 2] == yp.last());
            assert(y[y.len() - 2] == yp.last());
            lemma_split_ws_nonempty(yp);
            assert(split_ws(whole) =~= split_ws(x) + split_ws(y));
        } else {
            if yp.len() > 0 {
                assert(whole[whole.len() - 2] == yp.last());
                assert(y[y.len() - 2] == yp.last());
            } else {
                assert(whole[whole.len() - 2] == ' ');
                assert(yp =~= seq![]);
            }
            assert(split_ws(whole) =~= split_ws(x) + split_ws(y));
        }
    }
}

/// A non-empty word without whitespace is one token.
pub proof fn lemma_split_ws_word(w: Seq<char>)
    requires
        w.len() > 0,
        forall|i: int| 0 <= i < w.len() ==> !is_ws(#[trigger] w[i]),
    ensures
        split_ws(w) == seq![w],
    decreases w.len(),
{
    assert(!is_ws(w[w.len() - 1]));
    if w.len() == 1 {
        assert(w.drop_last() =~= seq![]);
        assert(split_ws(w.drop_last()) =~= seq![]);
        assert(seq![w[0]] =~= w);
        assert(split_ws(w) =~= seq![seq![w[0]]]);
    } else {
        assert(!is_ws(w[w.len() - 2]));
        lemma_split_ws_word(w.drop_last());
        assert(w.drop_last().push(w.last()) =~= w);
        let t = split_ws(w.drop_last());
        assert(t.drop_last().push(t.last().push(w.last())) =~= seq![w]);
    }
}

/// The first `c` at or after `from` is at `k` when `k` holds one and nothing between does.
pub proof fn lemma_find_from(s: Seq<char>, c: char, from: int, k: int)
    requires
        0 <= from <= k <= s.len(),
        k < s.len() ==> s[k] == c,
        forall|j: int| from <= j < k ==> s[j] != c,
    ensures
        find_from(s, c, from) == k,
    decreases k - from,
{
    if from < k {
        lemma_find_from(s, c, from + 1, k);
    }
}

/// Decimal renderings are made of digits, have no sign, and read back as the number.
pub proof fn lemma_dec(n: nat)
    ensures
        dec(n).len() > 0,
        all_digits(dec(n)),
        digits_value(dec(n)) == n,
        n <= usize::MAX ==> parse_usize(dec(n)) == Some(n as usize),
    decreases n,
{
    let r = n % 10;
    assert(r < 10);
    assert(digit_char(r) as u32 == r + 48);
    assert(digit_value(digit_char(r)) == r);
    if n >= 10 {
        lemma_dec(n / 10);
        let d = dec(n);
        assert(d.drop_last() =~= dec(n / 10));
        assert(n == (n / 10) * 10 + r) by (nonlinear_arith)
            requires
                r == n % 10,
        ;
        assert(all_digits(d)) by {
            assert forall|i: int| 0 <= i < d.len() implies is_digit(#[trigger] d[i]) by {
                if i < d.len() - 1 {
                    assert(d[i] == dec(n / 10)[i]);
                }
            }
        }
    } else {
        assert(dec(n).drop_last() =~= seq![]);
        assert(digits_value(dec(n).drop_last()) == 0);
    }
    let d = dec(n);
    assert(is_digit(d[0]));
    assert(unsigned_digits(d) == Some(d));
}

} // verus!
