//! Text primitives: the few operations on character sequences that request
//! parsing, route matching and response rendering are built from.
//!
//! Every operation has a mathematical model over `Seq<char>` and an executable
//! counterpart over `&str` that is proved against it.

use vstd::prelude::*;

verus! {

/// The text that `str::to_lowercase` returns for `s`.
///
/// Case folding follows the Unicode tables of the standard library, so it is
/// named rather than written out.
pub uninterp spec fn lowercase(s: Seq<char>) -> Seq<char>;

/// Whether `char::is_whitespace` holds of `c` (the Unicode `White_Space`
/// property).
pub uninterp spec fn is_whitespace(c: char) -> bool;

/// Two keys are the same key when they agree after case folding.
pub open spec fn same_key(a: Seq<char>, b: Seq<char>) -> bool {
    lowercase(a) == lowercase(b)
}

/// Calls `str::to_lowercase`. Trusted: the result is the lowercase form of
/// `s` as the standard library computes it, which `lowercase` names.
#[verifier::external_body]
pub(crate) fn to_lowercase(s: &str) -> (r: String)
    ensures
        r@ == lowercase(s@),
{
    s.to_lowercase()
}

/// Calls `char::is_whitespace`. Trusted: the result is the standard
/// library's answer for `c`, which `is_whitespace` names.
#[verifier::external_body]
fn char_is_whitespace(c: char) -> (r: bool)
    ensures
        r == is_whitespace(c),
{
    c.is_whitespace()
}

/// Calls `String::push`. Trusted: the string afterwards is the string before
/// with `c` appended.
#[verifier::external_body]
pub(crate) fn push_char(s: &mut String, c: char)
    ensures
        final(s)@ == old(s)@.push(c),
{
    s.push(c)
}

/// Whether `a` and `b` hold the same characters.
pub fn text_eq(a: &str, b: &str) -> (r: bool)
    ensures
        r == (a@ == b@),
{
    let x = a.to_owned();
    let y = b.to_owned();
    x == y
}

/// Whether `s` begins with `c`.
pub fn starts_with(s: &str, c: char) -> (r: bool)
    ensures
        r == (s@.len() > 0 && s@[0] == c),
{
    s.unicode_len() > 0 && s.get_char(0) == c
}

/// The characters of `s`, in order.
pub fn chars_of(s: &str) -> (v: Vec<char>)
    ensures
        v@ == s@,
{
    let mut v: Vec<char> = Vec::new();
    for c in it: s.chars()
        invariant
            v@ == s@.take(it.index() as int),
            it.seq() == s@,
    {
        v.push(c);
    }
    v
}

/// The text made of the characters `v[from..to]`.
pub fn text_of(v: &Vec<char>, from: usize, to: usize) -> (r: String)
    requires
        from <= to <= v@.len(),
    ensures
        r@ == v@.subrange(from as int, to as int),
{
    let mut r = String::new();
    let mut i: usize = from;
    while i < to
        invariant
            from <= i <= to <= v@.len(),
            r@ == v@.subrange(from as int, i as int),
        decreases to - i,
    {
        push_char(&mut r, v[i]);
        assert(v@.subrange(from as int, i as int).push(v@[i as int]) == v@.subrange(
            from as int,
            i + 1,
        ));
        i += 1;
    }
    r
}

/// What separates the fields of a text.
#[derive(Clone, Copy, Debug)]
pub enum Delimiter {
    /// One given character.
    Char(char),
    /// Any whitespace character.
    Whitespace,
}

impl Delimiter {
    /// Whether `c` is a separator.
    pub open spec fn separates(self, c: char) -> bool {
        match self {
            Delimiter::Char(d) => c == d,
            Delimiter::Whitespace => is_whitespace(c),
        }
    }

    /// Whether `c` is a separator.
    pub fn test(&self, c: char) -> (r: bool)
        ensures
            r == self.separates(c),
    {
        match self {
            Delimiter::Char(d) => c == *d,
            Delimiter::Whitespace => char_is_whitespace(c),
        }
    }
}

/// Reads `s` from left to right and gives the fields that are complete,
/// followed by the field that is still open at the end of `s` (empty when
/// `s` is empty or ends with a separator).
pub open spec fn scan(s: Seq<char>, d: Delimiter) -> (Seq<Seq<char>>, Seq<char>)
    decreases s.len(),
{
    if s.len() == 0 {
        (Seq::empty(), Seq::empty())
    } else {
        let (done, open) = scan(s.drop_last(), d);
        if !d.separates(s.last()) {
            (done, open.push(s.last()))
        } else if open.len() > 0 {
            (done.push(open), Seq::empty())
        } else {
            (done, open)
        }
    }
}

/// The fields of `s`: its maximal runs of characters that are not
/// separators, in order. No field is empty.
pub open spec fn fields(s: Seq<char>, d: Delimiter) -> Seq<Seq<char>> {
    let (done, open) = scan(s, d);
    if open.len() > 0 {
        done.push(open)
    } else {
        done
    }
}

/// The number of characters of `s` that come before the first `c`; the
/// length of `s` when `c` does not occur.
pub open spec fn prefix_len(s: Seq<char>, c: char) -> nat
    decreases s.len(),
{
    if s.len() == 0 || s[0] == c {
        0
    } else {
        1 + prefix_len(s.drop_first(), c)
    }
}

/// The part of `s` before the first `c`; all of `s` when `c` does not occur.
pub open spec fn before(s: Seq<char>, c: char) -> Seq<char> {
    s.take(prefix_len(s, c) as int)
}

/// The part of `s` after the first `c`; empty when `c` does not occur.
pub open spec fn after(s: Seq<char>, c: char) -> Seq<char> {
    if prefix_len(s, c) < s.len() {
        s.skip(prefix_len(s, c) as int + 1)
    } else {
        Seq::empty()
    }
}

/// `parts` written one after the other with `sep` between neighbours.
pub open spec fn join(parts: Seq<Seq<char>>, sep: char) -> Seq<char>
    decreases parts.len(),
{
    if parts.len() == 0 {
        Seq::empty()
    } else if parts.len() == 1 {
        parts[0]
    } else {
        join(parts.drop_last(), sep).push(sep) + parts.last()
    }
}

/// `s` without one trailing `c`, if it ends with one.
pub open spec fn without_trailing(s: Seq<char>, c: char) -> Seq<char> {
    if s.len() > 0 && s.last() == c {
        s.drop_last()
    } else {
        s
    }
}

/// `s` without any occurrence of `c`.
pub open spec fn without(s: Seq<char>, c: char) -> Seq<char>
    decreases s.len(),
{
    if s.len() == 0 {
        s
    } else if s.last() == c {
        without(s.drop_last(), c)
    } else {
        without(s.drop_last(), c).push(s.last())
    }
}

/// The decimal digit for `d`, which is below ten.
pub open spec fn digit(d: nat) -> char {
    if d == 0 {
        '0'
    } else if d == 1 {
        '1'
    } else if d == 2 {
        '2'
    } else if d == 3 {
        '3'
    } else if d == 4 {
        '4'
    } else if d == 5 {
        '5'
    } else if d == 6 {
        '6'
    } else if d == 7 {
        '7'
    } else if d == 8 {
        '8'
    } else {
        '9'
    }
}

/// `n` in decimal, without sign or leading zeros.
pub open spec fn decimal(n: nat) -> Seq<char>
    decreases n,
{
    if n < 10 {
        seq![digit(n)]
    } else {
        decimal(n / 10).push(digit(n % 10))
    }
}

/// A number is written with at least one digit.
pub proof fn lemma_decimal_len(n: nat)
    ensures
        decimal(n).len() >= 1,
        n >= 10 ==> decimal(n).len() >= 2,
    decreases n,
{
    if n >= 10 {
        lemma_decimal_len(n / 10);
    }
}

/// Different numbers are written differently.
pub proof fn lemma_decimal_injective(a: nat, b: nat)
    requires
        decimal(a) == decimal(b),
    ensures
        a == b,
    decreases a,
{
    lemma_decimal_len(a);
    lemma_decimal_len(b);
    if a >= 10 && b >= 10 {
        let x = decimal(a / 10).push(digit(a % 10));
        let y = decimal(b / 10).push(digit(b % 10));
        assert(x.last() == y.last());
        assert(x.drop_last() == decimal(a / 10));
        assert(y.drop_last() == decimal(b / 10));
        lemma_decimal_injective(a / 10, b / 10);
        assert(digit(a % 10) == digit(b % 10));
        assert(a % 10 == b % 10);
        assert(a == 10 * (a / 10) + a % 10);
        assert(b == 10 * (b / 10) + b % 10);
    } else if a < 10 && b < 10 {
        assert(decimal(a) == seq![digit(a)]);
        assert(decimal(b) == seq![digit(b)]);
        assert(seq![digit(a)][0] == digit(a));
        assert(seq![digit(b)][0] == digit(b));
    } else if a < 10 {
        assert(decimal(a).len() == 1);
    } else {
        assert(decimal(b).len() == 1);
    }
}

/// Whether `t` holds no separator.
pub open spec fn unbroken(t: Seq<char>, d: Delimiter) -> bool {
    forall|j: int| 0 <= j < t.len() ==> !d.separates(#[trigger] t[j])
}

/// What `scan` gives holds no separator, and the fields that it gives as
/// complete are not empty.
pub proof fn lemma_scan(s: Seq<char>, d: Delimiter)
    ensures
        forall|i: int|
            0 <= i < scan(s, d).0.len() ==> (#[trigger] scan(s, d).0[i]).len() > 0 && unbroken(
                scan(s, d).0[i],
                d,
            ),
        unbroken(scan(s, d).1, d),
    decreases s.len(),
{
    if s.len() > 0 {
        lemma_scan(s.drop_last(), d);
        let (done, open) = scan(s.drop_last(), d);
        if !d.separates(s.last()) {
            let grown = open.push(s.last());
            assert forall|j: int| 0 <= j < grown.len() implies !d.separates(
                #[trigger] grown[j],
            ) by {
                if j < open.len() {
                    assert(grown[j] == open[j]);
                }
            }
        } else if open.len() > 0 {
            let more = done.push(open);
            assert forall|i: int| 0 <= i < more.len() implies (#[trigger] more[i]).len() > 0
                && unbroken(more[i], d) by {
                if i < done.len() {
                    assert(more[i] == done[i]);
                }
            }
        }
    }
}

/// No field is empty, and no field holds a separator.
pub proof fn lemma_fields(s: Seq<char>, d: Delimiter)
    ensures
        forall|i: int|
            0 <= i < fields(s, d).len() ==> (#[trigger] fields(s, d)[i]).len() > 0 && unbroken(
                fields(s, d)[i],
                d,
            ),
{
    lemma_scan(s, d);
    let (done, open) = scan(s, d);
    if open.len() > 0 {
        let all = done.push(open);
        assert forall|i: int| 0 <= i < all.len() implies (#[trigger] all[i]).len() > 0
            && unbroken(all[i], d) by {
            if i < done.len() {
                assert(all[i] == done[i]);
            }
        }
    }
}

/// `prefix_len(s, c)` is the one position `k` that has no `c` before it and
/// either ends `s` or holds `c`.
pub proof fn lemma_prefix_len(s: Seq<char>, c: char, k: int)
    requires
        0 <= k <= s.len(),
        forall|j: int| 0 <= j < k ==> s[j] != c,
        k == s.len() || s[k] == c,
    ensures
        prefix_len(s, c) == k,
    decreases k,
{
    if k > 0 {
        let t = s.drop_first();
        assert forall|j: int| 0 <= j < k - 1 implies t[j] != c by {
            assert(t[j] == s[j + 1]);
        }
        lemma_prefix_len(t, c, k - 1);
    }
}

/// The fields of `s`.
pub fn split_fields(s: &str, d: Delimiter) -> (r: Vec<String>)
    ensures
        r.deep_view() == fields(s@, d),
{
    let v = chars_of(s);
    let n: usize = v.len();
    let mut out: Vec<String> = Vec::new();
    let mut start: usize = 0;
    let mut i: usize = 0;
    while i < n
        invariant
            v@ == s@,
            n == v@.len(),
            start <= i <= n,
            scan(s@.take(i as int), d) == (out.deep_view(), s@.subrange(start as int, i as int)),
        decreases n - i,
    {
        let ghost done = out.deep_view();
        assert(s@.take(i + 1).drop_last() == s@.take(i as int));
        if d.test(v[i]) {
            if start < i {
                let field = text_of(&v, start, i);
                out.push(field);
                assert(out.deep_view() == done.push(s@.subrange(start as int, i as int)));
            }
            start = i + 1;
            assert(s@.subrange(start as int, i + 1) == Seq::<char>::empty());
        } else {
            assert(s@.subrange(start as int, i as int).push(s@[i as int]) == s@.subrange(
                start as int,
                i + 1,
            ));
        }
        i += 1;
    }
    assert(s@.take(n as int) == s@);
    if start < n {
        let ghost done = out.deep_view();
        let field = text_of(&v, start, n);
        out.push(field);
        assert(out.deep_view() == done.push(s@.subrange(start as int, n as int)));
    }
    out
}

/// The parts of `s` before and after the first `c`.
pub fn split_once(s: &str, c: char) -> (r: (String, String))
    ensures
        r.0@ == before(s@, c),
        r.1@ == after(s@, c),
{
    let v = chars_of(s);
    let n: usize = v.len();
    let mut k: usize = 0;
    while k < n && v[k] != c
        invariant
            n == v@.len(),
            k <= n,
            forall|j: int| 0 <= j < k ==> v@[j] != c,
        decreases n - k,
    {
        k += 1;
    }
    proof {
        lemma_prefix_len(s@, c, k as int);
    }
    let head = text_of(&v, 0, k);
    if k < n {
        let tail = text_of(&v, k + 1, n);
        (head, tail)
    } else {
        (head, String::new())
    }
}

/// The texts `parts[from..]` written one after the other with `sep` between
/// neighbours.
pub fn join_from(parts: &Vec<String>, from: usize, sep: char) -> (r: String)
    requires
        from <= parts@.len(),
    ensures
        r@ == join(parts.deep_view().skip(from as int), sep),
{
    let ghost all = parts.deep_view();
    let n: usize = parts.len();
    let mut r = String::new();
    let mut i: usize = from;
    while i < n
        invariant
            all == parts.deep_view(),
            n == parts@.len(),
            from <= i <= n,
            r@ == join(all.subrange(from as int, i as int), sep),
        decreases n - i,
    {
        assert(all.subrange(from as int, i + 1).drop_last() == all.subrange(
            from as int,
            i as int,
        ));
        assert(all.subrange(from as int, i + 1).last() == parts@[i as int]@);
        if i > from {
            push_char(&mut r, sep);
        }
        r.append(parts[i].as_str());
        i += 1;
    }
    assert(all.subrange(from as int, n as int) == all.skip(from as int));
    r
}

/// `s` without one trailing `c`, if it ends with one.
pub fn strip_trailing(s: &str, c: char) -> (r: String)
    ensures
        r@ == without_trailing(s@, c),
{
    let v = chars_of(s);
    let n: usize = v.len();
    if n > 0 && v[n - 1] == c {
        let r = text_of(&v, 0, n - 1);
        assert(s@.subrange(0, n - 1) == s@.drop_last());
        r
    } else {
        let r = text_of(&v, 0, n);
        assert(s@.subrange(0, n as int) == s@);
        r
    }
}

/// `s` without any occurrence of `c`.
pub fn remove_char(s: &str, c: char) -> (r: String)
    ensures
        r@ == without(s@, c),
{
    let v = chars_of(s);
    let n: usize = v.len();
    let mut r = String::new();
    let mut i: usize = 0;
    while i < n
        invariant
            v@ == s@,
            n == v@.len(),
            i <= n,
            r@ == without(s@.take(i as int), c),
        decreases n - i,
    {
        assert(s@.take(i + 1).drop_last() == s@.take(i as int));
        if v[i] != c {
            push_char(&mut r, v[i]);
        }
        i += 1;
    }
    assert(s@.take(n as int) == s@);
    r
}

/// The character for the digit `d`.
fn digit_char(d: usize) -> (r: char)
    requires
        d < 10,
    ensures
        r == digit(d as nat),
{
    if d == 0 {
        '0'
    } else if d == 1 {
        '1'
    } else if d == 2 {
        '2'
    } else if d == 3 {
        '3'
    } else if d == 4 {
        '4'
    } else if d == 5 {
        '5'
    } else if d == 6 {
        '6'
    } else if d == 7 {
        '7'
    } else if d == 8 {
        '8'
    } else {
        '9'
    }
}

/// Appends `n` in decimal to `out`.
fn push_decimal(out: &mut String, n: usize)
    ensures
        final(out)@ == old(out)@ + decimal(n as nat),
    decreases n,
{
    if n >= 10 {
        push_decimal(out, n / 10);
    }
    push_char(out, digit_char(n % 10));
}

/// `n` in decimal, without sign or leading zeros.
pub fn decimal_text(n: usize) -> (r: String)
    ensures
        r@ == decimal(n as nat),
{
    let mut r = String::new();
    push_decimal(&mut r, n);
    r
}

} // verus!
