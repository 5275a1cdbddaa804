//! Text as sequences of characters: blankness, decimal numerals and the order of strings.

use vstd::prelude::*;
use vstd::string::*;

verus! {

/// The characters that Unicode gives the `White_Space` property.
pub open spec fn is_white(c: char) -> bool {
    let u = c as u32;
    ||| 0x09 <= u <= 0x0d
    ||| u == 0x20
    ||| u == 0x85
    ||| u == 0xa0
    ||| u == 0x1680
    ||| 0x2000 <= u <= 0x200a
    ||| 0x2028 <= u <= 0x2029
    ||| u == 0x202f
    ||| u == 0x205f
    ||| u == 0x3000
}

/// A text of white space alone, the empty text among them.
pub open spec fn is_blank(s: Seq<char>) -> bool {
    forall|i: int| 0 <= i < s.len() ==> is_white(#[trigger] s[i])
}

/// The decimal digit `d` as a character.
pub open spec fn digit_char(d: nat) -> char
    recommends
        d < 10,
{
    (48 + d) as char
}

/// The last `width` decimal digits of `v`, with leading zeros.
pub open spec fn digits(v: nat, width: nat) -> Seq<char>
    decreases width,
{
    if width == 0 {
        Seq::empty()
    } else {
        digits(v / 10, (width - 1) as nat).push(digit_char(v % 10))
    }
}

/// The decimal numeral of `v`, without leading zeros.
pub open spec fn decimal(v: nat) -> Seq<char>
    decreases v,
{
    if v < 10 {
        seq![digit_char(v)]
    } else {
        decimal(v / 10).push(digit_char(v % 10))
    }
}

/// At `i`, `a` and `b` part for the first time, and `a` comes first.
pub open spec fn parts_below(a: Seq<char>, b: Seq<char>, i: int) -> bool {
    &&& 0 <= i <= a.len()
    &&& i < b.len()
    &&& forall|j: int| 0 <= j < i ==> a[j] == b[j]
    &&& i < a.len() ==> (a[i] as int) < (b[i] as int)
}

/// `a` comes before `b` in the order of strings: by code points, the shorter first.
pub open spec fn text_lt(a: Seq<char>, b: Seq<char>) -> bool {
    exists|i: int| parts_below(a, b, i)
}

/// `a` comes before `b` or equals it.
pub open spec fn text_le(a: Seq<char>, b: Seq<char>) -> bool {
    a == b || text_lt(a, b)
}

/// `s` starts with `p`.
pub open spec fn starts_with(s: Seq<char>, p: Seq<char>) -> bool {
    p.len() <= s.len() && s.take(p.len() as int) == p
}

/// The characters of `s`.
pub fn chars_of(s: &str) -> (out: Vec<char>)
    ensures
        out@ == s@,
{
    let mut out: Vec<char> = Vec::new();
    for c in it: s.chars()
        invariant
            out@ == it.seq().take(it.index()),
            it.seq() == s@,
    {
        out.push(c);
    }
    out
}

/// The number of a character.
fn code_point(c: char) -> (res: u32)
    ensures
        res as int == c as int,
{
    c as u32
}

/// Whether `c` is white space.
pub fn is_white_char(c: char) -> (res: bool)
    ensures
        res == is_white(c),
{
    let u: u32 = c as u32;
    (0x09 <= u && u <= 0x0d) || u == 0x20 || u == 0x85 || u == 0xa0 || u == 0x1680 || (0x2000 <= u
        && u <= 0x200a) || u == 0x2028 || u == 0x2029 || u == 0x202f || u == 0x205f || u == 0x3000
}

/// Whether nothing of `s` is left once white space is taken away.
pub fn blank(s: &str) -> (res: bool)
    ensures
        res == is_blank(s@),
{
    let chars = chars_of(s);
    for i in 0..chars.len()
        invariant
            chars@ == s@,
            forall|j: int| 0 <= j < i ==> is_white(#[trigger] s@[j]),
    {
        if !is_white_char(chars[i]) {
            assert(!is_white(s@[i as int]));
            return false;
        }
    }
    true
}

fn digit_text(d: u8) -> (res: &'static str)
    requires
        d < 10,
    ensures
        res@ == seq![digit_char(d as nat)],
{
    proof {
        reveal_strlit("0");
        reveal_strlit("1");
        reveal_strlit("2");
        reveal_strlit("3");
        reveal_strlit("4");
        reveal_strlit("5");
        reveal_strlit("6");
        reveal_strlit("7");
        reveal_strlit("8");
        reveal_strlit("9");
    }
    match d {
        0 => "0",
        1 => "1",
        2 => "2",
        3 => "3",
        4 => "4",
        5 => "5",
        6 => "6",
        7 => "7",
        8 => "8",
        _ => "9",
    }
}

/// Writes `v` behind `out` with `width` digits.
pub fn push_digits(out: &mut String, v: u64, width: u32)
    ensures
        final(out)@ == old(out)@ + digits(v as nat, width as nat),
    decreases width,
{
    if width > 0 {
        push_digits(out, v / 10, width - 1);
        out.append(digit_text((v % 10) as u8));
    }
}

/// Writes `v` behind `out` without leading zeros.
pub fn push_decimal(out: &mut String, v: u64)
    ensures
        final(out)@ == old(out)@ + decimal(v as nat),
    decreases v,
{
    if v >= 10 {
        push_decimal(out, v / 10);
    }
    out.append(digit_text((v % 10) as u8));
}

/// Whether `a` comes before `b`.
pub fn text_before(a: &str, b: &str) -> (res: bool)
    ensures
        res == text_lt(a@, b@),
{
    let x = chars_of(a);
    let y = chars_of(b);
    let mut i: usize = 0;
    while i < x.len() && i < y.len() && x[i] == y[i]
        invariant
            x@ == a@,
            y@ == b@,
            i <= x.len(),
            i <= y.len(),
            forall|j: int| 0 <= j < i ==> x@[j] == y@[j],
        decreases x.len() - i,
    {
        i = i + 1;
    }
    let res = i < y.len() && (i == x.len() || code_point(x[i]) < code_point(y[i]));
    proof {
        if res {
            assert(parts_below(a@, b@, i as int));
        } else {
            assert forall|k: int| !parts_below(a@, b@, k) by {
                if parts_below(a@, b@, k) {
                    if k < i {
                        assert(a@[k] == b@[k]);
                    } else if i < k {
                        assert(a@[i as int] == b@[i as int]);
                    }
                }
            }
        }
    }
    res
}

/// Whether `s` starts with `p`.
pub fn has_prefix(s: &str, p: &str) -> (res: bool)
    ensures
        res == starts_with(s@, p@),
{
    let x = chars_of(s);
    let y = chars_of(p);
    if y.len() > x.len() {
        return false;
    }
    let mut i: usize = 0;
    while i < y.len()
        invariant
            x@ == s@,
            y@ == p@,
            i <= y.len(),
            y.len() <= x.len(),
            forall|j: int| 0 <= j < i ==> x@[j] == y@[j],
        decreases y.len() - i,
    {
        if x[i] != y[i] {
            assert(s@.take(p@.len() as int)[i as int] != p@[i as int]);
            return false;
        }
        i = i + 1;
    }
    assert(s@.take(p@.len() as int) =~= p@);
    true
}

/// Whether two texts are equal.
pub fn same_text(a: &str, b: &str) -> (res: bool)
    ensures
        res == (a@ == b@),
{
    let x = chars_of(a);
    let y = chars_of(b);
    if x.len() != y.len() {
        return false;
    }
    let mut i: usize = 0;
    while i < x.len()
        invariant
            x@ == a@,
            y@ == b@,
            i <= x.len(),
            y.len() == x.len(),
            forall|j: int| 0 <= j < i ==> x@[j] == y@[j],
        decreases x.len() - i,
    {
        if x[i] != y[i] {
            return false;
        }
        i = i + 1;
    }
    assert(a@ =~= b@);
    true
}

/// Whether the character `c` occurs in `s`.
pub fn has_char(s: &str, c: char) -> (res: bool)
    ensures
        res == s@.contains(c),
{
    let chars = chars_of(s);
    for i in 0..chars.len()
        invariant
            chars@ == s@,
            forall|j: int| 0 <= j < i ==> s@[j] != c,
    {
        if chars[i] == c {
            return true;
        }
    }
    false
}

/// No text comes before itself.
pub proof fn lemma_text_lt_irreflexive(a: Seq<char>)
    ensures
        !text_lt(a, a),
{
}

/// The order of strings is transitive.
pub proof fn lemma_text_lt_transitive(a: Seq<char>, b: Seq<char>, c: Seq<char>)
    requires
        text_lt(a, b),
        text_lt(b, c),
    ensures
        text_lt(a, c),
{
    let i = choose|i: int| parts_below(a, b, i);
    let k = choose|k: int| parts_below(b, c, k);
    let m = if i < k {
        i
    } else {
        k
    };
    assert forall|j: int| 0 <= j < m implies a[j] == c[j] by {
        assert(a[j] == b[j] && b[j] == c[j]);
    }
    if i < k {
        assert(b[i] == c[i]);
    }
    if k < i {
        assert(a[k] == b[k]);
    }
    assert(parts_below(a, c, m));
}

/// Of two different texts one comes before the other.
pub proof fn lemma_text_lt_total(a: Seq<char>, b: Seq<char>)
    ensures
        a == b || text_lt(a, b) || text_lt(b, a),
    decreases a.len(),
{
    if a.len() == 0 {
        if b.len() == 0 {
            assert(a =~= b);
        } else {
            assert(parts_below(a, b, 0));
        }
    } else if b.len() == 0 {
        assert(parts_below(b, a, 0));
    } else if a[0] != b[0] {
        if (a[0] as int) < (b[0] as int) {
            assert(parts_below(a, b, 0));
        } else {
            assert(parts_below(b, a, 0));
        }
    } else {
        let x = a.drop_first();
        let y = b.drop_first();
        lemma_text_lt_total(x, y);
        assert(a =~= seq![a[0]] + x);
        assert(b =~= seq![a[0]] + y);
        if text_lt(x, y) {
            lemma_text_lt_behind_prefix(seq![a[0]], x, y);
        } else if text_lt(y, x) {
            lemma_text_lt_behind_prefix(seq![a[0]], y, x);
        }
    }
}

/// What stands behind a shared prefix decides the order.
pub proof fn lemma_text_lt_behind_prefix(p: Seq<char>, x: Seq<char>, y: Seq<char>)
    ensures
        text_lt(p + x, p + y) == text_lt(x, y),
{
    let a = p + x;
    let b = p + y;
    if text_lt(x, y) {
        let i = choose|i: int| parts_below(x, y, i);
        assert forall|j: int| 0 <= j < p.len() + i implies a[j] == b[j] by {
            if j >= p.len() {
                assert(x[j - p.len()] == y[j - p.len()]);
            }
        }
        assert(parts_below(a, b, p.len() + i));
    }
    if text_lt(a, b) {
        let i = choose|i: int| parts_below(a, b, i);
        if i < p.len() {
            assert(a[i] == b[i]);
        }
        assert forall|j: int| 0 <= j < i - p.len() implies x[j] == y[j] by {
            assert(a[j + p.len()] == b[j + p.len()]);
        }
        assert(parts_below(x, y, i - p.len()));
    }
}

/// The texts with a given prefix are contiguous: once one at or behind `a`, which has the
/// prefix, lacks it, so do all that come behind.
pub proof fn lemma_prefix_contiguous(p: Seq<char>, a: Seq<char>, b: Seq<char>, c: Seq<char>)
    requires
        starts_with(a, p),
        text_le(a, b),
        !starts_with(b, p),
        text_le(b, c),
    ensures
        !starts_with(c, p),
{
    if starts_with(c, p) {
        let i = choose|i: int| parts_below(a, b, i);
        if i >= p.len() {
            assert forall|j: int| 0 <= j < p.len() implies b.take(p.len() as int)[j] == p[j] by {
                assert(a[j] == b[j]);
                assert(a.take(p.len() as int)[j] == p[j]);
            }
            assert(b.take(p.len() as int) =~= p);
        } else {
            assert(a.take(p.len() as int)[i] == p[i]);
            assert(c.take(p.len() as int)[i] == p[i]);
            let k = choose|k: int| parts_below(b, c, k);
            assert forall|j: int| 0 <= j < i implies b[j] == c[j] by {
                assert(a[j] == b[j]);
                assert(a.take(p.len() as int)[j] == p[j]);
                assert(c.take(p.len() as int)[j] == p[j]);
            }
            if k < i {
                assert(b[k] == c[k]);
            } else if i < k {
                assert(b[i] == c[i]);
            }
        }
    }
}

/// As many digits as were asked for are written.
pub proof fn lemma_digits_len(v: nat, width: nat)
    ensures
        digits(v, width).len() == width,
    decreases width,
{
    if width > 0 {
        lemma_digits_len(v / 10, (width - 1) as nat);
    }
}

/// Ten to the power `n`.
pub open spec fn pow10(n: nat) -> nat
    decreases n,
{
    if n == 0 {
        1
    } else {
        10 * pow10((n - 1) as nat)
    }
}

/// Numerals of one width are ordered as the numbers are.
pub proof fn lemma_digits_order(v: nat, w: nat, width: nat)
    requires
        v < pow10(width),
        w < pow10(width),
    ensures
        text_lt(digits(v, width), digits(w, width)) == (v < w),
        digits(v, width) == digits(w, width) ==> v == w,
    decreases width,
{
    if width > 0 {
        let n = (width - 1) as nat;
        lemma_digits_order(v / 10, w / 10, n);
        lemma_digits_order(w / 10, v / 10, n);
        lemma_digits_len(v / 10, n);
        lemma_digits_len(w / 10, n);
        let x = digits(v / 10, n);
        let y = digits(w / 10, n);
        let a = digits(v, width);
        let b = digits(w, width);
        let dv = digit_char(v % 10);
        let dw = digit_char(w % 10);
        assert(a == x.push(dv));
        assert(b == y.push(dw));
        assert(a == b ==> x == y && dv == dw) by {
            if a == b {
                assert(a.drop_last() =~= x);
                assert(b.drop_last() =~= y);
                assert(a.last() == dv && b.last() == dw);
            }
        }
        assert((v / 10) as nat == v / 10);
        if v / 10 == w / 10 {
            assert(x == y);
            assert(a =~= x + seq![dv]);
            assert(b =~= x + seq![dw]);
            lemma_text_lt_behind_prefix(x, seq![dv], seq![dw]);
            if v % 10 < w % 10 {
                assert(parts_below(seq![dv], seq![dw], 0));
            } else if text_lt(seq![dv], seq![dw]) {
                let i = choose|i: int| parts_below(seq![dv], seq![dw], i);
                assert(i == 0);
            }
        } else if v / 10 < w / 10 {
            let i = choose|i: int| parts_below(x, y, i);
            assert(parts_below(a, b, i));
        } else {
            let i = choose|i: int| parts_below(y, x, i);
            assert(parts_below(b, a, i));
            if text_lt(a, b) {
                lemma_text_lt_transitive(a, b, a);
            }
        }
    }
}

} // verus!
