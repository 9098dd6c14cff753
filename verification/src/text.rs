//! Text helpers: decimal and hexadecimal renderings of integers, and the
//! lexicographic order of strings.

use vstd::prelude::*;

verus! {

/// The character of the digit `d` (`0-9`, then `a-f`).
pub open spec fn digit_char(d: nat) -> char {
    if d < 10 {
        (48 + d) as char
    } else {
        (87 + d) as char
    }
}

/// Decimal rendering of `n`, without leading zeros.
pub open spec fn decimal_text(n: nat) -> Seq<char>
    decreases n,
{
    if n < 10 {
        seq![digit_char(n)]
    } else {
        decimal_text(n / 10).push(digit_char(n % 10))
    }
}

/// The last `k` hexadecimal digits of `n` (lower case), zero-padded.
pub open spec fn hex_text(n: nat, k: nat) -> Seq<char>
    decreases k,
{
    if k == 0 {
        Seq::empty()
    } else {
        hex_text(n / 16, (k - 1) as nat).push(digit_char(n % 16))
    }
}

fn digit(d: u64) -> (s: &'static str)
    requires
        d < 16,
    ensures
        s@ == seq![digit_char(d as nat)],
{
    proof {
        assert(digit_char(0) == '0' && digit_char(1) == '1' && digit_char(2) == '2' && digit_char(3)
            == '3' && digit_char(4) == '4' && digit_char(5) == '5' && digit_char(6) == '6'
            && digit_char(7) == '7' && digit_char(8) == '8' && digit_char(9) == '9' && digit_char(
            10,
        ) == 'a' && digit_char(11) == 'b' && digit_char(12) == 'c' && digit_char(13) == 'd'
            && digit_char(14) == 'e' && digit_char(15) == 'f');
    }
    let s = match d {
        0 => "0",
        1 => "1",
        2 => "2",
        3 => "3",
        4 => "4",
        5 => "5",
        6 => "6",
        7 => "7",
        8 => "8",
        9 => "9",
        10 => "a",
        11 => "b",
        12 => "c",
        13 => "d",
        14 => "e",
        _ => "f",
    };
    proof {
        reveal_strlit("0");
        reveal_strlit("1");
        reveal_strlit("2");
        reveal_strlit("3");
        reveal_strlit("4");
        reveal_strlit("5");
        reveal_strlit("6");
        reveal_strlit("7");
        reveal_strlit("8");
        reveal_strlit("9");
        reveal_strlit("a");
        reveal_strlit("b");
        reveal_strlit("c");
        reveal_strlit("d");
        reveal_strlit("e");
        reveal_strlit("f");
        assert(s@ =~= seq![digit_char(d as nat)]);
    }
    s
}

/// The decimal rendering of `n`.
pub fn decimal(n: u64) -> (s: String)
    ensures
        s@ == decimal_text(n as nat),
    decreases n,
{
    if n < 10 {
        digit(n).to_owned()
    } else {
        let mut s = decimal(n / 10);
        s.append(digit(n % 10));
        s
    }
}

/// The last `k` hexadecimal digits of `n`, zero-padded.
pub fn hex_digits(n: u64, k: u32) -> (s: String)
    ensures
        s@ == hex_text(n as nat, k as nat),
    decreases k,
{
    if k == 0 {
        String::new()
    } else {
        let mut s = hex_digits(n / 16, k - 1);
        s.append(digit(n % 16));
        s
    }
}

proof fn lemma_digit_char_injective(a: nat, b: nat)
    requires
        a < 16,
        b < 16,
        digit_char(a) == digit_char(b),
    ensures
        a == b,
{
    assert(digit_char(a) as int == if a < 10 { 48 + a } else { 87 + a });
    assert(digit_char(b) as int == if b < 10 { 48 + b } else { 87 + b });
}

proof fn lemma_decimal_text_len(n: nat)
    ensures
        decimal_text(n).len() >= 1,
        n >= 10 ==> decimal_text(n).len() >= 2,
    decreases n,
{
    if n >= 10 {
        lemma_decimal_text_len(n / 10);
    }
}

/// Different numbers have different decimal renderings.
pub proof fn lemma_decimal_text_injective(n: nat, m: nat)
    requires
        decimal_text(n) == decimal_text(m),
    ensures
        n == m,
    decreases n,
{
    lemma_decimal_text_len(n);
    lemma_decimal_text_len(m);
    if n < 10 && m < 10 {
        assert(decimal_text(n) =~= seq![digit_char(n)]);
        assert(decimal_text(m) =~= seq![digit_char(m)]);
        assert(decimal_text(n)[0] == decimal_text(m)[0]);
        assert(digit_char(n) == decimal_text(n)[0]);
        assert(digit_char(m) == decimal_text(m)[0]);
        lemma_digit_char_injective(n, m);
    } else if n >= 10 && m >= 10 {
        let a = decimal_text(n);
        let b = decimal_text(m);
        assert(a.drop_last() =~= decimal_text(n / 10));
        assert(b.drop_last() =~= decimal_text(m / 10));
        assert(a.last() == b.last());
        lemma_digit_char_injective(n % 10, m % 10);
        lemma_decimal_text_injective(n / 10, m / 10);
    }
}

/// `16` to the power `k`.
pub open spec fn pow16(k: nat) -> nat
    decreases k,
{
    if k == 0 {
        1
    } else {
        16 * pow16((k - 1) as nat)
    }
}

/// Numbers below `16^k` have different `k`-digit hexadecimal renderings.
pub proof fn lemma_hex_text_injective(n: nat, m: nat, k: nat)
    requires
        n < pow16(k),
        m < pow16(k),
        hex_text(n, k) == hex_text(m, k),
    ensures
        n == m,
    decreases k,
{
    if k > 0 {
        let p = pow16((k - 1) as nat);
        let a = hex_text(n, k);
        let b = hex_text(m, k);
        assert(a.drop_last() =~= hex_text(n / 16, (k - 1) as nat));
        assert(b.drop_last() =~= hex_text(m / 16, (k - 1) as nat));
        assert(a.last() == b.last());
        lemma_digit_char_injective(n % 16, m % 16);
        assert(n / 16 < p) by (nonlinear_arith)
            requires
                n < 16 * p,
        ;
        assert(m / 16 < p) by (nonlinear_arith)
            requires
                m < 16 * p,
        ;
        lemma_hex_text_injective(n / 16, m / 16, (k - 1) as nat);
    }
}

/// Lexicographic order of character sequences (by code point).
pub open spec fn text_lt(a: Seq<char>, b: Seq<char>) -> bool
    decreases a.len(),
{
    if a.len() == 0 {
        b.len() > 0
    } else if b.len() == 0 {
        false
    } else if (a[0] as int) < (b[0] as int) {
        true
    } else if (a[0] as int) > (b[0] as int) {
        false
    } else {
        text_lt(a.drop_first(), b.drop_first())
    }
}

pub proof fn lemma_text_lt_asymmetric(a: Seq<char>, b: Seq<char>)
    ensures
        !(text_lt(a, b) && text_lt(b, a)),
    decreases a.len(),
{
    if a.len() > 0 && b.len() > 0 && a[0] == b[0] {
        lemma_text_lt_asymmetric(a.drop_first(), b.drop_first());
    }
}

pub proof fn lemma_text_lt_transitive(a: Seq<char>, b: Seq<char>, c: Seq<char>)
    requires
        text_lt(a, b),
        text_lt(b, c),
    ensures
        text_lt(a, c),
    decreases a.len(),
{
    if a.len() > 0 && b.len() > 0 && c.len() > 0 && a[0] == b[0] && b[0] == c[0] {
        lemma_text_lt_transitive(a.drop_first(), b.drop_first(), c.drop_first());
    }
}

pub proof fn lemma_text_lt_total(a: Seq<char>, b: Seq<char>)
    ensures
        a == b || text_lt(a, b) || text_lt(b, a),
    decreases a.len(),
{
    if a.len() > 0 && b.len() > 0 && a[0] == b[0] {
        lemma_text_lt_total(a.drop_first(), b.drop_first());
        if a.drop_first() == b.drop_first() {
            assert(a =~= seq![a[0]] + a.drop_first());
            assert(b =~= seq![b[0]] + b.drop_first());
        }
    } else if a.len() == 0 && b.len() == 0 {
        assert(a =~= b);
    } else if a.len() > 0 && b.len() > 0 {
        assert((a[0] as int) != (b[0] as int));
    }
}

/// Whether two texts are equal.
pub fn same_text(a: &str, b: &str) -> (r: bool)
    ensures
        r == (a@ == b@),
{
    a.to_owned() == b.to_owned()
}

/// Whether `a` comes before `b` in lexicographic order.
pub fn text_less(a: &str, b: &str) -> (r: bool)
    ensures
        r == text_lt(a@, b@),
{
    let n = a.unicode_len();
    let m = b.unicode_len();
    let mut i: usize = 0;
    assert(a@.skip(0) =~= a@ && b@.skip(0) =~= b@);
    while i < n && i < m
        invariant
            n == a@.len(),
            m == b@.len(),
            0 <= i <= n,
            i <= m,
            text_lt(a@, b@) == text_lt(a@.skip(i as int), b@.skip(i as int)),
        decreases n - i,
    {
        let x = a.get_char(i);
        let y = b.get_char(i);
        assert(a@.skip(i as int)[0] == x && b@.skip(i as int)[0] == y);
        if (x as u32) < (y as u32) {
            return true;
        }
        if (x as u32) > (y as u32) {
            return false;
        }
        assert(a@.skip(i as int).drop_first() =~= a@.skip(i + 1));
        assert(b@.skip(i as int).drop_first() =~= b@.skip(i + 1));
        i = i + 1;
    }
    i < m
}

} // verus!
