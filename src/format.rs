//! The textual pieces of the claims format: JSON string literals with the
//! minimal escapes, and canonical decimal integers.

use vstd::prelude::*;

verus! {

/// The character of a digit value below sixteen: `0`-`9`, then `a`-`f`.
pub open spec fn hex_char(d: u32) -> char {
    if d < 10 {
        ((48 + d) as u32) as char
    } else {
        ((87 + d) as u32) as char
    }
}

/// How one character is written inside a string literal: quote and
/// backslash take a backslash, control characters a `\u00XX` escape.
pub open spec fn esc_char(c: char) -> Seq<char> {
    if c == '"' {
        seq!['\\', '"']
    } else if c == '\\' {
        seq!['\\', '\\']
    } else if (c as u32) < 32 {
        seq!['\\', 'u', '0', '0', hex_char((c as u32) / 16), hex_char((c as u32) % 16)]
    } else {
        seq![c]
    }
}

/// The body of a string literal holding `s`.
pub open spec fn esc(s: Seq<char>) -> Seq<char>
    decreases s.len(),
{
    if s.len() == 0 {
        Seq::empty()
    } else {
        esc(s.drop_last()) + esc_char(s.last())
    }
}

/// The string literal holding `s`, quotes included.
pub open spec fn quoted(s: Seq<char>) -> Seq<char> {
    seq!['"'] + esc(s) + seq!['"']
}

/// Whether `c` is a decimal digit.
pub open spec fn is_digit(c: char) -> bool {
    48 <= (c as u32) && (c as u32) <= 57
}

/// The decimal digits of `n`, without leading zeros.
pub open spec fn nat_text(n: nat) -> Seq<char>
    decreases n,
{
    if n < 10 {
        seq![hex_char(n as u32)]
    } else {
        nat_text(n / 10).push(hex_char((n % 10) as u32))
    }
}

/// The canonical decimal text of `n`: a minus sign for negative values,
/// then the digits of the magnitude.
pub open spec fn int_text(n: int) -> Seq<char> {
    if n < 0 {
        seq!['-'] + nat_text((-n) as nat)
    } else {
        nat_text(n as nat)
    }
}

/// The value of a sequence of decimal digits.
pub open spec fn digits_value(s: Seq<char>) -> nat
    decreases s.len(),
{
    if s.len() == 0 {
        0
    } else {
        digits_value(s.drop_last()) * 10 + ((s.last() as u32) - 48) as nat
    }
}

/// All characters of `s` are digits.
pub open spec fn all_digits(s: Seq<char>) -> bool {
    forall|i: int| 0 <= i < s.len() ==> is_digit(#[trigger] s[i])
}

/// A digit run as `nat_text` writes it: non-empty, and no leading zero
/// unless it is the single digit zero.
pub open spec fn canonical_digits(s: Seq<char>) -> bool {
    &&& s.len() > 0
    &&& all_digits(s)
    &&& (s[0] == '0' ==> s.len() == 1)
}

proof fn lemma_hex_char(d: u32)
    requires
        d < 16,
    ensures
        (hex_char(d) as u32) == if d < 10 { 48 + d } else { 87 + d },
        d < 10 ==> is_digit(hex_char(d)),
        hex_char(d) != '"' && hex_char(d) != '\\' && hex_char(d) != '-',
{
}


proof fn lemma_esc_push(s: Seq<char>, c: char)
    ensures
        esc(s.push(c)) == esc(s) + esc_char(c),
{
    assert(s.push(c).drop_last() =~= s);
}

proof fn lemma_esc_append(a: Seq<char>, b: Seq<char>)
    ensures
        esc(a + b) == esc(a) + esc(b),
    decreases b.len(),
{
    if b.len() == 0 {
        assert(a + b =~= a);
        assert(esc(a) + esc(b) =~= esc(a));
    } else {
        lemma_esc_append(a, b.drop_last());
        assert((a + b).drop_last() =~= a + b.drop_last());
        assert((a + b).last() == b.last());
        assert(esc(a + b) =~= esc(a) + esc(b));
    }
}

proof fn lemma_esc_char_head(c: char)
    ensures
        esc_char(c).len() > 0,
        esc_char(c)[0] != '"',
        (c as u32) < 32 ==> esc_char(c).len() == 6,
{
}

/// The character of a digit value below sixteen.
fn hex_digit(d: u32) -> (c: char)
    requires
        d < 16,
    ensures
        c == hex_char(d),
{
    if d < 10 {
        ((48 + d) as u8) as char
    } else {
        ((87 + d) as u8) as char
    }
}

/// The value of a lower-case hexadecimal digit.
fn hex_value(c: char) -> (r: Option<u32>)
    ensures
        r matches Some(d) ==> d < 16 && hex_char(d) == c,
        forall|d: u32| d < 16 && #[trigger] hex_char(d) == c ==> r == Some(d),
{
    let v = c as u32;
    let r = if 48 <= v && v <= 57 {
        Some(v - 48)
    } else if 97 <= v && v <= 102 {
        Some(v - 87)
    } else {
        None
    };
    assert forall|d: u32| d < 16 && #[trigger] hex_char(d) == c implies r == Some(d) by {
        lemma_hex_char(d);
    }
    proof {
        if let Some(d) = r {
            lemma_hex_char(d);
        }
    }
    r
}

/// Appends the string literal of `s` to `out`.
pub fn write_quoted(s: &[char], out: &mut Vec<char>)
    ensures
        final(out)@ == old(out)@ + quoted(s@),
{
    let ghost start = out@;
    out.push('"');
    let mut i: usize = 0;
    while i < s.len()
        invariant
            i <= s@.len(),
            out@ == start + seq!['"'] + esc(s@.subrange(0, i as int)),
        decreases s@.len() - i,
    {
        let c = s[i];
        let ghost before = out@;
        if c == '"' {
            out.push('\\');
            out.push('"');
        } else if c == '\\' {
            out.push('\\');
            out.push('\\');
        } else if (c as u32) < 32 {
            out.push('\\');
            out.push('u');
            out.push('0');
            out.push('0');
            out.push(hex_digit((c as u32) / 16));
            out.push(hex_digit((c as u32) % 16));
        } else {
            out.push(c);
        }
        proof {
            assert(out@ =~= before + esc_char(c));
            assert(s@.subrange(0, i + 1) =~= s@.subrange(0, i as int).push(c));
            lemma_esc_push(s@.subrange(0, i as int), c);
        }
        i += 1;
    }
    out.push('"');
    assert(s@.subrange(0, s@.len() as int) =~= s@);
    assert(out@ =~= start + quoted(s@));
}

/// Whether `t` holds the characters of `piece` at position `at`.
pub open spec fn holds_at(t: Seq<char>, at: int, piece: Seq<char>) -> bool {
    0 <= at && at + piece.len() <= t.len() && t.subrange(at, at + piece.len()) == piece
}

/// Reads one character of a string literal body at `k`: a plain
/// character or one of the escapes that `esc_char` writes.
fn read_char(t: &[char], k: usize) -> (r: Option<(char, usize)>)
    ensures
        r matches Some((c, e)) ==> k < e <= t@.len() && t@.subrange(k as int, e as int) == esc_char(c),
        forall|c: char| #[trigger] holds_at(t@, k as int, esc_char(c)) ==> r == Some((c, (k + esc_char(c).len()) as usize)),
{
    let mut r: Option<(char, usize)> = None;
    if k < t.len() {
        let c = t[k];
        if c == '\\' {
            if k + 1 < t.len() {
                let d = t[k + 1];
                if d == '"' {
                    r = Some(('"', k + 2));
                } else if d == '\\' {
                    r = Some(('\\', k + 2));
                } else if d == 'u' && t.len() - k > 5 && t[k + 2] == '0' && t[k + 3] == '0' {
                    let hi = hex_value(t[k + 4]);
                    let lo = hex_value(t[k + 5]);
                    if let (Some(h), Some(l)) = (hi, lo) {
                        if h < 2 {
                            let v = h * 16 + l;
                            let ch = (v as u8) as char;
                            assert((ch as u32) / 16 == h && (ch as u32) % 16 == l);
                            proof {
                                assert forall|x: char| #[trigger] holds_at(t@, k as int, esc_char(x)) && (x as u32) < 32 implies x == ch by {
                                    let w = esc_char(x);
                                    assert(t@.subrange(k as int, k + w.len()) == w);
                                    assert(t@[k + 4] == w[4]);
                                    assert(t@[k + 5] == w[5]);
                                    lemma_hex_char((x as u32) / 16);
                                    lemma_hex_char((x as u32) % 16);
                                    assert(t@[k + 4] == hex_char((x as u32) / 16));
                                    assert(t@[k + 5] == hex_char((x as u32) % 16));
                                    assert((x as u32) == ((x as u32) / 16) * 16 + (x as u32) % 16);
                                    assert((x as u32) == (ch as u32));
                                    vstd::utf8::char_u32_cast(x, x as u32);
                                    vstd::utf8::char_u32_cast(ch, ch as u32);
                                }
                            }
                            r = Some((ch, k + 6));
                        }
                    }
                }
            }
        } else if c != '"' && (c as u32) >= 32 {
            r = Some((c, k + 1));
        }
    }
    proof {
        if let Some((c, e)) = r {
            assert(t@.subrange(k as int, e as int) =~= esc_char(c));
        }
        assert forall|c: char| #[trigger] holds_at(t@, k as int, esc_char(c)) implies r == Some((c, (k + esc_char(c).len()) as usize)) by {
            let w = esc_char(c);
            assert(t@.subrange(k as int, k + w.len()) == w);
            assert(t@[k as int] == w[0]);
            if c == '"' {
                assert(t@[k + 1] == w[1]);
                assert(r == Some((c, (k + 2) as usize)));
            } else if c == '\\' {
                assert(t@[k + 1] == w[1]);
                assert(r == Some((c, (k + 2) as usize)));
            } else if (c as u32) < 32 {
                assert(t@[k + 1] == w[1]);
                assert(t@[k + 2] == w[2]);
                assert(t@[k + 3] == w[3]);
                assert(t@[k + 4] == w[4]);
                assert(t@[k + 5] == w[5]);
                lemma_hex_char((c as u32) / 16);
                lemma_hex_char((c as u32) % 16);
                broadcast use vstd::utf8::char_u32_cast;
                assert(t@[k + 4] == hex_char((c as u32) / 16));
                assert(r == Some((c, (k + 6) as usize)));
            } else {
                assert(w =~= seq![c]);
                assert(r == Some((c, (k + 1) as usize)));
            }
        }
    }
    r
}


/// Reads the string literal that starts at `at`, returning its characters
/// and the position just past its closing quote.
pub fn read_quoted(t: &[char], at: usize) -> (r: Option<(Vec<char>, usize)>)
    ensures
        r matches Some((v, e)) ==> at < e <= t@.len() && t@.subrange(at as int, e as int) == quoted(v@),
        forall|s: Seq<char>| #[trigger] holds_at(t@, at as int, quoted(s)) ==>
            (r matches Some((v, e)) && v@ == s && e == at + quoted(s).len()),
{
    if at >= t.len() || t[at] != '"' {
        proof {
            assert forall|s: Seq<char>| #[trigger] holds_at(t@, at as int, quoted(s)) implies false by {
                assert(t@[at as int] == quoted(s)[0]);
            }
        }
        return None;
    }
    let mut acc: Vec<char> = Vec::new();
    let mut k: usize = at + 1;
    while k < t.len() && t[k] != '"'
        invariant
            at < k <= t@.len(),
            t@[at as int] == '"',
            t@.subrange(at + 1, k as int) == esc(acc@),
            forall|s: Seq<char>| #[trigger] holds_at(t@, at as int, quoted(s)) ==>
                acc@.len() <= s.len() && acc@ == s.subrange(0, acc@.len() as int)
                && k == at + 1 + esc(s.subrange(0, acc@.len() as int)).len(),
        decreases t@.len() - k,
    {
        let step = read_char(t, k);
        proof {
            assert forall|s: Seq<char>| #[trigger] holds_at(t@, at as int, quoted(s)) implies
                acc@.len() < s.len() && step == Some((s[acc@.len() as int], (k + esc_char(s[acc@.len() as int]).len()) as usize)) by {
                let n = acc@.len() as int;
                let q = quoted(s);
                assert(t@.subrange(at as int, at + q.len()) == q);
                if n == s.len() {
                    assert(s.subrange(0, n) =~= s);
                    assert(t@[k as int] == q[q.len() - 1]);
                } else {
                    let c = s[n];
                    lemma_esc_append(s.subrange(0, n + 1), s.subrange(n + 1, s.len() as int));
                    assert(s.subrange(0, n + 1) + s.subrange(n + 1, s.len() as int) =~= s);
                    assert(s.subrange(0, n + 1) =~= s.subrange(0, n).push(c));
                    lemma_esc_push(s.subrange(0, n), c);
                    let w = esc_char(c);
                    assert forall|j: int| 0 <= j < w.len() implies t@[k + j] == w[j] by {
                        assert(t@[k + j] == q[k + j - at]);
                    }
                    assert(t@.subrange(k as int, k + w.len()) =~= w);
                    assert(holds_at(t@, k as int, w));
                }
            }
        }
        match step {
            None => {
                proof {
                    assert forall|s: Seq<char>| #[trigger] holds_at(t@, at as int, quoted(s)) implies false by {}
                }
                return None;
            }
            Some((c, e)) => {
                let ghost old_acc = acc@;
                acc.push(c);
                proof {
                    lemma_esc_push(old_acc, c);
                    assert(t@.subrange(at + 1, e as int) =~= t@.subrange(at + 1, k as int) + t@.subrange(k as int, e as int));
                    assert forall|s: Seq<char>| #[trigger] holds_at(t@, at as int, quoted(s)) implies
                        acc@.len() <= s.len() && acc@ == s.subrange(0, acc@.len() as int)
                        && e == at + 1 + esc(s.subrange(0, acc@.len() as int)).len() by {
                        let n = old_acc.len() as int;
                        assert(s.subrange(0, n + 1) =~= s.subrange(0, n).push(s[n]));
                        lemma_esc_push(s.subrange(0, n), s[n]);
                    }
                }
                k = e;
            }
        }
    }
    if k >= t.len() {
        proof {
            assert forall|s: Seq<char>| #[trigger] holds_at(t@, at as int, quoted(s)) implies false by {
                let q = quoted(s);
                let n = acc@.len() as int;
                if n < s.len() {
                    lemma_esc_append(s.subrange(0, n), s.subrange(n, s.len() as int));
                    assert(s.subrange(0, n) + s.subrange(n, s.len() as int) =~= s);
                }
                assert(s.subrange(0, n) + s.subrange(n, s.len() as int) =~= s);
                lemma_esc_append(s.subrange(0, n), s.subrange(n, s.len() as int));
            }
        }
        return None;
    }
    proof {
        assert(t@.subrange(at as int, k + 1) =~= seq!['"'] + esc(acc@) + seq!['"']);
        assert forall|s: Seq<char>| #[trigger] holds_at(t@, at as int, quoted(s)) implies
            acc@ == s && k + 1 == at + quoted(s).len() by {
            let q = quoted(s);
            let n = acc@.len() as int;
            assert(t@.subrange(at as int, at + q.len()) == q);
            if n < s.len() {
                let c = s[n];
                lemma_esc_append(s.subrange(0, n + 1), s.subrange(n + 1, s.len() as int));
                assert(s.subrange(0, n + 1) + s.subrange(n + 1, s.len() as int) =~= s);
                assert(s.subrange(0, n + 1) =~= s.subrange(0, n).push(c));
                lemma_esc_push(s.subrange(0, n), c);
                lemma_esc_char_head(c);
                assert(t@[k as int] == q[k - at]);
            }
            assert(s.subrange(0, n) =~= s);
        }
    }
    Some((acc, k + 1))
}


proof fn lemma_nat_text(n: nat)
    ensures
        canonical_digits(nat_text(n)),
        digits_value(nat_text(n)) == n,
        nat_text(n)[0] == '0' ==> n == 0,
    decreases n,
{
    if n < 10 {
        lemma_hex_char(n as u32);
        let s = nat_text(n);
        assert(s.drop_last() =~= Seq::<char>::empty());
        assert(digits_value(s.drop_last()) == 0);
        assert(s.last() == hex_char(n as u32));
        assert((hex_char(n as u32) as u32) == 48 + n);
        assert(digits_value(s) == n);
    } else {
        lemma_nat_text(n / 10);
        lemma_hex_char((n % 10) as u32);
        let s = nat_text(n);
        assert(s.drop_last() =~= nat_text(n / 10));
        assert(s[0] == nat_text(n / 10)[0]);
        assert((n / 10) * 10 + n % 10 == n) by (nonlinear_arith);
        assert(digits_value(s) == digits_value(nat_text(n / 10)) * 10 + n % 10);
        assert forall|i: int| 0 <= i < s.len() implies is_digit(#[trigger] s[i]) by {
            if i < s.len() - 1 {
                assert(s[i] == nat_text(n / 10)[i]);
            }
        }
    }
}

proof fn lemma_canonical_text(s: Seq<char>)
    requires
        canonical_digits(s),
    ensures
        nat_text(digits_value(s)) == s,
        s[0] != '0' ==> digits_value(s) >= 1,
    decreases s.len(),
{
    let d = ((s.last() as u32) - 48) as nat;
    assert(is_digit(s[s.len() - 1]));
    lemma_hex_char(d as u32);
    vstd::utf8::char_u32_cast(s.last(), s.last() as u32);
    vstd::utf8::char_u32_cast(hex_char(d as u32), hex_char(d as u32) as u32);
    if s.len() == 1 {
        assert(s.drop_last() =~= Seq::<char>::empty());
        assert(digits_value(s.drop_last()) == 0);
        assert(digits_value(s) == d);
        assert(nat_text(d) =~= s);
    } else {
        let p = s.drop_last();
        assert(p[0] == s[0]);
        assert forall|i: int| 0 <= i < p.len() implies is_digit(#[trigger] p[i]) by {
            assert(p[i] == s[i]);
        }
        lemma_canonical_text(p);
        let v = digits_value(p);
        let n = digits_value(s);
        assert(n == v * 10 + d);
        assert(n / 10 == v && n % 10 == d) by (nonlinear_arith)
            requires
                n == v * 10 + d,
                d < 10,
        ;
        assert(nat_text(n) =~= p.push(hex_char(d as u32)));
        assert(s =~= p.push(s.last()));
    }
}

proof fn lemma_prefix_value(s: Seq<char>, i: int)
    requires
        0 <= i <= s.len(),
    ensures
        digits_value(s.subrange(0, i)) <= digits_value(s),
    decreases s.len(),
{
    if i < s.len() {
        lemma_prefix_value(s.drop_last(), i);
        assert(s.drop_last().subrange(0, i) =~= s.subrange(0, i));
    } else {
        assert(s.subrange(0, i) =~= s);
    }
}

/// Appends the decimal digits of `m` to `out`.
fn write_nat(m: u64, out: &mut Vec<char>)
    ensures
        final(out)@ == old(out)@ + nat_text(m as nat),
    decreases m,
{
    if m >= 10 {
        write_nat(m / 10, out);
    }
    out.push(hex_digit((m % 10) as u32));
    proof {
        if m >= 10 {
            assert(final(out)@ =~= old(out)@ + nat_text(m as nat));
        } else {
            assert(final(out)@ =~= old(out)@ + nat_text(m as nat));
        }
    }
}

/// Appends the canonical decimal text of `n` to `out`.
pub fn write_int(n: i64, out: &mut Vec<char>)
    ensures
        final(out)@ == old(out)@ + int_text(n as int),
{
    if n < 0 {
        let ghost start = out@;
        out.push('-');
        let m: u64 = (0 - (n as i128)) as u64;
        write_nat(m, out);
        assert(out@ =~= start + int_text(n as int));
    } else {
        write_nat(n as u64, out);
    }
}

/// Whether a number that ends at `p` in `t` is not followed by a digit.
pub open spec fn ends_number(t: Seq<char>, p: int) -> bool {
    p == t.len() || (p < t.len() && !is_digit(t[p]))
}

/// Whether `t` holds the text of `n` at `at`, not followed by a digit.
pub open spec fn int_at(t: Seq<char>, at: int, n: i64) -> bool {
    holds_at(t, at, int_text(n as int)) && ends_number(t, at + int_text(n as int).len())
}

/// The magnitude of `n`.
pub open spec fn magnitude(n: i64) -> nat {
    if n < 0 { (-n) as nat } else { n as nat }
}

/// Reads the canonical decimal integer that starts at `at`, returning it
/// and the position just past its last digit.
pub fn read_int(t: &[char], at: usize) -> (r: Option<(i64, usize)>)
    ensures
        r matches Some((n, e)) ==> at < e <= t@.len() && t@.subrange(at as int, e as int) == int_text(n as int)
            && ends_number(t@, e as int),
        forall|n: i64| #[trigger] int_at(t@, at as int, n) ==>
            r == Some((n, (at + int_text(n as int).len()) as usize)),
{
    if at >= t.len() {
        proof {
            assert forall|n: i64| #[trigger] int_at(t@, at as int, n) implies false by {
                lemma_nat_text(magnitude(n));
            }
        }
        return None;
    }
    let neg = t[at] == '-';
    let start: usize = if neg { at + 1 } else { at };
    let limit: u64 = if neg { 9223372036854775808 } else { 9223372036854775807 };
    proof {
        assert forall|n: i64| #[trigger] int_at(t@, at as int, n) implies
            (neg <==> n < 0) && holds_at(t@, start as int, nat_text(magnitude(n)))
            && ends_number(t@, start + nat_text(magnitude(n)).len()) && magnitude(n) <= limit by {
            let w = int_text(n as int);
            let s = nat_text(magnitude(n));
            lemma_nat_text(magnitude(n));
            assert(t@.subrange(at as int, at + w.len()) == w);
            assert(t@[at as int] == w[0]);
            if n < 0 {
                assert(t@.subrange(start as int, start + s.len()) =~= w.subrange(1, w.len() as int));
                assert(w.subrange(1, w.len() as int) =~= s);
            } else {
                assert(is_digit(s[0]));
                assert(t@.subrange(start as int, start + s.len()) =~= s);
            }
        }
    }
    let mut k: usize = start;
    let mut v: u64 = 0;
    while k < t.len() && 48 <= (t[k] as u32) && (t[k] as u32) <= 57
        invariant
            start <= k <= t@.len(),
            start >= at,
            all_digits(t@.subrange(start as int, k as int)),
            v == digits_value(t@.subrange(start as int, k as int)),
            v <= limit,
            limit == if neg { 9223372036854775808u64 } else { 9223372036854775807u64 },
            forall|n: i64| #[trigger] int_at(t@, at as int, n) ==>
                (neg <==> n < 0) && holds_at(t@, start as int, nat_text(magnitude(n)))
                && ends_number(t@, start + nat_text(magnitude(n)).len()) && magnitude(n) <= limit
                && k <= start + nat_text(magnitude(n)).len(),
        decreases t@.len() - k,
    {
        let d: u64 = ((t[k] as u32) - 48) as u64;
        let ghost run = t@.subrange(start as int, k + 1);
        proof {
            assert(run.drop_last() =~= t@.subrange(start as int, k as int));
            assert(all_digits(run));
        }
        if v > (limit - d) / 10 {
            proof {
                assert(v * 10 + d > limit) by (nonlinear_arith)
                    requires
                        v > (limit - d) / 10,
                        d <= 9,
                        d <= limit,
                ;
                assert forall|n: i64| #[trigger] int_at(t@, at as int, n) implies false by {
                    let s = nat_text(magnitude(n));
                    lemma_nat_text(magnitude(n));
                    assert(t@.subrange(start as int, start + s.len()) == s);
                    if k == start + s.len() {
                        assert(!is_digit(t@[k as int]));
                    }
                    assert(run =~= s.subrange(0, k + 1 - start));
                    lemma_prefix_value(s, k + 1 - start);
                }
            }
            return None;
        }
        proof {
            assert(v * 10 + d <= limit) by (nonlinear_arith)
                requires
                    v <= (limit - d) / 10,
                    d <= 9,
                    d <= limit,
            ;
            assert forall|n: i64| #[trigger] int_at(t@, at as int, n) implies
                k + 1 <= start + nat_text(magnitude(n)).len() by {
                let s = nat_text(magnitude(n));
                if k == start + s.len() {
                    assert(!is_digit(t@[k as int]));
                }
            }
        }
        v = v * 10 + d;
        k += 1;
    }
    let ghost run = t@.subrange(start as int, k as int);
    proof {
        assert forall|n: i64| #[trigger] int_at(t@, at as int, n) implies
            run == nat_text(magnitude(n)) && v == magnitude(n) by {
            let s = nat_text(magnitude(n));
            lemma_nat_text(magnitude(n));
            assert(t@.subrange(start as int, start + s.len()) == s);
            if k < start + s.len() {
                assert(t@[k as int] == s[k - start]);
                assert(is_digit(s[k - start]));
            }
            assert(run =~= s);
        }
    }
    if k == start {
        proof {
            assert forall|n: i64| #[trigger] int_at(t@, at as int, n) implies false by {
                lemma_nat_text(magnitude(n));
            }
        }
        return None;
    }
    if t[start] == '0' && (k - start > 1 || neg) {
        proof {
            assert forall|n: i64| #[trigger] int_at(t@, at as int, n) implies false by {
                lemma_nat_text(magnitude(n));
                assert(run[0] == t@[start as int]);
            }
        }
        return None;
    }
    proof {
        assert(run[0] == t@[start as int]);
        lemma_canonical_text(run);
    }
    let n: i64 = if neg { (0 - (v as i128)) as i64 } else { v as i64 };
    proof {
        if neg {
            assert(t@.subrange(at as int, k as int) =~= seq!['-'] + run);
        } else {
            assert(t@.subrange(at as int, k as int) =~= run);
        }
        assert forall|m: i64| #[trigger] int_at(t@, at as int, m) implies
            n == m && k == at + int_text(m as int).len() by {
            lemma_nat_text(magnitude(m));
        }
    }
    Some((n, k))
}

} // verus!
