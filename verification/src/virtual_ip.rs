//! Virtual-LAN addresses: IPv4 text, and the choice of an address for a
//! device that no other device of the account holds.

use vstd::prelude::*;

use crate::error::ServerError;
use crate::ids::DeviceId;
use crate::text::{chars_of, contains_text, decimal, digit_char, push_char, push_decimal, owned};

verus! {

/// `c` is a decimal digit.
pub open spec fn is_digit(c: char) -> bool {
    '0' <= c && c <= '9'
}

/// The value of a decimal digit character.
pub open spec fn digit_value(c: char) -> nat {
    (c as u32 - '0' as u32) as nat
}

/// The value of a run of decimal digits.
pub open spec fn digits_value(d: Seq<char>) -> nat
    decreases d.len(),
{
    if d.len() == 0 {
        0
    } else {
        digits_value(d.drop_last()) * 10 + digit_value(d.last())
    }
}

/// The dotted-quad text of an IPv4 address, as `Ipv4Addr`'s `Display` writes it.
pub open spec fn ip_text(o: (u8, u8, u8, u8)) -> Seq<char> {
    decimal(o.0 as nat) + seq!['.'] + decimal(o.1 as nat) + seq!['.'] + decimal(o.2 as nat)
        + seq!['.'] + decimal(o.3 as nat)
}

/// `s` is the text of an IPv4 address: four decimal octets of at most 255,
/// without leading zeros, joined by dots.
pub open spec fn is_ip_text(s: Seq<char>) -> bool {
    exists|o: (u8, u8, u8, u8)| ip_text(o) == s
}

/// Number of consecutive digits of `s` from position `p`.
pub open spec fn digit_run(s: Seq<char>, p: int) -> nat
    decreases s.len() - p,
{
    if 0 <= p < s.len() && is_digit(s[p]) {
        1 + digit_run(s, p + 1)
    } else {
        0
    }
}

/// The octet written at position `p` of `s` and the position after it.
#[verifier::opaque]
pub open spec fn octet_at(s: Seq<char>, p: int) -> Option<(u8, int)> {
    let n = digit_run(s, p);
    let d = s.subrange(p, p + n);
    if n == 0 || n > 3 || (d[0] == '0' && n > 1) || digits_value(d) > 255 {
        None
    } else {
        Some((digits_value(d) as u8, p + n))
    }
}

/// The octet at `p` followed by a dot, and the position after the dot.
#[verifier::opaque]
pub open spec fn octet_dot_at(s: Seq<char>, p: int) -> Option<(u8, int)> {
    match octet_at(s, p) {
        Some((v, q)) => if q < s.len() && s[q] == '.' {
            Some((v, q + 1))
        } else {
            None
        },
        None => None,
    }
}

/// The address written in `s`, read the way the exec parser reads it.
pub open spec fn ip_fields(s: Seq<char>) -> Option<(u8, u8, u8, u8)> {
    match octet_dot_at(s, 0) {
        Some((a, p1)) => match octet_dot_at(s, p1) {
            Some((b, p2)) => match octet_dot_at(s, p2) {
                Some((c, p3)) => match octet_at(s, p3) {
                    Some((d, p4)) => if p4 == s.len() {
                        Some((a, b, c, d))
                    } else {
                        None
                    },
                    None => None,
                },
                None => None,
            },
            None => None,
        },
        None => None,
    }
}

proof fn lemma_digit_char(d: nat)
    requires
        d < 10,
    ensures
        is_digit(digit_char(d)),
        digit_value(digit_char(d)) == d,
{
}

proof fn lemma_digit_roundtrip(c: char)
    requires
        is_digit(c),
    ensures
        digit_char(digit_value(c)) == c,
        digit_value(c) < 10,
{
    let u = c as u32;
    assert(48 <= u <= 57);
    if u == 48 { assert(c == '0'); }
    else if u == 49 { assert(c == '1'); }
    else if u == 50 { assert(c == '2'); }
    else if u == 51 { assert(c == '3'); }
    else if u == 52 { assert(c == '4'); }
    else if u == 53 { assert(c == '5'); }
    else if u == 54 { assert(c == '6'); }
    else if u == 55 { assert(c == '7'); }
    else if u == 56 { assert(c == '8'); }
    else { assert(c == '9'); }
}

/// The decimal text of `n` is digits with no leading zero, reads back as `n`,
/// and has at most three digits when `n` is at most 255.
proof fn lemma_decimal_facts(n: nat)
    ensures
        decimal(n).len() >= 1,
        forall|i: int| 0 <= i < decimal(n).len() ==> is_digit(#[trigger] decimal(n)[i]),
        digits_value(decimal(n)) == n,
        decimal(n)[0] == '0' ==> n == 0,
        n == 0 ==> decimal(n).len() == 1,
        n <= 255 ==> decimal(n).len() <= 3,
        n >= 10 ==> decimal(n).len() >= 2,
    decreases n,
{
    if n < 10 {
        lemma_digit_char(n);
        assert(decimal(n).drop_last() =~= Seq::<char>::empty());
        assert(digits_value(Seq::<char>::empty()) == 0);
        assert(digits_value(decimal(n)) == digits_value(decimal(n).drop_last()) * 10 + digit_value(decimal(n).last()));
    } else {
        lemma_decimal_facts(n / 10);
        lemma_digit_char(n % 10);
        let d = decimal(n);
        assert(d.drop_last() =~= decimal(n / 10));
        assert(d.last() == digit_char(n % 10));
        assert(n == (n / 10) * 10 + n % 10) by (nonlinear_arith);
        assert(digits_value(d) == digits_value(d.drop_last()) * 10 + digit_value(d.last()));
        assert(d[0] == decimal(n / 10)[0]);
        if n <= 255 {
            assert(n / 10 <= 25);
            if n / 10 >= 10 {
                lemma_decimal_facts(n / 100);
                assert(n / 10 / 10 < 10);
            }
        }
    }
}

proof fn lemma_digits_value_positive(d: Seq<char>)
    requires
        d.len() >= 1,
        forall|i: int| 0 <= i < d.len() ==> is_digit(#[trigger] d[i]),
        d[0] != '0',
    ensures
        digits_value(d) >= 1,
    decreases d.len(),
{
    if d.len() == 1 {
        lemma_digit_roundtrip(d[0]);
        assert(d.drop_last().len() == 0);
        if digit_value(d[0]) == 0 {
            assert(digit_char(0) == '0');
        }
    } else {
        let e = d.drop_last();
        assert(e[0] == d[0]);
        lemma_digits_value_positive(e);
    }
}

/// A run of digits with no leading zero is the decimal text of its value.
proof fn lemma_digits_are_decimal(d: Seq<char>)
    requires
        d.len() >= 1,
        forall|i: int| 0 <= i < d.len() ==> is_digit(#[trigger] d[i]),
        d[0] != '0' || d.len() == 1,
    ensures
        decimal(digits_value(d)) == d,
    decreases d.len(),
{
    let c = d.last();
    lemma_digit_roundtrip(c);
    if d.len() == 1 {
        assert(d.drop_last() =~= Seq::<char>::empty());
        assert(digits_value(Seq::<char>::empty()) == 0);
        assert(digits_value(d) == digit_value(c));
        assert(decimal(digits_value(d)) =~= d);
    } else {
        let e = d.drop_last();
        assert(e[0] == d[0]);
        lemma_digits_value_positive(e);
        lemma_digits_are_decimal(e);
        let v = digits_value(d);
        let ve = digits_value(e);
        assert(v == ve * 10 + digit_value(c));
        assert(v / 10 == ve && v % 10 == digit_value(c)) by (nonlinear_arith)
            requires
                v == ve * 10 + digit_value(c),
                digit_value(c) < 10,
        ;
        assert(decimal(v) =~= d);
    }
}

proof fn lemma_digit_run_of(x: Seq<char>, y: Seq<char>, p: int)
    requires
        0 <= p <= x.len(),
        forall|i: int| 0 <= i < x.len() ==> is_digit(#[trigger] x[i]),
        y.len() == 0 || !is_digit(y[0]),
    ensures
        digit_run(x + y, p) == x.len() - p,
    decreases x.len() - p,
{
    if p < x.len() {
        assert((x + y)[p] == x[p]);
        lemma_digit_run_of(x, y, p + 1);
    } else if y.len() > 0 {
        assert((x + y)[p] == y[0]);
    }
}

proof fn lemma_octet_of_text(n: u8, rest: Seq<char>)
    requires
        rest.len() == 0 || !is_digit(rest[0]),
    ensures
        octet_at(decimal(n as nat) + rest, 0) == Some((n, decimal(n as nat).len() as int)),
{
    reveal(octet_at);
    reveal(octet_dot_at);
    let x = decimal(n as nat);
    lemma_decimal_facts(n as nat);
    lemma_digit_run_of(x, rest, 0);
    assert((x + rest).subrange(0, x.len() as int) =~= x);
}

proof fn lemma_octet_shift(pre: Seq<char>, s: Seq<char>, p: int)
    requires
        0 <= p <= s.len(),
    ensures
        octet_at(pre + s, pre.len() + p) == match octet_at(s, p) {
            Some((v, q)) => Some((v, pre.len() + q)),
            None => None,
        },
        octet_dot_at(pre + s, pre.len() + p) == match octet_dot_at(s, p) {
            Some((v, q)) => Some((v, pre.len() + q)),
            None => None,
        },
{
    reveal(octet_at);
    reveal(octet_dot_at);
    lemma_digit_run_shift(pre, s, p);
    let n = digit_run(s, p);
    lemma_digit_run_le(s, p);
    assert((pre + s).subrange(pre.len() + p, pre.len() + p + n) =~= s.subrange(p, p + n));
    match octet_at(s, p) {
        Some((v, q)) => {
            if q < s.len() {
                assert((pre + s)[pre.len() + q] == s[q]);
            }
        },
        None => {},
    }
}

proof fn lemma_digit_run_le(s: Seq<char>, p: int)
    requires
        0 <= p <= s.len(),
    ensures
        p + digit_run(s, p) <= s.len(),
        forall|i: int| p <= i < p + digit_run(s, p) ==> is_digit(#[trigger] s[i]),
        p + digit_run(s, p) < s.len() ==> !is_digit(s[p + digit_run(s, p)]),
    decreases s.len() - p,
{
    if p < s.len() && is_digit(s[p]) {
        lemma_digit_run_le(s, p + 1);
    }
}

proof fn lemma_digit_run_shift(pre: Seq<char>, s: Seq<char>, p: int)
    requires
        0 <= p <= s.len(),
    ensures
        digit_run(pre + s, pre.len() + p) == digit_run(s, p),
    decreases s.len() - p,
{
    if p < s.len() {
        assert((pre + s)[pre.len() + p] == s[p]);
        if is_digit(s[p]) {
            lemma_digit_run_shift(pre, s, p + 1);
        }
    }
}

proof fn lemma_octet_dot_step(pre: Seq<char>, n: u8, rest: Seq<char>)
    requires
        rest.len() > 0,
        rest[0] == '.',
    ensures
        octet_dot_at(pre + (decimal(n as nat) + rest), pre.len() as int) == Some(
            (n, (pre.len() + decimal(n as nat).len() + 1) as int),
        ),
{
    reveal(octet_at);
    reveal(octet_dot_at);
    let x = decimal(n as nat);
    lemma_octet_of_text(n, rest);
    lemma_octet_shift(pre, x + rest, 0);
    assert((x + rest)[x.len() as int] == '.');
    assert((pre + (x + rest))[pre.len() + x.len() as int] == '.');
}

proof fn lemma_octet_last_step(pre: Seq<char>, n: u8)
    ensures
        octet_at(pre + decimal(n as nat), pre.len() as int) == Some(
            (n, (pre.len() + decimal(n as nat).len()) as int),
        ),
{
    let x = decimal(n as nat);
    let e: Seq<char> = Seq::empty();
    lemma_octet_of_text(n, e);
    assert(x + e =~= x);
    lemma_octet_shift(pre, x, 0);
}

/// Reading the text of an address gives the address back.
#[verifier::rlimit(50)]
pub proof fn lemma_ip_text_roundtrip(o: (u8, u8, u8, u8))
    ensures
        ip_fields(ip_text(o)) == Some(o),
{
    let d0 = decimal(o.0 as nat);
    let d1 = decimal(o.1 as nat);
    let d2 = decimal(o.2 as nat);
    let d3 = decimal(o.3 as nat);
    let dot = seq!['.'];
    let s = ip_text(o);
    let e: Seq<char> = Seq::empty();
    let r0 = dot + d1 + dot + d2 + dot + d3;
    let r1 = dot + d2 + dot + d3;
    let r2 = dot + d3;
    let q0 = d0 + dot;
    let q1 = d0 + dot + d1 + dot;
    let q2 = d0 + dot + d1 + dot + d2 + dot;
    assert(s =~= e + (d0 + r0));
    assert(s =~= q0 + (d1 + r1));
    assert(s =~= q1 + (d2 + r2));
    assert(s =~= q2 + d3);
    lemma_octet_dot_step(e, o.0, r0);
    lemma_octet_dot_step(q0, o.1, r1);
    lemma_octet_dot_step(q1, o.2, r2);
    lemma_octet_last_step(q2, o.3);
}

proof fn lemma_octet_text(s: Seq<char>, p: int)
    requires
        0 <= p <= s.len(),
        octet_at(s, p) is Some,
    ensures
        ({
            let (v, q) = octet_at(s, p).unwrap();
            s.subrange(p, q) == decimal(v as nat) && p < q <= s.len()
        }),
{
    reveal(octet_at);
    lemma_digit_run_le(s, p);
    let n = digit_run(s, p);
    let d = s.subrange(p, p + n);
    assert forall|i: int| 0 <= i < d.len() implies is_digit(#[trigger] d[i]) by {
        assert(d[i] == s[p + i]);
    }
    lemma_digits_are_decimal(d);
}

/// Only the text of an address reads as that address.
pub proof fn lemma_ip_fields_sound(s: Seq<char>)
    requires
        ip_fields(s) is Some,
    ensures
        ip_text(ip_fields(s).unwrap()) == s,
{
    let (a, p1) = octet_dot_at(s, 0).unwrap();
    lemma_octet_dot_text(s, 0);
    let (b, p2) = octet_dot_at(s, p1).unwrap();
    lemma_octet_dot_text(s, p1);
    let (c, p3) = octet_dot_at(s, p2).unwrap();
    lemma_octet_dot_text(s, p2);
    let (d, p4) = octet_at(s, p3).unwrap();
    lemma_octet_text(s, p3);
    let dot = seq!['.'];
    assert(s.subrange(0, p1) =~= s.subrange(0, p1 - 1) + dot);
    assert(s.subrange(p1, p2) =~= s.subrange(p1, p2 - 1) + dot);
    assert(s.subrange(p2, p3) =~= s.subrange(p2, p3 - 1) + dot);
    assert(s =~= s.subrange(0, p1) + s.subrange(p1, p2) + s.subrange(p2, p3) + s.subrange(p3, p4));
    assert(s =~= ip_text((a, b, c, d)));
}

proof fn lemma_octet_dot_text(s: Seq<char>, p: int)
    requires
        0 <= p <= s.len(),
        octet_dot_at(s, p) is Some,
    ensures
        ({
            let (v, q) = octet_dot_at(s, p).unwrap();
            p < q <= s.len() && s.subrange(p, q - 1) == decimal(v as nat) && s[q - 1] == '.'
        }),
{
    reveal(octet_dot_at);
    lemma_octet_text(s, p);
}

/// `s` is the text of an address exactly when it reads as one.
pub proof fn lemma_ip_fields_exact(s: Seq<char>)
    ensures
        is_ip_text(s) <==> ip_fields(s) is Some,
        ip_fields(s) matches Some(o) ==> ip_text(o) == s,
{
    if ip_fields(s) is Some {
        lemma_ip_fields_sound(s);
    }
    if is_ip_text(s) {
        let o = choose|o: (u8, u8, u8, u8)| ip_text(o) == s;
        lemma_ip_text_roundtrip(o);
    }
}


proof fn lemma_digit_run_exact(s: Seq<char>, p: int, q: int)
    requires
        0 <= p <= q <= s.len(),
        forall|i: int| p <= i < q ==> is_digit(#[trigger] s[i]),
        q == s.len() || !is_digit(s[q]),
    ensures
        digit_run(s, p) == q - p,
    decreases q - p,
{
    if p < q {
        lemma_digit_run_exact(s, p + 1, q);
    }
}

fn digit_at(c: char) -> (r: bool)
    ensures
        r == is_digit(c),
{
    '0' <= c && c <= '9'
}

/// Reads the octet written at position `p`.
fn read_octet(cs: &Vec<char>, p: usize) -> (r: Option<(u8, usize)>)
    requires
        p <= cs@.len(),
    ensures
        r is Some <==> octet_at(cs@, p as int) is Some,
        r matches Some((v, q)) ==> octet_at(cs@, p as int) == Some((v, q as int)) && q <= cs@.len(),
{
    reveal(octet_at);
    let mut q: usize = p;
    while q < cs.len() && digit_at(cs[q])
        invariant
            p <= q <= cs@.len(),
            forall|i: int| p <= i < q ==> is_digit(#[trigger] cs@[i]),
        decreases cs.len() - q,
    {
        q = q + 1;
    }
    proof {
        lemma_digit_run_exact(cs@, p as int, q as int);
    }
    let n = q - p;
    if n == 0 || n > 3 {
        return None;
    }
    if cs[p] == '0' && n > 1 {
        assert(cs@.subrange(p as int, q as int)[0] == cs@[p as int]);
        return None;
    }
    let mut v: u32 = 0;
    let mut k: usize = p;
    while k < q
        invariant
            p <= k <= q,
            q - p <= 3,
            q <= cs@.len(),
            forall|i: int| p <= i < q ==> is_digit(#[trigger] cs@[i]),
            v == digits_value(cs@.subrange(p as int, k as int)),
            k - p == 0 ==> v == 0,
            k - p == 1 ==> v < 10,
            k - p == 2 ==> v < 100,
            k - p == 3 ==> v < 1000,
        decreases q - k,
    {
        let c = cs[k];
        assert(is_digit(cs@[k as int]));
        let d = (c as u32) - ('0' as u32);
        proof {
            let sub = cs@.subrange(p as int, k + 1);
            assert(sub.drop_last() =~= cs@.subrange(p as int, k as int));
            assert(sub.last() == c);
        }
        v = v * 10 + d;
        k = k + 1;
    }
    assert(cs@.subrange(p as int, q as int)[0] == cs@[p as int]);
    if v > 255 {
        return None;
    }
    Some((v as u8, q))
}


fn read_octet_dot(cs: &Vec<char>, p: usize) -> (r: Option<(u8, usize)>)
    requires
        p <= cs@.len(),
    ensures
        r is Some <==> octet_dot_at(cs@, p as int) is Some,
        r matches Some((v, q)) ==> octet_dot_at(cs@, p as int) == Some((v, q as int)) && q <= cs@.len(),
{
    reveal(octet_dot_at);
    proof {
        if octet_at(cs@, p as int) is Some {
            lemma_octet_text(cs@, p as int);
        }
    }
    match read_octet(cs, p) {
        Some((v, q)) => {
            if q < cs.len() && cs[q] == '.' {
                Some((v, q + 1))
            } else {
                None
            }
        },
        None => None,
    }
}

/// Reads an IPv4 address from its dotted-quad text; `None` for any other text.
pub fn parse_ipv4(s: &str) -> (r: Option<(u8, u8, u8, u8)>)
    ensures
        r == ip_fields(s@),
        r is Some <==> is_ip_text(s@),
        r matches Some(o) ==> ip_text(o) == s@,
{
    proof {
        lemma_ip_fields_exact(s@);
    }
    let cs = chars_of(s);
    proof {
        if octet_dot_at(cs@, 0) is Some {
            lemma_octet_dot_text(cs@, 0);
            let p1 = octet_dot_at(cs@, 0).unwrap().1;
            if octet_dot_at(cs@, p1) is Some {
                lemma_octet_dot_text(cs@, p1);
                let p2 = octet_dot_at(cs@, p1).unwrap().1;
                if octet_dot_at(cs@, p2) is Some {
                    lemma_octet_dot_text(cs@, p2);
                    let p3 = octet_dot_at(cs@, p2).unwrap().1;
                    if octet_at(cs@, p3) is Some {
                        lemma_octet_text(cs@, p3);
                    }
                }
            }
        }
    }
    let (a, p1) = match read_octet_dot(&cs, 0) {
        Some(x) => x,
        None => return None,
    };
    assert(octet_dot_at(cs@, 0) == Some((a, p1 as int)));
    let (b, p2) = match read_octet_dot(&cs, p1) {
        Some(x) => x,
        None => {
            assert(octet_dot_at(cs@, p1 as int) is None);
            return None;
        },
    };
    assert(octet_dot_at(cs@, p1 as int) == Some((b, p2 as int)));
    let (c, p3) = match read_octet_dot(&cs, p2) {
        Some(x) => x,
        None => {
            assert(octet_dot_at(cs@, p2 as int) is None);
            return None;
        },
    };
    assert(octet_dot_at(cs@, p2 as int) == Some((c, p3 as int)));
    let (d, p4) = match read_octet(&cs, p3) {
        Some(x) => x,
        None => return None,
    };
    if p4 == cs.len() {
        Some((a, b, c, d))
    } else {
        None
    }
}

/// The dotted-quad text of an IPv4 address.
pub fn format_ipv4(o: (u8, u8, u8, u8)) -> (r: String)
    ensures
        r@ == ip_text(o),
{
    let mut r = String::new();
    push_decimal(&mut r, o.0 as u64);
    push_char(&mut r, '.');
    push_decimal(&mut r, o.1 as u64);
    push_char(&mut r, '.');
    push_decimal(&mut r, o.2 as u64);
    push_char(&mut r, '.');
    push_decimal(&mut r, o.3 as u64);
    assert(r@ =~= ip_text(o));
    r
}

/// The last octet of the `k`-th address tried: each retry adds the retry
/// number to the previous octet and wraps it into 2..=254.
pub open spec fn probe_octet(base: u8, k: nat) -> u8
    decreases k,
{
    if k == 0 {
        base
    } else {
        (2 + ((probe_octet(base, (k - 1) as nat) as nat + k) % 253)) as u8
    }
}

/// The `k`-th address tried, from the address the account and device hash to.
pub open spec fn candidate(base: (u8, u8, u8, u8), k: nat) -> (u8, u8, u8, u8) {
    (base.0, base.1, base.2, probe_octet(base.3, k))
}

/// The text of the first address from try `k` on that is not taken; at most
/// 255 addresses are tried.
pub open spec fn allocation(base: (u8, u8, u8, u8), taken: Seq<Seq<char>>, k: nat) -> Option<Seq<char>>
    decreases 255 - k,
{
    if k >= 255 {
        None
    } else if !taken.contains(ip_text(candidate(base, k))) {
        Some(ip_text(candidate(base, k)))
    } else {
        allocation(base, taken, k + 1)
    }
}

/// The virtual address a device ends up with: the one it has when that is a
/// valid address, else the first free one tried.
pub open spec fn chosen_address(existing: Option<Seq<char>>, base: (u8, u8, u8, u8), taken: Seq<Seq<char>>) -> Option<Seq<char>> {
    match existing {
        Some(e) => if is_ip_text(e) {
            Some(e)
        } else {
            allocation(base, taken, 0)
        },
        None => allocation(base, taken, 0),
    }
}


/// The text of an optional string.
pub open spec fn opt_text(s: Option<String>) -> Option<Seq<char>> {
    match s {
        Some(x) => Some(x@),
        None => None,
    }
}

/// The texts of the addresses in `list`.
pub open spec fn texts(list: Seq<String>) -> Seq<Seq<char>> {
    list.map_values(|x: String| x@)
}

proof fn lemma_allocation_found(base: (u8, u8, u8, u8), taken: Seq<Seq<char>>, k: nat)
    requires
        allocation(base, taken, k) is Some,
    ensures
        !taken.contains(allocation(base, taken, k).unwrap()),
        is_ip_text(allocation(base, taken, k).unwrap()),
    decreases 255 - k,
{
    if k < 255 && taken.contains(ip_text(candidate(base, k))) {
        lemma_allocation_found(base, taken, k + 1);
    }
}

/// The message when no free address was found.
pub open spec fn exhausted_message() -> Seq<char> {
    "failed to allocate unique virtual IP for account"@
}

/// The virtual-LAN address of a device: `existing` when it is a valid IPv4
/// address; else, starting from `base` (the address the account and device
/// hash to), the first address tried that is not in `taken`, the addresses of
/// the account's other active devices. After 255 tries it gives up.
pub fn ensure_virtual_ip(existing: Option<String>, base: (u8, u8, u8, u8), taken: &Vec<String>) -> (r: Result<String, ServerError>)
    ensures
        match chosen_address(opt_text(existing), base, texts(taken@)) {
            Some(a) => r matches Ok(ip) && ip@ == a,
            None => r matches Err(ServerError::Internal(m)) && m@ == exhausted_message(),
        },
{
    if let Some(ip) = &existing {
        if parse_ipv4(ip.as_str()).is_some() {
            return Ok(owned(ip.as_str()));
        }
    }
    let ghost t = texts(taken@);
    let mut last = base.3;
    let mut salt: u8 = 0;
    let mut text = format_ipv4((base.0, base.1, base.2, last));
    while contains_text(taken, text.as_str())
        invariant
            salt < 255,
            last == probe_octet(base.3, salt as nat),
            text@ == ip_text(candidate(base, salt as nat)),
            t == texts(taken@),
            allocation(base, t, 0) == allocation(base, t, salt as nat),
            chosen_address(opt_text(existing), base, t) == allocation(base, t, 0),
        decreases 255 - salt,
    {
        proof {
            assert(t.contains(text@)) by {
                let i = choose|i: int| 0 <= i < taken@.len() && taken@[i]@ == text@;
                assert(t[i] == taken@[i]@);
            }
        }
        let ghost k0 = salt as nat;
        assert(allocation(base, t, k0) == allocation(base, t, k0 + 1));
        salt = salt + 1;
        let host: u16 = 2 + ((last as u16 + salt as u16) % 253);
        last = host as u8;
        text = format_ipv4((base.0, base.1, base.2, last));
        if salt == 255 {
            assert(allocation(base, t, 255) is None);
            return Err(ServerError::Internal(String::from_str("failed to allocate unique virtual IP for account")));
        }
    }
    proof {
        if t.contains(text@) {
            let i = choose|i: int| 0 <= i < t.len() && t[i] == text@;
            assert(taken@[i]@ == text@);
        }
    }
    Ok(text)
}

/// A freshly allocated address is a valid IPv4 address that none of the
/// account's other devices holds.
pub proof fn lemma_allocated_address_is_free(base: (u8, u8, u8, u8), taken: Seq<Seq<char>>)
    requires
        allocation(base, taken, 0) is Some,
    ensures
        !taken.contains(allocation(base, taken, 0).unwrap()),
        is_ip_text(allocation(base, taken, 0).unwrap()),
{
    lemma_allocation_found(base, taken, 0);
}

/// The addresses held by the account's devices other than `device`, in order:
/// devices without an address are skipped.
pub open spec fn others_addresses(devices: Seq<(DeviceId, Option<String>)>, device: DeviceId) -> Seq<Seq<char>>
    decreases devices.len(),
{
    if devices.len() == 0 {
        Seq::empty()
    } else {
        let rest = others_addresses(devices.drop_last(), device);
        let (d, ip) = devices.last();
        if d == device {
            rest
        } else {
            match ip {
                Some(a) => rest.push(a@),
                None => rest,
            }
        }
    }
}

/// The virtual addresses held by the other devices, as `ensure_virtual_ip`
/// takes them.
pub fn taken_virtual_ips(devices: &Vec<(DeviceId, Option<String>)>, device: DeviceId) -> (r: Vec<String>)
    ensures
        texts(r@) == others_addresses(devices@, device),
{
    let mut r: Vec<String> = Vec::new();
    let mut i: usize = 0;
    while i < devices.len()
        invariant
            i <= devices@.len(),
            texts(r@) == others_addresses(devices@.subrange(0, i as int), device),
        decreases devices.len() - i,
    {
        proof {
            assert(devices@.subrange(0, i + 1).drop_last() =~= devices@.subrange(0, i as int));
        }
        let ghost before = r@;
        if devices[i].0 != device {
            if let Some(a) = &devices[i].1 {
                r.push(owned(a.as_str()));
                assert(texts(r@) =~= texts(before).push(a@));
            }
        }
        i = i + 1;
    }
    assert(devices@.subrange(0, devices@.len() as int) =~= devices@);
    r
}

} // verus!
