//! Human-readable sizes of page counts.
use vstd::prelude::*;
use vstd::arithmetic::div_mod::lemma_fundamental_div_mod_converse;
use crate::text::{dec, dec_char, pad_left, push_char, push_dec, push_padding, dec_width, digit_char};

verus! {

/// `a / d` rounded to the nearest integer, ties to the even neighbour.
pub open spec fn round_half_even(a: nat, d: nat) -> nat {
    let q = a / d;
    let r = a % d;
    if 2 * r > d || (2 * r == d && q % 2 == 1) {
        q + 1
    } else {
        q
    }
}

/// The number of bytes in `pages` pages.
pub open spec fn bytes_of(pages: nat) -> nat {
    pages * 4096
}

/// The unit a byte count is shown in: `B`, `KB`, `MB` or `GB`.
pub open spec fn size_unit(bytes: nat) -> Seq<char> {
    if bytes < 1024 {
        seq!['B']
    } else if bytes < 1024 * 1024 {
        seq!['K', 'B']
    } else if bytes < 1024 * 1024 * 1024 {
        seq!['M', 'B']
    } else {
        seq!['G', 'B']
    }
}

/// The number of bytes in one of the units chosen for `bytes`.
pub open spec fn unit_bytes(bytes: nat) -> nat {
    if bytes < 1024 {
        1
    } else if bytes < 1024 * 1024 {
        1024
    } else if bytes < 1024 * 1024 * 1024 {
        1024 * 1024
    } else {
        1024 * 1024 * 1024
    }
}

/// Width of the numeric field: six for bytes, five for the larger units.
pub open spec fn size_width(bytes: nat) -> nat {
    if bytes < 1024 {
        6
    } else {
        5
    }
}

/// The size in tenths of its unit, rounded.
pub open spec fn size_tenths(pages: nat) -> nat {
    round_half_even(bytes_of(pages) * 10, unit_bytes(bytes_of(pages)))
}

/// A count of tenths written with one digit after the decimal point.
pub open spec fn one_decimal(t: nat) -> Seq<char> {
    dec(t / 10) + seq!['.', dec_char(t % 10)]
}

/// The number part of the size of `pages` pages, right-justified.
pub open spec fn size_number(pages: nat) -> Seq<char> {
    pad_left(one_decimal(size_tenths(pages)), size_width(bytes_of(pages)))
}

/// The size of `pages` pages: the number, a space, the unit.
pub open spec fn size_text(pages: nat) -> Seq<char> {
    size_number(pages) + seq![' '] + size_unit(bytes_of(pages))
}

proof fn lemma_scaled_round(n: nat, m: nat, q: nat, r: nat)
    requires
        m > 0,
        r < m,
        n * 10 == q * m + r,
    ensures
        round_half_even(n * 4096 * 10, m * 4096) == (if 2 * r > m || (2 * r == m && q % 2 == 1) {
            q + 1
        } else {
            q
        }),
{
    let x = (n * 4096 * 10) as int;
    let d = (m * 4096) as int;
    assert(x == q * d + r * 4096) by (nonlinear_arith)
        requires
            n * 10 == q * m + r,
            x == n * 4096 * 10,
            d == m * 4096,
    ;
    assert(r * 4096 < d) by (nonlinear_arith)
        requires
            r < m,
            d == m * 4096,
    ;
    lemma_fundamental_div_mod_converse(x, d, q as int, (r * 4096) as int);
    assert(2 * (r * 4096) > d <==> 2 * r > m) by (nonlinear_arith)
        requires
            d == m * 4096,
    ;
    assert(2 * (r * 4096) == d <==> 2 * r == m) by (nonlinear_arith)
        requires
            d == m * 4096,
    ;
}

/// The size in tenths of a unit, for `pages` of at least 256, with `m` the unit in pages.
fn rounded_tenths(pages: u128, m: u128) -> (t: u128)
    requires
        m == 256 || m == 256 * 1024,
        pages >= 256,
    ensures
        t == round_half_even((pages * 4096 * 10) as nat, (m * 4096) as nat),
{
    let q = pages / m;
    let r = pages % m;
    assert(q * 256 <= pages) by (nonlinear_arith)
        requires
            q == pages / m,
            m >= 256,
    ;
    let r10 = r * 10;
    let q2 = r10 / m;
    let r2 = r10 % m;
    assert(q2 < 10) by (nonlinear_arith)
        requires
            r < m,
            q2 == r10 / m,
            r10 == r * 10,
            m > 0,
    ;
    let base = q * 10 + q2;
    assert(pages * 10 == base * m + r2) by (nonlinear_arith)
        requires
            pages == q * m + r,
            r * 10 == q2 * m + r2,
            base == q * 10 + q2,
    ;
    proof {
        lemma_scaled_round(pages as nat, m as nat, base as nat, r2 as nat);
    }
    if 2 * r2 > m || (2 * r2 == m && base % 2 == 1) {
        base + 1
    } else {
        base
    }
}

/// The size of `pages` pages as text: the value in the largest unit of `B`, `KB`, `MB`, `GB`
/// that it reaches, with one decimal, right-justified in six characters for bytes and in five
/// for the other units, then a space and the unit.
/// Every page count is shown exactly; ties in the last decimal go to the even digit.
pub fn format_size(pages: u128) -> (r: String)
    ensures
        r@ == size_text(pages as nat),
{
    let ghost bytes = bytes_of(pages as nat);
    let t: u128;
    if pages == 0 {
        t = 0;
        proof {
            lemma_fundamental_div_mod_converse(0, 1, 0, 0);
        }
    } else if pages < 256 {
        t = pages * 40;
        assert(bytes >= 1024 && bytes < 1024 * 1024);
        proof {
            lemma_fundamental_div_mod_converse((bytes * 10) as int, 1024, (pages * 40) as int, 0);
        }
    } else if pages < 256 * 1024 {
        t = rounded_tenths(pages, 256);
        assert(bytes >= 1024 * 1024 && bytes < 1024 * 1024 * 1024);
        assert(256 * 4096 == 1024 * 1024);
    } else {
        t = rounded_tenths(pages, 256 * 1024);
        assert(bytes >= 1024 * 1024 * 1024);
        assert(256 * 1024 * 4096 == 1024 * 1024 * 1024);
    }
    assert(t == size_tenths(pages as nat));
    let mut s = String::new();
    let w: u128 = if pages == 0 { 6 } else { 5 };
    let n = dec_width(t / 10);
    push_padding(&mut s, n + 2, w);
    push_dec(&mut s, t / 10);
    push_char(&mut s, '.');
    push_char(&mut s, digit_char((t % 10) as u64));
    push_char(&mut s, ' ');
    if pages == 0 {
        push_char(&mut s, 'B');
    } else {
        if pages < 256 {
            push_char(&mut s, 'K');
        } else if pages < 256 * 1024 {
            push_char(&mut s, 'M');
        } else {
            push_char(&mut s, 'G');
        }
        push_char(&mut s, 'B');
    }
    assert(dec_char((t % 10) as nat) == crate::text::hex_char((t % 10) as nat));
    assert(one_decimal(t as nat).len() == n + 2);
    assert(s@ =~= size_text(pages as nat));
    s
}

/// The unit of a size is `B` exactly below 1024 bytes, `KB` below 1024², `MB` below 1024³,
/// and `GB` from there on; the number before it has exactly one digit after its decimal point.
pub proof fn lemma_size_shape(p: nat)
    ensures
        size_text(p) == size_number(p) + seq![' '] + size_unit(bytes_of(p)),
        (size_unit(bytes_of(p)) == seq!['B']) == (bytes_of(p) < 1024),
        (size_unit(bytes_of(p)) == seq!['K', 'B']) == (1024 <= bytes_of(p) < 1024 * 1024),
        (size_unit(bytes_of(p)) == seq!['M', 'B']) == (1024 * 1024 <= bytes_of(p) < 1024 * 1024
            * 1024),
        (size_unit(bytes_of(p)) == seq!['G', 'B']) == (1024 * 1024 * 1024 <= bytes_of(p)),
        size_number(p).len() >= 3,
        size_number(p)[size_number(p).len() - 2] == '.',
        '0' <= size_number(p)[size_number(p).len() - 1] <= '9',
{
    let b = bytes_of(p);
    let kb = seq!['K', 'B'];
    let mb = seq!['M', 'B'];
    let gb = seq!['G', 'B'];
    assert(kb[0] == 'K' && mb[0] == 'M' && gb[0] == 'G');
    assert(seq!['B'].len() == 1 && kb.len() == 2);
    let t = size_tenths(p);
    let o = one_decimal(t);
    let n = size_number(p);
    let d = dec(t / 10);
    assert(o.len() == d.len() + 2);
    assert(o[o.len() - 2] == '.');
    assert(o[o.len() - 1] == dec_char(t % 10));
    assert(n.len() >= o.len());
    assert(n[n.len() - 2] == o[o.len() - 2]);
    assert(n[n.len() - 1] == o[o.len() - 1]);
    lemma_dec_len(t / 10);
}

proof fn lemma_dec_len(v: nat)
    ensures
        dec(v).len() >= 1,
    decreases v,
{
    if v >= 10 {
        lemma_dec_len(v / 10);
    }
}

} // verus!
