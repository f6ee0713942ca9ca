//! Fixed-width text building blocks: hexadecimal and decimal digits, padding.
use vstd::prelude::*;
use vstd::string::StringExecFns;

verus! {

/// The uppercase hexadecimal digit for `d` (meaningful for `d < 16`).
pub open spec fn hex_char(d: nat) -> char {
    seq!['0', '1', '2', '3', '4', '5', '6', '7', '8', '9', 'A', 'B', 'C', 'D', 'E', 'F'][d as int]
}

/// The decimal digit for `d` (meaningful for `d < 10`).
pub open spec fn dec_char(d: nat) -> char {
    hex_char(d)
}

/// The low `n` hexadecimal digits of `v`, most significant first, zero-padded.
pub open spec fn hex_fixed(v: nat, n: nat) -> Seq<char>
    decreases n,
{
    if n == 0 {
        Seq::empty()
    } else {
        hex_fixed(v / 16, (n - 1) as nat).push(hex_char(v % 16))
    }
}

/// The decimal notation of `v`, without leading zeros.
pub open spec fn dec(v: nat) -> Seq<char>
    decreases v,
{
    if v < 10 {
        seq![dec_char(v)]
    } else {
        dec(v / 10).push(dec_char(v % 10))
    }
}

/// `n` spaces.
pub open spec fn spaces(n: nat) -> Seq<char> {
    Seq::new(n, |i: int| ' ')
}

/// `s` right-justified in a field of `w` characters.
pub open spec fn pad_left(s: Seq<char>, w: nat) -> Seq<char> {
    if s.len() < w {
        spaces((w - s.len()) as nat) + s
    } else {
        s
    }
}

/// Relies on `String::push`: appends one character at the end.
#[verifier::external_body]
pub(crate) fn push_char(s: &mut String, c: char)
    ensures
        final(s)@ == old(s)@.push(c),
{
    s.push(c);
}

/// Appends every character of `t` to `s`.
pub fn push_str(s: &mut String, t: &str)
    ensures
        final(s)@ == old(s)@ + t@,
{
    s.append(t);
}

pub(crate) fn digit_char(d: u64) -> (c: char)
    requires
        d < 16,
    ensures
        c == hex_char(d as nat),
{
    let digits = ['0', '1', '2', '3', '4', '5', '6', '7', '8', '9', 'A', 'B', 'C', 'D', 'E', 'F'];
    digits[d as usize]
}

/// Appends the low `n` hexadecimal digits of `v`, zero-padded.
pub fn push_hex(s: &mut String, v: u64, n: u32)
    ensures
        final(s)@ == old(s)@ + hex_fixed(v as nat, n as nat),
    decreases n,
{
    if n > 0 {
        push_hex(s, v / 16, n - 1);
        push_char(s, digit_char(v % 16));
        assert(hex_fixed(v as nat, n as nat) == hex_fixed((v / 16) as nat, (n - 1) as nat).push(
            hex_char((v % 16) as nat),
        ));
    } else {
        assert(hex_fixed(v as nat, 0) =~= Seq::<char>::empty());
    }
}

/// Appends the decimal notation of `v`.
pub fn push_dec(s: &mut String, v: u128)
    ensures
        final(s)@ == old(s)@ + dec(v as nat),
    decreases v,
{
    if v >= 10 {
        push_dec(s, v / 10);
    }
    push_char(s, digit_char((v % 10) as u64));
    assert(dec_char((v % 10) as nat) == hex_char((v % 10) as nat));
    if v < 10 {
        assert(dec(v as nat) =~= seq![dec_char(v as nat)]);
    }
}

/// The number of decimal digits of `v`.
pub fn dec_width(v: u128) -> (r: u128)
    ensures
        r == dec(v as nat).len(),
        r <= v + 1,
    decreases v,
{
    if v < 10 {
        1
    } else {
        dec_width(v / 10) + 1
    }
}

/// Appends the spaces that right-justify text of `len` characters in a field of `w`.
pub fn push_padding(s: &mut String, len: u128, w: u128)
    ensures
        final(s)@ == old(s)@ + (if len < w { spaces((w - len) as nat) } else { Seq::empty() }),
{
    let mut k: u128 = len;
    while k < w
        invariant
            len <= k,
            len < w ==> k <= w,
            len >= w ==> k == len,
            s@ == old(s)@ + spaces((k - len) as nat),
        decreases w - k,
    {
        push_char(s, ' ');
        k = k + 1;
        assert(spaces((k - len) as nat) =~= spaces((k - 1 - len) as nat).push(' '));
    }
    if len >= w {
        assert(spaces(0) =~= Seq::<char>::empty());
        assert(s@ =~= old(s)@ + Seq::<char>::empty());
    } else {
        assert(k == w);
    }
}

/// Appends the decimal notation of `v`, right-justified in a field of `w`.
pub fn push_dec_padded(s: &mut String, v: u128, w: u128)
    ensures
        final(s)@ == old(s)@ + pad_left(dec(v as nat), w as nat),
{
    let n = dec_width(v);
    push_padding(s, n, w);
    push_dec(s, v);
    if n >= w {
        assert(old(s)@ + Seq::<char>::empty() =~= old(s)@);
    }
    assert(s@ =~= old(s)@ + pad_left(dec(v as nat), w as nat));
}

} // verus!
