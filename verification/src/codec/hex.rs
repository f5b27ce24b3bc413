//! Bytes and numbers in hexadecimal.
use vstd::prelude::*;

verus! {

/// The digit of a number below 16.
pub open spec fn hex_digit(d: int) -> char {
    if d < 10 {
        (d + 48) as char
    } else {
        (d + 87) as char
    }
}

/// The two digits of each byte, one byte after another.
pub open spec fn hex_text(data: Seq<u8>) -> Seq<char>
    decreases data.len(),
{
    if data.len() == 0 {
        Seq::empty()
    } else {
        hex_text(data.drop_last()).push(hex_digit(data.last() as int / 16)).push(
            hex_digit(data.last() as int % 16),
        )
    }
}

/// A number in hexadecimal, without leading zeros.
pub open spec fn hex_number(n: nat) -> Seq<char>
    decreases n,
{
    if n < 16 {
        seq![hex_digit(n as int)]
    } else {
        hex_number(n / 16).push(hex_digit((n % 16) as int))
    }
}

fn digit(d: u8) -> (r: char)
    requires
        d < 16,
    ensures
        r == hex_digit(d as int),
{
    if d < 10 {
        (d + 48) as char
    } else {
        (d + 87) as char
    }
}

/// The bytes in lower-case hexadecimal, two digits each.
pub fn encode(data: &[u8]) -> (r: String)
    ensures
        r@ == hex_text(data@),
{
    let mut out = String::new();
    let mut i: usize = 0;
    assert(data@.subrange(0, 0) =~= Seq::<u8>::empty());
    while i < data.len()
        invariant
            i <= data@.len(),
            out@ == hex_text(data@.subrange(0, i as int)),
        decreases data@.len() - i,
    {
        assert(data@.subrange(0, i + 1).drop_last() =~= data@.subrange(0, i as int));
        out.push(digit(data[i] / 16));
        out.push(digit(data[i] % 16));
        i += 1;
    }
    assert(data@.subrange(0, data@.len() as int) =~= data@);
    out
}

/// A number in lower-case hexadecimal.
pub fn push_number(out: &mut String, n: u16)
    ensures
        final(out)@ == old(out)@ + hex_number(n as nat),
    decreases n,
{
    if n >= 16 {
        push_number(out, n / 16);
    }
    out.push(digit((n % 16) as u8));
}

/// Hexadecimal text has two digits per byte.
pub proof fn hex_text_len(data: Seq<u8>)
    ensures
        hex_text(data).len() == 2 * data.len(),
    decreases data.len(),
{
    if data.len() > 0 {
        hex_text_len(data.drop_last());
    }
}

/// Different bytes have different hexadecimal texts.
pub proof fn hex_text_injective(a: Seq<u8>, b: Seq<u8>)
    requires
        hex_text(a) == hex_text(b),
    ensures
        a == b,
    decreases a.len(),
{
    hex_text_len(a);
    hex_text_len(b);
    if a.len() > 0 {
        let x = hex_text(a);
        let n = x.len() as int;
        let p = hex_text(a.drop_last());
        let q = hex_text(b.drop_last());
        hex_text_len(a.drop_last());
        hex_text_len(b.drop_last());
        assert(p =~= x.subrange(0, n - 2));
        assert(q =~= x.subrange(0, n - 2));
        hex_text_injective(a.drop_last(), b.drop_last());
        assert(x[n - 2] == hex_digit(a.last() as int / 16) && x[n - 2] == hex_digit(
            b.last() as int / 16,
        ));
        assert(x[n - 1] == hex_digit(a.last() as int % 16) && x[n - 1] == hex_digit(
            b.last() as int % 16,
        ));
        assert(a.last() == b.last());
        assert(a =~= a.drop_last().push(a.last()));
        assert(b =~= b.drop_last().push(b.last()));
    } else {
        assert(a =~= b);
    }
}

} // verus!
