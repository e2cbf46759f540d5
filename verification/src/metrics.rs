//! The metrics wire encoding: one line of
//! `name,key1=val1,key2=val2 metric=<value>`, and the decimal formatting of
//! the two kinds of value the controller publishes (a whole rate, and a
//! temperature with two decimals).

use vstd::prelude::*;

verus! {

pub const COMMA: u8 = 44;

pub const EQUALS_BYTE: u8 = 61;

pub const SPACE: u8 = 32;

pub const DOT: u8 = 46;

pub const MINUS_BYTE: u8 = 45;

/// Decimal digit bytes of a non-negative number, most significant first.
pub open spec fn dec_rep(n: int) -> Seq<u8>
    decreases n when 0 <= n
{
    if n < 10 {
        seq![(n + 48) as u8]
    } else {
        dec_rep(n / 10).push((n % 10 + 48) as u8)
    }
}

/// Decimal digit bytes of `n`.
pub fn format_u64(n: u64) -> (r: Vec<u8>)
    ensures
        r@ == dec_rep(n as int),
    decreases n,
{
    if n < 10 {
        let mut v: Vec<u8> = Vec::new();
        v.push((n + 48) as u8);
        proof {
            assert(v@ =~= dec_rep(n as int));
        }
        v
    } else {
        let mut v = format_u64(n / 10);
        v.push((n % 10 + 48) as u8);
        v
    }
}

/// A count of hundredths rendered with two decimals: an optional minus
/// sign, the whole part, a dot, and exactly two fraction digits.
pub open spec fn centi_rep(v: int) -> Seq<u8> {
    if v < 0 {
        seq![MINUS_BYTE] + centi_rep_nonneg(-v)
    } else {
        centi_rep_nonneg(v)
    }
}

pub open spec fn centi_rep_nonneg(m: int) -> Seq<u8> {
    dec_rep(m / 100) + seq![DOT, (m % 100 / 10 + 48) as u8, (m % 100 % 10 + 48) as u8]
}

/// Render a count of hundredths (for the controller: a temperature in
/// hundredths of a degree Fahrenheit) with two decimals.
pub fn format_centi(v: i64) -> (r: Vec<u8>)
    ensures
        r@ == centi_rep(v as int),
{
    let mag: u64 = if v < 0 {
        (-(v + 1)) as u64 + 1
    } else {
        v as u64
    };
    let mut out: Vec<u8> = Vec::new();
    if v < 0 {
        out.push(MINUS_BYTE);
    }
    let mut digits = format_u64(mag / 100);
    out.append(&mut digits);
    out.push(DOT);
    out.push((mag % 100 / 10 + 48) as u8);
    out.push((mag % 100 % 10 + 48) as u8);
    proof {
        if v < 0 {
            assert(out@ =~= seq![MINUS_BYTE] + centi_rep_nonneg(mag as int));
        } else {
            assert(out@ =~= centi_rep_nonneg(mag as int));
        }
    }
    out
}

/// The comma-joined `key=value` pairs of a metric line.
pub open spec fn attrs_rep(attrs: Seq<(Seq<u8>, Seq<u8>)>) -> Seq<u8>
    decreases attrs.len(),
{
    if attrs.len() == 0 {
        Seq::empty()
    } else if attrs.len() == 1 {
        attrs[0].0 + seq![EQUALS_BYTE] + attrs[0].1
    } else {
        attrs_rep(attrs.drop_last()) + seq![COMMA] + attrs.last().0 + seq![EQUALS_BYTE]
            + attrs.last().1
    }
}

/// The whole wire line: name, a comma, the joined attributes, then a space
/// and `metric=` before the value.
pub open spec fn metric_line_rep(
    name: Seq<u8>,
    attrs: Seq<(Seq<u8>, Seq<u8>)>,
    value: Seq<u8>,
) -> Seq<u8> {
    name + seq![COMMA] + attrs_rep(attrs) + seq![
        SPACE,
        109u8,
        101u8,
        116u8,
        114u8,
        105u8,
        99u8,
        EQUALS_BYTE,
    ] + value
}

/// The attribute pairs as the sequences of bytes they hold.
pub open spec fn attrs_view(attrs: Vec<(Vec<u8>, Vec<u8>)>) -> Seq<(Seq<u8>, Seq<u8>)> {
    attrs@.map_values(|p: (Vec<u8>, Vec<u8>)| (p.0@, p.1@))
}

fn push_all(dst: &mut Vec<u8>, src: &[u8])
    ensures
        final(dst)@ == old(dst)@ + src@,
{
    let mut i: usize = 0;
    proof {
        assert(dst@ =~= dst@ + src@.subrange(0, 0));
    }
    while i < src.len()
        invariant
            i <= src@.len(),
            dst@ == old(dst)@ + src@.subrange(0, i as int),
        decreases src@.len() - i,
    {
        dst.push(src[i]);
        proof {
            assert(old(dst)@ + src@.subrange(0, i + 1) =~= (old(dst)@ + src@.subrange(
                0,
                i as int,
            )).push(src@[i as int]));
        }
        i += 1;
    }
    proof {
        assert(src@.subrange(0, src@.len() as int) =~= src@);
    }
}

/// Encode one metric line as the publisher sends it.
pub fn encode_metric_line(name: &[u8], attrs: &Vec<(Vec<u8>, Vec<u8>)>, value: &[u8]) -> (r: Vec<
    u8,
>)
    ensures
        r@ == metric_line_rep(name@, attrs_view(*attrs), value@),
{
    let ghost av = attrs_view(*attrs);
    let mut out: Vec<u8> = Vec::new();
    push_all(&mut out, name);
    out.push(COMMA);
    let mut k: usize = 0;
    proof {
        assert(av.subrange(0, 0) =~= Seq::<(Seq<u8>, Seq<u8>)>::empty());
        assert(out@ =~= name@ + seq![COMMA] + attrs_rep(av.subrange(0, 0)));
    }
    while k < attrs.len()
        invariant
            k <= attrs@.len(),
            av == attrs_view(*attrs),
            out@ == name@ + seq![COMMA] + attrs_rep(av.subrange(0, k as int)),
        decreases attrs@.len() - k,
    {
        if k > 0 {
            out.push(COMMA);
        }
        push_all(&mut out, attrs[k].0.as_slice());
        out.push(EQUALS_BYTE);
        push_all(&mut out, attrs[k].1.as_slice());
        proof {
            let prefix = av.subrange(0, k as int);
            let next = av.subrange(0, k + 1);
            assert(next.drop_last() =~= prefix);
            assert(next.last() == (attrs@[k as int].0@, attrs@[k as int].1@));
            if k == 0 {
                assert(attrs_rep(next) == next[0].0 + seq![EQUALS_BYTE] + next[0].1);
            }
            assert(out@ =~= name@ + seq![COMMA] + attrs_rep(next));
        }
        k += 1;
    }
    proof {
        assert(av.subrange(0, av.len() as int) =~= av);
    }
    out.push(SPACE);
    out.push(109);
    out.push(101);
    out.push(116);
    out.push(114);
    out.push(105);
    out.push(99);
    out.push(EQUALS_BYTE);
    push_all(&mut out, value);
    proof {
        assert(out@ =~= metric_line_rep(name@, av, value@));
    }
    out
}

} // verus!
