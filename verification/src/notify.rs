use vstd::prelude::*;

use vstd::string::StringSliceAdditionalSpecFns;
use vstd::utf8::encode_utf8;

use crate::model::{Claims, Purchase};

verus! {

/// The lower-case hexadecimal digit of a value below sixteen.
pub open spec fn spec_hex_digit(n: u8) -> u8 {
    if n < 10 {
        (0x30 + n) as u8
    } else {
        (0x57 + n) as u8
    }
}

fn hex_digit(n: u8) -> (r: u8)
    requires
        n < 16,
    ensures
        r == spec_hex_digit(n),
{
    if n < 10 {
        0x30 + n
    } else {
        0x57 + n
    }
}

/// The bytes that stand for the byte `b` inside a JSON string literal:
/// quote, backslash and the control bytes are escaped as the canonical JSON
/// serializers escape them, and every other byte stands unchanged.
pub open spec fn escape_byte(b: u8) -> Seq<u8> {
    if b == 0x22 {
        seq![0x5cu8, 0x22u8]
    } else if b == 0x5c {
        seq![0x5cu8, 0x5cu8]
    } else if b == 0x08 {
        seq![0x5cu8, 0x62u8]
    } else if b == 0x09 {
        seq![0x5cu8, 0x74u8]
    } else if b == 0x0a {
        seq![0x5cu8, 0x6eu8]
    } else if b == 0x0c {
        seq![0x5cu8, 0x66u8]
    } else if b == 0x0d {
        seq![0x5cu8, 0x72u8]
    } else if b < 0x20 {
        seq![0x5cu8, 0x75u8, 0x30u8, 0x30u8, spec_hex_digit(b / 16), spec_hex_digit(b % 16)]
    } else {
        seq![b]
    }
}

/// A byte string escaped for use inside a JSON string literal.
pub open spec fn json_escaped(s: Seq<u8>) -> Seq<u8>
    decreases s.len(),
{
    if s.len() == 0 {
        Seq::empty()
    } else {
        json_escaped(s.drop_last()) + escape_byte(s.last())
    }
}

pub proof fn lemma_json_escaped_push(s: Seq<u8>, x: u8)
    ensures
        json_escaped(s.push(x)) == json_escaped(s) + escape_byte(x),
{
    assert(s.push(x).drop_last() =~= s);
}

/// The decimal digits of `n`, most significant first.
pub open spec fn dec_u64(n: u64) -> Seq<u8>
    decreases n,
{
    if n < 10 {
        seq![(0x30 + n) as u8]
    } else {
        dec_u64(n / 10).push((0x30 + n % 10) as u8)
    }
}

/// The decimal rendering of `v`, with a leading minus sign when negative.
pub open spec fn dec_i32(v: i32) -> Seq<u8> {
    if v < 0 {
        seq![0x2du8] + dec_u64((-(v as int)) as u64)
    } else {
        dec_u64(v as u64)
    }
}

/// Appends the bytes of `s`, escaped for a JSON string literal.
fn push_escaped(out: &mut Vec<u8>, s: &str)
    ensures
        final(out)@ == old(out)@ + json_escaped(s.spec_bytes()),
{
    let bytes = s.as_bytes();
    let n = bytes.len();
    let ghost base = out@;
    for i in 0..n
        invariant
            n == bytes@.len(),
            bytes@ == s.spec_bytes(),
            out@ =~= base + json_escaped(bytes@.subrange(0, i as int)),
    {
        let ghost pre = bytes@.subrange(0, i as int);
        let ghost cur = out@;
        let b = bytes[i];
        proof {
            assert(bytes@.subrange(0, i as int + 1) =~= pre.push(b));
            lemma_json_escaped_push(pre, b);
        }
        if b == 0x22 {
            out.push(0x5c);
            out.push(0x22);
        } else if b == 0x5c {
            out.push(0x5c);
            out.push(0x5c);
        } else if b == 0x08 {
            out.push(0x5c);
            out.push(0x62);
        } else if b == 0x09 {
            out.push(0x5c);
            out.push(0x74);
        } else if b == 0x0a {
            out.push(0x5c);
            out.push(0x6e);
        } else if b == 0x0c {
            out.push(0x5c);
            out.push(0x66);
        } else if b == 0x0d {
            out.push(0x5c);
            out.push(0x72);
        } else if b < 0x20 {
            out.push(0x5c);
            out.push(0x75);
            out.push(0x30);
            out.push(0x30);
            out.push(hex_digit(b / 16));
            out.push(hex_digit(b % 16));
        } else {
            out.push(b);
        }
        proof {
            assert(out@ =~= cur + escape_byte(b));
        }
    }
    proof {
        assert(bytes@.subrange(0, n as int) =~= bytes@);
    }
}

/// Appends the decimal digits of `n`.
fn push_dec_u64(out: &mut Vec<u8>, n: u64)
    ensures
        final(out)@ == old(out)@ + dec_u64(n),
{
    let ghost base = out@;
    let mut digits: Vec<u8> = Vec::new();
    let mut cur: u64 = n;
    while cur >= 10
        invariant
            dec_u64(n) =~= dec_u64(cur) + digits@.reverse(),
        decreases cur,
    {
        let ghost dpre = digits@;
        let d: u8 = 0x30 + ((cur % 10) as u8);
        digits.push(d);
        proof {
            assert(digits@.reverse() =~= seq![d] + dpre.reverse());
            assert(dec_u64(cur) =~= dec_u64(cur / 10) + seq![d]);
            assert(dec_u64(cur / 10) + digits@.reverse() =~= dec_u64(cur) + dpre.reverse());
        }
        cur = cur / 10;
    }
    let d: u8 = 0x30 + ((cur % 10) as u8);
    let ghost dpre = digits@;
    digits.push(d);
    proof {
        assert(cur % 10 == cur);
        assert(dec_u64(cur) =~= seq![d]);
        assert(digits@.reverse() =~= seq![d] + dpre.reverse());
        assert(dec_u64(n) =~= digits@.reverse());
    }
    let m = digits.len();
    for j in 0..m
        invariant
            m == digits@.len(),
            dec_u64(n) =~= digits@.reverse(),
            out@ =~= base + dec_u64(n).subrange(0, j as int),
    {
        out.push(digits[m - 1 - j]);
        proof {
            assert(dec_u64(n).subrange(0, j as int + 1) =~= dec_u64(n).subrange(0, j as int).push(
                digits@[m - 1 - j as int],
            ));
        }
    }
    proof {
        assert(dec_u64(n).subrange(0, m as int) =~= dec_u64(n));
    }
}

/// Appends the decimal rendering of `v`.
fn push_dec_i32(out: &mut Vec<u8>, v: i32)
    ensures
        final(out)@ == old(out)@ + dec_i32(v),
{
    if v < 0 {
        out.push(0x2d);
        let mag: u64 = (-(v as i64)) as u64;
        push_dec_u64(out, mag);
    } else {
        push_dec_u64(out, v as u64);
    }
}

/// Appends the bytes of `s` unchanged.
fn push_lit(out: &mut Vec<u8>, s: &str)
    ensures
        final(out)@ == old(out)@ + s.spec_bytes(),
{
    out.extend_from_slice(s.as_bytes());
}

/// The payment-notification message published after a successful payment: a
/// JSON object carrying the purchase, its owner and the payment timestamp,
/// with its keys in canonical (sorted) order and its strings escaped as
/// `escape_byte` prescribes.
pub open spec fn payment_payload(p: Purchase, claims: Claims, fecha_pago: Seq<char>) -> Seq<u8> {
    encode_utf8("{\"cantidad\":"@) + dec_i32(p.cantidad) + encode_utf8(",\"compra_id\":\""@)
        + dec_u64(p.id) + encode_utf8("\",\"correo\":\""@) + json_escaped(
        encode_utf8(claims.email@),
    ) + encode_utf8("\",\"evento_id\":"@) + dec_i32(p.evento_id) + encode_utf8(
        ",\"fecha_pago\":\""@,
    ) + json_escaped(encode_utf8(fecha_pago)) + encode_utf8("\",\"nombre\":\""@) + json_escaped(
        encode_utf8(claims.name@),
    ) + encode_utf8("\",\"tipo\":\"pago_confirmado\",\"usuario_id\":\""@) + json_escaped(
        encode_utf8(claims.sub@),
    ) + encode_utf8("\"}"@)
}

/// Frames the payment notification for `p`, owned by `claims`, paid at
/// `fecha_pago`. The surrounding application publishes these bytes to the
/// message broker; a failure there never surfaces to the payment's caller.
pub fn payment_notification(p: &Purchase, claims: &Claims, fecha_pago: &str) -> (r: Vec<u8>)
    ensures
        r@ == payment_payload(*p, *claims, fecha_pago@),
{
    let mut out: Vec<u8> = Vec::new();
    push_lit(&mut out, "{\"cantidad\":");
    push_dec_i32(&mut out, p.cantidad);
    push_lit(&mut out, ",\"compra_id\":\"");
    push_dec_u64(&mut out, p.id);
    push_lit(&mut out, "\",\"correo\":\"");
    push_escaped(&mut out, claims.email.as_str());
    push_lit(&mut out, "\",\"evento_id\":");
    push_dec_i32(&mut out, p.evento_id);
    push_lit(&mut out, ",\"fecha_pago\":\"");
    push_escaped(&mut out, fecha_pago);
    push_lit(&mut out, "\",\"nombre\":\"");
    push_escaped(&mut out, claims.name.as_str());
    push_lit(&mut out, "\",\"tipo\":\"pago_confirmado\",\"usuario_id\":\"");
    push_escaped(&mut out, claims.sub.as_str());
    push_lit(&mut out, "\"}");
    proof {
        assert(out@ =~= payment_payload(*p, *claims, fecha_pago@));
    }
    out
}

/// Frames the payment notification stamped with the current wall-clock time.
pub fn payment_notification_now(p: &Purchase, claims: &Claims) -> (r: Vec<u8>)
    ensures
        exists|fecha: Seq<char>| r@ == payment_payload(*p, *claims, fecha),
{
    let fecha = crate::clock::now_rfc3339();
    let r = payment_notification(p, claims, fecha.as_str());
    proof {
        assert(r@ == payment_payload(*p, *claims, fecha@));
    }
    r
}

} // verus!
