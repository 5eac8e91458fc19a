//! The HTTP response that reports the engine's telemetry as JSON.

use vstd::prelude::*;
use vstd::string::StringSliceAdditionalSpecFns;
use crate::text::{decimal_value, digit_value, is_decimal_digit, parse_u64, unsigned_digits};

verus! {

/// The JSON body up to the count of bytes written.
pub const BODY_OPEN: &'static str = "{\n  \"engine_status\": \"HYPERTOWER_ACTIVE\",\n  \"telemetry\": {\n    \"bytes_written_delta_100ms\": ";
/// The JSON body between the count of bytes written and the latency.
pub const BODY_MIDDLE: &'static str = ",\n    \"latency_us\": ";
/// The JSON body after the latency.
pub const BODY_CLOSE: &'static str = "\n  }\n}";
/// The response's head up to the body's length.
pub const HEAD_OPEN: &'static str = "HTTP/1.1 200 OK\r\nContent-Type: application/json\r\nContent-Length: ";
/// The response's head after the body's length.
pub const HEAD_CLOSE: &'static str = "\r\nConnection: close\r\n\r\n";

/// The ASCII bytes of the decimal digits of `n`.
pub open spec fn decimal_bytes(n: nat) -> Seq<u8>
    decreases n,
{
    if n < 10 {
        seq![(48 + n) as u8]
    } else {
        decimal_bytes(n / 10).push((48 + n % 10) as u8)
    }
}

/// The JSON body that reports `written` bytes and a latency of `latency_us`.
pub open spec fn telemetry_body(written: u64, latency_us: u128) -> Seq<u8> {
    BODY_OPEN.spec_bytes() + decimal_bytes(written as nat) + BODY_MIDDLE.spec_bytes()
        + decimal_bytes(latency_us as nat) + BODY_CLOSE.spec_bytes()
}

/// The whole response: its head, which gives the body's length in bytes,
/// then the body.
pub open spec fn telemetry_response(written: u64, latency_us: u128) -> Seq<u8> {
    let body = telemetry_body(written, latency_us);
    HEAD_OPEN.spec_bytes() + decimal_bytes(body.len()) + HEAD_CLOSE.spec_bytes() + body
}

/// The characters that the ASCII bytes `bytes` encode.
pub open spec fn ascii_chars(bytes: Seq<u8>) -> Seq<char> {
    bytes.map_values(|b: u8| b as char)
}

/// Every number the response carries reads back exactly: the decimal digits
/// written for `n` parse, as `str::parse::<u64>` parses, to `n` again.
pub proof fn lemma_decimal_reads_back(n: nat)
    requires
        n <= u64::MAX,
    ensures
        parse_u64(ascii_chars(decimal_bytes(n))) == Some(n as u64),
{
    lemma_decimal_digits(n);
    let s = ascii_chars(decimal_bytes(n));
    assert(unsigned_digits(s) == s);
}

/// `digits` is a field of decimal digits, at least one, spelling `n`.
pub open spec fn decimal_field(digits: Seq<u8>, n: nat) -> bool {
    let s = ascii_chars(digits);
    &&& s.len() > 0
    &&& forall|i: int| 0 <= i < s.len() ==> is_decimal_digit(#[trigger] s[i])
    &&& decimal_value(s) == n
}

/// The rendered response carries exactly the figures it was given: between
/// the fixed texts stand three fields of decimal digits, which read back as
/// the body's length in bytes (the Content-Length), as `written` (also by
/// `str::parse::<u64>`), and as `latency_us`.
pub proof fn lemma_response_reads_back(written: u64, latency_us: u128)
    ensures
        exists|length: Seq<u8>, bytes: Seq<u8>, latency: Seq<u8>|
            #![trigger decimal_field(length, (BODY_OPEN.spec_bytes() + bytes + BODY_MIDDLE.spec_bytes() + latency + BODY_CLOSE.spec_bytes()).len()), decimal_field(bytes, written as nat), decimal_field(latency, latency_us as nat)]
            {
                let body = BODY_OPEN.spec_bytes() + bytes + BODY_MIDDLE.spec_bytes() + latency
                    + BODY_CLOSE.spec_bytes();
                &&& telemetry_response(written, latency_us) == HEAD_OPEN.spec_bytes() + length
                    + HEAD_CLOSE.spec_bytes() + body
                &&& decimal_field(length, body.len())
                &&& decimal_field(bytes, written as nat)
                &&& parse_u64(ascii_chars(bytes)) == Some(written)
                &&& decimal_field(latency, latency_us as nat)
            },
{
    let bytes = decimal_bytes(written as nat);
    let latency = decimal_bytes(latency_us as nat);
    let body = BODY_OPEN.spec_bytes() + bytes + BODY_MIDDLE.spec_bytes() + latency
        + BODY_CLOSE.spec_bytes();
    let length = decimal_bytes(body.len());
    assert(body == telemetry_body(written, latency_us));
    lemma_decimal_digits(written as nat);
    lemma_decimal_digits(latency_us as nat);
    lemma_decimal_digits(body.len());
    lemma_decimal_reads_back(written as nat);
    assert(decimal_field(length, body.len()));
    assert(decimal_field(bytes, written as nat));
    assert(decimal_field(latency, latency_us as nat));
}

proof fn lemma_decimal_digits(n: nat)
    ensures
        ({
            let s = ascii_chars(decimal_bytes(n));
            &&& s.len() > 0
            &&& forall|i: int| 0 <= i < s.len() ==> is_decimal_digit(#[trigger] s[i])
            &&& decimal_value(s) == n
        }),
    decreases n,
{
    let s = ascii_chars(decimal_bytes(n));
    if n < 10 {
        let c = ((48 + n) as u8) as char;
        assert(s =~= seq![c]);
        assert(s.drop_last() =~= Seq::<char>::empty());
        assert(c as u32 == 48 + n);
        assert('0' as u32 == 48);
        assert(digit_value(c) == n);
        assert(is_decimal_digit(c));
        assert(decimal_value(s.drop_last()) == 0);
        assert(s.last() == c);
    } else {
        lemma_decimal_digits(n / 10);
        let p = ascii_chars(decimal_bytes(n / 10));
        let c = ((48 + n % 10) as u8) as char;
        assert(s =~= p.push(c));
        assert(s.drop_last() =~= p);
        assert(c as u32 == 48 + n % 10);
        assert(s.last() == c);
    }
}

/// Appends `bytes` to `out`.
fn append_bytes(out: &mut Vec<u8>, bytes: &[u8])
    ensures
        final(out)@ == old(out)@ + bytes@,
{
    let mut i: usize = 0;
    while i < bytes.len()
        invariant
            0 <= i <= bytes.len(),
            out@ == old(out)@ + bytes@.take(i as int),
        decreases bytes.len() - i,
    {
        out.push(bytes[i]);
        proof {
            assert(out@ =~= old(out)@ + bytes@.take(i + 1));
        }
        i = i + 1;
    }
    proof {
        assert(bytes@.take(bytes.len() as int) =~= bytes@);
    }
}

/// Appends the decimal digits of `n` to `out`.
fn append_decimal(out: &mut Vec<u8>, n: u128)
    ensures
        final(out)@ == old(out)@ + decimal_bytes(n as nat),
    decreases n,
{
    if n >= 10 {
        append_decimal(out, n / 10);
    }
    let digit: u8 = (48 + n % 10) as u8;
    out.push(digit);
    proof {
        if n >= 10 {
            assert(decimal_bytes(n as nat) == decimal_bytes((n / 10) as nat).push(digit));
        }
    }
}

/// The response that reports `bytes_written` bytes written in the last
/// sampling period and a handling latency of `latency_us` microseconds.
pub fn render_telemetry_response(bytes_written: u64, latency_us: u128) -> (response: Vec<u8>)
    ensures
        response@ == telemetry_response(bytes_written, latency_us),
{
    let mut body: Vec<u8> = Vec::new();
    append_bytes(&mut body, BODY_OPEN.as_bytes());
    append_decimal(&mut body, bytes_written as u128);
    append_bytes(&mut body, BODY_MIDDLE.as_bytes());
    append_decimal(&mut body, latency_us);
    append_bytes(&mut body, BODY_CLOSE.as_bytes());
    let mut response: Vec<u8> = Vec::new();
    append_bytes(&mut response, HEAD_OPEN.as_bytes());
    append_decimal(&mut response, body.len() as u128);
    append_bytes(&mut response, HEAD_CLOSE.as_bytes());
    append_bytes(&mut response, body.as_slice());
    response
}

} // verus!
