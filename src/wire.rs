//! The service's requests in protobuf wire form, written through protobuf's
//! coded output stream. Singular fields that hold their default value (an
//! empty string, a zero) are left out, as proto3 does; a set one-of or
//! message field is always written.
use vstd::prelude::*;
use vstd::string::StringSliceAdditionalSpecFns;
use vstd::utf8::encode_utf8;
use crate::message::{ClientConfig, ClientTokenRequest, Screen};

verus! {

/// The largest field number that protobuf accepts.
pub const FIELD_NUMBER_MAX: u32 = 0x1fff_ffff;

/// The largest byte length of a string field that the encoder takes.
pub const MAX_TEXT_LEN: usize = 0xff_ffff;

/// Request discriminant of a client-data request.
pub const REQUEST_CLIENT_DATA_REQUEST: i32 = 1;

/// Request discriminant of a challenge-answers request.
pub const REQUEST_CHALLENGE_ANSWERS_REQUEST: i32 = 2;

/// Challenge-type discriminant of a hashcash challenge.
pub const CHALLENGE_HASH_CASH: i32 = 3;

/// Base-128 varint: seven bits per byte, least significant group first, the
/// high bit set on every byte but the last.
pub open spec fn varint(v: nat) -> Seq<u8>
    decreases v,
{
    if v < 128 {
        seq![v as u8]
    } else {
        seq![(v % 128 + 128) as u8] + varint(v / 128)
    }
}

/// The 64-bit two's-complement pattern of an `int32` value.
pub open spec fn int32_bits(v: i32) -> nat {
    if v >= 0 {
        v as nat
    } else {
        (v + 0x1_0000_0000_0000_0000) as nat
    }
}

/// The key of a field: its number and wire type.
pub open spec fn key(field: u32, wire_type: nat) -> Seq<u8> {
    varint(field as nat * 8 + wire_type)
}

/// An `int32` (or enum) field.
pub open spec fn int32_field(field: u32, v: i32) -> Seq<u8> {
    key(field, 0) + varint(int32_bits(v))
}

/// A length-delimited field: bytes, a string or an embedded message.
pub open spec fn bytes_field(field: u32, data: Seq<u8>) -> Seq<u8> {
    key(field, 2) + varint(data.len()) + data
}

/// A singular `int32` field, left out when zero.
pub open spec fn opt_int32(field: u32, v: i32) -> Seq<u8> {
    if v == 0 { Seq::empty() } else { int32_field(field, v) }
}

/// A singular string field, left out when empty.
pub open spec fn opt_text(field: u32, s: Seq<char>) -> Seq<u8> {
    if s.len() == 0 { Seq::empty() } else { bytes_field(field, encode_utf8(s)) }
}

/// The wire form of the screen geometry.
pub open spec fn screen_bytes(s: Screen) -> Seq<u8> {
    opt_int32(1, s.width) + opt_int32(2, s.height) + opt_int32(3, s.density) + opt_int32(
        4,
        s.unknown_value_4,
    ) + opt_int32(5, s.unknown_value_5)
}

/// The wire form of the Android platform data.
pub open spec fn android_bytes(c: ClientConfig) -> Seq<u8> {
    bytes_field(1, screen_bytes(c.screen)) + opt_text(2, c.android_version@) + opt_int32(
        3,
        c.api_version,
    ) + opt_text(4, c.device_name@) + opt_text(5, c.model_str@) + opt_text(6, c.vendor@)
        + opt_text(7, c.vendor@) + opt_int32(8, c.unknown_value_8)
}

/// The wire form of the connectivity data: platform data and device id.
pub open spec fn sdk_bytes(c: ClientConfig) -> Seq<u8> {
    bytes_field(1, bytes_field(1, android_bytes(c))) + opt_text(2, c.device_id@)
}

/// The wire form of a client-data request body.
pub open spec fn client_data_bytes(c: ClientConfig) -> Seq<u8> {
    opt_text(1, c.client_version@) + opt_text(2, c.client_id@) + bytes_field(3, sdk_bytes(c))
}

/// The wire form of a challenge-answers body: the state and one hashcash answer.
pub open spec fn answers_bytes(state: Seq<char>, suffix: Seq<char>) -> Seq<u8> {
    let answer = int32_field(1, CHALLENGE_HASH_CASH) + bytes_field(4, opt_text(1, suffix));
    opt_text(1, state) + bytes_field(2, answer)
}

/// The wire form of a request.
pub open spec fn request_bytes(r: ClientTokenRequest) -> Seq<u8> {
    match r {
        ClientTokenRequest::ClientData(c) => int32_field(1, REQUEST_CLIENT_DATA_REQUEST)
            + bytes_field(2, client_data_bytes(c)),
        ClientTokenRequest::ChallengeAnswers { state, suffix } => int32_field(
            1,
            REQUEST_CHALLENGE_ANSWERS_REQUEST,
        ) + bytes_field(3, answers_bytes(state@, suffix@)),
    }
}

/// Text short enough to encode.
pub open spec fn text_fits(s: Seq<char>) -> bool {
    encode_utf8(s).len() <= MAX_TEXT_LEN
}

/// Every string of a request is short enough to encode.
pub open spec fn request_fits(r: ClientTokenRequest) -> bool {
    match r {
        ClientTokenRequest::ClientData(c) => text_fits(c.client_id@) && text_fits(
            c.client_version@,
        ) && text_fits(c.device_id@) && text_fits(c.android_version@) && text_fits(
            c.device_name@,
        ) && text_fits(c.model_str@) && text_fits(c.vendor@),
        ClientTokenRequest::ChallengeAnswers { state, suffix } => text_fits(state@) && text_fits(
            suffix@,
        ),
    }
}

/// Relies on `protobuf::CodedOutputStream::write_int32` on a stream over the
/// vector: it appends the field's key (varint of `field << 3`) and the value's
/// 64-bit sign-extended varint; writing to a vector does not fail.
#[verifier::external_body]
fn put_int32(out: &mut Vec<u8>, field: u32, v: i32)
    requires
        1 <= field <= FIELD_NUMBER_MAX,
    ensures
        final(out)@ == old(out)@ + int32_field(field, v),
{
    let mut os = protobuf::CodedOutputStream::vec(out);
    let _ = os.write_int32(field, v);
    let _ = os.flush();
}

/// Relies on `protobuf::CodedOutputStream::write_bytes` on a stream over the
/// vector: it appends the field's key (varint of `field << 3 | 2`), the length
/// as a varint and the bytes; writing to a vector does not fail.
#[verifier::external_body]
fn put_bytes(out: &mut Vec<u8>, field: u32, data: &[u8])
    requires
        1 <= field <= FIELD_NUMBER_MAX,
        data@.len() <= u32::MAX,
    ensures
        final(out)@ == old(out)@ + bytes_field(field, data@),
{
    let mut os = protobuf::CodedOutputStream::vec(out);
    let _ = os.write_bytes(field, data);
    let _ = os.flush();
}

/// 128 to the power `k`.
pub open spec fn pow128(k: nat) -> nat
    decreases k,
{
    if k == 0 { 1 } else { 128 * pow128((k - 1) as nat) }
}

proof fn lemma_varint_len(v: nat, k: nat)
    requires
        1 <= k,
        v < pow128(k),
    ensures
        varint(v).len() <= k,
    decreases k,
{
    if v >= 128 {
        if k == 1 {
            assert(pow128(1) == 128 * pow128(0));
        } else {
            assert(v / 128 < pow128((k - 1) as nat)) by (nonlinear_arith)
                requires v < 128 * pow128((k - 1) as nat);
            lemma_varint_len(v / 128, (k - 1) as nat);
        }
    }
}

proof fn lemma_varint_short(v: nat)
    requires
        v < 0x1_0000_0000_0000_0000,
    ensures
        varint(v).len() <= 10,
{
    assert(pow128(10) == 0x40_0000_0000_0000_0000) by {
        reveal_with_fuel(pow128, 11);
    }
    lemma_varint_len(v, 10);
}

fn put_opt_int32(out: &mut Vec<u8>, field: u32, v: i32)
    requires
        1 <= field <= FIELD_NUMBER_MAX,
    ensures
        final(out)@ == old(out)@ + opt_int32(field, v),
        final(out)@.len() <= old(out)@.len() + 20,
{
    proof {
        lemma_varint_short(field as nat * 8);
        lemma_varint_short(int32_bits(v));
    }
    if v != 0 {
        put_int32(out, field, v);
    } else {
        assert(final(out)@ =~= old(out)@ + opt_int32(field, v));
    }
}

fn put_field(out: &mut Vec<u8>, field: u32, data: &[u8])
    requires
        1 <= field <= FIELD_NUMBER_MAX,
        data@.len() <= u32::MAX,
    ensures
        final(out)@ == old(out)@ + bytes_field(field, data@),
        final(out)@.len() <= old(out)@.len() + data@.len() + 20,
{
    proof {
        lemma_varint_short(field as nat * 8 + 2);
        lemma_varint_short(data@.len());
    }
    put_bytes(out, field, data);
}

fn put_opt_text(out: &mut Vec<u8>, field: u32, s: &String)
    requires
        1 <= field <= FIELD_NUMBER_MAX,
        text_fits(s@),
    ensures
        final(out)@ == old(out)@ + opt_text(field, s@),
        final(out)@.len() <= old(out)@.len() + MAX_TEXT_LEN + 20,
{
    let b = s.as_str().as_bytes();
    if b.len() == 0 {
        assert(s@.len() == 0) by {
            if s@.len() > 0 {
                assert(encode_utf8(s@) == vstd::utf8::encode_scalar(s@[0] as u32) + encode_utf8(
                    s@.drop_first(),
                ));
            }
        }
        assert(final(out)@ =~= old(out)@ + opt_text(field, s@));
    } else {
        assert(s@.len() != 0) by {
            if s@.len() == 0 {
                assert(encode_utf8(s@) =~= Seq::<u8>::empty());
            }
        }
        put_field(out, field, b);
    }
}

fn screen_message(sc: &Screen) -> (r: Vec<u8>)
    ensures
        r@ == screen_bytes(*sc),
        r@.len() <= 100,
{
    let mut r: Vec<u8> = Vec::new();
    put_opt_int32(&mut r, 1, sc.width);
    put_opt_int32(&mut r, 2, sc.height);
    put_opt_int32(&mut r, 3, sc.density);
    put_opt_int32(&mut r, 4, sc.unknown_value_4);
    put_opt_int32(&mut r, 5, sc.unknown_value_5);
    assert(r@ =~= screen_bytes(*sc));
    r
}

fn android_message(c: &ClientConfig) -> (r: Vec<u8>)
    requires
        text_fits(c.android_version@),
        text_fits(c.device_name@),
        text_fits(c.model_str@),
        text_fits(c.vendor@),
    ensures
        r@ == android_bytes(*c),
        r@.len() <= 5 * MAX_TEXT_LEN + 400,
{
    let screen = screen_message(&c.screen);
    let mut r: Vec<u8> = Vec::new();
    put_field(&mut r, 1, screen.as_slice());
    put_opt_text(&mut r, 2, &c.android_version);
    put_opt_int32(&mut r, 3, c.api_version);
    put_opt_text(&mut r, 4, &c.device_name);
    put_opt_text(&mut r, 5, &c.model_str);
    put_opt_text(&mut r, 6, &c.vendor);
    put_opt_text(&mut r, 7, &c.vendor);
    put_opt_int32(&mut r, 8, c.unknown_value_8);
    assert(r@ =~= android_bytes(*c));
    r
}

fn client_data_message(c: &ClientConfig) -> (r: Vec<u8>)
    requires
        request_fits(ClientTokenRequest::ClientData(*c)),
    ensures
        r@ == client_data_bytes(*c),
        r@.len() <= 8 * MAX_TEXT_LEN + 700,
{
    let android = android_message(c);
    let mut platform: Vec<u8> = Vec::new();
    put_field(&mut platform, 1, android.as_slice());
    let mut sdk: Vec<u8> = Vec::new();
    put_field(&mut sdk, 1, platform.as_slice());
    put_opt_text(&mut sdk, 2, &c.device_id);
    assert(sdk@ =~= sdk_bytes(*c));
    let mut r: Vec<u8> = Vec::new();
    put_opt_text(&mut r, 1, &c.client_version);
    put_opt_text(&mut r, 2, &c.client_id);
    put_field(&mut r, 3, sdk.as_slice());
    assert(r@ =~= client_data_bytes(*c));
    r
}

fn answers_message(state: &String, suffix: &String) -> (r: Vec<u8>)
    requires
        text_fits(state@),
        text_fits(suffix@),
    ensures
        r@ == answers_bytes(state@, suffix@),
        r@.len() <= 2 * MAX_TEXT_LEN + 200,
{
    let mut hash_cash: Vec<u8> = Vec::new();
    put_opt_text(&mut hash_cash, 1, suffix);
    let mut answer: Vec<u8> = Vec::new();
    put_int32(&mut answer, 1, CHALLENGE_HASH_CASH);
    proof {
        lemma_varint_short(8);
        lemma_varint_short(int32_bits(CHALLENGE_HASH_CASH));
    }
    put_field(&mut answer, 4, hash_cash.as_slice());
    let mut r: Vec<u8> = Vec::new();
    put_opt_text(&mut r, 1, state);
    put_field(&mut r, 2, answer.as_slice());
    assert(r@ =~= answers_bytes(state@, suffix@));
    r
}

/// Serialises a request to its protobuf wire form.
pub fn encode_request(request: &ClientTokenRequest) -> (r: Vec<u8>)
    requires
        request_fits(*request),
    ensures
        r@ == request_bytes(*request),
{
    let mut r: Vec<u8> = Vec::new();
    match request {
        ClientTokenRequest::ClientData(c) => {
            let body = client_data_message(c);
            put_int32(&mut r, 1, REQUEST_CLIENT_DATA_REQUEST);
            put_field(&mut r, 2, body.as_slice());
        },
        ClientTokenRequest::ChallengeAnswers { state, suffix } => {
            let body = answers_message(state, suffix);
            put_int32(&mut r, 1, REQUEST_CHALLENGE_ANSWERS_REQUEST);
            put_field(&mut r, 3, body.as_slice());
        },
    }
    assert(r@ =~= request_bytes(*request));
    r
}

fn text_fits_exec(s: &String) -> (r: bool)
    ensures
        r == text_fits(s@),
{
    s.as_str().as_bytes().len() <= MAX_TEXT_LEN
}

/// Whether every string of the request is short enough to encode.
pub fn request_fits_check(request: &ClientTokenRequest) -> (r: bool)
    ensures
        r == request_fits(*request),
{
    match request {
        ClientTokenRequest::ClientData(c) => text_fits_exec(&c.client_id) && text_fits_exec(
            &c.client_version,
        ) && text_fits_exec(&c.device_id) && text_fits_exec(&c.android_version)
            && text_fits_exec(&c.device_name) && text_fits_exec(&c.model_str) && text_fits_exec(
            &c.vendor,
        ),
        ClientTokenRequest::ChallengeAnswers { state, suffix } => text_fits_exec(state)
            && text_fits_exec(suffix),
    }
}

} // verus!
