//! Reading the service's responses from their protobuf wire form. A varint
//! takes at most ten bytes; a field with number zero, a group or an unknown
//! wire type, a truncated field and a string that is not UTF-8 are errors.
//! A later value of a singular field replaces an earlier one, a repeated
//! field collects its entries in order, and fields of unknown number are
//! skipped.
use vstd::prelude::*;
use vstd::slice::slice_subrange;
use vstd::utf8::{decode_utf8, valid_utf8};
use crate::wire::pow128;
use crate::message::{
    Challenge, ChallengesResponse, ClientTokenResponse, GrantedTokenResponse, HashCashParameters,
    ResponseType, TokenError,
};

verus! {

/// Where the varint that starts at `start` ends, looking at byte `start + i`
/// onwards: after the first of the first ten bytes (before `end`) that is
/// below 0x80; the tenth may be no more than 1.
pub open spec fn varint_end(b: Seq<u8>, start: int, i: int, end: int) -> Option<int>
    decreases 10 - i,
{
    if i < 0 || i >= 10 || start + i >= end {
        None
    } else if b[start + i] < 128 {
        if i == 9 && b[start + i] > 1 {
            None
        } else {
            Some(start + i + 1)
        }
    } else {
        varint_end(b, start, i + 1, end)
    }
}

/// The value of the first `k` bytes of the varint at `start`: seven bits per
/// byte, least significant group first.
pub open spec fn varint_value(b: Seq<u8>, start: int, k: nat) -> nat
    decreases k,
{
    if k == 0 {
        0
    } else {
        varint_value(b, start, (k - 1) as nat) + (b[start + k - 1] % 128) as nat * pow128(
            (k - 1) as nat,
        )
    }
}

/// The varint at `pos` before `end`: its value and where it ends.
pub open spec fn varint_at(b: Seq<u8>, pos: int, end: int) -> Option<(nat, int)> {
    match varint_end(b, pos, 0, end) {
        Some(e) => Some((varint_value(b, pos, (e - pos) as nat), e)),
        None => None,
    }
}

proof fn lemma_pow128_facts(i: nat)
    requires
        i <= 8,
    ensures
        1 <= pow128(i) <= 0x100_0000_0000_0000,
        pow128(i + 1) == 128 * pow128(i),
    decreases i,
{
    assert(pow128(8) == 0x100_0000_0000_0000) by {
        reveal_with_fuel(pow128, 9);
    }
    lemma_pow128_split(i);
    lemma_pow128_positive((8 - i) as nat);
    assert(pow128(i) <= pow128(8)) by (nonlinear_arith)
        requires pow128(i) * pow128((8 - i) as nat) == pow128(8), pow128((8 - i) as nat) >= 1;
    lemma_pow128_positive(i);
}

proof fn lemma_pow128_positive(k: nat)
    ensures
        pow128(k) >= 1,
    decreases k,
{
    if k > 0 {
        lemma_pow128_positive((k - 1) as nat);
    }
}

proof fn lemma_pow128_split(i: nat)
    requires
        i <= 8,
    ensures
        pow128(i) * pow128((8 - i) as nat) == pow128(8),
    decreases i,
{
    if i > 0 {
        lemma_pow128_split((i - 1) as nat);
        let a = pow128((i - 1) as nat);
        let c = pow128((8 - i) as nat);
        let p = pow128(i);
        let q = pow128((9 - i) as nat);
        assert(q == 128 * c);
        assert(p == 128 * a);
        assert(p * c == a * q) by (nonlinear_arith)
            requires q == 128 * c, p == 128 * a;
    } else {
        assert(pow128(0) == 1);
    }
}

fn read_varint(b: &[u8], pos: usize, end: usize) -> (r: Option<(u64, usize)>)
    requires
        pos <= end <= b@.len(),
    ensures
        match r {
            Some((v, e)) => varint_at(b@, pos as int, end as int) == Some((v as nat, e as int))
                && pos < e <= end,
            None => varint_at(b@, pos as int, end as int) is None,
        },
{
    let mut i: usize = 0;
    let mut v: u64 = 0;
    let mut mult: u64 = 1;
    while i < 10 && pos + i < end
        invariant
            pos <= end <= b@.len(),
            i <= 10,
            pos + i <= end,
            mult as nat == pow128(i as nat),
            i <= 9 ==> mult <= 0x8000_0000_0000_0000,
            v as nat == varint_value(b@, pos as int, i as nat),
            v < mult || i == 10,
            varint_end(b@, pos as int, 0, end as int) == varint_end(
                b@,
                pos as int,
                i as int,
                end as int,
            ),
        decreases 10 - i,
    {
        let byte = b[pos + i];
        if i == 9 && byte > 1 {
            assert(varint_end(b@, pos as int, 10, end as int) is None);
            return None;
        }
        let part = (byte % 128) as u64;
        proof {
            if i <= 8 {
                lemma_pow128_facts(i as nat);
            }
        }
        assert(part * mult <= 127 * mult) by (nonlinear_arith)
            requires
                part <= 127,
        ;
        if i == 9 {
            assert(part * mult <= mult) by (nonlinear_arith)
                requires
                    part <= 1,
            ;
        }
        v = v + part * mult;
        if byte < 128 {
            return Some((v, pos + i + 1));
        }
        proof {
            lemma_pow128_facts(i as nat);
        }
        mult = mult * 128;
        i = i + 1;
    }
    None
}

/// One field as the wire gives it: a varint with its number and value, a
/// length-delimited field with its number and the span of its bytes, or a
/// fixed-width field, which nothing here reads.
pub enum FieldModel {
    Varint { number: nat, value: nat },
    Len { number: nat, start: int, end: int },
    Skipped,
}

/// The field at `pos` before `end`, and where the next one starts.
pub open spec fn next_field(b: Seq<u8>, pos: int, end: int) -> Option<(FieldModel, int)> {
    match varint_at(b, pos, end) {
        None => None,
        Some((key, p)) => {
            let number = key / 8;
            let wire_type = key % 8;
            if number == 0 {
                None
            } else if wire_type == 0 {
                match varint_at(b, p, end) {
                    Some((v, e)) => Some((FieldModel::Varint { number, value: v }, e)),
                    None => None,
                }
            } else if wire_type == 2 {
                match varint_at(b, p, end) {
                    Some((n, e)) => if e + n <= end {
                        Some((FieldModel::Len { number, start: e, end: e + n }, e + n))
                    } else {
                        None
                    },
                    None => None,
                }
            } else if wire_type == 1 {
                if p + 8 <= end { Some((FieldModel::Skipped, p + 8)) } else { None }
            } else if wire_type == 5 {
                if p + 4 <= end { Some((FieldModel::Skipped, p + 4)) } else { None }
            } else {
                None
            }
        },
    }
}

enum Field {
    Varint(u64, u64),
    Len(u64, usize, usize),
    Skipped,
}

spec fn field_model(f: Field) -> FieldModel {
    match f {
        Field::Varint(n, v) => FieldModel::Varint { number: n as nat, value: v as nat },
        Field::Len(n, s, e) => FieldModel::Len { number: n as nat, start: s as int, end: e as int },
        Field::Skipped => FieldModel::Skipped,
    }
}

fn read_field(b: &[u8], pos: usize, end: usize) -> (r: Option<(Field, usize)>)
    requires
        pos <= end <= b@.len(),
    ensures
        match r {
            Some((f, np)) => next_field(b@, pos as int, end as int) == Some((field_model(f), np as int))
                && pos < np <= end && match f {
                Field::Len(_, s, e) => s <= e <= end,
                _ => true,
            },
            None => next_field(b@, pos as int, end as int) is None,
        },
{
    let (key, p) = match read_varint(b, pos, end) {
        Some(x) => x,
        None => return None,
    };
    let number = key / 8;
    let wire_type = key % 8;
    if number == 0 {
        return None;
    }
    if wire_type == 0 {
        match read_varint(b, p, end) {
            Some((v, e)) => Some((Field::Varint(number, v), e)),
            None => None,
        }
    } else if wire_type == 2 {
        match read_varint(b, p, end) {
            Some((n, e)) => {
                if n > (end - e) as u64 {
                    return None;
                }
                let stop = e + n as usize;
                Some((Field::Len(number, e, stop), stop))
            },
            None => None,
        }
    } else if wire_type == 1 {
        if end - p >= 8 {
            Some((Field::Skipped, p + 8))
        } else {
            None
        }
    } else if wire_type == 5 {
        if end - p >= 4 {
            Some((Field::Skipped, p + 4))
        } else {
            None
        }
    } else {
        None
    }
}

/// The text that the bytes `start..end` encode, if they are UTF-8.
pub open spec fn text_at(b: Seq<u8>, start: int, end: int) -> Option<Seq<char>> {
    if valid_utf8(b.subrange(start, end)) {
        Some(decode_utf8(b.subrange(start, end)))
    } else {
        None
    }
}

/// An `int32` read from a varint: its low 32 bits, two's complement.
pub open spec fn int32_of(v: nat) -> i32 {
    let w = v % 0x1_0000_0000;
    if w < 0x8000_0000 {
        w as i32
    } else {
        (w - 0x1_0000_0000) as i32
    }
}

/// Relies on `String::from_utf8`: it accepts exactly the byte sequences that
/// are valid UTF-8, and the string holds the characters that they encode.
#[verifier::external_body]
fn text_from_utf8(bytes: &[u8]) -> (r: Option<String>)
    ensures
        r is Some <==> valid_utf8(bytes@),
        r is Some ==> r->0@ == decode_utf8(bytes@),
{
    String::from_utf8(bytes.to_vec()).ok()
}

fn read_text(b: &[u8], start: usize, end: usize) -> (r: Option<String>)
    requires
        start <= end <= b@.len(),
    ensures
        match r {
            Some(t) => text_at(b@, start as int, end as int) == Some(t@),
            None => text_at(b@, start as int, end as int) is None,
        },
{
    text_from_utf8(slice_subrange(b, start, end))
}

fn to_int32(v: u64) -> (r: i32)
    ensures
        r == int32_of(v as nat),
{
    let w = v % 0x1_0000_0000;
    if w < 0x8000_0000 {
        w as i32
    } else {
        (w as i64 - 0x1_0000_0000) as i32
    }
}

/// Hashcash parameters as values.
pub struct HashCashModel {
    pub length: i32,
    pub prefix: Seq<char>,
}

/// The values that hashcash parameters hold.
pub open spec fn hash_cash_view(h: HashCashParameters) -> HashCashModel {
    HashCashModel { length: h.length, prefix: h.prefix@ }
}

/// Hashcash parameters before any field is read.
pub open spec fn empty_hash_cash() -> HashCashModel {
    HashCashModel { length: 0, prefix: Seq::empty() }
}

/// One field applied to hashcash parameters; `None` where it cannot be read.
pub open spec fn hash_cash_field(acc: HashCashModel, b: Seq<u8>, f: FieldModel) -> Option<
    HashCashModel,
> {
    match f {
        FieldModel::Varint { number, value } => if number == 1 {
            Some(HashCashModel { length: int32_of(value), prefix: acc.prefix })
        } else {
            Some(acc)
        },
        FieldModel::Len { number, start, end } => if number == 2 {
            match text_at(b, start, end) {
                Some(t) => Some(HashCashModel { length: acc.length, prefix: t }),
                None => None,
            }
        } else {
            Some(acc)
        },
        FieldModel::Skipped => Some(acc),
    }
}

/// Hashcash parameters read from the fields at `pos..end`, on top of `acc`.
pub open spec fn parse_hash_cash(b: Seq<u8>, pos: int, end: int, acc: HashCashModel) -> Option<
    HashCashModel,
>
    decreases end - pos,
{
    if pos >= end {
        Some(acc)
    } else {
        match next_field(b, pos, end) {
            None => None,
            Some((f, np)) => if np <= pos || np > end {
                None
            } else {
                match hash_cash_field(acc, b, f) {
                    None => None,
                    Some(a) => parse_hash_cash(b, np, end, a),
                }
            },
        }
    }
}

fn read_hash_cash(b: &[u8], start: usize, end: usize) -> (r: Option<HashCashParameters>)
    requires
        start <= end <= b@.len(),
    ensures
        match r {
            Some(h) => parse_hash_cash(b@, start as int, end as int, empty_hash_cash()) == Some(
                hash_cash_view(h),
            ),
            None => parse_hash_cash(b@, start as int, end as int, empty_hash_cash()) is None,
        },
{
    let mut acc = HashCashParameters { length: 0, prefix: String::new() };
    let mut pos = start;
    while pos < end
        invariant
            start <= pos <= end <= b@.len(),
            parse_hash_cash(b@, pos as int, end as int, hash_cash_view(acc)) == parse_hash_cash(
                b@,
                start as int,
                end as int,
                empty_hash_cash(),
            ),
        decreases end - pos,
    {
        let (f, np) = match read_field(b, pos, end) {
            Some(x) => x,
            None => return None,
        };
        match f {
            Field::Varint(1, v) => {
                acc.length = to_int32(v);
            },
            Field::Len(2, s, e) => match read_text(b, s, e) {
                Some(t) => {
                    acc.prefix = t;
                },
                None => return None,
            },
            _ => {},
        }
        pos = np;
    }
    Some(acc)
}

/// The values that a challenge entry holds.
pub open spec fn challenge_view(c: Challenge) -> Option<HashCashModel> {
    match c.hash_cash {
        Some(h) => Some(hash_cash_view(h)),
        None => None,
    }
}

/// One field applied to a challenge entry; `None` where it cannot be read.
pub open spec fn challenge_field(
    acc: Option<HashCashModel>,
    b: Seq<u8>,
    f: FieldModel,
) -> Option<Option<HashCashModel>> {
    match f {
        FieldModel::Len { number, start, end } => if number == 3 {
            match parse_hash_cash(b, start, end, empty_hash_cash()) {
                Some(h) => Some(Some(h)),
                None => None,
            }
        } else {
            Some(acc)
        },
        _ => Some(acc),
    }
}

/// A challenge entry read from the fields at `pos..end`, on top of `acc`.
pub open spec fn parse_challenge_entry(
    b: Seq<u8>,
    pos: int,
    end: int,
    acc: Option<HashCashModel>,
) -> Option<Option<HashCashModel>>
    decreases end - pos,
{
    if pos >= end {
        Some(acc)
    } else {
        match next_field(b, pos, end) {
            None => None,
            Some((f, np)) => if np <= pos || np > end {
                None
            } else {
                match challenge_field(acc, b, f) {
                    None => None,
                    Some(a) => parse_challenge_entry(b, np, end, a),
                }
            },
        }
    }
}

fn read_challenge(b: &[u8], start: usize, end: usize) -> (r: Option<Challenge>)
    requires
        start <= end <= b@.len(),
    ensures
        match r {
            Some(c) => parse_challenge_entry(b@, start as int, end as int, None) == Some(
                challenge_view(c),
            ),
            None => parse_challenge_entry(b@, start as int, end as int, None) is None,
        },
{
    let mut acc = Challenge { hash_cash: None };
    let mut pos = start;
    while pos < end
        invariant
            start <= pos <= end <= b@.len(),
            parse_challenge_entry(b@, pos as int, end as int, challenge_view(acc))
                == parse_challenge_entry(b@, start as int, end as int, None),
        decreases end - pos,
    {
        let (f, np) = match read_field(b, pos, end) {
            Some(x) => x,
            None => return None,
        };
        match f {
            Field::Len(3, s, e) => match read_hash_cash(b, s, e) {
                Some(h) => {
                    acc.hash_cash = Some(h);
                },
                None => return None,
            },
            _ => {},
        }
        pos = np;
    }
    Some(acc)
}

/// A challenges response as values.
pub struct ChallengesModel {
    pub state: Seq<char>,
    pub challenges: Seq<Option<HashCashModel>>,
}

/// The values that a challenges response holds.
pub open spec fn challenges_view(c: ChallengesResponse) -> ChallengesModel {
    ChallengesModel {
        state: c.state@,
        challenges: c.challenges@.map_values(|x: Challenge| challenge_view(x)),
    }
}

/// A challenges response before any field is read.
pub open spec fn empty_challenges() -> ChallengesModel {
    ChallengesModel { state: Seq::empty(), challenges: Seq::empty() }
}

/// One field applied to a challenges response; `None` where it cannot be read.
pub open spec fn challenges_field(acc: ChallengesModel, b: Seq<u8>, f: FieldModel) -> Option<
    ChallengesModel,
> {
    match f {
        FieldModel::Len { number, start, end } => if number == 1 {
            match text_at(b, start, end) {
                Some(t) => Some(ChallengesModel { state: t, challenges: acc.challenges }),
                None => None,
            }
        } else if number == 2 {
            match parse_challenge_entry(b, start, end, None) {
                Some(c) => Some(
                    ChallengesModel { state: acc.state, challenges: acc.challenges.push(c) },
                ),
                None => None,
            }
        } else {
            Some(acc)
        },
        _ => Some(acc),
    }
}

/// A challenges response read from the fields at `pos..end`, on top of `acc`.
pub open spec fn parse_challenges(b: Seq<u8>, pos: int, end: int, acc: ChallengesModel) -> Option<
    ChallengesModel,
>
    decreases end - pos,
{
    if pos >= end {
        Some(acc)
    } else {
        match next_field(b, pos, end) {
            None => None,
            Some((f, np)) => if np <= pos || np > end {
                None
            } else {
                match challenges_field(acc, b, f) {
                    None => None,
                    Some(a) => parse_challenges(b, np, end, a),
                }
            },
        }
    }
}

fn read_challenges(b: &[u8], start: usize, end: usize) -> (r: Option<ChallengesResponse>)
    requires
        start <= end <= b@.len(),
    ensures
        match r {
            Some(c) => parse_challenges(b@, start as int, end as int, empty_challenges()) == Some(
                challenges_view(c),
            ),
            None => parse_challenges(b@, start as int, end as int, empty_challenges()) is None,
        },
{
    let mut acc = ChallengesResponse { state: String::new(), challenges: Vec::new() };
    let mut pos = start;
    assert(challenges_view(acc).challenges =~= empty_challenges().challenges);
    while pos < end
        invariant
            start <= pos <= end <= b@.len(),
            parse_challenges(b@, pos as int, end as int, challenges_view(acc)) == parse_challenges(
                b@,
                start as int,
                end as int,
                empty_challenges(),
            ),
        decreases end - pos,
    {
        let (f, np) = match read_field(b, pos, end) {
            Some(x) => x,
            None => return None,
        };
        let ghost before = challenges_view(acc);
        match f {
            Field::Len(1, s, e) => match read_text(b, s, e) {
                Some(t) => {
                    acc.state = t;
                },
                None => return None,
            },
            Field::Len(2, s, e) => match read_challenge(b, s, e) {
                Some(c) => {
                    let ghost cv = challenge_view(c);
                    acc.challenges.push(c);
                    assert(challenges_view(acc).challenges =~= before.challenges.push(cv));
                },
                None => return None,
            },
            _ => {},
        }
        pos = np;
    }
    Some(acc)
}

/// One field applied to a token domain; `None` where it cannot be read.
pub open spec fn domain_field(acc: Seq<char>, b: Seq<u8>, f: FieldModel) -> Option<Seq<char>> {
    match f {
        FieldModel::Len { number, start, end } => if number == 1 {
            text_at(b, start, end)
        } else {
            Some(acc)
        },
        _ => Some(acc),
    }
}

/// A token domain read from the fields at `pos..end`, on top of `acc`.
pub open spec fn parse_domain(b: Seq<u8>, pos: int, end: int, acc: Seq<char>) -> Option<Seq<char>>
    decreases end - pos,
{
    if pos >= end {
        Some(acc)
    } else {
        match next_field(b, pos, end) {
            None => None,
            Some((f, np)) => if np <= pos || np > end {
                None
            } else {
                match domain_field(acc, b, f) {
                    None => None,
                    Some(a) => parse_domain(b, np, end, a),
                }
            },
        }
    }
}

fn read_domain(b: &[u8], start: usize, end: usize) -> (r: Option<String>)
    requires
        start <= end <= b@.len(),
    ensures
        match r {
            Some(d) => parse_domain(b@, start as int, end as int, Seq::empty()) == Some(d@),
            None => parse_domain(b@, start as int, end as int, Seq::empty()) is None,
        },
{
    let mut acc = String::new();
    let mut pos = start;
    while pos < end
        invariant
            start <= pos <= end <= b@.len(),
            parse_domain(b@, pos as int, end as int, acc@) == parse_domain(
                b@,
                start as int,
                end as int,
                Seq::empty(),
            ),
        decreases end - pos,
    {
        let (f, np) = match read_field(b, pos, end) {
            Some(x) => x,
            None => return None,
        };
        match f {
            Field::Len(1, s, e) => match read_text(b, s, e) {
                Some(t) => {
                    acc = t;
                },
                None => return None,
            },
            _ => {},
        }
        pos = np;
    }
    Some(acc)
}

/// A granted token as values.
pub struct GrantModel {
    pub token: Seq<char>,
    pub expires_after_seconds: i32,
    pub refresh_after_seconds: i32,
    pub domains: Seq<Seq<char>>,
}

/// The values that a granted token holds.
pub open spec fn grant_view(g: GrantedTokenResponse) -> GrantModel {
    GrantModel {
        token: g.token@,
        expires_after_seconds: g.expires_after_seconds,
        refresh_after_seconds: g.refresh_after_seconds,
        domains: g.domains@.map_values(|d: String| d@),
    }
}

/// A granted token before any field is read.
pub open spec fn empty_grant() -> GrantModel {
    GrantModel {
        token: Seq::empty(),
        expires_after_seconds: 0,
        refresh_after_seconds: 0,
        domains: Seq::empty(),
    }
}

/// One field applied to a granted token; `None` where it cannot be read.
pub open spec fn grant_field(acc: GrantModel, b: Seq<u8>, f: FieldModel) -> Option<GrantModel> {
    match f {
        FieldModel::Varint { number, value } => if number == 2 {
            Some(GrantModel { expires_after_seconds: int32_of(value), ..acc })
        } else if number == 3 {
            Some(GrantModel { refresh_after_seconds: int32_of(value), ..acc })
        } else {
            Some(acc)
        },
        FieldModel::Len { number, start, end } => if number == 1 {
            match text_at(b, start, end) {
                Some(t) => Some(GrantModel { token: t, ..acc }),
                None => None,
            }
        } else if number == 4 {
            match parse_domain(b, start, end, Seq::empty()) {
                Some(d) => Some(GrantModel { domains: acc.domains.push(d), ..acc }),
                None => None,
            }
        } else {
            Some(acc)
        },
        FieldModel::Skipped => Some(acc),
    }
}

/// A granted token read from the fields at `pos..end`, on top of `acc`.
pub open spec fn parse_grant_fields(b: Seq<u8>, pos: int, end: int, acc: GrantModel) -> Option<
    GrantModel,
>
    decreases end - pos,
{
    if pos >= end {
        Some(acc)
    } else {
        match next_field(b, pos, end) {
            None => None,
            Some((f, np)) => if np <= pos || np > end {
                None
            } else {
                match grant_field(acc, b, f) {
                    None => None,
                    Some(a) => parse_grant_fields(b, np, end, a),
                }
            },
        }
    }
}

fn read_grant(b: &[u8], start: usize, end: usize) -> (r: Option<GrantedTokenResponse>)
    requires
        start <= end <= b@.len(),
    ensures
        match r {
            Some(g) => parse_grant_fields(b@, start as int, end as int, empty_grant()) == Some(
                grant_view(g),
            ),
            None => parse_grant_fields(b@, start as int, end as int, empty_grant()) is None,
        },
{
    let mut acc = GrantedTokenResponse {
        token: String::new(),
        expires_after_seconds: 0,
        refresh_after_seconds: 0,
        domains: Vec::new(),
    };
    let mut pos = start;
    assert(grant_view(acc).domains =~= empty_grant().domains);
    while pos < end
        invariant
            start <= pos <= end <= b@.len(),
            parse_grant_fields(b@, pos as int, end as int, grant_view(acc)) == parse_grant_fields(
                b@,
                start as int,
                end as int,
                empty_grant(),
            ),
        decreases end - pos,
    {
        let (f, np) = match read_field(b, pos, end) {
            Some(x) => x,
            None => return None,
        };
        let ghost before = grant_view(acc);
        match f {
            Field::Varint(2, v) => {
                acc.expires_after_seconds = to_int32(v);
            },
            Field::Varint(3, v) => {
                acc.refresh_after_seconds = to_int32(v);
            },
            Field::Len(1, s, e) => match read_text(b, s, e) {
                Some(t) => {
                    acc.token = t;
                },
                None => return None,
            },
            Field::Len(4, s, e) => match read_domain(b, s, e) {
                Some(d) => {
                    let ghost dv = d@;
                    acc.domains.push(d);
                    assert(grant_view(acc).domains =~= before.domains.push(dv));
                },
                None => return None,
            },
            _ => {},
        }
        pos = np;
    }
    Some(acc)
}

/// A response as values, with its discriminant as the wire gives it.
pub struct ResponseModel {
    pub response_type: i32,
    pub granted_token: Option<GrantModel>,
    pub challenges: Option<ChallengesModel>,
}

/// A response before any field is read.
pub open spec fn empty_response() -> ResponseModel {
    ResponseModel { response_type: 0, granted_token: None, challenges: None }
}

/// One field applied to a response; `None` where it cannot be read.
pub open spec fn response_field(acc: ResponseModel, b: Seq<u8>, f: FieldModel) -> Option<
    ResponseModel,
> {
    match f {
        FieldModel::Varint { number, value } => if number == 1 {
            Some(ResponseModel { response_type: int32_of(value), ..acc })
        } else {
            Some(acc)
        },
        FieldModel::Len { number, start, end } => if number == 2 {
            match parse_grant_fields(b, start, end, empty_grant()) {
                Some(g) => Some(
                    ResponseModel {
                        response_type: acc.response_type,
                        granted_token: Some(g),
                        challenges: None,
                    },
                ),
                None => None,
            }
        } else if number == 3 {
            match parse_challenges(b, start, end, empty_challenges()) {
                Some(c) => Some(
                    ResponseModel {
                        response_type: acc.response_type,
                        granted_token: None,
                        challenges: Some(c),
                    },
                ),
                None => None,
            }
        } else {
            Some(acc)
        },
        FieldModel::Skipped => Some(acc),
    }
}

/// A response read from the fields at `pos..end`, on top of `acc`. The two
/// bodies are one-of: the later replaces the other.
pub open spec fn parse_response(b: Seq<u8>, pos: int, end: int, acc: ResponseModel) -> Option<
    ResponseModel,
>
    decreases end - pos,
{
    if pos >= end {
        Some(acc)
    } else {
        match next_field(b, pos, end) {
            None => None,
            Some((f, np)) => if np <= pos || np > end {
                None
            } else {
                match response_field(acc, b, f) {
                    None => None,
                    Some(a) => parse_response(b, np, end, a),
                }
            },
        }
    }
}

/// The response type that a discriminant names: 0, 1 and 2 are unknown,
/// granted token and challenges; other values name none.
pub open spec fn response_type_of(t: i32) -> Option<ResponseType> {
    if t == 0 {
        Some(ResponseType::Unknown)
    } else if t == 1 {
        Some(ResponseType::GrantedToken)
    } else if t == 2 {
        Some(ResponseType::Challenges)
    } else {
        None
    }
}

/// The values of an optional granted token.
pub open spec fn opt_grant_view(g: Option<GrantedTokenResponse>) -> Option<GrantModel> {
    match g {
        Some(x) => Some(grant_view(x)),
        None => None,
    }
}

/// The values of an optional challenges response.
pub open spec fn opt_challenges_view(c: Option<ChallengesResponse>) -> Option<ChallengesModel> {
    match c {
        Some(x) => Some(challenges_view(x)),
        None => None,
    }
}

/// What a response's bytes decode to: `None` where they are malformed or name
/// no known response type.
pub open spec fn decoded_response(b: Seq<u8>) -> Option<(ResponseType, ResponseModel)> {
    match parse_response(b, 0, b.len() as int, empty_response()) {
        Some(m) => match response_type_of(m.response_type) {
            Some(t) => Some((t, m)),
            None => None,
        },
        None => None,
    }
}

/// Decodes a response from its protobuf wire form.
pub fn decode_response(bytes: &[u8]) -> (r: Result<ClientTokenResponse, TokenError>)
    ensures
        decoded_response(bytes@) is None ==> r == Err::<ClientTokenResponse, TokenError>(
            TokenError::DecodeFailure,
        ),
        decoded_response(bytes@) is Some ==> r is Ok && ({
            let (t, m) = decoded_response(bytes@)->0;
            &&& r->Ok_0.response_type == t
            &&& opt_grant_view(r->Ok_0.granted_token) == m.granted_token
            &&& opt_challenges_view(r->Ok_0.challenges) == m.challenges
        }),
{
    let end = bytes.len();
    let mut raw_type: i32 = 0;
    let mut granted_token: Option<GrantedTokenResponse> = None;
    let mut challenges: Option<ChallengesResponse> = None;
    let mut pos: usize = 0;
    while pos < end
        invariant
            pos <= end == bytes@.len(),
            parse_response(
                bytes@,
                pos as int,
                end as int,
                ResponseModel {
                    response_type: raw_type,
                    granted_token: opt_grant_view(granted_token),
                    challenges: opt_challenges_view(challenges),
                },
            ) == parse_response(bytes@, 0, end as int, empty_response()),
        decreases end - pos,
    {
        let (f, np) = match read_field(bytes, pos, end) {
            Some(x) => x,
            None => return Err(TokenError::DecodeFailure),
        };
        match f {
            Field::Varint(1, v) => {
                raw_type = to_int32(v);
            },
            Field::Len(2, s, e) => match read_grant(bytes, s, e) {
                Some(g) => {
                    granted_token = Some(g);
                    challenges = None;
                },
                None => return Err(TokenError::DecodeFailure),
            },
            Field::Len(3, s, e) => match read_challenges(bytes, s, e) {
                Some(c) => {
                    challenges = Some(c);
                    granted_token = None;
                },
                None => return Err(TokenError::DecodeFailure),
            },
            _ => {},
        }
        pos = np;
    }
    let response_type = if raw_type == 0 {
        ResponseType::Unknown
    } else if raw_type == 1 {
        ResponseType::GrantedToken
    } else if raw_type == 2 {
        ResponseType::Challenges
    } else {
        return Err(TokenError::DecodeFailure);
    };
    Ok(ClientTokenResponse { response_type, granted_token, challenges })
}

} // verus!
