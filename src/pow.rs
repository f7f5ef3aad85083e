//! The hashcash proof-of-work solver.
use sha1::Digest;
use vstd::prelude::*;
use vstd::slice::slice_to_vec;

verus! {

/// The SHA-1 digest of a byte sequence.
pub uninterp spec fn sha1_of(data: Seq<u8>) -> Seq<u8>;

/// Relies on `sha1::Sha1::digest` (the `digest::Digest` trait): the 160-bit
/// SHA-1 digest of the bytes, as 20 bytes.
#[verifier::external_body]
fn sha1_digest(data: &[u8]) -> (r: Vec<u8>)
    ensures
        r@ == sha1_of(data@),
        r@.len() == 20,
{
    sha1::Sha1::digest(data).to_vec()
}

/// The largest counter that the search tries: the largest signed 64-bit value.
pub const COUNTER_LIMIT: u64 = 0x7fff_ffff_ffff_ffff;

/// Eight bytes read as a big-endian 64-bit value.
pub open spec fn be_u64(b: Seq<u8>) -> u64 {
    ((b[0] as u64) << 56u64) | ((b[1] as u64) << 48u64) | ((b[2] as u64) << 40u64) | ((
    b[3] as u64) << 32u64) | ((b[4] as u64) << 24u64) | ((b[5] as u64) << 16u64) | ((
    b[6] as u64) << 8u64) | (b[7] as u64)
}

/// A 64-bit value written as eight big-endian bytes.
pub open spec fn be_bytes(v: u64) -> Seq<u8> {
    seq![
        (v >> 56u64) as u8,
        (v >> 48u64) as u8,
        (v >> 40u64) as u8,
        (v >> 32u64) as u8,
        (v >> 24u64) as u8,
        (v >> 16u64) as u8,
        (v >> 8u64) as u8,
        v as u8,
    ]
}

/// The 64-bit value that bytes 12..20 of a digest hold, big-endian.
pub open spec fn digest_word(digest: Seq<u8>) -> u64 {
    be_u64(digest.subrange(12, 20))
}

/// The search target derived from a seed context.
pub open spec fn target_of(context: Seq<u8>) -> u64 {
    digest_word(sha1_of(context))
}

/// The candidate suffix for a counter: `target + counter` (modulo 2^64) and
/// then `counter`, each as eight big-endian bytes.
pub open spec fn candidate(target: u64, counter: u64) -> Seq<u8> {
    be_bytes(target.wrapping_add(counter)) + be_bytes(counter)
}

/// The number of trailing zero bits of the digest word of `prefix ++ suffix`.
pub open spec fn zero_bits(prefix: Seq<u8>, suffix: Seq<u8>) -> u32 {
    digest_word(sha1_of(prefix + suffix)).trailing_zeros()
}

/// A suffix that meets the difficulty for a prefix.
pub open spec fn is_valid_suffix(prefix: Seq<u8>, suffix: Seq<u8>, difficulty: u32) -> bool {
    zero_bits(prefix, suffix) >= difficulty
}

/// A counter whose candidate meets the difficulty.
pub open spec fn counter_passes(target: u64, prefix: Seq<u8>, difficulty: u32, c: u64) -> bool {
    is_valid_suffix(prefix, candidate(target, c), difficulty)
}

/// An accepted suffix and the counter that produced it.
pub struct Solution {
    pub suffix: Vec<u8>,
    pub counter: u64,
}

/// What the search owes: the candidate of the first passing counter in
/// `0..=COUNTER_LIMIT`, or `None` when no counter there passes.
pub open spec fn is_search_result(
    context: Seq<u8>,
    prefix: Seq<u8>,
    difficulty: u32,
    r: Option<Solution>,
) -> bool {
    let t = target_of(context);
    match r {
        Some(s) => {
            &&& s.counter <= COUNTER_LIMIT
            &&& s.suffix@ == candidate(t, s.counter)
            &&& counter_passes(t, prefix, difficulty, s.counter)
            &&& forall|c: u64| c < s.counter ==> !#[trigger] counter_passes(t, prefix, difficulty, c)
        },
        None => forall|c: u64| c <= COUNTER_LIMIT ==> !#[trigger] counter_passes(t, prefix, difficulty, c),
    }
}

fn read_be_u64(b: &[u8], at: usize) -> (r: u64)
    requires
        at + 8 <= b@.len(),
    ensures
        r == be_u64(b@.subrange(at as int, at + 8)),
{
    let s = Ghost(b@.subrange(at as int, at + 8));
    assert(s@[0] == b@[at as int] && s@[1] == b@[at + 1] && s@[2] == b@[at + 2] && s@[3]
        == b@[at + 3] && s@[4] == b@[at + 4] && s@[5] == b@[at + 5] && s@[6] == b@[at + 6]
        && s@[7] == b@[at + 7]);
    ((b[at] as u64) << 56u64) | ((b[at + 1] as u64) << 48u64) | ((b[at + 2] as u64) << 40u64) | ((
    b[at + 3] as u64) << 32u64) | ((b[at + 4] as u64) << 24u64) | ((b[at + 5] as u64) << 16u64)
        | ((b[at + 6] as u64) << 8u64) | (b[at + 7] as u64)
}

fn push_be_bytes(out: &mut Vec<u8>, v: u64)
    ensures
        final(out)@ == old(out)@ + be_bytes(v),
{
    out.push((v >> 56u64) as u8);
    out.push((v >> 48u64) as u8);
    out.push((v >> 40u64) as u8);
    out.push((v >> 32u64) as u8);
    out.push((v >> 24u64) as u8);
    out.push((v >> 16u64) as u8);
    out.push((v >> 8u64) as u8);
    out.push(v as u8);
    assert(final(out)@ =~= old(out)@ + be_bytes(v));
}

/// Builds the 16-byte candidate suffix for a counter.
pub fn make_candidate(target: u64, counter: u64) -> (r: Vec<u8>)
    ensures
        r@ == candidate(target, counter),
        r@.len() == 16,
{
    let mut r: Vec<u8> = Vec::new();
    push_be_bytes(&mut r, target.wrapping_add(counter));
    push_be_bytes(&mut r, counter);
    assert(r@ =~= candidate(target, counter));
    r
}

/// The search target for a seed context: bytes 12..20 of its SHA-1 digest.
pub fn target_for(context: &[u8]) -> (r: u64)
    ensures
        r == target_of(context@),
{
    let md = sha1_digest(context);
    read_be_u64(md.as_slice(), 12)
}

/// The trailing zero bits of the digest word of `prefix ++ suffix`.
pub fn suffix_zero_bits(prefix: &[u8], suffix: &[u8]) -> (r: u32)
    ensures
        r == zero_bits(prefix@, suffix@),
{
    let mut data = slice_to_vec(prefix);
    let mut tail = slice_to_vec(suffix);
    data.append(&mut tail);
    let md = sha1_digest(data.as_slice());
    read_be_u64(md.as_slice(), 12).trailing_zeros()
}

/// Searches counters upwards from zero for a candidate suffix whose digest
/// word, together with `prefix`, has at least `difficulty` trailing zero bits.
/// The target is taken from the digest of `context`. No suffix can meet a
/// difficulty above 64, and those give `None` at once; the search also ends in
/// `None` once every counter up to `COUNTER_LIMIT` has failed.
pub fn solve_hash_cash(context: &[u8], prefix: &[u8], difficulty: u32) -> (r: Option<Solution>)
    ensures
        is_search_result(context@, prefix@, difficulty, r),
        difficulty == 0 ==> r is Some && r->0.counter == 0,
{
    let target = target_for(context);
    if difficulty > 64 {
        assert forall|c: u64| c <= COUNTER_LIMIT implies !#[trigger] counter_passes(
            target,
            prefix@,
            difficulty,
            c,
        ) by {
            vstd::std_specs::bits::axiom_u64_trailing_zeros(
                digest_word(sha1_of(prefix@ + candidate(target, c))),
            );
        }
        return None;
    }
    let mut counter: u64 = 0;
    loop
        invariant
            target == target_of(context@),
            counter <= COUNTER_LIMIT,
            difficulty == 0 ==> counter == 0,
            forall|c: u64| c < counter ==> !#[trigger] counter_passes(target, prefix@, difficulty, c),
        decreases COUNTER_LIMIT - counter,
    {
        let suffix = make_candidate(target, counter);
        if suffix_zero_bits(prefix, suffix.as_slice()) >= difficulty {
            return Some(Solution { suffix, counter });
        }
        if counter == COUNTER_LIMIT {
            return None;
        }
        counter = counter + 1;
    }
}

/// The search result is determined by its inputs: two results that both meet
/// the search's contract for the same context, prefix and difficulty are the
/// same suffix from the same counter.
pub proof fn lemma_search_deterministic(
    context: Seq<u8>,
    prefix: Seq<u8>,
    difficulty: u32,
    r1: Option<Solution>,
    r2: Option<Solution>,
)
    requires
        is_search_result(context, prefix, difficulty, r1),
        is_search_result(context, prefix, difficulty, r2),
    ensures
        r1 is Some <==> r2 is Some,
        r1 is Some ==> r1->0.counter == r2->0.counter && r1->0.suffix@ == r2->0.suffix@,
{
    let t = target_of(context);
    if let Some(s1) = r1 {
        if let Some(s2) = r2 {
            if s1.counter < s2.counter {
                assert(!counter_passes(t, prefix, difficulty, s1.counter));
            } else if s2.counter < s1.counter {
                assert(!counter_passes(t, prefix, difficulty, s2.counter));
            }
        } else {
            assert(!counter_passes(t, prefix, difficulty, s1.counter));
        }
    } else if let Some(s2) = r2 {
        assert(!counter_passes(t, prefix, difficulty, s2.counter));
    }
}

} // verus!
