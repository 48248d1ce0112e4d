//! A fingerprint of the content sources. Share codes carry it so a replay
//! recorded against different authored numbers fails loudly instead of
//! silently diverging.
//!
//! Carriage returns are skipped, so the fingerprint is a statement about the
//! content rather than about the machine that checked it out: the same files
//! with CRLF or LF line endings give the same number. Content and the string
//! table both treat the two endings alike, so this changes no behaviour
//! beyond making the number portable.
use vstd::prelude::*;
use vstd::string::StringSliceAdditionalSpecFns;

verus! {

/// The FNV-1a 64 offset basis.
pub const FNV_OFFSET: u64 = 0xcbf29ce484222325;

/// The FNV-1a 64 prime.
pub const FNV_PRIME: u64 = 0x100000001b3;

pub const CARRIAGE_RETURN: u8 = 13;

/// One FNV-1a step over a byte.
pub open spec fn fnv_mix(h: u64, b: u8) -> u64 {
    vstd::wrapping::u64_specs::wrapping_mul(h ^ (b as u64), FNV_PRIME)
}

/// FNV-1a over `bytes`, from state `h`, skipping carriage returns.
pub open spec fn fnv_absorb(h: u64, bytes: Seq<u8>) -> u64
    decreases bytes.len(),
{
    if bytes.len() == 0 {
        h
    } else {
        let prev = fnv_absorb(h, bytes.drop_last());
        if bytes.last() == CARRIAGE_RETURN {
            prev
        } else {
            fnv_mix(prev, bytes.last())
        }
    }
}

/// Each source's name, then its text, in order.
pub open spec fn absorb_sources(h: u64, sources: Seq<(Seq<u8>, Seq<u8>)>) -> u64
    decreases sources.len(),
{
    if sources.len() == 0 {
        h
    } else {
        let prev = absorb_sources(h, sources.drop_last());
        fnv_absorb(fnv_absorb(prev, sources.last().0), sources.last().1)
    }
}

/// Folding the 64-bit state into the 16 bits a share code carries.
pub open spec fn fold16(h: u64) -> u16 {
    (h ^ (h >> 16u64) ^ (h >> 32u64) ^ (h >> 48u64)) as u16
}

pub open spec fn spec_fingerprint(sources: Seq<(Seq<u8>, Seq<u8>)>) -> u16 {
    fold16(absorb_sources(FNV_OFFSET, sources))
}

/// The bytes of each source, name and text.
pub open spec fn source_bytes(sources: Seq<(&str, &str)>) -> Seq<(Seq<u8>, Seq<u8>)> {
    sources.map_values(|p: (&str, &str)| (p.0.spec_bytes(), p.1.spec_bytes()))
}

/// `bytes` with every carriage return taken out.
pub open spec fn strip_cr(bytes: Seq<u8>) -> Seq<u8>
    decreases bytes.len(),
{
    if bytes.len() == 0 {
        bytes
    } else {
        let prev = strip_cr(bytes.drop_last());
        if bytes.last() == CARRIAGE_RETURN {
            prev
        } else {
            prev.push(bytes.last())
        }
    }
}

fn absorb(h: u64, text: &str) -> (r: u64)
    ensures
        r == fnv_absorb(h, text.spec_bytes()),
{
    let bytes = text.as_bytes();
    let mut state = h;
    let mut k: usize = 0;
    while k < bytes.len()
        invariant
            k <= bytes@.len(),
            bytes@ == text.spec_bytes(),
            state == fnv_absorb(h, bytes@.take(k as int)),
        decreases bytes@.len() - k,
    {
        let b = bytes[k];
        proof {
            assert(bytes@.take(k + 1).drop_last() =~= bytes@.take(k as int));
            assert(bytes@.take(k + 1).last() == b);
        }
        if b != CARRIAGE_RETURN {
            state = (state ^ (b as u64)).wrapping_mul(FNV_PRIME);
        }
        k = k + 1;
    }
    proof {
        assert(bytes@.take(k as int) =~= bytes@);
    }
    state
}

/// A fingerprint of the content sources, `(file name, text)` in order.
pub fn content_fingerprint(sources: &[(&str, &str)]) -> (r: u16)
    ensures
        r == spec_fingerprint(source_bytes(sources@)),
{
    let mut hash: u64 = FNV_OFFSET;
    let mut k: usize = 0;
    while k < sources.len()
        invariant
            k <= sources@.len(),
            hash == absorb_sources(FNV_OFFSET, source_bytes(sources@).take(k as int)),
        decreases sources@.len() - k,
    {
        let (name, source) = sources[k];
        proof {
            let t = source_bytes(sources@).take(k + 1);
            assert(t.drop_last() =~= source_bytes(sources@).take(k as int));
            assert(t.last() == (name.spec_bytes(), source.spec_bytes()));
        }
        hash = absorb(absorb(hash, name), source);
        k = k + 1;
    }
    proof {
        assert(source_bytes(sources@).take(k as int) =~= source_bytes(sources@));
    }
    (hash ^ (hash >> 16) ^ (hash >> 32) ^ (hash >> 48)) as u16
}

proof fn lemma_absorb_ignores_cr(h: u64, bytes: Seq<u8>)
    ensures
        fnv_absorb(h, strip_cr(bytes)) == fnv_absorb(h, bytes),
    decreases bytes.len(),
{
    if bytes.len() > 0 {
        lemma_absorb_ignores_cr(h, bytes.drop_last());
        let prev = strip_cr(bytes.drop_last());
        if bytes.last() != CARRIAGE_RETURN {
            assert(prev.push(bytes.last()).drop_last() =~= prev);
        }
    }
}

/// Taking every carriage return out of the sources (turning CRLF line
/// endings into LF) leaves the fingerprint unchanged.
pub proof fn lemma_fingerprint_ignores_carriage_returns(sources: Seq<(Seq<u8>, Seq<u8>)>)
    ensures
        spec_fingerprint(sources) == spec_fingerprint(
            sources.map_values(|p: (Seq<u8>, Seq<u8>)| (strip_cr(p.0), strip_cr(p.1))),
        ),
    decreases sources.len(),
{
    lemma_sources_ignore_cr(FNV_OFFSET, sources);
}

proof fn lemma_sources_ignore_cr(h: u64, sources: Seq<(Seq<u8>, Seq<u8>)>)
    ensures
        absorb_sources(h, sources) == absorb_sources(
            h,
            sources.map_values(|p: (Seq<u8>, Seq<u8>)| (strip_cr(p.0), strip_cr(p.1))),
        ),
    decreases sources.len(),
{
    let stripped = sources.map_values(|p: (Seq<u8>, Seq<u8>)| (strip_cr(p.0), strip_cr(p.1)));
    if sources.len() > 0 {
        lemma_sources_ignore_cr(h, sources.drop_last());
        assert(stripped.drop_last() =~= sources.drop_last().map_values(
            |p: (Seq<u8>, Seq<u8>)| (strip_cr(p.0), strip_cr(p.1)),
        ));
        let prev = absorb_sources(h, sources.drop_last());
        lemma_absorb_ignores_cr(prev, sources.last().0);
        lemma_absorb_ignores_cr(fnv_absorb(prev, sources.last().0), sources.last().1);
    }
}

} // verus!
