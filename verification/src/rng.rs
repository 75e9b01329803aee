//! Deterministic RNG seeds and named streams for replayable core logic.
//!
//! Core code constructs RNGs from explicit seeds only. Named streams keep piece
//! choice, dice pips, happy queues, and weapon randomness isolated so adding one
//! random draw does not perturb unrelated simulations.

use rand::RngCore;
use rand::SeedableRng;
use rand_chacha::ChaCha12Rng;
use vstd::prelude::*;

verus! {

/// The ChaCha12 generator of `rand_chacha`, carried through as an opaque value.
#[verifier::external_type_specification]
#[verifier::external_body]
pub struct ExChaCha12Rng(ChaCha12Rng);

/// The generator that `SeedableRng::from_seed` of `rand_chacha::ChaCha12Rng`
/// builds from a 32-byte seed. Keying ChaCha with the seed and a zero nonce is a
/// function of the seed alone.
pub uninterp spec fn chacha_seeded(seed: Seq<u8>) -> ChaCha12Rng;

/// Calls `SeedableRng::from_seed` of `rand_chacha::ChaCha12Rng`, which keys the
/// generator with the 32 seed bytes and a zero nonce. The contract claims only
/// that the generator is determined by the seed (`chacha_seeded`); its internal
/// state stays opaque here.
#[verifier::external_body]
pub(crate) fn chacha_from_seed(seed: [u8; 32]) -> (r: ChaCha12Rng)
    ensures
        r == chacha_seeded(seed@),
{
    ChaCha12Rng::from_seed(seed)
}

/// The value `RngCore::next_u64` draws from a ChaCha12 generator, and the generator
/// after the draw. ChaCha's output is a function of the generator's state alone.
pub uninterp spec fn chacha_next(rng: ChaCha12Rng) -> (u64, ChaCha12Rng);

/// Calls `RngCore::next_u64` of `rand_chacha::ChaCha12Rng`. The contract claims only that
/// the drawn value and the generator's next state are determined by its state
/// (`chacha_next`); the state itself stays opaque here.
#[verifier::external_body]
pub(crate) fn chacha_next_u64(rng: &mut ChaCha12Rng) -> (r: u64)
    ensures
        (r, *final(rng)) == chacha_next(*old(rng)),
{
    rng.next_u64()
}

/// Calls `Clone::clone` of `rand_chacha::ChaCha12Rng`, whose derived impl copies the
/// generator's whole state, its position in the stream included: the copy equals the
/// original.
#[verifier::external_body]
pub(crate) fn chacha_clone(rng: &ChaCha12Rng) -> (r: ChaCha12Rng)
    ensures
        r == *rng,
{
    rng.clone()
}

/// FNV-1a 64-bit offset basis.
pub const FNV_OFFSET: u64 = 0xcbf2_9ce4_8422_2325;

/// FNV-1a 64-bit prime.
pub const FNV_PRIME: u64 = 0x0000_0100_0000_01b3;

/// One FNV-1a step: xor the byte in, then multiply by the prime modulo 2^64.
pub open spec fn fnv_step(hash: u64, byte: u8) -> u64 {
    vstd::wrapping::u64_specs::wrapping_mul(hash ^ (byte as u64), FNV_PRIME)
}

/// FNV-1a 64-bit hash of a byte sequence.
pub open spec fn fnv1a64_spec(bytes: Seq<u8>) -> u64
    decreases bytes.len(),
{
    if bytes.len() == 0 {
        FNV_OFFSET
    } else {
        fnv_step(fnv1a64_spec(bytes.drop_last()), bytes.last())
    }
}

/// Byte `i` of the little-endian encoding of a 64-bit value.
pub open spec fn le_byte(value: u64, i: int) -> u8 {
    ((value >> ((8 * i) as u64)) & 0xff) as u8
}

/// Stable 32-byte game seed used by replays, fixtures, and protocol starts.
#[derive(Debug, Clone, Copy, PartialEq, Eq, Hash)]
pub struct GameSeed(pub [u8; 32]);

/// Named deterministic RNG streams owned by core logic.
#[derive(Debug, Clone, Copy, PartialEq, Eq, Structural)]
pub enum RngStream {
    /// Weighted falling-piece selection.
    PieceSelection,
    /// Die pip selection.
    DicePips,
    /// Happy-piece queue effects.
    HappyQueue,
    /// Future weapon random effects.
    WeaponEffects,
    /// Computer opponent shopping and tie-breaking.
    ComputerOpponent,
}

/// The ASCII name that keys a stream.
pub open spec fn stream_name(stream: RngStream) -> Seq<u8> {
    match stream {
        RngStream::PieceSelection => seq![112u8, 105, 101, 99, 101, 45, 115, 101, 108, 101, 99, 116, 105, 111, 110],
        RngStream::DicePips => seq![100u8, 105, 99, 101, 45, 112, 105, 112, 115],
        RngStream::HappyQueue => seq![104u8, 97, 112, 112, 121, 45, 113, 117, 101, 117, 101],
        RngStream::WeaponEffects => seq![119u8, 101, 97, 112, 111, 110, 45, 101, 102, 102, 101, 99, 116, 115],
        RngStream::ComputerOpponent => seq![99u8, 111, 109, 112, 117, 116, 101, 114, 45, 111, 112, 112, 111, 110, 101, 110, 116],
    }
}

/// The 32-byte key of a named stream: each seed byte xored with the matching
/// little-endian byte of the name's FNV-1a hash plus the byte's position.
pub open spec fn stream_seed_spec(seed: Seq<u8>, name: Seq<u8>) -> Seq<u8> {
    Seq::new(
        32,
        |i: int|
            seed[i] ^ vstd::wrapping::u8_specs::wrapping_add(
                le_byte(fnv1a64_spec(name), i % 8),
                i as u8,
            ),
    )
}

impl RngStream {
    /// Returns the ASCII name that keys this stream.
    pub fn name(self) -> (r: Vec<u8>)
        ensures
            r@ == stream_name(self),
    {
        let r = match self {
            Self::PieceSelection => vec![112u8, 105, 101, 99, 101, 45, 115, 101, 108, 101, 99, 116, 105, 111, 110],
            Self::DicePips => vec![100u8, 105, 99, 101, 45, 112, 105, 112, 115],
            Self::HappyQueue => vec![104u8, 97, 112, 112, 121, 45, 113, 117, 101, 117, 101],
            Self::WeaponEffects => vec![119u8, 101, 97, 112, 111, 110, 45, 101, 102, 102, 101, 99, 116, 115],
            Self::ComputerOpponent => vec![99u8, 111, 109, 112, 117, 116, 101, 114, 45, 111, 112, 112, 111, 110, 101, 110, 116],
        };
        assert(r@ =~= stream_name(self));
        r
    }
}

/// Computes the FNV-1a 64-bit hash of a byte string.
pub fn fnv1a64(bytes: &[u8]) -> (r: u64)
    ensures
        r == fnv1a64_spec(bytes@),
{
    let mut hash: u64 = FNV_OFFSET;
    let mut i: usize = 0;
    while i < bytes.len()
        invariant
            i <= bytes@.len(),
            hash == fnv1a64_spec(bytes@.take(i as int)),
        decreases bytes@.len() - i,
    {
        let byte = bytes[i];
        assert(bytes@.take(i as int + 1).drop_last() =~= bytes@.take(i as int));
        hash = (hash ^ (byte as u64)).wrapping_mul(FNV_PRIME);
        i = i + 1;
    }
    assert(bytes@.take(i as int) =~= bytes@);
    hash
}

impl GameSeed {
    /// Returns a seed from a little-endian integer for compact tests and tools.
    #[must_use]
    pub fn from_u64(value: u64) -> (r: Self)
        ensures
            forall|i: int| 0 <= i < 8 ==> #[trigger] r.0@[i] == le_byte(value, i),
            forall|i: int| 8 <= i < 32 ==> #[trigger] r.0@[i] == 0,
    {
        let mut seed = [0u8; 32];
        let mut i: usize = 0;
        while i < 8
            invariant
                i <= 8,
                seed@.len() == 32,
                forall|j: int| 0 <= j < i ==> #[trigger] seed@[j] == le_byte(value, j),
                forall|j: int| 8 <= j < 32 ==> #[trigger] seed@[j] == 0,
            decreases 8 - i,
        {
            let shift: u64 = 8 * (i as u64);
            let byte = ((value >> shift) & 0xff) as u8;
            seed[i] = byte;
            i = i + 1;
        }
        Self(seed)
    }

    /// Returns the 32-byte key of a named stream.
    pub fn stream_seed(self, name: &[u8]) -> (r: [u8; 32])
        ensures
            r@ == stream_seed_spec(self.0@, name@),
    {
        let mut seed = self.0;
        let hash = fnv1a64(name);
        let mut i: usize = 0;
        while i < 32
            invariant
                i <= 32,
                seed@.len() == 32,
                hash == fnv1a64_spec(name@),
                forall|j: int| 0 <= j < i ==> #[trigger] seed@[j] == stream_seed_spec(self.0@, name@)[j],
                forall|j: int| i <= j < 32 ==> #[trigger] seed@[j] == self.0@[j],
            decreases 32 - i,
        {
            let shift: u64 = 8 * ((i % 8) as u64);
            let hash_byte = ((hash >> shift) & 0xff) as u8;
            let mixed = seed[i] ^ hash_byte.wrapping_add(i as u8);
            seed[i] = mixed;
            i = i + 1;
        }
        assert(seed@ =~= stream_seed_spec(self.0@, name@));
        seed
    }

    /// The generator of a named stream: ChaCha12 keyed with this seed mixed with the name.
    pub open spec fn stream_spec(self, stream: RngStream) -> ChaCha12Rng {
        chacha_seeded(stream_seed_spec(self.0@, stream_name(stream)))
    }

    /// Builds a deterministic RNG for a named stream: the ChaCha12 generator keyed
    /// with this seed mixed with the stream's name.
    #[must_use]
    pub fn stream(self, stream: RngStream) -> (r: ChaCha12Rng)
        ensures
            r == self.stream_spec(stream),
            r == chacha_seeded(stream_seed_spec(self.0@, stream_name(stream))),
    {
        let name = stream.name();
        let seed = self.stream_seed(name.as_slice());
        chacha_from_seed(seed)
    }
}

} // verus!
