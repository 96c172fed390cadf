//! The cost parameters and salt of the memory-hard key stretching.

use crate::error::{outcome, SqrlError};
use crate::readable_vector::{next_array, ReadableVector};
use crate::wire::{lemma_u32_from_le_of_le, put_bytes, put_u32, u32_from_le, u32_le};
use rand::Rng;
use std::collections::VecDeque;
use vstd::arithmetic::power2::{lemma2_to64, lemma_pow2_strictly_increases, lemma_pow2_unfold, pow2};
use vstd::prelude::*;

verus! {

/// Number of bytes of salt.
pub const SALT_LEN: usize = 16;

/// Number of bytes that a configuration takes on the wire.
pub const SCRYPT_CONFIG_LEN: usize = 25;

/// The table exponent of a new configuration: a table of 1024 entries.
pub const DEFAULT_LOG_N: u8 = 10;

/// The block size of a new configuration.
pub const DEFAULT_BLOCK_SIZE: u32 = 8;

/// The number of lanes of a new configuration.
pub const DEFAULT_PARALLELISM: u32 = 1;

/// The largest work area, in blocks of 128 bytes, that a configuration may
/// ask for: one gibibyte, a size that still fits a 32-bit machine word.
pub const MAX_WORK_BLOCKS: u64 = 0x80_0000;

/// Whether scrypt can run with these cost parameters: each is at least one,
/// the table size `2^log_n` stays below `2^(16 * r)`, and neither the table
/// (`r * 2^log_n` blocks) nor the parallel lanes (`r * p` blocks) exceed
/// `MAX_WORK_BLOCKS`.
pub open spec fn cost_in_range(log_n: u8, r: u32, p: u32) -> bool {
    &&& 1 <= log_n
    &&& 1 <= r
    &&& 1 <= p
    &&& log_n < 16 * r
    &&& r * pow2(log_n as nat) <= MAX_WORK_BLOCKS
    &&& r * p <= MAX_WORK_BLOCKS
}

/// A cost within range has a table exponent of at most 23, and neither its
/// block size nor its lanes exceed `MAX_WORK_BLOCKS`.
pub proof fn lemma_cost_in_range_bounds(log_n: u8, r: u32, p: u32)
    requires
        cost_in_range(log_n, r, p),
    ensures
        log_n <= 23,
        r <= MAX_WORK_BLOCKS,
        p <= MAX_WORK_BLOCKS,
{
    lemma2_to64();
    if log_n > 23 {
        lemma_pow2_strictly_increases(23, log_n as nat);
        assert(r * pow2(log_n as nat) >= pow2(log_n as nat)) by (nonlinear_arith)
            requires
                r >= 1,
        ;
    }
    assert(r * pow2(log_n as nat) >= r) by (nonlinear_arith)
        requires
            pow2(log_n as nat) >= 1,
    ;
    assert(r * p >= p) by (nonlinear_arith)
        requires
            r >= 1,
    ;
}

/// Decides `cost_in_range`.
pub fn check_cost(log_n: u8, r: u32, p: u32) -> (ok: bool)
    ensures
        ok == cost_in_range(log_n, r, p),
{
    if log_n < 1 || r < 1 || p < 1 {
        return false;
    }
    if log_n > 23 {
        proof {
            if cost_in_range(log_n, r, p) {
                lemma_cost_in_range_bounds(log_n, r, p);
            }
        }
        return false;
    }
    let mut table: u64 = 1;
    let mut i: u8 = 0;
    proof {
        lemma2_to64();
    }
    while i < log_n
        invariant
            i <= log_n <= 23,
            table == pow2(i as nat),
            table <= 0x80_0000,
        decreases log_n - i,
    {
        proof {
            lemma_pow2_unfold((i + 1) as nat);
            lemma2_to64();
            if i + 1 < 23 {
                lemma_pow2_strictly_increases((i + 1) as nat, 23);
            }
        }
        table = table * 2;
        i += 1;
    }
    let r_wide: u64 = r as u64;
    let p_wide: u64 = p as u64;
    assert(r_wide * table <= 0xffff_ffff * 0x80_0000 && r_wide * p_wide <= 0xffff_ffff
        * 0xffff_ffff) by (nonlinear_arith)
        requires
            r_wide <= 0xffff_ffff,
            p_wide <= 0xffff_ffff,
            table <= 0x80_0000,
    ;
    (log_n as u64) < 16 * r_wide && r_wide * table <= MAX_WORK_BLOCKS && r_wide * p_wide
        <= MAX_WORK_BLOCKS
}

/// Calls `rand::thread_rng().fill_bytes` on a sixteen-byte buffer and returns
/// the buffer. The bytes depend on chance: nothing is claimed of them.
/// `thread_rng` panics where the operating system has no entropy to give.
#[verifier::external_body]
fn fresh_salt() -> [u8; 16] {
    let mut salt = [0u8; 16];
    rand::thread_rng().fill_bytes(&mut salt);
    salt
}

/// What a configuration holds, as plain values.
pub struct ScryptConfigView {
    /// The salt: `SALT_LEN` bytes.
    pub salt: Seq<u8>,
    /// The base-two logarithm of scrypt's table size `N`.
    pub log_n: u8,
    /// scrypt's block size parameter `r`.
    pub r: u32,
    /// scrypt's parallelism parameter `p`.
    pub p: u32,
}

impl ScryptConfigView {
    /// Whether the salt has its length and scrypt can run with the cost.
    pub open spec fn is_valid(self) -> bool {
        self.salt.len() == SALT_LEN && cost_in_range(self.log_n, self.r, self.p)
    }

    /// The same cost with another salt.
    pub open spec fn with_salt(self, salt: Seq<u8>) -> ScryptConfigView {
        ScryptConfigView { salt, ..self }
    }

    /// The bytes on the wire: the salt, the table exponent, then `r` and `p`
    /// as little-endian 32-bit numbers.
    pub open spec fn encoded(self) -> Seq<u8> {
        self.salt + seq![self.log_n] + u32_le(self.r) + u32_le(self.p)
    }

    /// What the first `SCRYPT_CONFIG_LEN` bytes of `bytes` spell, if their
    /// cost is in range.
    pub open spec fn parse(bytes: Seq<u8>) -> Option<ScryptConfigView> {
        let log_n = bytes[16];
        let r = u32_from_le(bytes.subrange(17, 21)) as u32;
        let p = u32_from_le(bytes.subrange(21, 25)) as u32;
        if cost_in_range(log_n, r, p) {
            Some(ScryptConfigView { salt: bytes.subrange(0, 16), log_n, r, p })
        } else {
            None
        }
    }

    /// What decoding a queue that holds `before` returns, and what the queue
    /// holds afterwards. The field is taken whole or not at all; a field whose
    /// cost is out of range is taken and refused.
    pub open spec fn decode_outcome(before: Seq<u8>) -> (
        Result<ScryptConfigView, SqrlError>,
        Seq<u8>,
    ) {
        if before.len() < SCRYPT_CONFIG_LEN {
            (Err(SqrlError::StructuralParseError), before)
        } else {
            match Self::parse(before) {
                Some(config) => (Ok(config), before.skip(SCRYPT_CONFIG_LEN as int)),
                None => (
                    Err(SqrlError::StructuralParseError),
                    before.skip(SCRYPT_CONFIG_LEN as int),
                ),
            }
        }
    }
}

/// A valid configuration takes `SCRYPT_CONFIG_LEN` bytes, and parsing them
/// gives the configuration back, whatever follows them.
pub proof fn lemma_parse_encoded(config: ScryptConfigView, tail: Seq<u8>)
    requires
        config.is_valid(),
    ensures
        config.encoded().len() == SCRYPT_CONFIG_LEN,
        ScryptConfigView::parse(config.encoded() + tail) == Some(config),
        ScryptConfigView::decode_outcome(config.encoded() + tail) == (
            Ok::<ScryptConfigView, SqrlError>(config),
            tail,
        ),
{
    let bytes = config.encoded() + tail;
    lemma_u32_from_le_of_le(config.r);
    lemma_u32_from_le_of_le(config.p);
    assert(bytes.subrange(0, 16) =~= config.salt);
    assert(bytes.subrange(17, 21) =~= u32_le(config.r));
    assert(bytes.subrange(21, 25) =~= u32_le(config.p));
    assert(bytes[16] == config.log_n);
    assert(bytes.skip(SCRYPT_CONFIG_LEN as int) =~= tail);
}

/// The salt and the cost parameters with which a key is stretched. The cost
/// is always one that scrypt can run with.
#[derive(Clone, Copy, Debug, PartialEq, Eq)]
pub struct ScryptConfig {
    random_salt: [u8; 16],
    log_n_factor: u8,
    block_size: u32,
    parallelism: u32,
}

impl View for ScryptConfig {
    type V = ScryptConfigView;

    closed spec fn view(&self) -> ScryptConfigView {
        ScryptConfigView {
            salt: self.random_salt@,
            log_n: self.log_n_factor,
            r: self.block_size,
            p: self.parallelism,
        }
    }
}

impl ScryptConfig {
    #[verifier::type_invariant]
    spec fn cost_is_in_range(self) -> bool {
        cost_in_range(self.log_n_factor, self.block_size, self.parallelism)
    }

    /// A configuration with a fresh random salt and the default cost.
    pub fn new() -> (config: ScryptConfig)
        ensures
            config@.is_valid(),
            config@.log_n == DEFAULT_LOG_N,
            config@.r == DEFAULT_BLOCK_SIZE,
            config@.p == DEFAULT_PARALLELISM,
    {
        proof {
            lemma2_to64();
        }
        ScryptConfig {
            random_salt: fresh_salt(),
            log_n_factor: DEFAULT_LOG_N,
            block_size: DEFAULT_BLOCK_SIZE,
            parallelism: DEFAULT_PARALLELISM,
        }
    }

    /// The salt.
    pub fn random_salt(&self) -> (salt: &[u8; 16])
        ensures
            salt@ == self@.salt,
            self@.is_valid(),
    {
        proof {
            use_type_invariant(self);
        }
        &self.random_salt
    }

    /// The base-two logarithm of scrypt's table size.
    pub fn log_n_factor(&self) -> (log_n: u8)
        ensures
            log_n == self@.log_n,
            self@.is_valid(),
    {
        proof {
            use_type_invariant(self);
        }
        self.log_n_factor
    }

    /// scrypt's block size parameter.
    pub fn block_size(&self) -> (r: u32)
        ensures
            r == self@.r,
            self@.is_valid(),
    {
        proof {
            use_type_invariant(self);
        }
        self.block_size
    }

    /// scrypt's parallelism parameter.
    pub fn parallelism(&self) -> (p: u32)
        ensures
            p == self@.p,
            self@.is_valid(),
    {
        proof {
            use_type_invariant(self);
        }
        self.parallelism
    }

    /// Replaces the salt by a fresh random one; the cost stays.
    pub fn refresh_salt(&mut self)
        ensures
            final(self)@ == old(self)@.with_salt(final(self)@.salt),
            final(self)@.is_valid(),
    {
        proof {
            use_type_invariant(&*self);
        }
        self.random_salt = fresh_salt();
    }

    /// Number of bytes that the configuration takes on the wire.
    pub fn len(&self) -> (n: u16)
        ensures
            n == SCRYPT_CONFIG_LEN,
            n == self@.encoded().len(),
    {
        proof {
            use_type_invariant(self);
        }
        25
    }

    /// Reads a configuration from the front of `binary`.
    pub fn from_binary(binary: &mut VecDeque<u8>) -> (result: Result<ScryptConfig, SqrlError>)
        ensures
            outcome(result) == ScryptConfigView::decode_outcome(old(binary)@).0,
            final(binary)@ == ScryptConfigView::decode_outcome(old(binary)@).1,
            result matches Ok(config) ==> config@.is_valid(),
    {
        if binary.len() < SCRYPT_CONFIG_LEN {
            return Err(SqrlError::StructuralParseError);
        }
        let random_salt: [u8; 16] = next_array(binary)?;
        let log_n_factor: u8 = binary.next_u8()?;
        let block_size: u32 = binary.next_u32()?;
        let parallelism: u32 = binary.next_u32()?;
        proof {
            let before = old(binary)@;
            assert(before.take(16) =~= before.subrange(0, 16));
            assert(before.skip(16).skip(1).take(4) =~= before.subrange(17, 21));
            assert(before.skip(16).skip(1).skip(4).take(4) =~= before.subrange(21, 25));
            assert(binary@ =~= before.skip(SCRYPT_CONFIG_LEN as int));
        }
        if !check_cost(log_n_factor, block_size, parallelism) {
            return Err(SqrlError::StructuralParseError);
        }
        Ok(ScryptConfig { random_salt, log_n_factor, block_size, parallelism })
    }

    /// Appends the configuration to `output`.
    pub fn to_binary(&self, output: &mut Vec<u8>) -> (result: Result<(), SqrlError>)
        ensures
            result is Ok,
            final(output)@ == old(output)@ + self@.encoded(),
    {
        put_bytes(output, &self.random_salt);
        output.push(self.log_n_factor);
        put_u32(output, self.block_size);
        put_u32(output, self.parallelism);
        assert(output@ =~= old(output)@ + self@.encoded());
        Ok(())
    }
}

} // verus!
