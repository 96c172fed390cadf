//! Key stretching: scrypt, chained over several passes whose outputs are
//! combined by exclusive or.

use crate::aead::{SealingKey, KEY_LEN};
use crate::scrypt_config::{cost_in_range, ScryptConfig, ScryptConfigView};
use crate::wire::zeros;
use vstd::prelude::*;

verus! {

/// The 32 bytes that scrypt derives from a password and a salt at the cost
/// `log_n`, `r`, `p`.
pub uninterp spec fn scrypt_32(password: Seq<u8>, salt: Seq<u8>, log_n: u8, r: u32, p: u32) -> Seq<
    u8,
>;

/// The bytewise exclusive or of `a` and `b`, as long as `a`.
pub open spec fn xor_bytes(a: Seq<u8>, b: Seq<u8>) -> Seq<u8> {
    Seq::new(a.len(), |i: int| a[i] ^ b[i])
}

/// The output of pass number `pass`, counted from one. The first pass is
/// salted with the configuration's salt, every later one with the output of
/// the pass before it.
pub open spec fn pass_output(password: Seq<u8>, config: ScryptConfigView, pass: nat) -> Seq<u8>
    decreases pass,
{
    if pass <= 1 {
        scrypt_32(password, config.salt, config.log_n, config.r, config.p)
    } else {
        scrypt_32(
            password,
            pass_output(password, config, (pass - 1) as nat),
            config.log_n,
            config.r,
            config.p,
        )
    }
}

/// The key after `effort` passes: the exclusive or of their outputs. With no
/// pass at all it is 32 zero bytes.
pub open spec fn stretched_key(password: Seq<u8>, config: ScryptConfigView, effort: nat) -> Seq<u8>
    decreases effort,
{
    if effort == 0 {
        zeros(KEY_LEN as nat)
    } else {
        xor_bytes(
            stretched_key(password, config, (effort - 1) as nat),
            pass_output(password, config, effort),
        )
    }
}

/// Runs `crypto::scrypt::ScryptParams::new` on the cost and then
/// `crypto::scrypt::scrypt` with a 32-byte output buffer, which it returns.
/// The output is a function of password, salt and cost, named `scrypt_32`.
/// `ScryptParams::new` panics on a parameter of zero, on a table of
/// `2^(16 * r)` entries or more, and on sizes beyond the machine word; a cost
/// in range is none of these.
#[verifier::external_body]
fn scrypt_raw(password: &[u8], salt: &[u8], log_n: u8, r: u32, p: u32) -> (key: [u8; 32])
    requires
        cost_in_range(log_n, r, p),
    ensures
        key@ == scrypt_32(password@, salt@, log_n, r, p),
{
    let params = crypto::scrypt::ScryptParams::new(log_n, r, p);
    let mut key = [0u8; 32];
    crypto::scrypt::scrypt(password, salt, &params, &mut key);
    key
}

/// Replaces `key` by its exclusive or with `other`.
pub fn xor_into(key: &mut [u8; 32], other: &[u8; 32])
    ensures
        final(key)@ == xor_bytes(old(key)@, other@),
{
    let mut i: usize = 0;
    while i < 32
        invariant
            i <= 32,
            forall|j: int| 0 <= j < i ==> key@[j] == old(key)@[j] ^ other@[j],
            forall|j: int| i <= j < 32 ==> key@[j] == old(key)@[j],
        decreases 32 - i,
    {
        key[i] = key[i] ^ other[i];
        i += 1;
    }
    assert(key@ =~= xor_bytes(old(key)@, other@));
}

/// Stretches `password` with the salt and the cost of `scrypt_config` over
/// `effort` chained passes.
pub fn en_scrypt(password: &[u8], scrypt_config: &ScryptConfig, effort: u8) -> (key: [u8; 32])
    ensures
        key@ == stretched_key(password@, scrypt_config@, effort as nat),
{
    let log_n: u8 = scrypt_config.log_n_factor();
    let r: u32 = scrypt_config.block_size();
    let p: u32 = scrypt_config.parallelism();
    let mut key = [0u8; 32];
    assert(key@ =~= stretched_key(password@, scrypt_config@, 0));
    if effort == 0 {
        return key;
    }
    let mut last = scrypt_raw(password, scrypt_config.random_salt(), log_n, r, p);
    xor_into(&mut key, &last);
    let mut pass: u8 = 1;
    while pass < effort
        invariant
            1 <= pass <= effort,
            cost_in_range(log_n, r, p),
            log_n == scrypt_config@.log_n,
            r == scrypt_config@.r,
            p == scrypt_config@.p,
            last@ == pass_output(password@, scrypt_config@, pass as nat),
            key@ == stretched_key(password@, scrypt_config@, pass as nat),
        decreases effort - pass,
    {
        last = scrypt_raw(password, &last, log_n, r, p);
        xor_into(&mut key, &last);
        pass += 1;
    }
    key
}

/// Draws a fresh salt into `scrypt_config` and stretches `password` with it.
/// The key is for one seal.
pub fn mut_en_scrypt(password: &[u8], scrypt_config: &mut ScryptConfig, effort: u8) -> (key:
    SealingKey)
    ensures
        final(scrypt_config)@ == old(scrypt_config)@.with_salt(final(scrypt_config)@.salt),
        final(scrypt_config)@.is_valid(),
        key@ == stretched_key(password@, final(scrypt_config)@, effort as nat),
{
    scrypt_config.refresh_salt();
    SealingKey::new(en_scrypt(password, scrypt_config, effort))
}

} // verus!
