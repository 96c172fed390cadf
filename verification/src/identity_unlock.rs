//! The block that protects the identity unlock key under a rescue code, and
//! the rotation that replaces the protected key.

use crate::aead::{open, open_outcome, opened, seal, sealed, KEY_LEN, TAG_LEN};
use crate::data_type::DataType;
use crate::en_scrypt::{en_scrypt, mut_en_scrypt, stretched_key};
use crate::error::{outcome, SqrlError};
use crate::readable_vector::{next_array, read_outcome};
use crate::rescue_code::{decode_rescue_code, generate_rescue_code, is_rescue_code, rescue_secret};
use crate::scrypt_config::{
    lemma_parse_encoded, ScryptConfig, ScryptConfigView, DEFAULT_BLOCK_SIZE, DEFAULT_LOG_N,
    DEFAULT_PARALLELISM, SCRYPT_CONFIG_LEN,
};
use crate::wire::{all_zero, is_all_zero, put_bytes, put_u16, u16_le, zeros};
use crate::writable_datablock::WritableDataBlock;
use std::collections::VecDeque;
use vstd::prelude::*;

verus! {

/// The declared length of the block.
pub const IDENTITY_UNLOCK_LEN: u16 = 73;

/// Number of scrypt passes behind the key that protects an identity unlock
/// key.
pub const UNLOCK_KEY_EFFORT: u8 = 7;

/// What a block holds, as plain values.
pub struct IdentityUnlockView {
    /// Salt and cost of the key stretching.
    pub scrypt_config: ScryptConfigView,
    /// The encrypted identity unlock key: `KEY_LEN` bytes, all zero while
    /// nothing has been protected.
    pub identity_unlock_key: Seq<u8>,
    /// The authentication tag: `TAG_LEN` bytes.
    pub verification_data: Seq<u8>,
}

impl IdentityUnlockView {
    /// Whether every field has its length and the cost is in range.
    pub open spec fn is_valid(self) -> bool {
        &&& self.scrypt_config.is_valid()
        &&& self.identity_unlock_key.len() == KEY_LEN
        &&& self.verification_data.len() == TAG_LEN
    }

    /// Whether nothing has been protected yet.
    pub open spec fn is_uninitialized(self) -> bool {
        all_zero(self.identity_unlock_key)
    }

    /// The associated data of the block: its declared length, its kind, and
    /// its scrypt configuration, as the container writes them.
    pub open spec fn aad(self) -> Seq<u8> {
        u16_le(IDENTITY_UNLOCK_LEN) + DataType::RescueCode.encoded() + self.scrypt_config.encoded()
    }

    /// The key that `rescue_code` gives with the block's salt and cost.
    pub open spec fn unlock_key(self, rescue_code: Seq<char>) -> Seq<u8> {
        stretched_key(rescue_secret(rescue_code), self.scrypt_config, UNLOCK_KEY_EFFORT as nat)
    }

    /// Whether the block holds `secret` sealed under `rescue_code`.
    pub open spec fn protects(self, rescue_code: Seq<char>, secret: Seq<u8>) -> bool {
        sealed(self.unlock_key(rescue_code), self.aad(), secret) == (
            self.identity_unlock_key,
            self.verification_data,
        )
    }

    /// What `rescue_code` recovers from the block, or `None` where the tag
    /// does not verify.
    pub open spec fn recovered(self, rescue_code: Seq<char>) -> Option<Seq<u8>> {
        opened(
            self.unlock_key(rescue_code),
            self.aad(),
            self.identity_unlock_key,
            self.verification_data,
        )
    }

    /// The secret that a rotation hands back: zero bytes from a block that
    /// protects nothing, else what `rescue_code` recovers.
    pub open spec fn previous_secret(self, rescue_code: Seq<char>) -> Option<Seq<u8>> {
        if self.is_uninitialized() {
            Some(zeros(KEY_LEN as nat))
        } else {
            self.recovered(rescue_code)
        }
    }

    /// The body on the wire: configuration, encrypted key, tag.
    pub open spec fn encoded(self) -> Seq<u8> {
        self.scrypt_config.encoded() + self.identity_unlock_key + self.verification_data
    }

    /// What decoding a queue that holds `before` returns, and what the queue
    /// holds afterwards. The fields are read in order; the first that is
    /// incomplete or out of range ends the decoding.
    pub open spec fn decode_outcome(before: Seq<u8>) -> (
        Result<IdentityUnlockView, SqrlError>,
        Seq<u8>,
    ) {
        let (config, after_config) = ScryptConfigView::decode_outcome(before);
        match config {
            Err(e) => (Err(e), after_config),
            Ok(scrypt_config) => {
                let (key, after_key) = read_outcome(after_config, KEY_LEN as nat);
                match key {
                    Err(e) => (Err(e), after_key),
                    Ok(identity_unlock_key) => {
                        let (tag, after_tag) = read_outcome(after_key, TAG_LEN as nat);
                        match tag {
                            Err(e) => (Err(e), after_tag),
                            Ok(verification_data) => (
                                Ok(
                                    IdentityUnlockView {
                                        scrypt_config,
                                        identity_unlock_key,
                                        verification_data,
                                    },
                                ),
                                after_tag,
                            ),
                        }
                    },
                }
            },
        }
    }
}

/// What a recovery with `rescue_code` returns from `block`: what opening the
/// block's ciphertext and tag returns under the key of `rescue_code` and the
/// associated data of the block.
pub open spec fn recovery_outcome(
    block: IdentityUnlockView,
    rescue_code: Seq<char>,
    result: Result<Seq<u8>, SqrlError>,
) -> bool {
    open_outcome(
        block.unlock_key(rescue_code),
        block.identity_unlock_key,
        block.verification_data,
        block.aad(),
        result,
    )
}

/// What a rotation does to a block and returns. `result` holds, on success,
/// the new rescue code and the secret that was protected before.
///
/// The rotation succeeds exactly where `before` protects nothing or
/// `rescue_code` recovers its secret. It then returns a well-formed new
/// rescue code and that previous secret, and `after` holds `new_key` sealed
/// under the new code, with the cost of `before` and a salt of its own. Else
/// it reports an authentication failure and `after` is `before`. On a block
/// that protects something, the previous secret is what a recovery with
/// `rescue_code` returns: whatever was sealed under that code comes back.
pub open spec fn rotation_outcome(
    before: IdentityUnlockView,
    rescue_code: Seq<char>,
    new_key: Seq<u8>,
    after: IdentityUnlockView,
    result: Result<(Seq<char>, Seq<u8>), SqrlError>,
) -> bool {
    &&& match result {
        Ok((new_code, previous)) => {
            &&& is_rescue_code(new_code)
            &&& before.previous_secret(rescue_code) == Some(previous)
            &&& after.scrypt_config == before.scrypt_config.with_salt(after.scrypt_config.salt)
            &&& after.is_valid()
            &&& after.protects(new_code, new_key)
        },
        Err(e) => {
            &&& e == SqrlError::AuthenticationFailure
            &&& before.previous_secret(rescue_code) is None
            &&& after == before
        },
    }
    &&& !before.is_uninitialized() ==> recovery_outcome(
        before,
        rescue_code,
        match result {
            Ok((_, previous)) => Ok(previous),
            Err(e) => Err(e),
        },
    )
}

/// A rotation of a block that protects nothing asks for no rescue code: it
/// succeeds whatever code is given, and hands back zero bytes.
pub proof fn lemma_first_rotation_succeeds(
    before: IdentityUnlockView,
    rescue_code: Seq<char>,
    new_key: Seq<u8>,
    after: IdentityUnlockView,
    result: Result<(Seq<char>, Seq<u8>), SqrlError>,
)
    requires
        before.is_uninitialized(),
        rotation_outcome(before, rescue_code, new_key, after, result),
    ensures
        result is Ok,
        result.unwrap().1.len() == KEY_LEN,
        all_zero(result.unwrap().1),
        after.protects(result.unwrap().0, new_key),
{
}

/// A rotation hands back the secret of the rotation before it. Let a first
/// rotation protect `first_key` and return `first_code`, and let a second
/// rotation be given `first_code`. Then the second rotation succeeds and the
/// previous secret that it returns is `first_key`.
///
/// The block between the two rotations must count as protected: a
/// ciphertext of 32 zero bytes reads as "nothing protected", and the second
/// rotation would then hand back zero bytes.
pub proof fn lemma_rotation_returns_previous_secret(
    start: IdentityUnlockView,
    any_code: Seq<char>,
    first_key: Seq<u8>,
    middle: IdentityUnlockView,
    first: Result<(Seq<char>, Seq<u8>), SqrlError>,
    second_key: Seq<u8>,
    end: IdentityUnlockView,
    second: Result<(Seq<char>, Seq<u8>), SqrlError>,
)
    requires
        first_key.len() == KEY_LEN,
        rotation_outcome(start, any_code, first_key, middle, first),
        first is Ok,
        !middle.is_uninitialized(),
        rotation_outcome(middle, first.unwrap().0, second_key, end, second),
    ensures
        second is Ok,
        second.unwrap().1 == first_key,
        end.protects(second.unwrap().0, second_key),
{
}

/// The associated data spells the header out: the declared length, the kind
/// of the block, then the scrypt configuration. Two valid blocks with the
/// same associated data therefore have the same configuration, so a change to
/// any header byte changes the associated data that the tag is verified over.
pub proof fn lemma_aad_spells_header(a: IdentityUnlockView, b: IdentityUnlockView)
    requires
        a.is_valid(),
        b.is_valid(),
    ensures
        a.aad().len() == 4 + SCRYPT_CONFIG_LEN,
        a.aad().subrange(0, 2) == u16_le(IDENTITY_UNLOCK_LEN),
        a.aad().subrange(2, 4) == u16_le(DataType::RescueCode.tag()),
        a.aad().skip(4) == a.scrypt_config.encoded(),
        a.aad() == b.aad() ==> a.scrypt_config == b.scrypt_config,
{
    let empty = Seq::<u8>::empty();
    lemma_parse_encoded(a.scrypt_config, empty);
    lemma_parse_encoded(b.scrypt_config, empty);
    assert(a.aad().subrange(0, 2) =~= u16_le(IDENTITY_UNLOCK_LEN));
    assert(a.aad().subrange(2, 4) =~= u16_le(DataType::RescueCode.tag()));
    assert(a.aad().skip(4) =~= a.scrypt_config.encoded());
    assert(b.aad().skip(4) =~= b.scrypt_config.encoded());
    assert(a.scrypt_config.encoded() + empty =~= a.scrypt_config.encoded());
    assert(b.scrypt_config.encoded() + empty =~= b.scrypt_config.encoded());
}

/// The body of a valid block takes `IDENTITY_UNLOCK_LEN` bytes, and decoding
/// them gives the block back and leaves what follows them in the queue.
pub proof fn lemma_decode_encoded(block: IdentityUnlockView, tail: Seq<u8>)
    requires
        block.is_valid(),
    ensures
        block.encoded().len() == IDENTITY_UNLOCK_LEN,
        IdentityUnlockView::decode_outcome(block.encoded() + tail) == (
            Ok::<IdentityUnlockView, SqrlError>(block),
            tail,
        ),
{
    let after_config = block.identity_unlock_key + block.verification_data + tail;
    let after_key = block.verification_data + tail;
    lemma_parse_encoded(block.scrypt_config, after_config);
    assert(block.encoded() + tail =~= block.scrypt_config.encoded() + after_config);
    assert(after_config.take(KEY_LEN as int) =~= block.identity_unlock_key);
    assert(after_config.skip(KEY_LEN as int) =~= after_key);
    assert(after_key.take(TAG_LEN as int) =~= block.verification_data);
    assert(after_key.skip(TAG_LEN as int) =~= tail);
}

/// Decoding succeeds exactly on a queue that holds at least
/// `IDENTITY_UNLOCK_LEN` bytes whose scrypt cost is in range. It then takes
/// exactly those bytes, and the block spells them. Every failure is a
/// structural parse error.
pub proof fn lemma_decode_outcome(before: Seq<u8>)
    ensures
        IdentityUnlockView::decode_outcome(before).0 is Ok <==> before.len() >= IDENTITY_UNLOCK_LEN
            && ScryptConfigView::parse(before) is Some,
        IdentityUnlockView::decode_outcome(before).0 matches Ok(block) ==> block.is_valid()
            && block.encoded() == before.take(IDENTITY_UNLOCK_LEN as int)
            && IdentityUnlockView::decode_outcome(before).1 == before.skip(
            IDENTITY_UNLOCK_LEN as int,
        ),
        IdentityUnlockView::decode_outcome(before).0 matches Err(e) ==> e
            == SqrlError::StructuralParseError,
{
    if IdentityUnlockView::decode_outcome(before).0 is Ok {
        let block = IdentityUnlockView::decode_outcome(before).0.unwrap();
        let config = block.scrypt_config;
        crate::wire::lemma_u32_le_of_from_le(before.subrange(17, 21));
        crate::wire::lemma_u32_le_of_from_le(before.subrange(21, 25));
        assert(config.encoded() =~= before.take(SCRYPT_CONFIG_LEN as int));
        assert(block.encoded() =~= before.take(IDENTITY_UNLOCK_LEN as int));
        assert(IdentityUnlockView::decode_outcome(before).1 =~= before.skip(
            IDENTITY_UNLOCK_LEN as int,
        ));
    }
}

/// A queue that holds fewer bytes than a whole body is refused with a
/// structural parse error, wherever it ends.
pub proof fn lemma_truncated_input_is_refused(before: Seq<u8>)
    requires
        before.len() < IDENTITY_UNLOCK_LEN,
    ensures
        IdentityUnlockView::decode_outcome(before).0 == Err::<IdentityUnlockView, SqrlError>(
            SqrlError::StructuralParseError,
        ),
{
    lemma_decode_outcome(before);
}

/// The block that holds an identity unlock key, encrypted under a key that is
/// stretched from a rescue code.
#[derive(Debug, PartialEq)]
pub struct IdentityUnlock {
    scrypt_config: ScryptConfig,
    identity_unlock_key: [u8; 32],
    verification_data: [u8; 16],
}

impl View for IdentityUnlock {
    type V = IdentityUnlockView;

    closed spec fn view(&self) -> IdentityUnlockView {
        IdentityUnlockView {
            scrypt_config: self.scrypt_config@,
            identity_unlock_key: self.identity_unlock_key@,
            verification_data: self.verification_data@,
        }
    }
}

impl IdentityUnlock {
    /// A block that protects nothing yet: zero ciphertext, zero tag, and a
    /// configuration with a fresh salt and the default cost.
    pub fn uninitialized() -> (block: IdentityUnlock)
        ensures
            block@.is_valid(),
            block@.is_uninitialized(),
            all_zero(block@.verification_data),
            block@.scrypt_config.log_n == DEFAULT_LOG_N,
            block@.scrypt_config.r == DEFAULT_BLOCK_SIZE,
            block@.scrypt_config.p == DEFAULT_PARALLELISM,
    {
        IdentityUnlock {
            scrypt_config: ScryptConfig::new(),
            identity_unlock_key: [0u8; 32],
            verification_data: [0u8; 16],
        }
    }

    /// Whether the block protects a key.
    pub fn is_initialized(&self) -> (initialized: bool)
        ensures
            initialized == !self@.is_uninitialized(),
            self@.is_valid(),
    {
        let _ = self.scrypt_config.log_n_factor();
        !is_all_zero(&self.identity_unlock_key)
    }

    /// A block that protects `identity_unlock_key`, and the rescue code that
    /// recovers it.
    pub fn new(identity_unlock_key: [u8; 32]) -> (created: (IdentityUnlock, String))
        ensures
            created.0@.is_valid(),
            created.0@.scrypt_config.log_n == DEFAULT_LOG_N,
            created.0@.scrypt_config.r == DEFAULT_BLOCK_SIZE,
            created.0@.scrypt_config.p == DEFAULT_PARALLELISM,
            is_rescue_code(created.1@),
            created.0@.protects(created.1@, identity_unlock_key@),
    {
        let mut identity_unlock = IdentityUnlock::uninitialized();
        let (rescue_code, _) = identity_unlock.update_unlock_key("", identity_unlock_key).unwrap();
        (identity_unlock, rescue_code)
    }

    /// Replaces the protected key by `identity_unlock_key` under a new rescue
    /// code. Returns the new code and the key that was protected before,
    /// which `rescue_code` has to recover unless the block protected nothing.
    pub fn update_unlock_key(&mut self, rescue_code: &str, identity_unlock_key: [u8; 32]) -> (result:
        Result<(String, [u8; 32]), SqrlError>)
        ensures
            rotation_outcome(
                old(self)@,
                rescue_code@,
                identity_unlock_key@,
                final(self)@,
                outcome(result),
            ),
    {
        let mut previous_identity_key = [0u8; 32];
        if !is_all_zero(&self.identity_unlock_key) {
            previous_identity_key = self.decrypt_identity_unlock_key(rescue_code)?;
        } else {
            assert(previous_identity_key@ =~= zeros(KEY_LEN as nat));
        }
        let new_code = generate_rescue_code();
        let key = mut_en_scrypt(
            decode_rescue_code(new_code.as_str()),
            &mut self.scrypt_config,
            UNLOCK_KEY_EFFORT,
        );
        let aad = self.aad()?;
        let (encrypted_data, verification_data) = seal(key, &identity_unlock_key, aad.as_slice());
        self.identity_unlock_key = encrypted_data;
        self.verification_data = verification_data;
        Ok((new_code, previous_identity_key))
    }

    /// Recovers the protected key with `rescue_code`.
    pub fn decrypt_identity_unlock_key(&self, rescue_code: &str) -> (result: Result<
        [u8; 32],
        SqrlError,
    >)
        ensures
            recovery_outcome(self@, rescue_code@, outcome(result)),
    {
        let key = en_scrypt(decode_rescue_code(rescue_code), &self.scrypt_config, UNLOCK_KEY_EFFORT);
        let aad = self.aad()?;
        open(&key, &self.identity_unlock_key, &self.verification_data, aad.as_slice())
    }

    /// The associated data that binds the ciphertext to the block's header.
    pub fn aad(&self) -> (result: Result<Vec<u8>, SqrlError>)
        ensures
            result matches Ok(bytes) && bytes@ == self@.aad(),
    {
        let mut result: Vec<u8> = Vec::new();
        put_u16(&mut result, self.len());
        self.get_type().to_binary(&mut result)?;
        self.scrypt_config.to_binary(&mut result)?;
        assert(result@ =~= self@.aad());
        Ok(result)
    }
}

impl WritableDataBlock for IdentityUnlock {
    fn get_type(&self) -> (kind: DataType)
        ensures
            kind == DataType::RescueCode,
    {
        DataType::RescueCode
    }

    fn len(&self) -> (n: u16)
        ensures
            n == IDENTITY_UNLOCK_LEN,
    {
        73
    }

    fn from_binary(binary: &mut VecDeque<u8>) -> (result: Result<IdentityUnlock, SqrlError>)
        ensures
            outcome(result) == IdentityUnlockView::decode_outcome(old(binary)@).0,
            final(binary)@ == IdentityUnlockView::decode_outcome(old(binary)@).1,
            result matches Ok(block) ==> block@.is_valid(),
    {
        Ok(
            IdentityUnlock {
                scrypt_config: ScryptConfig::from_binary(binary)?,
                identity_unlock_key: next_array(binary)?,
                verification_data: next_array(binary)?,
            },
        )
    }

    fn to_binary_inner(&self, output: &mut Vec<u8>) -> (result: Result<(), SqrlError>)
        ensures
            result is Ok,
            final(output)@ == old(output)@ + self@.encoded(),
            final(output)@.len() == old(output)@.len() + IDENTITY_UNLOCK_LEN,
    {
        let config_len: u16 = self.scrypt_config.len();
        self.scrypt_config.to_binary(output)?;
        assert(output@.len() == old(output)@.len() + config_len);
        put_bytes(output, &self.identity_unlock_key);
        put_bytes(output, &self.verification_data);
        assert(output@ =~= old(output)@ + self@.encoded());
        Ok(())
    }
}

} // verus!
