//! Protection of a 256-bit identity unlock key under a freshly generated
//! rescue code: memory-hard key stretching, authenticated encryption bound to
//! the block header, the rotation protocol, and the block's fixed-width
//! binary layout.

pub mod aead;
pub mod data_type;
pub mod en_scrypt;
pub mod error;
pub mod identity_unlock;
pub mod readable_vector;
pub mod rescue_code;
pub mod scrypt_config;
pub mod wire;
pub mod writable_datablock;
