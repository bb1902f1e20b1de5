use vstd::prelude::*;
use vstd::utf8::encode_utf8;

use crate::error::StoreError;

verus! {

/// The error of `argon2::hash_raw`, carried only to be mapped.
#[verifier::external_type_specification]
#[verifier::external_body]
pub struct ExArgon2Error(argon2::Error);

/// The Argon2id key that `argon2::hash_raw` derives from a password and a
/// salt with the given lane count, memory cost (KiB), pass count and output
/// length.
pub uninterp spec fn argon2id_key(
    password: Seq<u8>,
    salt: Seq<u8>,
    lanes: u32,
    mem_cost: u32,
    time_cost: u32,
    hash_length: u32,
) -> Seq<u8>;

/// The number of lanes of the master-key derivation.
pub const LANES: u32 = 8;

/// The memory cost of the master-key derivation, in KiB (16 MiB).
pub const MEM_COST: u32 = 16384;

/// The number of passes of the master-key derivation.
pub const TIME_COST: u32 = 8;

/// The length of the master key, in bytes.
pub const KEY_LENGTH: u32 = 32;

/// Whether Argon2 accepts these parameters, a password of this length and
/// this salt.
pub open spec fn argon2_accepts(
    password: Seq<u8>,
    salt: Seq<u8>,
    lanes: u32,
    mem_cost: u32,
    time_cost: u32,
    hash_length: u32,
) -> bool {
    &&& 1 <= lanes <= 0x00FF_FFFF
    &&& 8 * lanes <= mem_cost
    &&& time_cost >= 1
    &&& hash_length >= 4
    &&& password.len() <= u32::MAX
    &&& 8 <= salt.len() <= u32::MAX
}

/// Whether the master-key derivation takes this password and salt.
pub open spec fn key_inputs_ok(password: Seq<u8>, salt: Seq<u8>) -> bool {
    argon2_accepts(password, salt, LANES, MEM_COST, TIME_COST, KEY_LENGTH)
}

/// What deriving the master key from `password` and `salt` gives.
pub open spec fn key_derivation(password: Seq<char>, salt: Seq<u8>) -> Result<Seq<u8>, StoreError> {
    if key_inputs_ok(encode_utf8(password), salt) {
        Ok(argon2id_key(encode_utf8(password), salt, LANES, MEM_COST, TIME_COST, KEY_LENGTH))
    } else {
        Err(StoreError::KeyDerivationError)
    }
}

/// The bytes of a derived key, or the error.
pub open spec fn key_view(r: Result<Vec<u8>, StoreError>) -> Result<Seq<u8>, StoreError> {
    match r {
        Ok(k) => Ok(k@),
        Err(e) => Err(e),
    }
}

/// Relies on `argon2::hash_raw` with the Argon2id variant and the given
/// lanes, memory cost, passes and output length. `Context::new` refuses
/// lanes outside 1 to 0xFF_FFFF, a memory cost under 8 blocks a lane (or
/// over 0x20_0000 on 32-bit targets), no pass, an output under 4 bytes, a
/// password over `u32::MAX` bytes and a salt outside 8 to `u32::MAX`
/// bytes. The raw hash is `hash_length` bytes and depends on the arguments
/// alone.
#[verifier::external_body]
fn hash_raw(
    password: &[u8],
    salt: &[u8],
    lanes: u32,
    mem_cost: u32,
    time_cost: u32,
    hash_length: u32,
) -> (r: Result<Vec<u8>, argon2::Error>)
    ensures
        r is Ok ==> argon2_accepts(password@, salt@, lanes, mem_cost, time_cost, hash_length),
        argon2_accepts(password@, salt@, lanes, mem_cost, time_cost, hash_length)
            && mem_cost <= 0x20_0000 ==> r is Ok,
        r matches Ok(k) ==> k@ == argon2id_key(
            password@,
            salt@,
            lanes,
            mem_cost,
            time_cost,
            hash_length,
        ) && k@.len() == hash_length,
{
    let config = argon2::Config {
        variant: argon2::Variant::Argon2id,
        hash_length,
        lanes,
        mem_cost,
        time_cost,
        ..Default::default()
    };
    argon2::hash_raw(password, salt, &config)
}

/// Relies on `rand::rngs::OsRng::try_fill_bytes`: 32 bytes from the
/// operating system's random source, or `None` where it reports an error.
/// Nothing is known of the bytes.
#[verifier::external_body]
fn random_salt() -> (r: Option<[u8; 32]>) {
    let mut salt = [0u8; 32];
    match rand::RngCore::try_fill_bytes(&mut rand::rngs::OsRng, &mut salt) {
        Ok(()) => Some(salt),
        Err(_) => None,
    }
}

/// Derives the master key from `password` and `salt`: the Argon2id key where
/// the inputs fit the derivation function, `KeyDerivationError` otherwise.
pub fn derive_key(password: &str, salt: &[u8]) -> (r: Result<Vec<u8>, StoreError>)
    ensures
        key_view(r) == key_derivation(password@, salt@),
        r matches Ok(k) ==> k@.len() == 32,
{
    match hash_raw(password.as_bytes(), salt, LANES, MEM_COST, TIME_COST, KEY_LENGTH) {
        Ok(k) => Ok(k),
        Err(_) => Err(StoreError::KeyDerivationError),
    }
}

/// The key and salt from a salt draw: `KeyDerivationError` where no salt
/// could be drawn, else the key derived from `password` and that salt.
pub fn key_with_salt(password: &str, drawn: Option<[u8; 32]>) -> (r: Result<
    (Vec<u8>, [u8; 32]),
    StoreError,
>)
    ensures
        drawn is None ==> r == Err::<(Vec<u8>, [u8; 32]), StoreError>(
            StoreError::KeyDerivationError,
        ),
        drawn matches Some(s) ==> {
            &&& r is Ok <==> encode_utf8(password@).len() <= u32::MAX
            &&& r matches Ok((k, t)) ==> t == s && Ok::<Seq<u8>, StoreError>(k@)
                == key_derivation(password@, s@) && k@.len() == 32
            &&& r matches Err(e) ==> e == StoreError::KeyDerivationError
        },
{
    let salt = match drawn {
        Some(s) => s,
        None => return Err(StoreError::KeyDerivationError),
    };
    let key = derive_key(password, salt.as_slice())?;
    Ok((key, salt))
}

/// Draws a fresh random salt and derives the master key from `password` and
/// it; returns the key and the salt. Fails with `KeyDerivationError` where
/// the random source fails or the password is too long to derive from.
pub fn generate_key(password: &str) -> (r: Result<(Vec<u8>, [u8; 32]), StoreError>)
    ensures
        r matches Ok((k, s)) ==> Ok::<Seq<u8>, StoreError>(k@) == key_derivation(password@, s@)
            && k@.len() == 32,
        r matches Err(e) ==> e == StoreError::KeyDerivationError,
        encode_utf8(password@).len() > u32::MAX ==> r is Err,
{
    key_with_salt(password, random_salt())
}

/// Key derivation is deterministic and succeeds on a 32-byte salt: two
/// derivations from the same password and salt both give the same key.
pub proof fn lemma_derive_deterministic(
    password: Seq<char>,
    salt: Seq<u8>,
    r1: Result<Vec<u8>, StoreError>,
    r2: Result<Vec<u8>, StoreError>,
)
    requires
        salt.len() == 32,
        encode_utf8(password).len() <= u32::MAX,
        key_view(r1) == key_derivation(password, salt),
        key_view(r2) == key_derivation(password, salt),
    ensures
        r1 is Ok && r2 is Ok,
        r1->Ok_0@ == r2->Ok_0@,
        r1->Ok_0@ == argon2id_key(encode_utf8(password), salt, LANES, MEM_COST, TIME_COST, KEY_LENGTH),
{
}

} // verus!
