//! The full tier's encryption engine: chunked AES-256-GCM, streaming, with a
//! random key destined for the URL fragment. Same bytes on both ends (Rust and
//! WebCrypto both speak AES-GCM), so a CLI and a browser page decrypt the same
//! container.
//!
//! Container format (all integers big-endian):
//!
//! ```text
//! header:  "DOVE" (4) | version:u8 | nonce_prefix:[u8;8] | chunk_size:u32
//! chunk:   is_last:u8 | ct_len:u32 | ciphertext(ct_len)      (repeated)
//! ```
//!
//! Each chunk is AES-256-GCM over one plaintext block. The 12-byte nonce is
//! `nonce_prefix || counter` (the counter never repeats within a file, the
//! prefix is random per file). The counter and the is_last flag are the
//! additional authenticated data, and a stream that ends before an
//! `is_last = 1` chunk is rejected as truncated. A reader also refuses a flag that
//! is neither 0 nor 1, a block that is not as long as the header says (a final one
//! may be shorter), and anything behind the final chunk.

use vstd::prelude::*;
use vstd::slice::*;

use aes_gcm::aead::{Aead, KeyInit};

use crate::base64url::{
    base64url, base64url_decode, base64url_encode, lemma_base64url_injective,
    lemma_base64url_solid,
};
use crate::random::random_bytes;
use crate::text::{decimal, decimal_text, trim, trimmed};

verus! {

/// The container version this library reads and writes.
pub const VERSION: u8 = 1;

/// Default plaintext chunk size: 1 MiB. Small enough to stream, big enough that
/// per-chunk overhead (16-byte tag + 5-byte framing) is negligible.
pub const DEFAULT_CHUNK: usize = 1048576;

/// The longest message one AES-GCM call accepts.
pub const SEAL_MAX: u64 = 68719476736;

/// Why a key, an encryption or a decryption failed.
#[derive(Debug, Clone, Copy, PartialEq, Eq, Structural)]
pub enum CryptoError {
    /// The operating system's random source is unavailable.
    NoRandomness,
    /// The fragment is not base64url.
    InvalidKey,
    /// The fragment decodes to something other than 32 bytes.
    WrongKeyLength,
    /// AES-GCM refused to encrypt a block.
    EncryptionFailed,
    /// The input does not start with the container's magic.
    NotDove,
    /// The container has a version this library does not read.
    UnsupportedVersion(u8),
    /// The input ended inside a header or a chunk.
    UnexpectedEnd,
    /// The input ended between chunks, before the final one.
    Truncated,
    /// A chunk is not framed as it should be, or AES-GCM rejected it.
    DecryptionFailed,
}

/// What is said of an error.
pub open spec fn error_text(e: CryptoError) -> Seq<char> {
    match e {
        CryptoError::NoRandomness => "OS RNG unavailable"@,
        CryptoError::InvalidKey => "invalid key in the link"@,
        CryptoError::WrongKeyLength => "key in the link is the wrong length"@,
        CryptoError::EncryptionFailed => "encryption failed"@,
        CryptoError::NotDove => "not a dove-encrypted file"@,
        CryptoError::UnsupportedVersion(v) => "unsupported dove format version "@ + decimal(
            v as nat,
        ),
        CryptoError::UnexpectedEnd => "failed to fill whole buffer"@,
        CryptoError::Truncated => "truncated: the file ended before its final chunk"@,
        CryptoError::DecryptionFailed => "decryption failed — wrong key, or the data was tampered with"@,
    }
}

impl CryptoError {
    /// What to say of the error.
    pub fn message(self) -> (r: String)
        ensures
            r@ == error_text(self),
    {
        match self {
            CryptoError::NoRandomness => "OS RNG unavailable".to_string(),
            CryptoError::InvalidKey => "invalid key in the link".to_string(),
            CryptoError::WrongKeyLength => "key in the link is the wrong length".to_string(),
            CryptoError::EncryptionFailed => "encryption failed".to_string(),
            CryptoError::NotDove => "not a dove-encrypted file".to_string(),
            CryptoError::UnsupportedVersion(v) => "unsupported dove format version ".to_string().concat(
                decimal_text(v as u64).as_str(),
            ),
            CryptoError::UnexpectedEnd => "failed to fill whole buffer".to_string(),
            CryptoError::Truncated => "truncated: the file ended before its final chunk".to_string(),
            CryptoError::DecryptionFailed => "decryption failed — wrong key, or the data was tampered with".to_string(),
        }
    }
}

// ── the container, as byte sequences ──────────────────────────────────────

/// The four big-endian bytes of `n` modulo 2^32.
pub open spec fn be32(n: nat) -> Seq<u8> {
    seq![
        ((n / 0x100_0000) % 256) as u8,
        ((n / 0x1_0000) % 256) as u8,
        ((n / 0x100) % 256) as u8,
        (n % 256) as u8,
    ]
}

/// The number that four big-endian bytes write.
pub open spec fn be32_value(s: Seq<u8>) -> nat {
    (s[0] as nat) * 0x100_0000 + (s[1] as nat) * 0x1_0000 + (s[2] as nat) * 0x100 + (s[3] as nat)
}

/// The byte of a flag.
pub open spec fn flag_byte(is_last: bool) -> u8 {
    if is_last {
        1
    } else {
        0
    }
}

/// The 12-byte GCM nonce for a chunk: `prefix(8) || counter(4)`.
pub open spec fn nonce_bytes(prefix: Seq<u8>, counter: nat) -> Seq<u8> {
    prefix + be32(counter)
}

/// The additional authenticated data for a chunk: `counter(4) || is_last(1)`.
pub open spec fn aad_bytes(counter: nat, is_last: bool) -> Seq<u8> {
    be32(counter).push(flag_byte(is_last))
}

/// What AES-256-GCM encryption makes of a message: ciphertext, then tag.
pub uninterp spec fn gcm_sealed(
    key: Seq<u8>,
    nonce: Seq<u8>,
    aad: Seq<u8>,
    message: Seq<u8>,
) -> Seq<u8>;

/// What AES-256-GCM decryption makes of a ciphertext and its tag; `None` where
/// they do not authenticate.
pub uninterp spec fn gcm_opened(
    key: Seq<u8>,
    nonce: Seq<u8>,
    aad: Seq<u8>,
    sealed: Seq<u8>,
) -> Option<Seq<u8>>;

/// The ciphertext of the block with number `counter`.
pub open spec fn sealed_block(
    key: Seq<u8>,
    prefix: Seq<u8>,
    counter: nat,
    is_last: bool,
    block: Seq<u8>,
) -> Seq<u8> {
    gcm_sealed(key, nonce_bytes(prefix, counter), aad_bytes(counter, is_last), block)
}

/// One framed chunk.
pub open spec fn frame(
    key: Seq<u8>,
    prefix: Seq<u8>,
    counter: nat,
    is_last: bool,
    block: Seq<u8>,
) -> Seq<u8> {
    let ct = sealed_block(key, prefix, counter, is_last, block);
    seq![flag_byte(is_last)] + be32(ct.len()) + ct
}

/// The chunks of `data` from block number `counter` on: full blocks, then one
/// short (possibly empty) final block.
#[verifier::opaque]
pub open spec fn frames(
    key: Seq<u8>,
    prefix: Seq<u8>,
    chunk_size: nat,
    counter: nat,
    data: Seq<u8>,
) -> Seq<u8>
    decreases data.len(),
{
    if chunk_size == 0 || data.len() < chunk_size {
        frame(key, prefix, counter, true, data)
    } else {
        frame(key, prefix, counter, false, data.take(chunk_size as int)) + frames(
            key,
            prefix,
            chunk_size,
            counter + 1,
            data.skip(chunk_size as int),
        )
    }
}

/// The container's magic and version.
pub open spec fn preamble() -> Seq<u8> {
    seq![0x44u8, 0x4fu8, 0x56u8, 0x45u8, 1u8]
}

/// The container's header.
pub open spec fn header(prefix: Seq<u8>, chunk_size: nat) -> Seq<u8> {
    preamble() + prefix + be32(chunk_size)
}

/// The container of `data`.
pub open spec fn container(
    key: Seq<u8>,
    prefix: Seq<u8>,
    chunk_size: nat,
    data: Seq<u8>,
) -> Seq<u8> {
    header(prefix, chunk_size) + frames(key, prefix, chunk_size, 0, data)
}

/// Every block of `data` from number `counter` on, sealed, opens to itself.
#[verifier::opaque]
pub open spec fn all_open(
    key: Seq<u8>,
    prefix: Seq<u8>,
    chunk_size: nat,
    counter: nat,
    data: Seq<u8>,
) -> bool
    decreases data.len(),
{
    if chunk_size == 0 || data.len() < chunk_size {
        opens(key, prefix, counter, true, data)
    } else {
        &&& opens(key, prefix, counter, false, data.take(chunk_size as int))
        &&& all_open(key, prefix, chunk_size, counter + 1, data.skip(chunk_size as int))
    }
}

/// What reading yields: the plaintext released before the reader stopped, and how
/// it stopped.
pub struct Reading {
    pub plaintext: Seq<u8>,
    pub end: Result<(), CryptoError>,
}

/// Reading that stops before it accepts anything.
pub open spec fn stopped(error: CryptoError) -> Reading {
    Reading { plaintext: Seq::empty(), end: Err(error) }
}

/// `more` read after `plaintext` was released.
pub open spec fn read_on(plaintext: Seq<u8>, more: Reading) -> Reading {
    Reading { plaintext: plaintext + more.plaintext, end: more.end }
}

/// A chunk's flag and length are those of a full block that is not the last, or of
/// a last one that is no longer. No ciphertext is shorter than its tag.
pub open spec fn framed(chunk_size: nat, flag: u8, n: nat) -> bool {
    ||| flag == 0 && n == chunk_size + 16
    ||| flag == 1 && 16 <= n <= chunk_size + 16
}

/// The length that the chunk at the start of `body` states.
pub open spec fn stated_len(body: Seq<u8>) -> nat {
    be32_value(body.subrange(1, 5))
}

/// Reading the chunks in `body`, the first of which has number `counter`. There is
/// no number beyond four bytes, and nothing may follow the final chunk.
#[verifier::opaque]
pub open spec fn read_frames(
    key: Seq<u8>,
    prefix: Seq<u8>,
    chunk_size: nat,
    counter: nat,
    body: Seq<u8>,
) -> Reading
    decreases body.len(),
{
    if body.len() == 0 {
        stopped(CryptoError::Truncated)
    } else if body.len() < 5 {
        stopped(CryptoError::UnexpectedEnd)
    } else {
        let n = stated_len(body);
        let is_last = body[0] == 1;
        if counter > u32::MAX || !framed(chunk_size, body[0], n) {
            stopped(CryptoError::DecryptionFailed)
        } else if body.len() < 5 + n {
            stopped(CryptoError::UnexpectedEnd)
        } else if is_last && body.len() > 5 + n {
            stopped(CryptoError::DecryptionFailed)
        } else {
            match gcm_opened(
                key,
                nonce_bytes(prefix, counter),
                aad_bytes(counter, is_last),
                body.subrange(5, 5 + n as int),
            ) {
                None => stopped(CryptoError::DecryptionFailed),
                Some(block) => if is_last {
                    Reading { plaintext: block, end: Ok(()) }
                } else {
                    read_on(
                        block,
                        read_frames(
                            key,
                            prefix,
                            chunk_size,
                            counter + 1,
                            body.skip(5 + n as int),
                        ),
                    )
                },
            }
        }
    }
}

/// Reading a whole container.
pub open spec fn read_container(key: Seq<u8>, bytes: Seq<u8>) -> Reading {
    if bytes.len() < 4 || bytes.take(4) != preamble().take(4) {
        stopped(CryptoError::NotDove)
    } else if bytes.len() < 5 {
        stopped(CryptoError::UnexpectedEnd)
    } else if bytes[4] != VERSION {
        stopped(CryptoError::UnsupportedVersion(bytes[4]))
    } else if bytes.len() < 17 {
        stopped(CryptoError::UnexpectedEnd)
    } else {
        read_frames(
            key,
            bytes.subrange(5, 13),
            be32_value(bytes.subrange(13, 17)),
            0,
            bytes.skip(17),
        )
    }
}

// ── AES-256-GCM ───────────────────────────────────────────────────────────

/// `Aes256Gcm::encrypt` of the aes-gcm crate: the ciphertext followed by a
/// 16-byte tag. It refuses a message longer than 2^36 bytes and nothing else,
/// and decrypting what it returns under the same key, nonce and additional data
/// gives the message back.
#[verifier::external_body]
fn gcm_seal(key: &[u8; 32], nonce: &[u8; 12], aad: &[u8], message: &[u8]) -> (r: Result<
    Vec<u8>,
    aes_gcm::Error,
>)
    requires
        aad@.len() <= 5,
    ensures
        r is Ok <==> message@.len() <= SEAL_MAX,
        r matches Ok(ct) ==> {
            &&& ct@ == gcm_sealed(key@, nonce@, aad@, message@)
            &&& ct@.len() == message@.len() + 16
            &&& gcm_opened(key@, nonce@, aad@, ct@) == Some(message@)
        },
{
    let cipher = aes_gcm::Aes256Gcm::new(key.into());
    cipher.encrypt(nonce.into(), aes_gcm::aead::Payload { msg: message, aad })
}

/// `Aes256Gcm::decrypt` of the aes-gcm crate: the message, where the ciphertext
/// and its tag authenticate under this key, nonce and additional data.
#[verifier::external_body]
fn gcm_open(key: &[u8; 32], nonce: &[u8; 12], aad: &[u8], sealed: &[u8]) -> (r: Result<
    Vec<u8>,
    aes_gcm::Error,
>)
    ensures
        match r {
            Ok(message) => gcm_opened(key@, nonce@, aad@, sealed@) == Some(message@),
            Err(_) => gcm_opened(key@, nonce@, aad@, sealed@) is None,
        },
{
    let cipher = aes_gcm::Aes256Gcm::new(key.into());
    cipher.decrypt(nonce.into(), aes_gcm::aead::Payload { msg: sealed, aad })
}

/// The aes-gcm crate's error: says only that the operation failed.
#[verifier::external_type_specification]
#[verifier::external_body]
pub struct ExGcmError(aes_gcm::Error);

// ── keys ──────────────────────────────────────────────────────────────────

/// The content key that a draw of random bytes makes: the bytes as they are, where
/// the operating system gave any.
pub fn key_drawn(drawn: Result<[u8; 32], getrandom::Error>) -> (r: Result<[u8; 32], CryptoError>)
    ensures
        r == (match drawn {
            Ok(key) => Ok::<[u8; 32], CryptoError>(key),
            Err(_) => Err::<[u8; 32], CryptoError>(CryptoError::NoRandomness),
        }),
{
    match drawn {
        Ok(key) => Ok(key),
        Err(_) => Err(CryptoError::NoRandomness),
    }
}

/// A fresh random 256-bit content key, as far as the operating system has
/// random bytes to give. Which key it is, is left to chance.
pub fn gen_key() -> (r: Result<[u8; 32], CryptoError>)
    ensures
        r matches Err(e) ==> e == CryptoError::NoRandomness,
{
    key_drawn(random_bytes::<32>())
}

/// Encode a key for the URL fragment (base64url, no padding). The fragment
/// decodes to the key.
pub fn key_to_fragment(key: &[u8; 32]) -> (r: String)
    ensures
        r@ == base64url(key@),
        fragment_key(r@) == Ok::<Seq<u8>, CryptoError>(key@),
{
    proof {
        law_fragment_round_trip(key@);
    }
    base64url_encode(key)
}

/// The key that a URL fragment carries.
pub open spec fn fragment_key(fragment: Seq<char>) -> Result<Seq<u8>, CryptoError> {
    if exists|bytes: Seq<u8>| #[trigger] base64url(bytes) == trimmed(fragment) {
        let bytes = choose|bytes: Seq<u8>| #[trigger] base64url(bytes) == trimmed(fragment);
        if bytes.len() == 32 {
            Ok(bytes)
        } else {
            Err(CryptoError::WrongKeyLength)
        }
    } else {
        Err(CryptoError::InvalidKey)
    }
}

/// The fragment made from a key carries that key, and no other.
pub proof fn law_fragment_round_trip(key: Seq<u8>)
    requires
        key.len() == 32,
    ensures
        fragment_key(base64url(key)) == Ok::<Seq<u8>, CryptoError>(key),
{
    lemma_base64url_solid(key);
    let bytes = choose|bytes: Seq<u8>| #[trigger]
        base64url(bytes) == trimmed(base64url(key));
    assert(base64url(key) == trimmed(base64url(key)));
    lemma_base64url_injective(bytes, key);
}

/// Decode a key from a URL fragment, white space around it ignored.
pub fn key_from_fragment(s: &str) -> (r: Result<[u8; 32], CryptoError>)
    ensures
        match r {
            Ok(key) => fragment_key(s@) == Ok::<Seq<u8>, CryptoError>(key@),
            Err(e) => fragment_key(s@) == Err::<Seq<u8>, CryptoError>(e),
        },
{
    match base64url_decode(trim(s)) {
        Ok(bytes) => {
            proof {
                let chosen = choose|b: Seq<u8>| #[trigger] base64url(b) == trimmed(s@);
                assert(base64url(bytes@) == trimmed(s@));
                lemma_base64url_injective(chosen, bytes@);
            }
            if bytes.len() != 32 {
                return Err(CryptoError::WrongKeyLength);
            }
            let mut key: [u8; 32] = [0u8;32];
            let mut i: usize = 0;
            while i < 32
                invariant
                    i <= 32,
                    bytes@.len() == 32,
                    forall|j: int| 0 <= j < i ==> key@[j] == bytes@[j],
                decreases 32 - i,
            {
                key[i] = bytes[i];
                i = i + 1;
            }
            assert(key@ =~= bytes@);
            Ok(key)
        },
        Err(_) => Err(CryptoError::InvalidKey),
    }
}

// ── byte helpers ──────────────────────────────────────────────────────────

/// Append a slice.
fn put_all(out: &mut Vec<u8>, bytes: &[u8])
    ensures
        final(out)@ == old(out)@ + bytes@,
{
    let ghost before = out@;
    out.extend_from_slice(bytes);
    assert(out@ =~= before + bytes@);
}

/// Append the four big-endian bytes of `n` modulo 2^32.
fn put_be32(out: &mut Vec<u8>, n: u64)
    ensures
        final(out)@ == old(out)@ + be32(n as nat),
{
    let ghost before = out@;
    out.push(((n / 0x100_0000) % 256) as u8);
    out.push(((n / 0x1_0000) % 256) as u8);
    out.push(((n / 0x100) % 256) as u8);
    out.push((n % 256) as u8);
    assert(out@ =~= before + be32(n as nat));
}

/// The 12-byte GCM nonce for a chunk: `prefix(8) || counter(4)`.
pub fn nonce(prefix: &[u8; 8], counter: u32) -> (r: [u8; 12])
    ensures
        r@ == nonce_bytes(prefix@, counter as nat),
{
    let r = [
        prefix[0],
        prefix[1],
        prefix[2],
        prefix[3],
        prefix[4],
        prefix[5],
        prefix[6],
        prefix[7],
        (counter / 0x100_0000) as u8,
        ((counter / 0x1_0000) % 256) as u8,
        ((counter / 0x100) % 256) as u8,
        (counter % 256) as u8,
    ];
    assert(r@ =~= nonce_bytes(prefix@, counter as nat));
    r
}

/// The additional authenticated data for a chunk: `counter(4) || is_last(1)`.
pub fn aad(counter: u32, is_last: bool) -> (r: Vec<u8>)
    ensures
        r@ == aad_bytes(counter as nat, is_last),
{
    let mut a: Vec<u8> = Vec::new();
    put_be32(&mut a, counter as u64);
    a.push(if is_last { 1 } else { 0 });
    assert(a@ =~= aad_bytes(counter as nat, is_last));
    a
}

// ── encryption ────────────────────────────────────────────────────────────

/// Append one framed chunk. The only failure is a block longer than AES-GCM
/// takes; then nothing is appended.
fn put_frame(
    key: &[u8; 32],
    prefix: &[u8; 8],
    counter: u32,
    is_last: bool,
    block: &[u8],
    out: &mut Vec<u8>,
) -> (r: Result<(), CryptoError>)
    ensures
        match r {
            Ok(_) => {
                &&& block@.len() <= SEAL_MAX
                &&& final(out)@ == old(out)@ + frame(key@, prefix@, counter as nat, is_last, block@)
                &&& opens(key@, prefix@, counter as nat, is_last, block@)
            },
            Err(e) => {
                &&& block@.len() > SEAL_MAX
                &&& e == CryptoError::EncryptionFailed
                &&& final(out)@ == old(out)@
            },
        },
{
    match gcm_seal(key, &nonce(prefix, counter), aad(counter, is_last).as_slice(), block) {
        Ok(ct) => {
            let ghost before = out@;
            out.push(if is_last { 1 } else { 0 });
            put_be32(out, ct.len() as u64);
            put_all(out, ct.as_slice());
            assert(out@ =~= before + frame(key@, prefix@, counter as nat, is_last, block@));
            Ok(())
        },
        Err(_) => Err(CryptoError::EncryptionFailed),
    }
}

/// The sealed block decrypts to the block.
pub open spec fn opens(
    key: Seq<u8>,
    prefix: Seq<u8>,
    counter: nat,
    is_last: bool,
    block: Seq<u8>,
) -> bool {
    let ct = sealed_block(key, prefix, counter, is_last, block);
    &&& ct.len() == block.len() + 16
    &&& gcm_opened(key, nonce_bytes(prefix, counter), aad_bytes(counter, is_last), ct) == Some(
        block,
    )
}

/// Four big-endian bytes write the number they were made from.
pub proof fn lemma_be32_round_trip(n: nat)
    requires
        n < 0x1_0000_0000,
    ensures
        be32_value(be32(n)) == n,
        be32(n).len() == 4,
{
}

/// Four big-endian bytes keep a number modulo 2^32.
proof fn lemma_be32_wraps(n: nat)
    ensures
        be32_value(be32(n)) == n % 0x1_0000_0000,
{
    let (q, m) = (n / 0x1_0000_0000, n % 0x1_0000_0000);
    assert(n / 0x100_0000 == q * 0x100 + m / 0x100_0000);
    assert(n / 0x1_0000 == q * 0x1_0000 + m / 0x1_0000);
    assert(n / 0x100 == q * 0x100_0000 + m / 0x100);
    assert(be32(n) =~= be32(m));
    lemma_be32_round_trip(m);
}

/// One step of reading the chunks in `body`.
proof fn lemma_read_step(
    key: Seq<u8>,
    prefix: Seq<u8>,
    chunk_size: nat,
    counter: nat,
    body: Seq<u8>,
)
    ensures
        ({
            let reading = read_frames(key, prefix, chunk_size, counter, body);
            let n = stated_len(body) as int;
            let is_last = body[0] == 1;
            let opened = gcm_opened(
                key,
                nonce_bytes(prefix, counter),
                aad_bytes(counter, is_last),
                body.subrange(5, 5 + n),
            );
            let sound = counter <= u32::MAX && framed(chunk_size, body[0], n as nat);
            &&& body.len() == 0 ==> reading == stopped(CryptoError::Truncated)
            &&& 0 < body.len() < 5 ==> reading == stopped(CryptoError::UnexpectedEnd)
            &&& body.len() >= 5 && !sound ==> reading == stopped(CryptoError::DecryptionFailed)
            &&& sound && 5 <= body.len() < 5 + n ==> reading == stopped(CryptoError::UnexpectedEnd)
            &&& sound && is_last && body.len() > 5 + n ==> reading == stopped(
                CryptoError::DecryptionFailed,
            )
            &&& sound && is_last && body.len() == 5 + n ==> reading == (match opened {
                None => stopped(CryptoError::DecryptionFailed),
                Some(block) => Reading { plaintext: block, end: Ok(()) },
            })
            &&& sound && !is_last && body.len() >= 5 + n ==> reading == (match opened {
                None => stopped(CryptoError::DecryptionFailed),
                Some(block) => read_on(
                    block,
                    read_frames(key, prefix, chunk_size, counter + 1, body.skip(5 + n)),
                ),
            })
        }),
{
    reveal(read_frames);
}

/// Where the parts of a framed chunk lie.
proof fn lemma_frame_parts(
    key: Seq<u8>,
    prefix: Seq<u8>,
    counter: nat,
    is_last: bool,
    block: Seq<u8>,
    tail: Seq<u8>,
)
    requires
        opens(key, prefix, counter, is_last, block),
        block.len() + 16 < 0x1_0000_0000,
    ensures
        ({
            let f = frame(key, prefix, counter, is_last, block);
            let ct = sealed_block(key, prefix, counter, is_last, block);
            let body = f + tail;
            &&& f.len() == block.len() + 21
            &&& body[0] == flag_byte(is_last)
            &&& stated_len(body) == block.len() + 16
            &&& body.subrange(5, 5 + (block.len() + 16) as int) == ct
            &&& body.skip(5 + (block.len() + 16) as int) == tail
            &&& body.take(f.len() as int) == f
        }),
{
    let ct = sealed_block(key, prefix, counter, is_last, block);
    let body = frame(key, prefix, counter, is_last, block) + tail;
    lemma_be32_round_trip(ct.len());
    assert(body.subrange(1, 5) =~= be32(ct.len()));
    assert(body.subrange(5, 5 + ct.len() as int) =~= ct);
    assert(body.skip(5 + ct.len() as int) =~= tail);
    assert(body.take(5 + ct.len() as int) =~= frame(key, prefix, counter, is_last, block));
}

/// Reading a chunk that was cut off releases nothing.
proof fn lemma_read_cut_frame(
    key: Seq<u8>,
    prefix: Seq<u8>,
    chunk_size: nat,
    counter: nat,
    is_last: bool,
    block: Seq<u8>,
    cut: int,
)
    requires
        opens(key, prefix, counter, is_last, block),
        block.len() + 16 < 0x1_0000_0000,
        0 <= cut < frame(key, prefix, counter, is_last, block).len(),
    ensures
        ({
            let body = frame(key, prefix, counter, is_last, block).take(cut);
            let reading = read_frames(key, prefix, chunk_size, counter, body);
            reading.end is Err && reading.plaintext == Seq::<u8>::empty()
        }),
{
    let f = frame(key, prefix, counter, is_last, block);
    let body = f.take(cut);
    lemma_read_step(key, prefix, chunk_size, counter, body);
    lemma_frame_parts(key, prefix, counter, is_last, block, Seq::empty());
    assert(f + Seq::<u8>::empty() =~= f);
    if cut >= 5 {
        assert(body.subrange(1, 5) =~= f.subrange(1, 5));
    }
}

/// A chunk whose ciphertext is too long for its length field is refused, whole or
/// cut off, since the length that it states is no ciphertext's.
proof fn lemma_read_overlong_frame(
    key: Seq<u8>,
    prefix: Seq<u8>,
    chunk_size: nat,
    counter: nat,
    is_last: bool,
    block: Seq<u8>,
    tail: Seq<u8>,
    cut: int,
)
    requires
        opens(key, prefix, counter, is_last, block),
        block.len() <= chunk_size < 0x1_0000_0000,
        block.len() + 16 >= 0x1_0000_0000,
        0 <= cut <= (frame(key, prefix, counter, is_last, block) + tail).len(),
    ensures
        ({
            let body = (frame(key, prefix, counter, is_last, block) + tail).take(cut);
            let reading = read_frames(key, prefix, chunk_size, counter, body);
            reading.end is Err && reading.plaintext == Seq::<u8>::empty()
        }),
{
    let ct = sealed_block(key, prefix, counter, is_last, block);
    let body = (frame(key, prefix, counter, is_last, block) + tail).take(cut);
    lemma_read_step(key, prefix, chunk_size, counter, body);
    if cut >= 5 {
        lemma_be32_wraps(ct.len());
        assert(body.subrange(1, 5) =~= be32(ct.len()));
        assert(body[0] == flag_byte(is_last));
    }
}

/// How long the chunks of `data` are together.
proof fn lemma_frames_len(
    key: Seq<u8>,
    prefix: Seq<u8>,
    chunk_size: nat,
    counter: nat,
    data: Seq<u8>,
)
    requires
        0 < chunk_size,
        all_open(key, prefix, chunk_size, counter, data),
    ensures
        frames(key, prefix, chunk_size, counter, data).len() == data.len() + 21 * (data.len()
            / chunk_size + 1),
    decreases data.len(),
{
    reveal(frames);
    reveal(all_open);
    if data.len() < chunk_size {
        vstd::arithmetic::div_mod::lemma_basic_div(data.len() as int, chunk_size as int);
    } else {
        let rest = data.skip(chunk_size as int);
        lemma_frames_len(key, prefix, chunk_size, counter + 1, rest);
        vstd::arithmetic::div_mod::lemma_div_plus_one(rest.len() as int, chunk_size as int);
    }
}

/// Reading a final chunk gives its block back.
proof fn lemma_final_frame_reads_back(
    key: Seq<u8>,
    prefix: Seq<u8>,
    chunk_size: nat,
    counter: nat,
    block: Seq<u8>,
)
    requires
        block.len() <= chunk_size,
        block.len() + 16 < 0x1_0000_0000,
        counter <= u32::MAX,
        opens(key, prefix, counter, true, block),
    ensures
        read_frames(key, prefix, chunk_size, counter, frame(key, prefix, counter, true, block)) == (
        Reading { plaintext: block, end: Ok(()) }),
{
    let body = frame(key, prefix, counter, true, block);
    lemma_read_step(key, prefix, chunk_size, counter, body);
    lemma_frame_parts(key, prefix, counter, true, block, Seq::empty());
    assert(body + Seq::<u8>::empty() =~= body);
}

/// Reading the chunks of `data` gives `data` back.
proof fn lemma_frames_read_back(
    key: Seq<u8>,
    prefix: Seq<u8>,
    chunk_size: nat,
    counter: nat,
    data: Seq<u8>,
)
    requires
        0 < chunk_size,
        first_block_len(chunk_size, data) + 16 < 0x1_0000_0000,
        counter + data.len() / chunk_size <= u32::MAX,
        all_open(key, prefix, chunk_size, counter, data),
    ensures
        read_frames(
            key,
            prefix,
            chunk_size,
            counter,
            frames(key, prefix, chunk_size, counter, data),
        ) == (Reading { plaintext: data, end: Ok(()) }),
    decreases data.len(),
{
    reveal(frames);
    reveal(all_open);
    let body = frames(key, prefix, chunk_size, counter, data);
    lemma_read_step(key, prefix, chunk_size, counter, body);
    vstd::arithmetic::div_mod::lemma_div_pos_is_pos(data.len() as int, chunk_size as int);
    if data.len() < chunk_size {
        lemma_final_frame_reads_back(key, prefix, chunk_size, counter, data);
    } else {
        let block = data.take(chunk_size as int);
        let rest = data.skip(chunk_size as int);
        vstd::arithmetic::div_mod::lemma_div_plus_one(rest.len() as int, chunk_size as int);
        vstd::arithmetic::div_mod::lemma_div_pos_is_pos(rest.len() as int, chunk_size as int);
        lemma_frame_parts(
            key,
            prefix,
            counter,
            false,
            block,
            frames(key, prefix, chunk_size, counter + 1, rest),
        );
        lemma_frames_read_back(key, prefix, chunk_size, counter + 1, rest);
        assert(block + rest =~= data);
    }
}

/// The first `m` blocks of `data`, or all of it where there are fewer.
pub open spec fn first_blocks(chunk_size: nat, data: Seq<u8>, m: nat) -> Seq<u8> {
    data.take((m * chunk_size) as int)
}

/// Reading chunks that were cut off fails, and releases whole blocks from the
/// first on.
proof fn lemma_cut_frames(
    key: Seq<u8>,
    prefix: Seq<u8>,
    chunk_size: nat,
    counter: nat,
    data: Seq<u8>,
    cut: int,
)
    requires
        0 < chunk_size,
        first_block_len(chunk_size, data) + 16 < 0x1_0000_0000,
        counter + data.len() / chunk_size <= u32::MAX,
        all_open(key, prefix, chunk_size, counter, data),
        0 <= cut < frames(key, prefix, chunk_size, counter, data).len(),
    ensures
        ({
            let body = frames(key, prefix, chunk_size, counter, data).take(cut);
            let reading = read_frames(key, prefix, chunk_size, counter, body);
            &&& reading.end is Err
            &&& exists|m: nat|
                m * chunk_size <= data.len() && reading.plaintext == #[trigger] first_blocks(
                    chunk_size,
                    data,
                    m,
                )
        }),
    decreases data.len(),
{
    reveal(frames);
    reveal(all_open);
    let all = frames(key, prefix, chunk_size, counter, data);
    let body = all.take(cut);
    let reading = read_frames(key, prefix, chunk_size, counter, body);
    let is_last = data.len() < chunk_size;
    let block = if is_last {
        data
    } else {
        data.take(chunk_size as int)
    };
    let rest = data.skip(chunk_size as int);
    let more = frames(key, prefix, chunk_size, counter + 1, rest);
    let f = frame(key, prefix, counter, is_last, block);
    if is_last || cut < f.len() {
        assert(body =~= f.take(cut));
        lemma_read_cut_frame(key, prefix, chunk_size, counter, is_last, block, cut);
        assert(first_blocks(chunk_size, data, 0) =~= Seq::<u8>::empty());
        assert(0 * chunk_size <= data.len());
    } else {
        let left = more.take(cut - f.len());
        assert(body =~= f + left);
        lemma_frame_parts(key, prefix, counter, false, block, left);
        lemma_read_step(key, prefix, chunk_size, counter, body);
        vstd::arithmetic::div_mod::lemma_div_plus_one(rest.len() as int, chunk_size as int);
        vstd::arithmetic::div_mod::lemma_div_pos_is_pos(rest.len() as int, chunk_size as int);
        lemma_cut_frames(key, prefix, chunk_size, counter + 1, rest, cut - f.len());
        let later = read_frames(key, prefix, chunk_size, counter + 1, left);
        let m = choose|m: nat|
            m * chunk_size <= rest.len() && later.plaintext == #[trigger] first_blocks(
                chunk_size,
                rest,
                m,
            );
        assert((m + 1) * chunk_size == m * chunk_size + chunk_size) by (nonlinear_arith);
        assert(0 <= m * chunk_size) by (nonlinear_arith);
        assert(reading.plaintext =~= first_blocks(chunk_size, data, m + 1));
    }
}

/// An encryption in progress: plaintext is pushed in as it is read, framed
/// chunks come out as they fill up.
pub struct Encryptor {
    key: [u8; 32],
    prefix: [u8; 8],
    chunk_size: usize,
    counter: u32,
    held: Vec<u8>,
}

impl Encryptor {
    /// The chunk size is positive and less than a chunk is held back.
    pub closed spec fn wf(self) -> bool {
        &&& 0 < self.chunk_size
        &&& self.held@.len() < self.chunk_size
    }

    /// The content key.
    pub closed spec fn key(self) -> Seq<u8> {
        self.key@
    }

    /// The random nonce prefix.
    pub closed spec fn prefix(self) -> Seq<u8> {
        self.prefix@
    }

    /// The plaintext chunk size.
    pub closed spec fn chunk_size(self) -> nat {
        self.chunk_size as nat
    }

    /// How many full chunks have come out.
    pub closed spec fn counter(self) -> nat {
        self.counter as nat
    }

    /// The plaintext that waits for its chunk to fill up.
    pub closed spec fn held(self) -> Seq<u8> {
        self.held@
    }

    /// The chunks still to come out if `more` is pushed and the encryption is
    /// then finished.
    pub open spec fn remaining(self, more: Seq<u8>) -> Seq<u8> {
        frames(self.key(), self.prefix(), self.chunk_size(), self.counter(), self.held() + more)
    }

    /// The blocks still to be sealed then open to themselves.
    pub open spec fn sound(self, more: Seq<u8>) -> bool {
        all_open(self.key(), self.prefix(), self.chunk_size(), self.counter(), self.held() + more)
    }

    /// Whether `later` continues this encryption after `data` was pushed and
    /// `emitted` came out: with `data` ahead of whatever else is pushed, the
    /// bytes are the same, and the blocks open to themselves if those to come do.
    #[verifier::opaque]
    pub open spec fn continued_by(self, later: Self, data: Seq<u8>, emitted: Seq<u8>) -> bool {
        let total = self.held() + data;
        let sealed = total.len() - later.held().len();
        &&& later.wf()
        &&& later.key() == self.key()
        &&& later.prefix() == self.prefix()
        &&& later.chunk_size() == self.chunk_size()
        &&& 0 <= sealed
        &&& later.held() == total.skip(sealed)
        &&& forall|more: Seq<u8>|
            self.remaining(data + more) == emitted + #[trigger] later.remaining(more)
        &&& forall|more: Seq<u8>| #[trigger] later.sound(more) ==> self.sound(data + more)
    }

    /// Begin a container: append its header.
    pub fn start(key: &[u8; 32], prefix: &[u8; 8], chunk_size: usize, out: &mut Vec<u8>) -> (r:
        Self)
        requires
            0 < chunk_size,
        ensures
            r.wf(),
            r.key() == key@,
            r.prefix() == prefix@,
            r.chunk_size() == chunk_size,
            r.counter() == 0,
            r.held() == Seq::<u8>::empty(),
            final(out)@ == old(out)@ + header(prefix@, chunk_size as nat),
    {
        let ghost before = out@;
        out.push(0x44);
        out.push(0x4f);
        out.push(0x56);
        out.push(0x45);
        out.push(VERSION);
        put_all(out, prefix.as_slice());
        put_be32(out, chunk_size as u64);
        assert(out@ =~= before + header(prefix@, chunk_size as nat));
        Encryptor { key: *key, prefix: *prefix, chunk_size, counter: 0, held: Vec::new() }
    }

    /// `later`, which has `byte` held back on top of what `mid` has, stands where
    /// `mid` stands once `byte` comes first.
    proof fn lemma_held_byte(mid: Self, later: Self, byte: u8, more: Seq<u8>)
        requires
            later.key() == mid.key(),
            later.prefix() == mid.prefix(),
            later.chunk_size() == mid.chunk_size(),
            later.counter() == mid.counter(),
            later.held() == mid.held().push(byte),
        ensures
            later.remaining(more) == mid.remaining(seq![byte] + more),
            later.sound(more) == mid.sound(seq![byte] + more),
    {
        assert(mid.held() + (seq![byte] + more) =~= later.held() + more);
    }

    /// `later`, which has sealed the chunk that `byte` completes, stands one
    /// frame behind `mid`.
    proof fn lemma_sealed_byte(mid: Self, later: Self, byte: u8, more: Seq<u8>)
        requires
            mid.held().len() + 1 == mid.chunk_size(),
            later.key() == mid.key(),
            later.prefix() == mid.prefix(),
            later.chunk_size() == mid.chunk_size(),
            later.counter() == mid.counter() + 1,
            later.held() == Seq::<u8>::empty(),
            opens(mid.key(), mid.prefix(), mid.counter(), false, mid.held().push(byte)),
        ensures
            mid.remaining(seq![byte] + more) == frame(
                mid.key(),
                mid.prefix(),
                mid.counter(),
                false,
                mid.held().push(byte),
            ) + later.remaining(more),
            later.sound(more) ==> mid.sound(seq![byte] + more),
    {
        reveal(frames);
        reveal(all_open);
        let rest = mid.held() + (seq![byte] + more);
        assert(rest.take(mid.chunk_size() as int) =~= mid.held().push(byte));
        assert(rest.skip(mid.chunk_size() as int) =~= later.held() + more);
    }

    /// Holding back one more byte continues the encryption without output.
    proof fn lemma_hold(self, mid: Self, later: Self, data: Seq<u8>, byte: u8, emitted: Seq<u8>)
        requires
            self.continued_by(mid, data, emitted),
            later.wf(),
            later.key() == mid.key(),
            later.prefix() == mid.prefix(),
            later.chunk_size() == mid.chunk_size(),
            later.counter() == mid.counter(),
            later.held() == mid.held().push(byte),
        ensures
            self.continued_by(later, data.push(byte), emitted),
    {
        reveal(Encryptor::continued_by);
        let all = data.push(byte);
        let total = self.held() + data;
        let sealed = total.len() - mid.held().len();
        assert(self.held() + all =~= total.push(byte));
        assert(total.push(byte).skip(sealed) =~= total.skip(sealed).push(byte));
        assert forall|more: Seq<u8>|
            self.remaining(all + more) == emitted + #[trigger] later.remaining(more) by {
            Self::lemma_held_byte(mid, later, byte, more);
            assert(data + (seq![byte] + more) =~= all + more);
        }
        assert forall|more: Seq<u8>| #[trigger] later.sound(more) implies self.sound(all + more) by {
            Self::lemma_held_byte(mid, later, byte, more);
            assert(data + (seq![byte] + more) =~= all + more);
        }
    }

    /// Sealing the full chunk that `byte` completes continues the encryption.
    proof fn lemma_seal(self, mid: Self, later: Self, data: Seq<u8>, byte: u8, emitted: Seq<u8>)
        requires
            self.continued_by(mid, data, emitted),
            mid.held().len() + 1 == mid.chunk_size(),
            opens(mid.key(), mid.prefix(), mid.counter(), false, mid.held().push(byte)),
            later.wf(),
            later.key() == mid.key(),
            later.prefix() == mid.prefix(),
            later.chunk_size() == mid.chunk_size(),
            later.counter() == mid.counter() + 1,
            later.held() == Seq::<u8>::empty(),
        ensures
            self.continued_by(
                later,
                data.push(byte),
                emitted + frame(
                    mid.key(),
                    mid.prefix(),
                    mid.counter(),
                    false,
                    mid.held().push(byte),
                ),
            ),
    {
        reveal(Encryptor::continued_by);
        let all = data.push(byte);
        let chunk = frame(mid.key(), mid.prefix(), mid.counter(), false, mid.held().push(byte));
        let whole = self.held() + all;
        assert(whole.skip(whole.len() as int) =~= Seq::<u8>::empty());
        assert forall|more: Seq<u8>|
            self.remaining(all + more) == (emitted + chunk) + #[trigger] later.remaining(more) by {
            Self::lemma_sealed_byte(mid, later, byte, more);
            assert(data + (seq![byte] + more) =~= all + more);
            assert((emitted + chunk) + later.remaining(more) =~= emitted + (chunk
                + later.remaining(more)));
        }
        assert forall|more: Seq<u8>| #[trigger] later.sound(more) implies self.sound(all + more) by {
            Self::lemma_sealed_byte(mid, later, byte, more);
            assert(data + (seq![byte] + more) =~= all + more);
        }
    }

    /// Before anything is pushed, an encryption continues itself.
    proof fn lemma_unchanged(self)
        requires
            self.wf(),
        ensures
            self.continued_by(self, Seq::empty(), Seq::empty()),
    {
        reveal(Encryptor::continued_by);
        let none = Seq::<u8>::empty();
        let total = self.held() + none;
        assert(total =~= self.held());
        assert(total.skip(0) =~= total);
        assert forall|more: Seq<u8>|
            self.remaining(none + more) == none + #[trigger] self.remaining(more) by {
            assert(none + more =~= more);
            assert(none + self.remaining(more) =~= self.remaining(more));
        }
        assert forall|more: Seq<u8>| #[trigger] self.sound(more) implies self.sound(none + more) by {
            assert(none + more =~= more);
        }
    }

    /// What a continued encryption shares with the one it continues.
    proof fn lemma_continued(self, later: Self, data: Seq<u8>, emitted: Seq<u8>)
        requires
            self.continued_by(later, data, emitted),
        ensures
            later.wf(),
            later.key() == self.key(),
            later.prefix() == self.prefix(),
            later.chunk_size() == self.chunk_size(),
            later.held().len() <= self.held().len() + data.len(),
    {
        reveal(Encryptor::continued_by);
    }

    /// Push plaintext; every chunk that fills up is sealed and appended. Fails
    /// where a full chunk is longer than AES-GCM takes.
    pub fn push(&mut self, data: &[u8], out: &mut Vec<u8>) -> (r: Result<(), CryptoError>)
        requires
            old(self).wf(),
            old(self).counter() + (old(self).held().len() + data@.len()) / old(self).chunk_size()
                <= u32::MAX,
        ensures
            match r {
                Ok(_) => {
                    let emitted = final(out)@.skip(old(out)@.len() as int);
                    &&& final(out)@ == old(out)@ + emitted
                    &&& old(self).continued_by(*final(self), data@, emitted)
                    &&& final(self).counter() == old(self).counter() + (old(self).held().len()
                        + data@.len()) / old(self).chunk_size()
                    &&& final(self).held().len() == (old(self).held().len() + data@.len())
                        % old(self).chunk_size()
                },
                Err(e) => {
                    &&& e == CryptoError::EncryptionFailed
                    &&& final(out)@ == old(out)@
                },
            },
            r is Err <==> old(self).chunk_size() > SEAL_MAX && old(self).held().len() + data@.len()
                >= old(self).chunk_size(),
    {
        let ghost first = *self;
        let ghost before = out@;
        let ghost mut emitted: Seq<u8> = Seq::empty();
        let ghost budget = first.counter() + (first.held().len() + data@.len())
            / first.chunk_size();
        let mut i: usize = 0;
        proof {
            assert(data@.take(0) =~= Seq::<u8>::empty());
            first.lemma_unchanged();
            assert(before + emitted =~= before);
        }
        while i < data.len()
            invariant
                i <= data@.len(),
                first.continued_by(*self, data@.take(i as int), emitted),
                out@ == before + emitted,
                emitted.len() > 0 ==> first.chunk_size() <= SEAL_MAX,
                first.held().len() + i >= first.chunk_size() ==> first.chunk_size() <= SEAL_MAX,
                emitted == Seq::<u8>::empty() || first.chunk_size() <= SEAL_MAX,
                first.chunk_size() > SEAL_MAX ==> self.held().len() == first.held().len() + i,
                self.counter() + (self.held().len() + (data@.len() - i)) / (
                first.chunk_size() as int) == budget,
                budget <= u32::MAX,
                (self.held().len() + (data@.len() - i)) % (first.chunk_size() as int) == (
                first.held().len() + data@.len()) % first.chunk_size(),
                first.wf(),
                before == old(out)@,
                first == *old(self),
            decreases data@.len() - i,
        {
            let ghost mid = *self;
            let byte = data[i];
            proof {
                first.lemma_continued(mid, data@.take(i as int), emitted);
                assert(data@.take(i + 1) =~= data@.take(i as int).push(byte));
            }
            self.held.push(byte);
            if self.held.len() == self.chunk_size {
                proof {
                    let left = data@.len() - i - 1;
                    let size = first.chunk_size() as int;
                    vstd::arithmetic::div_mod::lemma_div_plus_one(left, size);
                    assert(mid.held().len() + (data@.len() - i) == size + left);
                    vstd::arithmetic::div_mod::lemma_div_pos_is_pos(left, size);
                    vstd::arithmetic::div_mod::lemma_mod_add_multiples_vanish(left, size);
                }
                if put_frame(
                    &self.key,
                    &self.prefix,
                    self.counter,
                    false,
                    self.held.as_slice(),
                    out,
                ).is_err() {
                    return Err(CryptoError::EncryptionFailed);
                }
                self.counter = self.counter + 1;
                self.held = Vec::new();
                proof {
                    first.lemma_seal(mid, *self, data@.take(i as int), byte, emitted);
                    let chunk = frame(
                        mid.key(),
                        mid.prefix(),
                        mid.counter(),
                        false,
                        mid.held().push(byte),
                    );
                    assert((before + emitted) + chunk =~= before + (emitted + chunk));
                    emitted = emitted + chunk;
                }
            } else {
                proof {
                    first.lemma_hold(mid, *self, data@.take(i as int), byte, emitted);
                }
            }
            i = i + 1;
        }
        proof {
            assert(data@.take(data@.len() as int) =~= data@);
            assert(out@.skip(before.len() as int) =~= emitted);
            first.lemma_continued(*self, data@, emitted);
            let held = self.held().len() as int;
            let size = first.chunk_size() as int;
            vstd::arithmetic::div_mod::lemma_basic_div(held, size);
            vstd::arithmetic::div_mod::lemma_small_mod(held as nat, size as nat);
        }
        Ok(())
    }

    /// Seal what is held back as the final chunk and append it. Fails where it
    /// is longer than AES-GCM takes.
    pub fn finish(self, out: &mut Vec<u8>) -> (r: Result<(), CryptoError>)
        requires
            self.wf(),
        ensures
            match r {
                Ok(_) => {
                    &&& final(out)@ == old(out)@ + self.remaining(Seq::empty())
                    &&& self.sound(Seq::empty())
                },
                Err(e) => {
                    &&& e == CryptoError::EncryptionFailed
                    &&& final(out)@ == old(out)@
                },
            },
            r is Ok <==> self.held().len() <= SEAL_MAX,
    {
        proof {
            reveal(frames);
            reveal(all_open);
            assert(self.held() + Seq::<u8>::empty() =~= self.held());
        }
        put_frame(&self.key, &self.prefix, self.counter, true, self.held.as_slice(), out)
    }
}

/// Encrypt `plaintext` under a given nonce prefix and append the container. The
/// only failure is a block longer than AES-GCM takes; the header is then all
/// that was appended. What is appended on success, `decrypt` reads back as
/// `plaintext`, as long as the chunk size and the chunks' lengths fit their fields.
pub fn encrypt_with_prefix(
    key: &[u8; 32],
    prefix: &[u8; 8],
    chunk_size: usize,
    plaintext: &[u8],
    out: &mut Vec<u8>,
) -> (r: Result<(), CryptoError>)
    requires
        0 < chunk_size,
        plaintext@.len() / chunk_size as nat <= u32::MAX,
    ensures
        match r {
            Ok(_) => {
                let made = container(key@, prefix@, chunk_size as nat, plaintext@);
                &&& final(out)@ == old(out)@ + made
                &&& made.len() == container_len(chunk_size as nat, plaintext@.len())
                &&& all_open(key@, prefix@, chunk_size as nat, 0, plaintext@)
                &&& fits_frames(chunk_size as nat, plaintext@) ==> read_container(key@, made) == (Reading {
                    plaintext: plaintext@,
                    end: Ok(()),
                })
            },
            Err(e) => {
                &&& e == CryptoError::EncryptionFailed
                &&& final(out)@ == old(out)@ + header(prefix@, chunk_size as nat)
            },
        },
        r is Err <==> first_block_len(chunk_size as nat, plaintext@) > SEAL_MAX,
{
    let ghost before = out@;
    let ghost head = header(prefix@, chunk_size as nat);
    let mut enc = Encryptor::start(key, prefix, chunk_size, out);
    let ghost begun = enc;
    proof {
        assert(begun.held() + plaintext@ =~= plaintext@);
    }
    match enc.push(plaintext, out) {
        Ok(_) => {},
        Err(e) => {
            return Err(e);
        },
    }
    let ghost emitted = out@.skip((before + head).len() as int);
    let ghost filled = enc;
    proof {
        begun.lemma_continued(filled, plaintext@, emitted);
        if plaintext@.len() < chunk_size {
            vstd::arithmetic::div_mod::lemma_basic_div(plaintext@.len() as int, chunk_size as int);
            vstd::arithmetic::div_mod::lemma_small_mod(plaintext@.len(), chunk_size as nat);
        }
    }
    let finished = enc.finish(out);
    match finished {
        Ok(_) => {
            proof {
                lemma_encrypted(begun, filled, plaintext@, emitted);
                let all = frames(key@, prefix@, chunk_size as nat, 0, plaintext@);
                lemma_frames_len(key@, prefix@, chunk_size as nat, 0, plaintext@);
                if fits_frames(chunk_size as nat, plaintext@) {
                    lemma_read_header(key@, prefix@, chunk_size as nat, all);
                    if chunk_size < 0x1_0000_0000 {
                        lemma_frames_read_back(key@, prefix@, chunk_size as nat, 0, plaintext@);
                    } else {
                        reveal(frames);
                        reveal(all_open);
                        lemma_final_frame_reads_back(
                            key@,
                            prefix@,
                            chunk_size as nat % 0x1_0000_0000,
                            0,
                            plaintext@,
                        );
                    }
                }
                assert(((before + head) + emitted) + filled.remaining(Seq::empty()) =~= before + (
                head + all));
            }
            Ok(())
        },
        Err(e) => {
            proof {
                assert(emitted =~= Seq::<u8>::empty()) by {
                    lemma_nothing_emitted(begun, filled, plaintext@, emitted);
                }
                assert((before + head) + emitted =~= before + head);
            }
            Err(e)
        },
    }
}

/// Where an encryption that was begun, fed `plaintext` and finished stands.
proof fn lemma_encrypted(
    begun: Encryptor,
    filled: Encryptor,
    plaintext: Seq<u8>,
    emitted: Seq<u8>,
)
    requires
        begun.counter() == 0,
        begun.held() == Seq::<u8>::empty(),
        begun.continued_by(filled, plaintext, emitted),
        filled.sound(Seq::empty()),
    ensures
        frames(begun.key(), begun.prefix(), begun.chunk_size(), 0, plaintext) == emitted
            + filled.remaining(Seq::empty()),
        all_open(begun.key(), begun.prefix(), begun.chunk_size(), 0, plaintext),
{
    reveal(Encryptor::continued_by);
    let none = Seq::<u8>::empty();
    assert(plaintext + none =~= plaintext);
    assert(begun.held() + plaintext =~= plaintext);
    assert(begun.remaining(plaintext + none) == emitted + filled.remaining(none));
    assert(begun.sound(plaintext + none));
}

/// As long as less than a chunk was pushed, nothing came out.
proof fn lemma_nothing_emitted(
    begun: Encryptor,
    filled: Encryptor,
    plaintext: Seq<u8>,
    emitted: Seq<u8>,
)
    requires
        begun.wf(),
        begun.held() == Seq::<u8>::empty(),
        plaintext.len() < begun.chunk_size(),
        filled.counter() == begun.counter(),
        filled.held().len() == plaintext.len(),
        begun.continued_by(filled, plaintext, emitted),
    ensures
        emitted == Seq::<u8>::empty(),
{
    reveal(Encryptor::continued_by);
    let none = Seq::<u8>::empty();
    assert(plaintext + none =~= plaintext);
    assert(begun.held() + plaintext =~= plaintext);
    assert(plaintext.skip(0) =~= plaintext);
    assert(begun.remaining(plaintext + none) == emitted + filled.remaining(none));
    assert(filled.held() + none =~= plaintext);
    assert(emitted.len() == 0);
}

/// Encrypt `plaintext` as a container under a fresh random nonce prefix and
/// append it. Whatever the prefix, `decrypt` reads the container back as
/// `plaintext`, as long as the chunk size and the chunks' lengths fit their fields.
pub fn encrypt(
    key: &[u8; 32],
    chunk_size: usize,
    plaintext: &[u8],
    out: &mut Vec<u8>,
) -> (r: Result<(), CryptoError>)
    requires
        0 < chunk_size,
        plaintext@.len() / chunk_size as nat <= u32::MAX,
    ensures
        match r {
            Ok(_) => exists|prefix: Seq<u8>|
                {
                    let made = #[trigger] container(key@, prefix, chunk_size as nat, plaintext@);
                    &&& prefix.len() == 8
                    &&& final(out)@ == old(out)@ + made
                    &&& made.len() == container_len(chunk_size as nat, plaintext@.len())
                    &&& all_open(key@, prefix, chunk_size as nat, 0, plaintext@)
                    &&& fits_frames(chunk_size as nat, plaintext@) ==> read_container(key@, made) == (Reading {
                        plaintext: plaintext@,
                        end: Ok(()),
                    })
                },
            Err(CryptoError::NoRandomness) => final(out)@ == old(out)@,
            Err(e) => {
                &&& e == CryptoError::EncryptionFailed
                &&& first_block_len(chunk_size as nat, plaintext@) > SEAL_MAX
                &&& exists|prefix: Seq<u8>| #[trigger]
                    prefix.len() == 8 && final(out)@ == old(out)@ + header(
                        prefix,
                        chunk_size as nat,
                    )
            },
        },
{
    match random_bytes::<8>() {
        Ok(prefix) => {
            let r = encrypt_with_prefix(key, &prefix, chunk_size, plaintext, out);
            proof {
                let made = container(key@, prefix@, chunk_size as nat, plaintext@);
                assert(prefix@.len() == 8);
            }
            r
        },
        Err(_) => Err(CryptoError::NoRandomness),
    }
}

/// The length of the first (and longest) block of `data`.
pub open spec fn first_block_len(chunk_size: nat, data: Seq<u8>) -> nat {
    if data.len() < chunk_size {
        data.len()
    } else {
        chunk_size
    }
}

/// Whether the longest ciphertext's length fits the four bytes that there are for it,
/// and its block the chunk size that the four bytes in the header keep.
pub open spec fn fits_frames(chunk_size: nat, data: Seq<u8>) -> bool {
    &&& first_block_len(chunk_size, data) + 16 < 0x1_0000_0000
    &&& first_block_len(chunk_size, data) <= chunk_size % 0x1_0000_0000
}

/// How long the container of so many bytes is: the header, the bytes, and five
/// bytes of framing and a tag for each chunk, the last of which is a short one.
pub open spec fn container_len(chunk_size: nat, len: nat) -> nat {
    17 + len + 21 * (len / chunk_size + 1)
}

/// Where the parts of a header lie.
proof fn lemma_header_parts(prefix: Seq<u8>, size: Seq<u8>, body: Seq<u8>)
    requires
        prefix.len() == 8,
        size.len() == 4,
    ensures
        ({
            let bytes = preamble() + prefix + size + body;
            &&& bytes.take(4) == preamble().take(4)
            &&& bytes[4] == VERSION
            &&& bytes.subrange(5, 13) == prefix
            &&& bytes.subrange(13, 17) == size
            &&& bytes.skip(17) == body
        }),
{
    let bytes = preamble() + prefix + size + body;
    assert(bytes.take(4) =~= preamble().take(4));
    assert(bytes.subrange(5, 13) =~= prefix);
    assert(bytes.subrange(13, 17) =~= size);
    assert(bytes.skip(17) =~= body);
}

/// Reading a container reads the chunks behind its header.
proof fn lemma_read_header(key: Seq<u8>, prefix: Seq<u8>, chunk_size: nat, body: Seq<u8>)
    requires
        prefix.len() == 8,
    ensures
        read_container(key, header(prefix, chunk_size) + body) == read_frames(
            key,
            prefix,
            chunk_size % 0x1_0000_0000,
            0,
            body,
        ),
{
    let bytes = header(prefix, chunk_size) + body;
    lemma_header_parts(prefix, be32(chunk_size), body);
    lemma_be32_wraps(chunk_size);
    assert(bytes[4] == VERSION);
}

// ── decryption ────────────────────────────────────────────────────────────

/// What could still become a header.
pub open spec fn undecided_header(held: Seq<u8>) -> bool {
    &&& held.len() < 17
    &&& held.len() >= 4 ==> held.take(4) == preamble().take(4)
    &&& held.len() >= 5 ==> held[4] == VERSION
}

/// What could still become a chunk, or the final one if nothing follows.
pub open spec fn undecided_chunk(chunk_size: nat, counter: nat, held: Seq<u8>) -> bool {
    held.len() >= 5 ==> {
        &&& counter <= u32::MAX
        &&& framed(chunk_size, held[0], stated_len(held))
        &&& held.len() <= 5 + stated_len(held)
        &&& held.len() == 5 + stated_len(held) ==> held[0] == 1
    }
}

/// What is at the start of `body` stays there when more bytes come.
proof fn lemma_more(body: Seq<u8>, more: Seq<u8>)
    requires
        body.len() >= 5,
    ensures
        (body + more)[0] == body[0],
        stated_len(body + more) == stated_len(body),
        body.len() >= 5 + stated_len(body) ==> {
            &&& (body + more).subrange(5, 5 + stated_len(body) as int) == body.subrange(
                5,
                5 + stated_len(body) as int,
            )
            &&& (body + more).skip(5 + stated_len(body) as int) == body.skip(
                5 + stated_len(body) as int,
            ) + more
        },
{
    let n = stated_len(body) as int;
    let all = body + more;
    assert(all.subrange(1, 5) =~= body.subrange(1, 5));
    if body.len() >= 5 + n {
        assert(all.subrange(5, 5 + n) =~= body.subrange(5, 5 + n));
        assert(all.skip(5 + n) =~= body.skip(5 + n) + more);
    }
}

/// A decryption in progress: the bytes of a container are pushed in as they
/// arrive, and the plaintext of each chunk comes out once it is authenticated. The
/// final chunk waits for the end of the input, since nothing may follow it.
pub struct Decryptor {
    key: [u8; 32],
    begun: bool,
    prefix: [u8; 8],
    chunk_size: u32,
    counter: u64,
    held: Vec<u8>,
}

impl Decryptor {
    /// The content key.
    pub closed spec fn key(self) -> Seq<u8> {
        self.key@
    }

    /// The header has been read.
    pub closed spec fn begun(self) -> bool {
        self.begun
    }

    /// The nonce prefix in the header.
    pub closed spec fn prefix(self) -> Seq<u8> {
        self.prefix@
    }

    /// The chunk size in the header.
    pub closed spec fn chunk_size(self) -> nat {
        self.chunk_size as nat
    }

    /// How many chunks have come out.
    pub closed spec fn counter(self) -> nat {
        self.counter as nat
    }

    /// The bytes that wait for the rest of their header or chunk.
    pub closed spec fn held(self) -> Seq<u8> {
        self.held@
    }

    /// What waits could still become what it should.
    pub open spec fn wf(self) -> bool {
        &&& self.counter() <= 0x1_0000_0000
        &&& self.begun() ==> undecided_chunk(self.chunk_size(), self.counter(), self.held())
        &&& !self.begun() ==> undecided_header(self.held())
    }

    /// What is read from here on if `more` is pushed and the input then ends.
    pub open spec fn reading(self, more: Seq<u8>) -> Reading {
        if self.begun() {
            read_frames(
                self.key(),
                self.prefix(),
                self.chunk_size(),
                self.counter(),
                self.held() + more,
            )
        } else {
            read_container(self.key(), self.held() + more)
        }
    }

    /// Begin to read a container.
    pub fn start(key: &[u8; 32]) -> (r: Self)
        ensures
            r.wf(),
            r.key() == key@,
            !r.begun(),
            r.held() == Seq::<u8>::empty(),
    {
        Decryptor {
            key: *key,
            begun: false,
            prefix: [0u8;8],
            chunk_size: 0,
            counter: 0,
            held: Vec::new(),
        }
    }

    /// Reads the header, if all of it is there.
    fn open_header(&mut self) -> (r: Result<(), CryptoError>)
        requires
            !old(self).begun(),
            old(self).counter() <= 0x1_0000_0000,
        ensures
            match r {
                Ok(_) => {
                    &&& final(self).begun() || undecided_header(final(self).held())
                    &&& final(self).counter() <= 0x1_0000_0000
                    &&& forall|more: Seq<u8>| #[trigger]
                        final(self).reading(more) == old(self).reading(more)
                },
                Err(e) => forall|more: Seq<u8>| #[trigger] old(self).reading(more) == stopped(e),
            },
    {
        let ghost first = *self;
        let ghost held = self.held@;
        let len: usize = self.held.len();
        if len < 4 {
            return Ok(());
        }
        let right = self.held[0] == 0x44 && self.held[1] == 0x4f && self.held[2] == 0x56
            && self.held[3] == 0x45;
        proof {
            let (a, b) = (held.take(4), preamble().take(4));
            if right {
                assert(a =~= b);
            } else {
                assert(a[0] != b[0] || a[1] != b[1] || a[2] != b[2] || a[3] != b[3]);
            }
            assert forall|more: Seq<u8>| (#[trigger] (held + more)).take(4) == a by {
                assert((held + more).take(4) =~= a);
            }
        }
        if !right {
            assert forall|more: Seq<u8>| #[trigger]
                first.reading(more) == stopped(CryptoError::NotDove) by {
                assert((held + more).take(4) == held.take(4));
            }
            return Err(CryptoError::NotDove);
        }
        if len < 5 {
            return Ok(());
        }
        let version = self.held[4];
        if version != VERSION {
            assert forall|more: Seq<u8>| #[trigger]
                first.reading(more) == stopped(CryptoError::UnsupportedVersion(version)) by {
                assert((held + more).take(4) == held.take(4));
                assert((held + more)[4] == version);
            }
            return Err(CryptoError::UnsupportedVersion(version));
        }
        if len < 17 {
            return Ok(());
        }
        self.prefix = [
            self.held[5],
            self.held[6],
            self.held[7],
            self.held[8],
            self.held[9],
            self.held[10],
            self.held[11],
            self.held[12],
        ];
        self.chunk_size = (self.held[13] as u32) * 0x100_0000 + (self.held[14] as u32) * 0x1_0000
            + (self.held[15] as u32) * 0x100 + (self.held[16] as u32);
        let mut rest: Vec<u8> = Vec::new();
        put_all(&mut rest, slice_subrange(self.held.as_slice(), 17, len));
        self.held = rest;
        self.counter = 0;
        self.begun = true;
        proof {
            assert(self.prefix@ =~= held.subrange(5, 13));
            assert(self.held@ =~= held.skip(17));
            assert(self.chunk_size() == be32_value(held.subrange(13, 17)));
            assert forall|more: Seq<u8>| #[trigger] self.reading(more) == first.reading(more) by {
                let all = held + more;
                assert(all.take(4) == held.take(4));
                assert(all[4] == VERSION);
                assert(all.subrange(5, 13) =~= held.subrange(5, 13));
                assert(all.subrange(13, 17) =~= held.subrange(13, 17));
                assert(all.skip(17) =~= held.skip(17) + more);
            }
        }
        Ok(())
    }

    /// Opens every chunk that is not the last and all of which is there.
    fn open_chunks(&mut self, out: &mut Vec<u8>) -> (r: Result<(), CryptoError>)
        requires
            old(self).begun(),
            old(self).counter() <= 0x1_0000_0000,
        ensures
            ({
                let emitted = final(out)@.skip(old(out)@.len() as int);
                &&& final(out)@ == old(out)@ + emitted
                &&& match r {
                    Ok(_) => {
                        &&& final(self).wf()
                        &&& forall|more: Seq<u8>| #[trigger]
                            old(self).reading(more) == read_on(emitted, final(self).reading(more))
                    },
                    Err(e) => forall|more: Seq<u8>| #[trigger]
                        old(self).reading(more) == (Reading { plaintext: emitted, end: Err(e) }),
                }
            }),
    {
        let ghost first = *self;
        let ghost before = out@;
        let ghost mut done: Seq<u8> = Seq::empty();
        let mut bytes: Vec<u8> = Vec::new();
        std::mem::swap(&mut bytes, &mut self.held);
        let mut pos: usize = 0;
        let mut counter: u64 = self.counter;
        let size: u64 = self.chunk_size as u64 + 16;
        proof {
            assert(bytes@.skip(0) =~= bytes@);
            assert(before + done =~= before);
            assert forall|more: Seq<u8>| #[trigger]
                first.reading(more) == read_on(done, first.reading(more)) by {
                assert(done + first.reading(more).plaintext =~= first.reading(more).plaintext);
            }
        }
        loop
            invariant
                pos <= bytes@.len(),
                counter <= 0x1_0000_0000,
                out@ == before + done,
                before == old(out)@,
                first == *old(self),
                first.begun(),
                self.begun() && self.key() == first.key() && self.prefix() == first.prefix()
                    && self.chunk_size() == first.chunk_size(),
                self.held@ == Seq::<u8>::empty(),
                size == first.chunk_size() + 16,
                forall|more: Seq<u8>| #[trigger]
                    first.reading(more) == read_on(
                        done,
                        read_frames(
                            first.key(),
                            first.prefix(),
                            first.chunk_size(),
                            counter as nat,
                            bytes@.skip(pos as int) + more,
                        ),
                    ),
            decreases bytes@.len() - pos,
        {
            let ghost body = bytes@.skip(pos as int);
            let ghost (key, prefix, c) = (first.key(), first.prefix(), first.chunk_size());
            let left: usize = bytes.len() - pos;
            proof {
                assert(out@.skip(before.len() as int) =~= done);
                assert(done + Seq::<u8>::empty() =~= done);
            }
            let mut wait = left < 5;
            if !wait {
                let flag = bytes[pos];
                let len: u64 = (bytes[pos + 1] as u64) * 0x100_0000 + (bytes[pos + 2] as u64)
                    * 0x1_0000 + (bytes[pos + 3] as u64) * 0x100 + (bytes[pos + 4] as u64);
                let have: u64 = (left - 5) as u64;
                assert(len == stated_len(body));
                assert(flag == body[0]);
                let sound = counter <= 0xffff_ffff && ((flag == 0 && len == size) || (flag == 1
                    && 16 <= len && len <= size));
                if !sound || (flag == 1 && have > len) {
                    assert forall|more: Seq<u8>| #[trigger]
                        first.reading(more) == (Reading {
                            plaintext: done,
                            end: Err(CryptoError::DecryptionFailed),
                        }) by {
                        lemma_more(body, more);
                        lemma_read_step(key, prefix, c, counter as nat, body + more);
                    }
                    return Err(CryptoError::DecryptionFailed);
                }
                wait = flag == 1 || have < len;
                if !wait {
                    let end: usize = pos + 5 + len as usize;
                    let sealed = slice_subrange(bytes.as_slice(), pos + 5, end);
                    assert(sealed@ =~= body.subrange(5, 5 + len as int));
                    let number: u32 = counter as u32;
                    let opened = gcm_open(
                        &self.key,
                        &nonce(&self.prefix, number),
                        aad(number, false).as_slice(),
                        sealed,
                    );
                    match opened {
                        Ok(block) => {
                            put_all(out, block.as_slice());
                            proof {
                                assert((before + done) + block@ =~= before + (done + block@));
                                let next = bytes@.skip(end as int);
                                assert(body.skip(5 + len as int) =~= next);
                                assert forall|more: Seq<u8>| #[trigger]
                                    first.reading(more) == read_on(
                                        done + block@,
                                        read_frames(key, prefix, c, counter as nat + 1, next + more),
                                    ) by {
                                    lemma_more(body, more);
                                    lemma_read_step(key, prefix, c, counter as nat, body + more);
                                    let rest = read_frames(
                                        key,
                                        prefix,
                                        c,
                                        counter as nat + 1,
                                        next + more,
                                    );
                                    assert(done + (block@ + rest.plaintext) =~= (done + block@)
                                        + rest.plaintext);
                                }
                                done = done + block@;
                            }
                            counter = counter + 1;
                            pos = end;
                        },
                        Err(_) => {
                            assert forall|more: Seq<u8>| #[trigger]
                                first.reading(more) == (Reading {
                                    plaintext: done,
                                    end: Err(CryptoError::DecryptionFailed),
                                }) by {
                                lemma_more(body, more);
                                lemma_read_step(key, prefix, c, counter as nat, body + more);
                            }
                            return Err(CryptoError::DecryptionFailed);
                        },
                    }
                }
            }
            if wait {
                put_all(&mut self.held, slice_subrange(bytes.as_slice(), pos, bytes.len()));
                self.counter = counter;
                proof {
                    assert(self.held@ =~= body);
                    assert forall|more: Seq<u8>| #[trigger]
                        first.reading(more) == read_on(done, self.reading(more)) by {}
                }
                return Ok(());
            }
        }
    }

    /// Push bytes of the container; the plaintext of every chunk but the last that
    /// is complete is appended. What was pushed may be refused before the input
    /// ends, and then whatever follows is of no account.
    pub fn push(&mut self, data: &[u8], out: &mut Vec<u8>) -> (r: Result<(), CryptoError>)
        requires
            old(self).wf(),
        ensures
            ({
                let emitted = final(out)@.skip(old(out)@.len() as int);
                &&& final(out)@ == old(out)@ + emitted
                &&& match r {
                    Ok(_) => {
                        &&& final(self).wf()
                        &&& forall|more: Seq<u8>|
                            old(self).reading(data@ + more) == read_on(
                                emitted,
                                #[trigger] final(self).reading(more),
                            )
                    },
                    Err(e) => forall|more: Seq<u8>| #[trigger]
                        old(self).reading(data@ + more) == (Reading {
                            plaintext: emitted,
                            end: Err(e),
                        }),
                }
            }),
    {
        let ghost first = *self;
        let ghost before = out@;
        put_all(&mut self.held, data);
        let ghost fed = *self;
        proof {
            assert(before.skip(before.len() as int) =~= Seq::<u8>::empty());
            assert(before + Seq::<u8>::empty() =~= before);
            assert forall|more: Seq<u8>| #[trigger]
                first.reading(data@ + more) == fed.reading(more) by {
                assert(first.held() + (data@ + more) =~= fed.held() + more);
            }
        }
        if !self.begun {
            match self.open_header() {
                Ok(_) => {},
                Err(e) => {
                    return Err(e);
                },
            }
            if !self.begun {
                proof {
                    assert forall|more: Seq<u8>|
                        first.reading(data@ + more) == read_on(
                            Seq::<u8>::empty(),
                            #[trigger] self.reading(more),
                        ) by {
                        let later = self.reading(more);
                        assert(later == fed.reading(more));
                        assert(Seq::<u8>::empty() + later.plaintext =~= later.plaintext);
                    }
                }
                return Ok(());
            }
        }
        let ghost opened = *self;
        assert forall|more: Seq<u8>| #[trigger] opened.reading(more) == fed.reading(more) by {}
        let r = self.open_chunks(out);
        proof {
            let emitted = out@.skip(before.len() as int);
            if r is Ok {
                assert forall|more: Seq<u8>|
                    first.reading(data@ + more) == read_on(
                        emitted,
                        #[trigger] self.reading(more),
                    ) by {
                    assert(opened.reading(more) == fed.reading(more));
                }
            } else {
                assert forall|more: Seq<u8>| #[trigger]
                    first.reading(data@ + more) == (Reading {
                        plaintext: emitted,
                        end: Err(r->Err_0),
                    }) by {
                    assert(opened.reading(more) == fed.reading(more));
                }
            }
        }
        r
    }

    /// The input has ended: open the final chunk, and append its plaintext.
    pub fn finish(self, out: &mut Vec<u8>) -> (r: Result<(), CryptoError>)
        requires
            self.wf(),
        ensures
            final(out)@ == old(out)@ + self.reading(Seq::empty()).plaintext,
            r == self.reading(Seq::empty()).end,
    {
        let ghost none = Seq::<u8>::empty();
        let ghost body = self.held@;
        proof {
            assert(body + none =~= body);
            assert(out@ + none =~= out@);
            lemma_read_step(
                self.key(),
                self.prefix(),
                self.chunk_size(),
                self.counter(),
                body,
            );
        }
        let len: usize = self.held.len();
        if !self.begun {
            return Err(
                if len < 4 {
                    CryptoError::NotDove
                } else {
                    CryptoError::UnexpectedEnd
                },
            );
        }
        if len == 0 {
            return Err(CryptoError::Truncated);
        }
        if len < 5 {
            return Err(CryptoError::UnexpectedEnd);
        }
        let stated: u64 = (self.held[1] as u64) * 0x100_0000 + (self.held[2] as u64) * 0x1_0000 + (
        self.held[3] as u64) * 0x100 + (self.held[4] as u64);
        assert(stated == stated_len(body));
        if ((len - 5) as u64) < stated {
            return Err(CryptoError::UnexpectedEnd);
        }
        let sealed = slice_subrange(self.held.as_slice(), 5, len);
        assert(sealed@ =~= body.subrange(5, 5 + stated as int));
        let number: u32 = self.counter as u32;
        match gcm_open(
            &self.key,
            &nonce(&self.prefix, number),
            aad(number, true).as_slice(),
            sealed,
        ) {
            Ok(block) => {
                put_all(out, block.as_slice());
                Ok(())
            },
            Err(_) => Err(CryptoError::DecryptionFailed),
        }
    }
}

/// Decrypt the chunked container in `bytes` and append the plaintext to `out`.
/// Fails on truncation, on chunks that are not framed as the header says, on
/// anything behind the final chunk, and on every chunk that AES-GCM does not
/// authenticate in its place: a wrong key, tampering, reordering. The plaintext of
/// the chunks that were accepted before has then been appended.
pub fn decrypt(key: &[u8; 32], bytes: &[u8], out: &mut Vec<u8>) -> (r: Result<(), CryptoError>)
    ensures
        final(out)@ == old(out)@ + read_container(key@, bytes@).plaintext,
        r == read_container(key@, bytes@).end,
{
    let ghost before = out@;
    let ghost none = Seq::<u8>::empty();
    let mut decryptor = Decryptor::start(key);
    let ghost first = decryptor;
    proof {
        assert(first.held() + (bytes@ + none) =~= bytes@);
        assert(first.reading(bytes@ + none) == read_container(key@, bytes@));
    }
    match decryptor.push(bytes, out) {
        Ok(_) => {
            let ghost emitted = out@.skip(before.len() as int);
            let ghost last = decryptor.reading(none);
            assert((before + emitted) + last.plaintext =~= before + (emitted + last.plaintext));
            decryptor.finish(out)
        },
        Err(e) => Err(e),
    }
}

// ── laws ──────────────────────────────────────────────────────────────────

/// Within one file no two chunks share a nonce: different counters make
/// different nonces, whatever the prefix.
pub proof fn law_nonces_never_repeat(prefix: Seq<u8>, i: nat, j: nat)
    requires
        i < 0x1_0000_0000,
        j < 0x1_0000_0000,
        i != j,
    ensures
        nonce_bytes(prefix, i) != nonce_bytes(prefix, j),
{
    let (a, b) = (nonce_bytes(prefix, i), nonce_bytes(prefix, j));
    if a == b {
        assert(a.skip(prefix.len() as int) =~= be32(i));
        assert(b.skip(prefix.len() as int) =~= be32(j));
        lemma_be32_round_trip(i);
        lemma_be32_round_trip(j);
    }
}

/// The authenticated data of a chunk binds its place and whether it is the
/// final one: no two different (counter, flag) pairs share it.
pub proof fn law_aad_binds_place_and_flag(i: nat, i_last: bool, j: nat, j_last: bool)
    requires
        i < 0x1_0000_0000,
        j < 0x1_0000_0000,
        aad_bytes(i, i_last) == aad_bytes(j, j_last),
    ensures
        i == j,
        i_last == j_last,
{
    let (a, b) = (aad_bytes(i, i_last), aad_bytes(j, j_last));
    assert(a.take(4) =~= be32(i));
    assert(b.take(4) =~= be32(j));
    lemma_be32_round_trip(i);
    lemma_be32_round_trip(j);
    assert(a.last() == b.last());
}

/// A reader that accepts `body` refuses it with more bytes behind.
proof fn lemma_frames_refuse_tail(
    key: Seq<u8>,
    prefix: Seq<u8>,
    chunk_size: nat,
    counter: nat,
    body: Seq<u8>,
    tail: Seq<u8>,
)
    requires
        read_frames(key, prefix, chunk_size, counter, body).end is Ok,
        tail.len() > 0,
    ensures
        read_frames(key, prefix, chunk_size, counter, body + tail).end is Err,
    decreases body.len(),
{
    lemma_read_step(key, prefix, chunk_size, counter, body);
    lemma_read_step(key, prefix, chunk_size, counter, body + tail);
    lemma_more(body, tail);
    let n = stated_len(body) as int;
    if body[0] != 1 {
        lemma_frames_refuse_tail(key, prefix, chunk_size, counter + 1, body.skip(5 + n), tail);
    }
}

/// Nothing may follow the final chunk: a container that decrypts no longer does
/// with any bytes appended.
pub proof fn law_trailing_bytes_are_refused(key: Seq<u8>, bytes: Seq<u8>, tail: Seq<u8>)
    requires
        read_container(key, bytes).end is Ok,
        tail.len() > 0,
    ensures
        read_container(key, bytes + tail).end is Err,
{
    let all = bytes + tail;
    assert(all.take(4) =~= bytes.take(4));
    assert(all.subrange(5, 13) =~= bytes.subrange(5, 13));
    assert(all.subrange(13, 17) =~= bytes.subrange(13, 17));
    assert(all.skip(17) =~= bytes.skip(17) + tail);
    lemma_frames_refuse_tail(
        key,
        bytes.subrange(5, 13),
        be32_value(bytes.subrange(13, 17)),
        0,
        bytes.skip(17),
        tail,
    );
}

/// Truncation is always rejected: cut anywhere, a container that decrypts no longer
/// does.
pub proof fn law_truncation_is_rejected(key: Seq<u8>, bytes: Seq<u8>, cut: int)
    requires
        read_container(key, bytes).end is Ok,
        0 <= cut < bytes.len(),
    ensures
        read_container(key, bytes.take(cut)).end is Err,
{
    if read_container(key, bytes.take(cut)).end is Ok {
        law_trailing_bytes_are_refused(key, bytes.take(cut), bytes.skip(cut));
        assert(bytes.take(cut) + bytes.skip(cut) =~= bytes);
    }
}

/// What a container that was cut off releases, before it is refused, is a run of
/// whole blocks of the plaintext from its start on. The blocks of a container that
/// `encrypt` made all open to themselves. Left out are blocks whose size neither the
/// header nor the chunks have room for.
pub proof fn law_cut_container_releases_whole_blocks(
    key: Seq<u8>,
    prefix: Seq<u8>,
    chunk_size: nat,
    data: Seq<u8>,
    cut: int,
)
    requires
        prefix.len() == 8,
        0 < chunk_size,
        chunk_size < 0x1_0000_0000 || first_block_len(chunk_size, data) + 16 < 0x1_0000_0000,
        data.len() / chunk_size <= u32::MAX,
        all_open(key, prefix, chunk_size, 0, data),
        0 <= cut < container(key, prefix, chunk_size, data).len(),
    ensures
        ({
            let made = container(key, prefix, chunk_size, data);
            let reading = read_container(key, made.take(cut));
            &&& reading.end is Err
            &&& exists|m: nat|
                m * chunk_size <= data.len() && reading.plaintext == #[trigger] first_blocks(
                    chunk_size,
                    data,
                    m,
                )
        }),
{
    let made = container(key, prefix, chunk_size, data);
    let body = frames(key, prefix, chunk_size, 0, data);
    let head = header(prefix, chunk_size);
    if cut < 17 {
        assert(first_blocks(chunk_size, data, 0) =~= Seq::<u8>::empty());
        assert(0 * chunk_size <= data.len());
    } else {
        assert(head.len() == 17);
        assert(made.take(cut) =~= head + body.take(cut - 17));
        lemma_read_header(key, prefix, chunk_size, body.take(cut - 17));
        if chunk_size < 0x1_0000_0000 && fits_frames(chunk_size, data) {
            lemma_cut_frames(key, prefix, chunk_size, 0, data, cut - 17);
        } else {
            reveal(frames);
            reveal(all_open);
            let size = chunk_size % 0x1_0000_0000;
            let is_last = data.len() < chunk_size;
            let block = if is_last {
                data
            } else {
                data.take(chunk_size as int)
            };
            let tail = if is_last {
                Seq::empty()
            } else {
                frames(key, prefix, chunk_size, 1, data.skip(chunk_size as int))
            };
            assert(body =~= frame(key, prefix, 0, is_last, block) + tail);
            if chunk_size < 0x1_0000_0000 {
                lemma_read_overlong_frame(
                    key,
                    prefix,
                    size,
                    0,
                    is_last,
                    block,
                    tail,
                    cut - 17,
                );
            } else {
                assert(body =~= frame(key, prefix, 0, true, data));
                lemma_read_cut_frame(key, prefix, size, 0, true, data, cut - 17);
            }
            assert(first_blocks(chunk_size, data, 0) =~= Seq::<u8>::empty());
            assert(0 * chunk_size <= data.len());
        }
    }
}

/// The chunks in `body` from number `j` on.
pub open spec fn from_chunk(body: Seq<u8>, j: nat) -> Seq<u8>
    decreases j,
{
    if j == 0 {
        body
    } else if body.len() < 5 || body.len() < 5 + stated_len(body) {
        Seq::empty()
    } else {
        from_chunk(body.skip(5 + stated_len(body) as int), (j - 1) as nat)
    }
}

/// The ciphertext of the chunk at the start of `body`.
pub open spec fn sealed_part(body: Seq<u8>) -> Seq<u8> {
    body.subrange(5, 5 + stated_len(body) as int)
}

/// What AES-GCM makes of the chunk at the start of `body`, in the place with this
/// number.
pub open spec fn opened_at(key: Seq<u8>, prefix: Seq<u8>, number: nat, body: Seq<u8>) -> Option<
    Seq<u8>,
> {
    gcm_opened(
        key,
        nonce_bytes(prefix, number),
        aad_bytes(number, body[0] == 1),
        sealed_part(body),
    )
}

/// A reader that accepts `body` has every chunk in it authenticated in its place.
proof fn lemma_accepted_frames(
    key: Seq<u8>,
    prefix: Seq<u8>,
    chunk_size: nat,
    counter: nat,
    body: Seq<u8>,
    j: nat,
)
    requires
        read_frames(key, prefix, chunk_size, counter, body).end is Ok,
        from_chunk(body, j).len() > 0,
    ensures
        opened_at(key, prefix, counter + j, from_chunk(body, j)) is Some,
    decreases j,
{
    lemma_read_step(key, prefix, chunk_size, counter, body);
    if j > 0 {
        let rest = body.skip(5 + stated_len(body) as int);
        if body[0] == 1 {
            assert(from_chunk(rest, (j - 1) as nat).len() == 0);
        } else {
            lemma_accepted_frames(key, prefix, chunk_size, counter + 1, rest, (j - 1) as nat);
        }
    }
}

/// A container decrypts only where AES-GCM authenticates each of its chunks under the
/// key, in its place and as the final one or not: whoever alters, swaps or drops a
/// chunk, the nonce prefix or the key has to have AES-GCM accept what is there now.
pub proof fn law_accepted_chunks_authenticate(key: Seq<u8>, bytes: Seq<u8>, j: nat)
    requires
        read_container(key, bytes).end is Ok,
        from_chunk(bytes.skip(17), j).len() > 0,
    ensures
        opened_at(key, bytes.subrange(5, 13), j, from_chunk(bytes.skip(17), j)) is Some,
{
    lemma_accepted_frames(
        key,
        bytes.subrange(5, 13),
        be32_value(bytes.subrange(13, 17)),
        0,
        bytes.skip(17),
        j,
    );
}

/// Under a key for which AES-GCM refuses the first chunk of a container, decryption
/// fails and releases nothing.
pub proof fn law_refused_key_releases_nothing(key: Seq<u8>, bytes: Seq<u8>)
    requires
        bytes.len() > 17,
        opened_at(key, bytes.subrange(5, 13), 0, bytes.skip(17)) is None,
    ensures
        read_container(key, bytes).end is Err,
        read_container(key, bytes).plaintext == Seq::<u8>::empty(),
{
    let size = be32_value(bytes.subrange(13, 17));
    lemma_read_step(key, bytes.subrange(5, 13), size, 0, bytes.skip(17));
}

/// The byte at `i` is the flag or the length of one of the chunks in `body`.
pub open spec fn framing_at(body: Seq<u8>, i: int) -> bool
    decreases body.len(),
{
    if body.len() < 5 || i < 0 {
        false
    } else if i < 5 {
        true
    } else if body.len() < 5 + stated_len(body) {
        false
    } else {
        framing_at(body.skip(5 + stated_len(body) as int), i - 5 - stated_len(body))
    }
}

/// The byte at `i` of a container is part of its magic, its version, its chunk size
/// where a full chunk follows, or the flag or the length of a chunk.
pub open spec fn fixed_at(bytes: Seq<u8>, i: int) -> bool {
    ||| 0 <= i < 5
    ||| 13 <= i < 17 && bytes[17] == 0
    ||| 17 <= i && framing_at(bytes.skip(17), i - 17)
}

/// Four bytes, one of which was altered, write another number.
proof fn lemma_be32_altered(s: Seq<u8>, i: int, b: u8)
    requires
        s.len() == 4,
        0 <= i < 4,
        b != s[i],
    ensures
        be32_value(s.update(i, b)) != be32_value(s),
{
}

/// A reader that accepts `body` refuses it with a flag or a length altered.
proof fn lemma_altered_frames(
    key: Seq<u8>,
    prefix: Seq<u8>,
    chunk_size: nat,
    counter: nat,
    body: Seq<u8>,
    i: int,
    b: u8,
)
    requires
        read_frames(key, prefix, chunk_size, counter, body).end is Ok,
        0 <= i < body.len(),
        framing_at(body, i),
        b != body[i],
    ensures
        read_frames(key, prefix, chunk_size, counter, body.update(i, b)).end is Err,
    decreases body.len(),
{
    let altered = body.update(i, b);
    let n = stated_len(body) as int;
    lemma_read_step(key, prefix, chunk_size, counter, body);
    lemma_read_step(key, prefix, chunk_size, counter, altered);
    if i == 0 {
        assert(altered.subrange(1, 5) =~= body.subrange(1, 5));
        assert(altered.skip(5 + n) =~= body.skip(5 + n));
        lemma_read_step(key, prefix, chunk_size, counter + 1, body.skip(5 + n));
    } else if i < 5 {
        assert(altered.subrange(1, 5) =~= body.subrange(1, 5).update(i - 1, b));
        lemma_be32_altered(body.subrange(1, 5), i - 1, b);
    } else {
        assert(altered.subrange(1, 5) =~= body.subrange(1, 5));
        let rest = body.skip(5 + n);
        if i >= 5 + n {
            assert(altered.subrange(5, 5 + n) =~= body.subrange(5, 5 + n));
            assert(altered.skip(5 + n) =~= rest.update(i - 5 - n, b));
            if body[0] != 1 {
                lemma_altered_frames(key, prefix, chunk_size, counter + 1, rest, i - 5 - n, b);
            }
        } else {
            assert(!framing_at(rest, i - 5 - n));
        }
    }
}

/// A container that decrypts no longer does once its magic, its version, a flag, a
/// length, or the chunk size that full chunks have to have is altered.
pub proof fn law_altered_framing_is_refused(key: Seq<u8>, bytes: Seq<u8>, i: int, b: u8)
    requires
        read_container(key, bytes).end is Ok,
        0 <= i < bytes.len(),
        fixed_at(bytes, i),
        b != bytes[i],
    ensures
        read_container(key, bytes.update(i, b)).end is Err,
{
    let altered = bytes.update(i, b);
    let body = bytes.skip(17);
    let size = be32_value(bytes.subrange(13, 17));
    if i < 5 {
        if i < 4 {
            assert(bytes.take(4)[i] == bytes[i]);
            assert(altered.take(4)[i] == b);
        }
    } else {
        assert(altered.take(4) =~= bytes.take(4));
        assert(altered.subrange(5, 13) =~= bytes.subrange(5, 13));
        lemma_read_step(key, bytes.subrange(5, 13), size, 0, body);
        if i < 17 {
            assert(altered.skip(17) =~= body);
            assert(body[0] == bytes[17]);
            assert(altered.subrange(13, 17) =~= bytes.subrange(13, 17).update(i - 13, b));
            lemma_be32_altered(bytes.subrange(13, 17), i - 13, b);
            let other = be32_value(altered.subrange(13, 17));
            lemma_read_step(key, bytes.subrange(5, 13), other, 0, body);
        } else {
            assert(altered.subrange(13, 17) =~= bytes.subrange(13, 17));
            assert(altered.skip(17) =~= body.update(i - 17, b));
            lemma_altered_frames(key, bytes.subrange(5, 13), size, 0, body, i - 17, b);
        }
    }
}

/// A byte of chunks that a reader accepts, other than a flag or a length, is part of
/// a ciphertext, which is another one once the byte is altered.
proof fn lemma_altered_ciphertext(
    key: Seq<u8>,
    prefix: Seq<u8>,
    chunk_size: nat,
    counter: nat,
    body: Seq<u8>,
    i: int,
    b: u8,
) -> (j: nat)
    requires
        read_frames(key, prefix, chunk_size, counter, body).end is Ok,
        0 <= i < body.len(),
        !framing_at(body, i),
        b != body[i],
    ensures
        from_chunk(body.update(i, b), j).len() > 0,
        sealed_part(from_chunk(body.update(i, b), j)) != sealed_part(from_chunk(body, j)),
    decreases body.len(),
{
    let altered = body.update(i, b);
    let n = stated_len(body) as int;
    lemma_read_step(key, prefix, chunk_size, counter, body);
    assert(altered.subrange(1, 5) =~= body.subrange(1, 5));
    if i < 5 + n {
        assert(sealed_part(altered)[i - 5] == b);
        assert(sealed_part(body)[i - 5] == body[i]);
        0
    } else {
        let rest = body.skip(5 + n);
        assert(altered.skip(5 + n) =~= rest.update(i - 5 - n, b));
        let j = lemma_altered_ciphertext(
            key,
            prefix,
            chunk_size,
            counter + 1,
            rest,
            i - 5 - n,
            b,
        );
        assert(from_chunk(altered, j + 1) == from_chunk(rest.update(i - 5 - n, b), j));
        assert(from_chunk(body, j + 1) == from_chunk(rest, j));
        j + 1
    }
}

/// AES-GCM opens no chunk of `altered` whose nonce prefix or ciphertext is not that of
/// the same chunk of `bytes`.
pub open spec fn nothing_forged(key: Seq<u8>, bytes: Seq<u8>, altered: Seq<u8>) -> bool {
    forall|j: nat| #[trigger]
        opened_at(key, altered.subrange(5, 13), j, from_chunk(altered.skip(17), j)) is Some ==> {
            &&& altered.subrange(5, 13) == bytes.subrange(5, 13)
            &&& sealed_part(from_chunk(altered.skip(17), j)) == sealed_part(
                from_chunk(bytes.skip(17), j),
            )
        }
}

/// A container that decrypts no longer does once any byte of it is altered, as long as
/// AES-GCM does not open what it did not seal. The one exception is the chunk size of
/// a container without a full chunk, which nothing in it authenticates.
pub proof fn law_altered_bytes_are_refused(key: Seq<u8>, bytes: Seq<u8>, i: int, b: u8)
    requires
        read_container(key, bytes).end is Ok,
        0 <= i < bytes.len(),
        b != bytes[i],
        13 <= i < 17 ==> bytes[17] == 0,
        nothing_forged(key, bytes, bytes.update(i, b)),
    ensures
        read_container(key, bytes.update(i, b)).end is Err,
{
    let altered = bytes.update(i, b);
    let prefix = bytes.subrange(5, 13);
    let body = bytes.skip(17);
    let size = be32_value(bytes.subrange(13, 17));
    lemma_read_step(key, prefix, size, 0, body);
    if fixed_at(bytes, i) {
        law_altered_framing_is_refused(key, bytes, i, b);
    } else if read_container(key, altered).end is Ok {
        if i < 13 {
            assert(altered.subrange(5, 13)[i - 5] == b);
            assert(prefix[i - 5] == bytes[i]);
            law_accepted_chunks_authenticate(key, altered, 0);
        } else {
            let j = lemma_altered_ciphertext(key, prefix, size, 0, body, i - 17, b);
            assert(altered.skip(17) =~= body.update(i - 17, b));
            law_accepted_chunks_authenticate(key, altered, j);
        }
    }
}

/// A container with another version, and input that does not start with the
/// magic, release nothing.
pub proof fn law_foreign_input_releases_nothing(key: Seq<u8>, bytes: Seq<u8>)
    requires
        bytes.len() < 5 || bytes.take(5) != preamble(),
    ensures
        read_container(key, bytes).end is Err,
        read_container(key, bytes).plaintext == Seq::<u8>::empty(),
{
    if bytes.len() >= 5 && bytes.take(4) == preamble().take(4) && bytes[4] == VERSION {
        assert forall|i: int| 0 <= i < 5 implies bytes.take(5)[i] == preamble()[i] by {
            if i < 4 {
                assert(bytes.take(4)[i] == preamble().take(4)[i]);
            }
        }
        assert(bytes.take(5) =~= preamble());
    }
}

/// Numbers are written with their most significant byte first: of two numbers the
/// smaller one has the smaller byte where their bytes first differ, and is the smaller
/// one when it is read back.
pub proof fn law_numbers_are_big_endian(a: nat, b: nat)
    requires
        a < b < 0x1_0000_0000,
    ensures
        exists|k: int|
            {
                &&& 0 <= k < 4
                &&& #[trigger] be32(a).take(k) == be32(b).take(k)
                &&& be32(a)[k] < be32(b)[k]
            },
        be32_value(be32(a)) < be32_value(be32(b)),
{
    lemma_be32_round_trip(a);
    lemma_be32_round_trip(b);
    let (x, y) = (be32(a), be32(b));
    let k: int = if x[0] != y[0] {
        0
    } else if x[1] != y[1] {
        1
    } else if x[2] != y[2] {
        2
    } else {
        3
    };
    assert(x.take(k) =~= y.take(k));
    assert(x[k] < y[k]);
}

/// Skipping the chunks before number `j` leaves the chunks of the data from there on.
proof fn lemma_from_chunk(
    key: Seq<u8>,
    prefix: Seq<u8>,
    chunk_size: nat,
    counter: nat,
    data: Seq<u8>,
    j: nat,
)
    requires
        0 < chunk_size,
        chunk_size + 16 < 0x1_0000_0000,
        j * chunk_size <= data.len(),
        all_open(key, prefix, chunk_size, counter, data),
    ensures
        from_chunk(frames(key, prefix, chunk_size, counter, data), j) == frames(
            key,
            prefix,
            chunk_size,
            counter + j,
            data.skip((j * chunk_size) as int),
        ),
        all_open(key, prefix, chunk_size, counter + j, data.skip((j * chunk_size) as int)),
    decreases j,
{
    if j == 0 {
        assert(0 * chunk_size == 0);
        assert(data.skip(0) =~= data);
    } else {
        let i = (j - 1) as nat;
        assert(j * chunk_size == i * chunk_size + chunk_size) by (nonlinear_arith)
            requires
                j == i + 1,
        ;
        assert(data.len() >= chunk_size) by (nonlinear_arith)
            requires
                i * chunk_size + chunk_size <= data.len(),
        ;
        reveal(frames);
        reveal(all_open);
        let block = data.take(chunk_size as int);
        let rest = data.skip(chunk_size as int);
        let tail = frames(key, prefix, chunk_size, counter + 1, rest);
        lemma_frame_parts(key, prefix, counter, false, block, tail);
        lemma_from_chunk(key, prefix, chunk_size, counter + 1, rest, i);
        assert(rest.skip((i * chunk_size) as int) =~= data.skip((j * chunk_size) as int));
    }
}

/// The data from block number `j` on.
pub open spec fn from_block(chunk_size: nat, data: Seq<u8>, j: nat) -> Seq<u8> {
    data.skip((j * chunk_size) as int)
}

/// The container's format. It starts with `DOVE` and a one, and goes on with the nonce
/// prefix and the chunk size. Chunk number `j` is the final one if and only if less than
/// a block of the data is left, and says so in its first byte; it states the length of
/// its ciphertext, which is block number `j` of the data, sealed with the prefix and the
/// number for a nonce, and with the number and the first byte authenticated.
pub proof fn law_container_format(
    key: Seq<u8>,
    prefix: Seq<u8>,
    chunk_size: nat,
    data: Seq<u8>,
    j: nat,
)
    requires
        prefix.len() == 8,
        0 < chunk_size,
        chunk_size + 16 < 0x1_0000_0000,
        j * chunk_size <= data.len(),
        all_open(key, prefix, chunk_size, 0, data),
    ensures
        ({
            let bytes = container(key, prefix, chunk_size, data);
            let chunk = from_chunk(bytes.skip(17), j);
            let left = from_block(chunk_size, data, j);
            let is_last = left.len() < chunk_size;
            let block = if is_last {
                left
            } else {
                left.take(chunk_size as int)
            };
            &&& bytes.take(5) == seq!['D' as u8, 'O' as u8, 'V' as u8, 'E' as u8, 1u8]
            &&& bytes.subrange(5, 13) == prefix
            &&& be32_value(bytes.subrange(13, 17)) == chunk_size
            &&& chunk.len() >= 5 + block.len() + 16
            &&& is_last ==> chunk[0] == 1 && chunk.len() == 5 + block.len() + 16
            &&& !is_last ==> chunk[0] == 0
            &&& be32_value(chunk.subrange(1, 5)) == block.len() + 16
            &&& chunk.subrange(5, 5 + (block.len() + 16) as int) == gcm_sealed(
                key,
                prefix + be32(j),
                be32(j) + seq![chunk[0]],
                block,
            )
        }),
{
    let bytes = container(key, prefix, chunk_size, data);
    let body = frames(key, prefix, chunk_size, 0, data);
    lemma_be32_round_trip(chunk_size);
    assert(bytes.take(5) =~= preamble());
    assert(bytes.subrange(5, 13) =~= prefix);
    assert(bytes.subrange(13, 17) =~= be32(chunk_size));
    assert(bytes.skip(17) =~= body);
    lemma_from_chunk(key, prefix, chunk_size, 0, data, j);
    let left = from_block(chunk_size, data, j);
    reveal(frames);
    reveal(all_open);
    if left.len() < chunk_size {
        lemma_frame_parts(key, prefix, j, true, left, Seq::empty());
        let f = frame(key, prefix, j, true, left);
        assert(f + Seq::<u8>::empty() =~= f);
        assert(be32(j).push(1) =~= be32(j) + seq![1u8]);
    } else {
        let block = left.take(chunk_size as int);
        let rest = left.skip(chunk_size as int);
        let more = frames(key, prefix, chunk_size, j + 1, rest);
        lemma_frame_parts(key, prefix, j, false, block, more);
        assert(be32(j).push(0) =~= be32(j) + seq![0u8]);
    }
}

/// What is encrypted under a key decrypts, under that key, to what it was, as long as the
/// chunk size and the chunks' lengths fit their fields: it is appended whole, and nothing
/// else is.
pub proof fn law_decrypting_undoes_encrypting(
    key: &[u8; 32],
    prefix: &[u8; 8],
    chunk_size: usize,
    plaintext: &[u8],
    sealed: &mut Vec<u8>,
    encrypted: Result<(), CryptoError>,
    bytes: &[u8],
    opened: &mut Vec<u8>,
    decrypted: Result<(), CryptoError>,
)
    requires
        call_ensures(encrypt_with_prefix, (key, prefix, chunk_size, plaintext, sealed), encrypted),
        encrypted is Ok,
        final(sealed)@ == old(sealed)@ + bytes@,
        fits_frames(chunk_size as nat, plaintext@),
        call_ensures(decrypt, (key, bytes, opened), decrypted),
    ensures
        decrypted is Ok,
        final(opened)@ == old(opened)@ + plaintext@,
        bytes@.subrange(5, 13) == prefix@,
        bytes@.len() == container_len(chunk_size as nat, plaintext@.len()),
{
    let made = container(key@, prefix@, chunk_size as nat, plaintext@);
    let n = old(sealed)@.len() as int;
    assert(bytes@ =~= final(sealed)@.skip(n));
    assert(made =~= final(sealed)@.skip(n));
    assert(made.subrange(5, 13) =~= prefix@);
}

/// A key survives the link: the fragment that is made of it reads back as it, and as no
/// other.
pub proof fn law_keys_survive_the_link(
    key: [u8; 32],
    fragment: String,
    text: &str,
    read: Result<[u8; 32], CryptoError>,
)
    requires
        call_ensures(key_to_fragment, (&key,), fragment),
        text@ == fragment@,
        call_ensures(key_from_fragment, (text,), read),
    ensures
        read matches Ok(other) && other@ == key@,
{
}

} // verus!
