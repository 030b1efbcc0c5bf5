//! The layout of a sealed message. Its first bytes tell the recipient how to
//! open it:
//!
//! ```text
//! salt (16) | record size (4, big-endian) | key length (1) | sender key (65) | records
//! ```

use vstd::prelude::*;

verus! {

pub const SALT_LEN: usize = 16;

/// Bytes of an uncompressed P-256 point.
pub const PUBLIC_KEY_LEN: usize = 65;

/// First byte of an uncompressed point.
pub const UNCOMPRESSED_POINT: u8 = 4;

/// Bytes before the first record: salt, record size, key length and key.
pub const HEADER_LEN: usize = 86;

/// Bytes of the authentication tag that closes a record.
pub const TAG_LEN: usize = 16;

/// The least record size: one delimiter, one byte beside it, and the tag.
pub const MIN_RECORD_SIZE: u32 = 18;

/// The number that four bytes spell, most significant byte first.
pub open spec fn be_u32(b0: u8, b1: u8, b2: u8, b3: u8) -> int {
    b0 * 0x100_0000 + b1 * 0x1_0000 + b2 * 0x100 + b3
}

pub open spec fn frame_salt(bytes: Seq<u8>) -> Seq<u8> {
    bytes.subrange(0, 16)
}

pub open spec fn frame_record_size(bytes: Seq<u8>) -> int {
    be_u32(bytes[16], bytes[17], bytes[18], bytes[19])
}

pub open spec fn frame_key_id(bytes: Seq<u8>) -> Seq<u8> {
    bytes.subrange(21, 86)
}

/// What follows the header.
pub open spec fn frame_records(bytes: Seq<u8>) -> Seq<u8> {
    bytes.subrange(HEADER_LEN as int, bytes.len() as int)
}

/// Whether `bytes` are laid out as a sealed push message: a full header that
/// names a record size and an uncompressed sender key, and after it one
/// record, which holds more than its tag and is no longer than the record
/// size.
pub open spec fn is_frame(bytes: Seq<u8>) -> bool {
    &&& bytes.len() > HEADER_LEN + TAG_LEN
    &&& frame_record_size(bytes) >= MIN_RECORD_SIZE
    &&& bytes[20] == PUBLIC_KEY_LEN
    &&& bytes[21] == UNCOMPRESSED_POINT
    &&& frame_records(bytes).len() <= frame_record_size(bytes)
}

/// A sealed message: the bytes that go to the push service as the body of
/// the request. Every value of this type is laid out as `is_frame` says.
pub struct EncryptedMessage {
    ciphertext: Vec<u8>,
}

impl View for EncryptedMessage {
    type V = Seq<u8>;

    closed spec fn view(&self) -> Seq<u8> {
        self.ciphertext@
    }
}

fn read_be_u32(bytes: &Vec<u8>, at: usize) -> (value: u32)
    requires
        at + 4 <= bytes.len(),
    ensures
        value == be_u32(bytes[at as int], bytes[at + 1], bytes[at + 2], bytes[at + 3]),
{
    let b0: u32 = bytes[at] as u32;
    let b1: u32 = bytes[at + 1] as u32;
    let b2: u32 = bytes[at + 2] as u32;
    let b3: u32 = bytes[at + 3] as u32;
    b0 * 0x100_0000 + b1 * 0x1_0000 + b2 * 0x100 + b3
}

fn copy_range(bytes: &Vec<u8>, from: usize, to: usize) -> (part: Vec<u8>)
    requires
        from <= to <= bytes.len(),
    ensures
        part@ == bytes@.subrange(from as int, to as int),
{
    let mut part: Vec<u8> = Vec::new();
    let mut i: usize = from;
    while i < to
        invariant
            from <= i <= to <= bytes.len(),
            part@ == bytes@.subrange(from as int, i as int),
        decreases to - i,
    {
        part.push(bytes[i]);
        i += 1;
    }
    part
}

/// Whether `bytes` are laid out as a sealed push message.
pub fn check_frame(bytes: &Vec<u8>) -> (ok: bool)
    ensures
        ok == is_frame(bytes@),
{
    if bytes.len() <= HEADER_LEN + TAG_LEN {
        return false;
    }
    let record_size = read_be_u32(bytes, SALT_LEN);
    record_size >= MIN_RECORD_SIZE && bytes[20] == 65 && bytes[21] == UNCOMPRESSED_POINT
        && bytes.len() - HEADER_LEN <= record_size as usize
}

impl EncryptedMessage {
    #[verifier::type_invariant]
    spec fn well_framed(&self) -> bool {
        is_frame(self.ciphertext@)
    }

    /// Takes `bytes` as a sealed message, if they are laid out as one.
    pub fn from_bytes(bytes: Vec<u8>) -> (message: Option<EncryptedMessage>)
        ensures
            message is Some <==> is_frame(bytes@),
            message matches Some(m) ==> m@ == bytes@,
    {
        if check_frame(&bytes) {
            Some(EncryptedMessage { ciphertext: bytes })
        } else {
            None
        }
    }

    /// The bytes of the message.
    pub fn ciphertext(&self) -> (bytes: &Vec<u8>)
        ensures
            bytes@ == self@,
            is_frame(self@),
    {
        proof {
            use_type_invariant(self);
        }
        &self.ciphertext
    }

    pub fn into_bytes(self) -> (bytes: Vec<u8>)
        ensures
            bytes@ == self@,
            is_frame(self@),
    {
        proof {
            use_type_invariant(&self);
        }
        self.ciphertext
    }

    pub fn len(&self) -> (n: usize)
        ensures
            n == self@.len(),
            n > HEADER_LEN + TAG_LEN,
    {
        proof {
            use_type_invariant(self);
        }
        self.ciphertext.len()
    }

    /// The salt the keys of this message were derived with.
    pub fn salt(&self) -> (salt: Vec<u8>)
        ensures
            salt@ == frame_salt(self@),
            salt.len() == SALT_LEN,
    {
        proof {
            use_type_invariant(self);
        }
        copy_range(&self.ciphertext, 0, SALT_LEN)
    }

    /// The size of the records the message is cut into.
    pub fn record_size(&self) -> (size: u32)
        ensures
            size == frame_record_size(self@),
            size >= MIN_RECORD_SIZE,
    {
        proof {
            use_type_invariant(self);
        }
        read_be_u32(&self.ciphertext, SALT_LEN)
    }

    /// The sender's public key, drawn for this message alone.
    pub fn key_id(&self) -> (key: Vec<u8>)
        ensures
            key@ == frame_key_id(self@),
            key.len() == PUBLIC_KEY_LEN,
            key[0] == UNCOMPRESSED_POINT,
    {
        proof {
            use_type_invariant(self);
        }
        copy_range(&self.ciphertext, 21, HEADER_LEN)
    }
}

} // verus!
