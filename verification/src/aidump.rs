//! Telling binary files from text files by how they begin.

use vstd::prelude::*;

verus! {

/// How many bytes from the start are looked at for a zero byte.
pub const MAX_SCAN_SIZE: usize = 1024;

/// Whether `bytes` begins with `prefix`.
pub open spec fn begins_with(bytes: Seq<u8>, prefix: Seq<u8>) -> bool {
    bytes.len() >= prefix.len() && bytes.take(prefix.len() as int) == prefix
}

/// Whether the bytes begin with a byte order mark of UTF-8, UTF-16 or
/// UTF-32.
pub open spec fn has_byte_order_mark(bytes: Seq<u8>) -> bool {
    ||| begins_with(bytes, seq![0xEFu8, 0xBBu8, 0xBFu8])
    ||| begins_with(bytes, seq![0x00u8, 0x00u8, 0xFEu8, 0xFFu8])
    ||| begins_with(bytes, seq![0xFFu8, 0xFEu8, 0x00u8, 0x00u8])
    ||| begins_with(bytes, seq![0xFEu8, 0xFFu8])
    ||| begins_with(bytes, seq![0xFFu8, 0xFEu8])
}

/// Whether one of the first `MAX_SCAN_SIZE` bytes is zero.
pub open spec fn has_early_zero(bytes: Seq<u8>) -> bool {
    exists|i: int| 0 <= i < bytes.len() && i < MAX_SCAN_SIZE && #[trigger] bytes[i] == 0
}

/// Whether the bytes begin like a PDF or a PNG file.
pub open spec fn has_magic_number(bytes: Seq<u8>) -> bool {
    ||| begins_with(bytes, seq![0x25u8, 0x50u8, 0x44u8, 0x46u8])
    ||| begins_with(bytes, seq![0x89u8, 0x50u8, 0x4Eu8, 0x47u8])
}

/// Whether content that begins with these bytes is taken for binary:
/// it has no byte order mark, and it has a zero byte early on or begins
/// like a PDF or a PNG file.
pub open spec fn looks_binary(bytes: Seq<u8>) -> bool {
    !has_byte_order_mark(bytes) && (has_early_zero(bytes) || has_magic_number(bytes))
}

/// `content_inspector::inspect`, asked whether it answers `BINARY`. It
/// answers with a text encoding for a buffer that begins with a byte order
/// mark, else `BINARY` for one with a zero byte among its first 1024 bytes
/// or with the first bytes of a PDF or PNG file, else `UTF_8`.
#[verifier::external_body]
fn inspect_is_binary(buffer: &[u8]) -> (binary: bool)
    ensures
        binary == looks_binary(buffer@),
{
    content_inspector::inspect(buffer) == content_inspector::ContentType::BINARY
}

/// Whether a file that begins with `head` is binary. An empty file is not.
pub fn is_binary(head: &[u8]) -> (binary: bool)
    ensures
        binary == (head@.len() > 0 && looks_binary(head@)),
{
    if head.len() == 0 {
        return false;
    }
    inspect_is_binary(head)
}

} // verus!
