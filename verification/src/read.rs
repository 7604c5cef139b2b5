//! Fixed-width little-endian readers over a byte stream.
//!
//! Every reader takes the stream and a cursor; a short read leaves the
//! cursor where the stream ended and reports `None`. Strings are
//! NUL-terminated UTF-8; a string that is not valid UTF-8 decodes to a
//! replacement placeholder, never to a failure.

use vstd::prelude::*;
use vstd::utf8::{decode_utf8, encode_utf8, valid_utf8};
use crate::tags::{
    ApicaBuiltinFunctionBytecode, ApicaBytecode, ApicaEntrypointBytecode, ApicaTypeBytecode,
};

verus! {

/// Little-endian value of `n` bytes at `pos`.
pub open spec fn le_val(data: Seq<u8>, pos: int, n: nat) -> nat
    decreases n,
{
    if n == 0 {
        0
    } else {
        data[pos] as nat + 256 * le_val(data, pos + 1, (n - 1) as nat)
    }
}

/// Reading a fixed width succeeds exactly when it fits in the stream.
pub open spec fn can_read(data: Seq<u8>, pos: int, n: nat) -> bool {
    0 <= pos && pos + n <= data.len()
}

/// Index of the first NUL byte at or after `pos`, `-1` if none.
pub open spec fn find_nul(data: Seq<u8>, pos: int) -> int
    decreases data.len() - pos,
{
    if pos < 0 || pos >= data.len() {
        -1
    } else if data[pos] == 0 {
        pos
    } else {
        find_nul(data, pos + 1)
    }
}

/// The first NUL at or after `pos` lies in the stream, after no other NUL.
pub proof fn lemma_find_nul(data: Seq<u8>, pos: int)
    requires
        0 <= pos,
    ensures
        find_nul(data, pos) == -1 || pos <= find_nul(data, pos) < data.len(),
        find_nul(data, pos) >= 0 ==> data[find_nul(data, pos)] == 0,
        find_nul(data, pos) >= 0 ==> forall|j: int|
            pos <= j < find_nul(data, pos) ==> data[j] != 0,
        find_nul(data, pos) == -1 ==> forall|j: int| pos <= j < data.len() ==> data[j] != 0,
    decreases data.len() - pos,
{
    if 0 <= pos < data.len() && data[pos] != 0 {
        lemma_find_nul(data, pos + 1);
    }
}

/// The outside error type of a failed UTF-8 conversion.
#[verifier::external_type_specification]
#[verifier::external_body]
pub struct ExFromUtf8Error(std::string::FromUtf8Error);

/// Relies on `alloc::string::String::from_utf8`: it succeeds exactly on
/// valid UTF-8 input, and the returned string holds exactly the given
/// bytes.
pub assume_specification[ std::string::String::from_utf8 ](v: Vec<u8>) -> (r: Result<
    String,
    std::string::FromUtf8Error,
>)
    ensures
        r is Ok <==> valid_utf8(v@),
        r matches Ok(s) ==> encode_utf8(s@) == v@,
;

/// Characters of a NUL-free byte string: the UTF-8 decoding for valid
/// input, the replacement placeholder otherwise.
pub open spec fn decode_str_bytes(bytes: Seq<u8>) -> Seq<char> {
    if valid_utf8(bytes) {
        decode_utf8(bytes)
    } else {
        "\u{fffd}"@
    }
}

/// Result of reading a NUL-terminated string at `pos`.
pub open spec fn spec_read_string(data: Seq<u8>, pos: int) -> Option<(Seq<char>, int)> {
    let n = find_nul(data, pos);
    if n < 0 {
        None
    } else {
        Some((decode_str_bytes(data.subrange(pos, n)), n + 1))
    }
}

/// Reads one byte.
pub fn read_u8(data: &Vec<u8>, pos: &mut usize) -> (r: Option<u8>)
    ensures
        can_read(data@, *old(pos) as int, 1) ==> r == Some(data@[*old(pos) as int]) && *final(pos)
            == *old(pos) + 1,
        !can_read(data@, *old(pos) as int, 1) ==> r is None && *final(pos) == *old(pos),
        *old(pos) <= *final(pos),
{
    if *pos < data.len() {
        let b = data[*pos];
        *pos = *pos + 1;
        Some(b)
    } else {
        None
    }
}

/// Reads a little-endian `u16`.
pub fn read_u16(data: &Vec<u8>, pos: &mut usize) -> (r: Option<u16>)
    ensures
        can_read(data@, *old(pos) as int, 2) ==> r == Some(
            le_val(data@, *old(pos) as int, 2) as u16,
        ) && *final(pos) == *old(pos) + 2,
        !can_read(data@, *old(pos) as int, 2) ==> r is None && *final(pos) == *old(pos),
        *old(pos) <= *final(pos),
{
    if *pos < data.len() && data.len() - *pos >= 2 {
        proof {
            reveal_with_fuel(le_val, 3);
        }
        let b0 = data[*pos] as u16;
        let b1 = data[*pos + 1] as u16;
        *pos = *pos + 2;
        Some(b0 + 256 * b1)
    } else {
        None
    }
}

/// Reads a little-endian `u32`.
pub fn read_u32(data: &Vec<u8>, pos: &mut usize) -> (r: Option<u32>)
    ensures
        can_read(data@, *old(pos) as int, 4) ==> r == Some(
            le_val(data@, *old(pos) as int, 4) as u32,
        ) && *final(pos) == *old(pos) + 4,
        !can_read(data@, *old(pos) as int, 4) ==> r is None && *final(pos) == *old(pos),
        *old(pos) <= *final(pos),
{
    if *pos < data.len() && data.len() - *pos >= 4 {
        proof {
            reveal_with_fuel(le_val, 5);
        }
        let b0 = data[*pos] as u32;
        let b1 = data[*pos + 1] as u32;
        let b2 = data[*pos + 2] as u32;
        let b3 = data[*pos + 3] as u32;
        *pos = *pos + 4;
        Some(b0 + 256 * (b1 + 256 * (b2 + 256 * b3)))
    } else {
        None
    }
}

/// Reads a little-endian `u64`.
pub fn read_u64(data: &Vec<u8>, pos: &mut usize) -> (r: Option<u64>)
    ensures
        can_read(data@, *old(pos) as int, 8) ==> r == Some(
            le_val(data@, *old(pos) as int, 8) as u64,
        ) && *final(pos) == *old(pos) + 8,
        !can_read(data@, *old(pos) as int, 8) ==> r is None && *final(pos) == *old(pos),
        *old(pos) <= *final(pos),
{
    if *pos < data.len() && data.len() - *pos >= 8 {
        proof {
            reveal_with_fuel(le_val, 9);
        }
        let b0 = data[*pos] as u64;
        let b1 = data[*pos + 1] as u64;
        let b2 = data[*pos + 2] as u64;
        let b3 = data[*pos + 3] as u64;
        let b4 = data[*pos + 4] as u64;
        let b5 = data[*pos + 5] as u64;
        let b6 = data[*pos + 6] as u64;
        let b7 = data[*pos + 7] as u64;
        *pos = *pos + 8;
        Some(
            b0 + 256 * (b1 + 256 * (b2 + 256 * (b3 + 256 * (b4 + 256 * (b5 + 256 * (b6 + 256
                * b7)))))),
        )
    } else {
        None
    }
}

/// Reads a NUL-terminated string.
pub fn read_string(data: &Vec<u8>, pos: &mut usize) -> (r: Option<String>)
    requires
        *old(pos) <= data@.len(),
    ensures
        match r {
            Some(s) => spec_read_string(data@, *old(pos) as int) == Some((s@, *final(pos) as int)),
            None => spec_read_string(data@, *old(pos) as int) is None && *final(pos)
                == data@.len(),
        },
        *old(pos) <= *final(pos),
{
    proof {
        lemma_find_nul(data@, *old(pos) as int);
    }
    let ghost n = find_nul(data@, *old(pos) as int);
    let start = *pos;
    let mut buf: Vec<u8> = Vec::new();
    proof {
        assert(buf@ =~= data@.subrange(start as int, start as int));
    }
    while *pos < data.len() && data[*pos] != 0
        invariant
            start <= *pos <= data@.len(),
            n == find_nul(data@, start as int),
            n == -1 || start <= n < data@.len(),
            n >= 0 ==> data@[n] == 0,
            forall|j: int| start <= j < *pos ==> data@[j] != 0,
            n >= 0 ==> *pos <= n,
            buf@ =~= data@.subrange(start as int, *pos as int),
        decreases data@.len() - *pos,
    {
        let b = data[*pos];
        buf.push(b);
        proof {
            assert(buf@ =~= data@.subrange(start as int, *pos + 1));
        }
        *pos = *pos + 1;
    }
    if *pos >= data.len() {
        proof {
            assert(n == -1);
        }
        return None;
    }
    proof {
        assert(data@[*pos as int] == 0);
        assert(n == *pos);
        assert(buf@ =~= data@.subrange(start as int, n as int));
    }
    *pos = *pos + 1;
    let ghost body = data@.subrange(start as int, n as int);
    match String::from_utf8(buf) {
        Ok(s) => {
            proof {
                vstd::utf8::encode_utf8_decode_utf8(s@);
                assert(decode_str_bytes(body) == s@);
            }
            Some(s)
        },
        Err(_) => {
            let rep = placeholder_string();
            Some(rep)
        },
    }
}

/// The replacement placeholder for a string that is not valid UTF-8.
fn placeholder_string() -> (r: String)
    ensures
        r@ == "\u{fffd}"@,
{
    "\u{fffd}".to_owned()
}

/// Reads a structural or node tag word.
pub fn read_bytecode(data: &Vec<u8>, pos: &mut usize) -> (r: Option<ApicaBytecode>)
    ensures
        can_read(data@, *old(pos) as int, 8) ==> r == ApicaBytecode::spec_from_word(
            le_val(data@, *old(pos) as int, 8) as u64,
        ) && *final(pos) == *old(pos) + 8,
        !can_read(data@, *old(pos) as int, 8) ==> r is None && *final(pos) == *old(pos),
        *old(pos) <= *final(pos),
{
    match read_u64(data, pos) {
        Some(word) => ApicaBytecode::from_word(word),
        None => None,
    }
}

/// Reads a type tag word.
pub fn read_type_bytecode(data: &Vec<u8>, pos: &mut usize) -> (r: Option<ApicaTypeBytecode>)
    ensures
        can_read(data@, *old(pos) as int, 8) ==> r == ApicaTypeBytecode::spec_from_word(
            le_val(data@, *old(pos) as int, 8) as u64,
        ) && *final(pos) == *old(pos) + 8,
        !can_read(data@, *old(pos) as int, 8) ==> r is None && *final(pos) == *old(pos),
        *old(pos) <= *final(pos),
{
    match read_u64(data, pos) {
        Some(word) => ApicaTypeBytecode::from_word(word),
        None => None,
    }
}

/// Reads an entrypoint tag word.
pub fn read_entry_bytecode(data: &Vec<u8>, pos: &mut usize) -> (r: Option<
    ApicaEntrypointBytecode,
>)
    ensures
        can_read(data@, *old(pos) as int, 8) ==> r == ApicaEntrypointBytecode::spec_from_word(
            le_val(data@, *old(pos) as int, 8) as u64,
        ) && *final(pos) == *old(pos) + 8,
        !can_read(data@, *old(pos) as int, 8) ==> r is None && *final(pos) == *old(pos),
        *old(pos) <= *final(pos),
{
    match read_u64(data, pos) {
        Some(word) => ApicaEntrypointBytecode::from_word(word),
        None => None,
    }
}

/// Reads a builtin tag word.
pub fn read_builtin_func_bytecode(data: &Vec<u8>, pos: &mut usize) -> (r: Option<
    ApicaBuiltinFunctionBytecode,
>)
    ensures
        can_read(data@, *old(pos) as int, 8) ==> r
            == ApicaBuiltinFunctionBytecode::spec_from_word(
            le_val(data@, *old(pos) as int, 8) as u64,
        ) && *final(pos) == *old(pos) + 8,
        !can_read(data@, *old(pos) as int, 8) ==> r is None && *final(pos) == *old(pos),
        *old(pos) <= *final(pos),
{
    match read_u64(data, pos) {
        Some(word) => ApicaBuiltinFunctionBytecode::from_word(word),
        None => None,
    }
}

} // verus!
