//! The stored form of rule parameters: MessagePack, written and read by the
//! `rmp_serde` crate. What the encoder writes is spelled out here; of the
//! decoder it is said that it reads that back, and what else it reads has a
//! name. Nothing of this is proved: each item states what the rest of the
//! library takes `rmp_serde` to do.

use vstd::prelude::*;

verus! {

/// The error of bytes that are not the expected MessagePack value.
#[verifier::external_type_specification]
#[verifier::external_body]
pub struct ExDecodeError(rmp_serde::decode::Error);

/// The error of a value that could not be written.
#[verifier::external_type_specification]
#[verifier::external_body]
pub struct ExEncodeError(rmp_serde::encode::Error);

/// The text that `rmp_serde::from_slice::<String>` reads from the bytes, if
/// it reads one.
pub uninterp spec fn decoded_text(bytes: Seq<u8>) -> Option<Seq<char>>;

/// The list of texts that `rmp_serde::from_slice::<Vec<String>>` reads from
/// the bytes, if it reads one.
pub uninterp spec fn decoded_names(bytes: Seq<u8>) -> Option<Seq<Seq<char>>>;

/// The header of a MessagePack string of `len` bytes, for `len` below
/// 2^32: the shortest of the four forms that holds the length, lengths of
/// more than one byte most significant byte first.
pub open spec fn str_header(len: int) -> Seq<u8> {
    if len < 32 {
        seq![(0xa0 + len) as u8]
    } else if len < 0x100 {
        seq![0xd9u8, len as u8]
    } else if len < 0x1_0000 {
        seq![0xdau8, (len / 0x100) as u8, (len % 0x100) as u8]
    } else {
        seq![
            0xdbu8,
            (len / 0x100_0000) as u8,
            (len / 0x1_0000 % 0x100) as u8,
            (len / 0x100 % 0x100) as u8,
            (len % 0x100) as u8,
        ]
    }
}

/// The header of a MessagePack array of `len` elements, for `len` below
/// 2^32.
pub open spec fn array_header(len: int) -> Seq<u8> {
    if len < 16 {
        seq![(0x90 + len) as u8]
    } else if len < 0x1_0000 {
        seq![0xdcu8, (len / 0x100) as u8, (len % 0x100) as u8]
    } else {
        seq![
            0xddu8,
            (len / 0x100_0000) as u8,
            (len / 0x1_0000 % 0x100) as u8,
            (len / 0x100 % 0x100) as u8,
            (len % 0x100) as u8,
        ]
    }
}

/// A text as a MessagePack string: the header for the number of its UTF-8
/// bytes, then those bytes. The encoder keeps only the low 32 bits of the
/// number.
pub open spec fn msgpack_text(text: Seq<char>) -> Seq<u8> {
    let bytes = vstd::utf8::encode_utf8(text);
    str_header((bytes.len() % 0x1_0000_0000) as int) + bytes
}

/// Texts as MessagePack strings, one after the other.
pub open spec fn msgpack_texts(names: Seq<Seq<char>>) -> Seq<u8>
    decreases names.len(),
{
    if names.len() == 0 {
        Seq::empty()
    } else {
        msgpack_texts(names.drop_last()) + msgpack_text(names.last())
    }
}

/// A list of texts as a MessagePack array of strings.
pub open spec fn msgpack_names(names: Seq<Seq<char>>) -> Seq<u8> {
    array_header((names.len() % 0x1_0000_0000) as int) + msgpack_texts(names)
}

/// Whether the length of a text fits the header of a MessagePack string.
pub open spec fn fits_text(text: Seq<char>) -> bool {
    vstd::utf8::encode_utf8(text).len() < 0x1_0000_0000
}

/// Whether a list of texts and each of its texts fit their headers.
pub open spec fn fits_names(names: Seq<Seq<char>>) -> bool {
    &&& names.len() < 0x1_0000_0000
    &&& forall|i: int| 0 <= i < names.len() ==> fits_text(#[trigger] names[i])
}

/// Whether `read` is read back from `bytes` where they are the MessagePack
/// string of a text that fits its header: then that text is what is read.
pub open spec fn reads_text_back(bytes: Seq<u8>, read: Option<Seq<char>>) -> bool {
    forall|text: Seq<char>|
        fits_text(text) && bytes == #[trigger] msgpack_text(text) ==> read == Some(text)
}

/// Whether `read` is read back from `bytes` where they are the MessagePack
/// array of texts that fit their headers: then those texts are what is
/// read.
pub open spec fn reads_names_back(bytes: Seq<u8>, read: Option<Seq<Seq<char>>>) -> bool {
    forall|names: Seq<Seq<char>>|
        fits_names(names) && bytes == #[trigger] msgpack_names(names) ==> read == Some(names)
}

/// `rmp_serde::from_slice` at `String`. What it reads is a function of the
/// bytes; from the MessagePack string of a text whose length fits the
/// header it reads that text.
#[verifier::external_body]
pub(crate) fn decode_text(bytes: &[u8]) -> (r: Result<String, rmp_serde::decode::Error>)
    ensures
        match decoded_text(bytes@) {
            Some(text) => r matches Ok(s) && s@ == text,
            None => r is Err,
        },
        reads_text_back(
            bytes@,
            match r {
                Ok(s) => Some(s@),
                Err(_) => None,
            },
        ),
{
    rmp_serde::from_slice::<String>(bytes)
}

/// `rmp_serde::from_slice` at `Vec<String>`. What it reads is a function
/// of the bytes; from the MessagePack array of texts that fit their headers
/// it reads those texts.
#[verifier::external_body]
pub(crate) fn decode_names(bytes: &[u8]) -> (r: Result<Vec<String>, rmp_serde::decode::Error>)
    ensures
        match decoded_names(bytes@) {
            Some(names) => r matches Ok(v) && v.deep_view() == names,
            None => r is Err,
        },
        reads_names_back(
            bytes@,
            match r {
                Ok(v) => Some(v.deep_view()),
                Err(_) => None,
            },
        ),
{
    rmp_serde::from_slice::<Vec<String>>(bytes)
}

/// `rmp_serde::to_vec_named` at `str`: the text as a MessagePack string.
/// Whether it succeeds is left open: it fails where memory for the bytes
/// cannot be had.
#[verifier::external_body]
pub(crate) fn encode_text(text: &str) -> (r: Result<Vec<u8>, rmp_serde::encode::Error>)
    ensures
        r matches Ok(bytes) ==> bytes@ == msgpack_text(text@),
{
    rmp_serde::to_vec_named(text)
}

/// `rmp_serde::to_vec` at `Vec<String>`: the texts as a MessagePack array
/// of strings. Whether it succeeds is left open: it fails where memory for
/// the bytes cannot be had.
#[verifier::external_body]
pub(crate) fn encode_names(names: &Vec<String>) -> (r: Result<Vec<u8>, rmp_serde::encode::Error>)
    ensures
        r matches Ok(bytes) ==> bytes@ == msgpack_names(names.deep_view()),
{
    rmp_serde::to_vec(names)
}

/// The message of a decoding error, as its `Display` writes it.
#[verifier::external_body]
pub(crate) fn decode_error_text(error: &rmp_serde::decode::Error) -> String {
    error.to_string()
}

/// The message of an encoding error, as its `Display` writes it.
#[verifier::external_body]
pub(crate) fn encode_error_text(error: &rmp_serde::encode::Error) -> String {
    error.to_string()
}

} // verus!
