//! The value types of the file service and their codecs: an action that is
//! sent as a tag, and a file that is sent field by field.

use vstd::prelude::*;
use vstd::utf8::*;
use bytes::BytesMut;
use crate::wire::{
    buffer_bytes, decode_byte_array, decode_tag, decode_text, deserialize_byte_array,
    deserialize_tag, deserialize_text, encode_byte_array, encode_tag, encode_text, extend,
    lemma_byte_array_decode_exact, lemma_byte_array_round_trip, lemma_tag_decode_exact,
    lemma_tag_round_trip, lemma_text_decode_exact, lemma_text_round_trip, serialize_byte_array,
    serialize_tag, serialize_text, WireError,
};

verus! {

/// What to do with a file once it was served.
#[derive(Clone, Copy, Debug, PartialEq, Eq)]
pub enum Action {
    Delete,
    SecureDelete,
    Encrypt,
}

impl Action {
    /// The value that stands for the variant on the wire.
    pub open spec fn tag_of(self) -> u16 {
        match self {
            Action::Delete => 1,
            Action::SecureDelete => 2,
            Action::Encrypt => 3,
        }
    }

    /// The variant that a tag stands for, if any.
    pub open spec fn of_tag(tag: u16) -> Option<Action> {
        if tag == 1 {
            Some(Action::Delete)
        } else if tag == 2 {
            Some(Action::SecureDelete)
        } else if tag == 3 {
            Some(Action::Encrypt)
        } else {
            None
        }
    }

    /// The bytes of an action: its tag.
    pub open spec fn encode(self) -> Seq<u8> {
        encode_tag(self.tag_of())
    }

    /// Reads an action from the front of `input`: the action or the
    /// failure, and the input that is left. A tag of no variant fails after
    /// the tag was read, and the failure carries the tag.
    pub open spec fn decode(input: Seq<u8>) -> (Result<Action, WireError>, Seq<u8>) {
        match decode_tag(input) {
            (Err(e), rest) => (Err(e), rest),
            (Ok(tag), rest) => match Action::of_tag(tag) {
                Some(action) => (Ok(action), rest),
                None => (Err(WireError::InvalidTag(tag)), rest),
            },
        }
    }

    /// Reads an action from the front of `input`.
    pub fn deserialize(input: &mut BytesMut) -> (action: Result<Action, WireError>)
        ensures
            (action, buffer_bytes(*final(input))) == Action::decode(buffer_bytes(*old(input))),
    {
        match deserialize_tag(input) {
            Err(e) => Err(e),
            Ok(tag) => match tag {
                1 => Ok(Action::Delete),
                2 => Ok(Action::SecureDelete),
                3 => Ok(Action::Encrypt),
                _ => Err(WireError::InvalidTag(tag)),
            },
        }
    }

    /// Writes the action into a fresh buffer.
    pub fn serialize(self) -> (out: BytesMut)
        ensures
            buffer_bytes(out) == self.encode(),
    {
        let tag: u16 = match self {
            Action::Delete => 1,
            Action::SecureDelete => 2,
            Action::Encrypt => 3,
        };
        serialize_tag(tag)
    }
}

/// A file with its path and its bytes.
#[derive(Clone, Debug, PartialEq, Eq)]
pub struct File {
    pub path: String,
    pub content: Vec<u8>,
}

pub ghost struct FileView {
    pub path: Seq<char>,
    pub content: Seq<u8>,
}

impl View for File {
    type V = FileView;

    open spec fn view(&self) -> FileView {
        FileView { path: self.path@, content: self.content@ }
    }
}

impl File {
    /// The bytes of a file: its path as a text, then its content as a byte
    /// array.
    pub open spec fn encode(file: FileView) -> Seq<u8> {
        encode_text(file.path) + encode_byte_array(file.content)
    }

    /// Reads a file from the front of `input`: the file or the first
    /// failure among its fields, and the input that is left.
    pub open spec fn decode(input: Seq<u8>) -> (Result<FileView, WireError>, Seq<u8>) {
        match decode_text(input) {
            (Err(e), rest) => (Err(e), rest),
            (Ok(path), rest) => match decode_byte_array(rest) {
                (Err(e), rest) => (Err(e), rest),
                (Ok(content), rest) => (Ok(FileView { path, content }), rest),
            },
        }
    }

    /// Whether the encoding of the file fits in one buffer.
    pub open spec fn fits(file: FileView) -> bool {
        encode_utf8(file.path).len() + file.content.len() + 16 <= isize::MAX
    }

    /// Reads a file from the front of `input`, its fields in declaration
    /// order; the first field that fails ends the decode.
    pub fn deserialize(input: &mut BytesMut) -> (file: Result<File, WireError>)
        ensures
            buffer_bytes(*final(input)) == File::decode(buffer_bytes(*old(input))).1,
            match File::decode(buffer_bytes(*old(input))).0 {
                Ok(expected) => file is Ok && file->Ok_0@ == expected,
                Err(e) => file is Err && file->Err_0 == e,
            },
    {
        let path = match deserialize_text(input) {
            Ok(path) => path,
            Err(e) => {
                return Err(e);
            },
        };
        let content = match deserialize_byte_array(input) {
            Ok(content) => content,
            Err(e) => {
                return Err(e);
            },
        };
        Ok(File { path, content })
    }

    /// Writes the file into a fresh buffer, its fields in declaration order.
    pub fn serialize(self) -> (out: BytesMut)
        requires
            File::fits(self@),
        ensures
            buffer_bytes(out) == File::encode(self@),
    {
        let mut out = BytesMut::new();
        let path = serialize_text(&self.path);
        proof {
            crate::wire::lemma_be_bytes_len(encode_utf8(self.path@).len(), 8);
            crate::wire::lemma_be_bytes_len(self.content@.len(), 8);
        }
        extend(&mut out, path);
        let content = serialize_byte_array(&self.content);
        extend(&mut out, content);
        assert(buffer_bytes(out) =~= File::encode(self@));
        out
    }
}

/// The parameters of the procedure that deletes a file.
#[derive(Clone, Debug, PartialEq, Eq)]
pub struct DeleteFileParams {
    pub path: String,
}

pub ghost struct DeleteFileParamsView {
    pub path: Seq<char>,
}

impl View for DeleteFileParams {
    type V = DeleteFileParamsView;

    open spec fn view(&self) -> DeleteFileParamsView {
        DeleteFileParamsView { path: self.path@ }
    }
}

impl DeleteFileParams {
    /// The bytes of the record: its path as a text.
    pub open spec fn encode(params: DeleteFileParamsView) -> Seq<u8> {
        encode_text(params.path)
    }

    /// Reads the record from the front of `input`: the record or the
    /// failure of its field, and the input that is left.
    pub open spec fn decode(input: Seq<u8>) -> (Result<DeleteFileParamsView, WireError>, Seq<u8>) {
        match decode_text(input) {
            (Err(e), rest) => (Err(e), rest),
            (Ok(path), rest) => (Ok(DeleteFileParamsView { path }), rest),
        }
    }

    /// Reads the record from the front of `input`.
    pub fn deserialize(input: &mut BytesMut) -> (params: Result<DeleteFileParams, WireError>)
        ensures
            buffer_bytes(*final(input)) == DeleteFileParams::decode(buffer_bytes(*old(input))).1,
            match DeleteFileParams::decode(buffer_bytes(*old(input))).0 {
                Ok(expected) => params is Ok && params->Ok_0@ == expected,
                Err(e) => params is Err && params->Err_0 == e,
            },
    {
        match deserialize_text(input) {
            Ok(path) => Ok(DeleteFileParams { path }),
            Err(e) => Err(e),
        }
    }

    /// Writes the record into a fresh buffer.
    pub fn serialize(self) -> (out: BytesMut)
        requires
            encode_utf8(self.path@).len() + 8 <= isize::MAX,
        ensures
            buffer_bytes(out) == DeleteFileParams::encode(self@),
    {
        let mut out = BytesMut::new();
        let path = serialize_text(&self.path);
        proof {
            crate::wire::lemma_be_bytes_len(encode_utf8(self.path@).len(), 8);
        }
        extend(&mut out, path);
        assert(buffer_bytes(out) =~= DeleteFileParams::encode(self@));
        out
    }
}

/// Decoding the encoding of the record gives the record back and consumes
/// exactly the bytes of the encoding.
pub proof fn lemma_delete_file_params_round_trip(params: DeleteFileParamsView, rest: Seq<u8>)
    requires
        encode_utf8(params.path).len() <= u64::MAX,
    ensures
        DeleteFileParams::decode(DeleteFileParams::encode(params) + rest) == (
            Ok::<DeleteFileParamsView, WireError>(params),
            rest,
        ),
{
    lemma_text_round_trip(params.path, rest);
}

/// Encoding what was decoded as the record gives back exactly the bytes
/// that were consumed.
pub proof fn lemma_delete_file_params_decode_exact(input: Seq<u8>)
    ensures
        DeleteFileParams::decode(input).0 matches Ok(params) ==> DeleteFileParams::encode(params)
            + DeleteFileParams::decode(input).1 == input,
{
    lemma_text_decode_exact(input);
}

/// Decoding the encoding of an action gives the action back and consumes
/// exactly the bytes of the encoding.
pub proof fn lemma_action_round_trip(action: Action, rest: Seq<u8>)
    ensures
        Action::decode(action.encode() + rest) == (Ok::<Action, WireError>(action), rest),
{
    lemma_tag_round_trip(action.tag_of(), rest);
}

/// Encoding what was decoded as an action gives back exactly the bytes that
/// were consumed.
pub proof fn lemma_action_decode_exact(input: Seq<u8>)
    ensures
        Action::decode(input).0 matches Ok(action) ==> action.encode() + Action::decode(input).1
            == input,
{
    lemma_tag_decode_exact(input);
}

/// A tag that is the value of no variant fails to decode, and the failure
/// names the tag.
pub proof fn lemma_unknown_tag_rejected(tag: u16, rest: Seq<u8>)
    requires
        tag != 1 && tag != 2 && tag != 3,
    ensures
        Action::decode(encode_tag(tag) + rest) == (
            Err::<Action, WireError>(WireError::InvalidTag(tag)),
            rest,
        ),
{
    lemma_tag_round_trip(tag, rest);
}

/// Decoding the encoding of a file gives the file back and consumes exactly
/// the bytes of the encoding.
pub proof fn lemma_file_round_trip(file: FileView, rest: Seq<u8>)
    requires
        encode_utf8(file.path).len() <= u64::MAX,
        file.content.len() <= u64::MAX,
    ensures
        File::decode(File::encode(file) + rest) == (Ok::<FileView, WireError>(file), rest),
{
    let tail = encode_byte_array(file.content) + rest;
    assert(File::encode(file) + rest =~= encode_text(file.path) + tail);
    lemma_text_round_trip(file.path, tail);
    lemma_byte_array_round_trip(file.content, rest);
}

/// Encoding what was decoded as a file gives back exactly the bytes that
/// were consumed.
pub proof fn lemma_file_decode_exact(input: Seq<u8>)
    ensures
        File::decode(input).0 matches Ok(file) ==> File::encode(file) + File::decode(input).1
            == input,
{
    lemma_text_decode_exact(input);
    match decode_text(input) {
        (Ok(path), rest) => {
            lemma_byte_array_decode_exact(rest);
            match decode_byte_array(rest) {
                (Ok(content), left) => {
                    assert(encode_text(path) + encode_byte_array(content) + left =~= encode_text(
                        path,
                    ) + (encode_byte_array(content) + left));
                },
                _ => {},
            }
        },
        _ => {},
    }
}

} // verus!
