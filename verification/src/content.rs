//! The reply of the file-content command: for every possible outcome of the
//! read, what the front-end is handed back.
//!
//! The caller performs the blocking read and passes in either the file's
//! bytes or the operating system's error text; the reply is then a pure
//! function of that value, pinned down by `content_outcome`.

use vstd::prelude::*;

verus! {

use vstd::string::StringExecFns;
use vstd::utf8::decode_utf8;
use vstd::utf8::encode_utf8;
use vstd::utf8::valid_utf8;
use crate::utf8::utf8_text;

/// The failure text returned when the file's bytes are not valid UTF-8.
pub open spec fn utf8_error_note() -> Seq<char> {
    "stream did not contain valid UTF-8"@
}

/// The reply owed for a given read of the requested file: the decoded text
/// when the bytes are valid UTF-8, the fixed decoding note when they are not,
/// and the reader's own note when the read itself failed.
pub open spec fn content_outcome(read: Result<Seq<u8>, Seq<char>>) -> Result<Seq<char>, Seq<char>> {
    match read {
        Ok(bytes) => if valid_utf8(bytes) {
            Ok(decode_utf8(bytes))
        } else {
            Err(utf8_error_note())
        },
        Err(note) => Err(note),
    }
}

/// What was read from the file, as a pair of mathematical values.
pub open spec fn read_view(read: Result<Vec<u8>, String>) -> Result<Seq<u8>, Seq<char>> {
    match read {
        Ok(bytes) => Ok(bytes@),
        Err(note) => Err(note@),
    }
}

/// The reply handed to the front-end, as a pair of mathematical values.
pub open spec fn reply_view(reply: Result<String, String>) -> Result<Seq<char>, Seq<char>> {
    match reply {
        Ok(text) => Ok(text@),
        Err(note) => Err(note@),
    }
}

/// Builds the command's reply from what the read of the file returned.
///
/// Success is owed exactly when the read succeeded and its bytes are valid
/// UTF-8; every failure carries a non-empty, human-readable note.
pub fn file_content_result(read: Result<Vec<u8>, String>) -> (reply: Result<String, String>)
    ensures
        reply_view(reply) == content_outcome(read_view(read)),
        reply is Ok <==> (read is Ok && valid_utf8(read->Ok_0@)),
        (read is Ok && reply is Err) ==> reply->Err_0@.len() > 0,
{
    match read {
        Ok(bytes) => match utf8_text(bytes) {
            Some(text) => Ok(text),
            None => {
                proof {
                    reveal_strlit("stream did not contain valid UTF-8");
                }
                Err(String::from_str("stream did not contain valid UTF-8"))
            },
        },
        Err(note) => Err(note),
    }
}

/// A successful reply carries exactly the file's bytes decoded as UTF-8.
pub proof fn lemma_success_is_decoded_bytes(bytes: Seq<u8>)
    requires
        valid_utf8(bytes),
    ensures
        content_outcome(Ok(bytes)) == Ok::<Seq<char>, Seq<char>>(decode_utf8(bytes)),
{
}

/// A read that failed is answered by a failure carrying the reader's note,
/// unchanged; no success is invented for it.
pub proof fn lemma_failed_read_is_reported(note: Seq<char>)
    ensures
        content_outcome(Err(note)) == Err::<Seq<char>, Seq<char>>(note),
{
}

/// Bytes that are not valid UTF-8 are answered by a failure whose text is the
/// fixed decoding note: no partial decoding of the bytes reaches the reply.
pub proof fn lemma_no_partial_content(bytes: Seq<u8>)
    requires
        !valid_utf8(bytes),
    ensures
        content_outcome(Ok(bytes)) == Err::<Seq<char>, Seq<char>>(utf8_error_note()),
{
}

/// The reply is a function of what was read alone: two reads that saw the
/// same value are owed the same reply.
pub proof fn lemma_outcome_repeatable(first: Result<Seq<u8>, Seq<char>>, second: Result<
    Seq<u8>,
    Seq<char>,
>)
    requires
        first == second,
    ensures
        content_outcome(first) == content_outcome(second),
{
}

/// Decoding loses nothing: re-encoding a successful reply gives back the
/// file's bytes exactly.
pub proof fn lemma_reply_faithful(bytes: Seq<u8>)
    requires
        valid_utf8(bytes),
    ensures
        encode_utf8(decode_utf8(bytes)) == bytes,
{
    vstd::utf8::decode_utf8_encode_utf8(bytes);
}

} // verus!
