use vstd::prelude::*;
use vstd::string::StrSliceExecFns;
use vstd::string::StringExecFns;
use vstd::utf8::decode_utf8;
use vstd::utf8::decode_utf8_encode_utf8;
use vstd::utf8::is_ascii_chars;
use vstd::utf8::is_ascii_chars_encode_utf8;
use vstd::utf8::valid_utf8;

use crate::text::line_count;
use crate::text::lines_and_words;
use crate::text::word_count;

verus! {

/// What counting one input gave: four counts, or an error message.
///
/// An input that failed carries a non-empty `error_msg` and zero counts; one that
/// was counted carries an empty `error_msg`.
#[derive(Debug, PartialEq, Eq, Clone)]
pub struct FileInfo {
    pub filename: String,
    pub error_msg: String,
    pub num_lines: usize,
    pub num_words: usize,
    pub num_bytes: usize,
    pub num_chars: usize,
}

/// Message of an input whose bytes are not UTF-8 text.
pub open spec fn invalid_text_msg() -> Seq<char> {
    "stream did not contain valid UTF-8"@
}

impl FileInfo {
    /// The input failed and holds an error message instead of counts.
    pub open spec fn is_failed(&self) -> bool {
        self.error_msg@.len() > 0
    }

    pub open spec fn wf(&self) -> bool {
        self.is_failed() ==> (self.num_lines == 0 && self.num_words == 0 && self.num_bytes == 0
            && self.num_chars == 0)
    }

    /// Records an input that could not be read: the message is `"<name>: <detail>"`.
    pub fn failed(filename: String, detail: &str) -> (r: FileInfo)
        ensures
            r.filename == filename,
            r.error_msg@ == filename@ + ": "@ + detail@,
            r.is_failed(),
            r.wf(),
            r.num_lines == 0 && r.num_words == 0 && r.num_bytes == 0 && r.num_chars == 0,
    {
        proof {
            reveal_strlit(": ");
        }
        let mut msg = filename.clone();
        msg.append(": ");
        msg.append(detail);
        FileInfo {
            filename,
            error_msg: msg,
            num_lines: 0,
            num_words: 0,
            num_bytes: 0,
            num_chars: 0,
        }
    }

    /// Tells whether this input failed.
    pub fn has_error(&self) -> (r: bool)
        ensures
            r == self.is_failed(),
    {
        !self.error_msg.as_str().is_empty()
    }
}

/// Relies on `std::str::from_utf8`: it succeeds exactly on valid UTF-8, and the
/// text it returns is what those bytes decode to.
#[verifier::external_body]
fn utf8_text(b: &[u8]) -> (r: Option<&str>)
    ensures
        r is Some <==> valid_utf8(b@),
        r matches Some(s) ==> s@ == decode_utf8(b@),
{
    std::str::from_utf8(b).ok()
}

/// Counts the lines, words, bytes and characters of one input's whole content.
///
/// Fails exactly when the bytes are not UTF-8 text.
pub fn count(filename: String, content: &[u8]) -> (r: Result<FileInfo, String>)
    ensures
        match r {
            Ok(info) => {
                &&& valid_utf8(content@)
                &&& info.filename == filename
                &&& info.error_msg@.len() == 0
                &&& info.num_bytes == content@.len()
                &&& info.num_chars == decode_utf8(content@).len()
                &&& info.num_lines == line_count(decode_utf8(content@))
                &&& info.num_words == word_count(decode_utf8(content@))
            },
            Err(e) => !valid_utf8(content@) && e@ == invalid_text_msg(),
        },
{
    match utf8_text(content) {
        None => {
            proof {
                reveal_strlit("stream did not contain valid UTF-8");
            }
            Err(String::from_str("stream did not contain valid UTF-8"))
        },
        Some(text) => {
            let num_chars = text.unicode_len();
            let (num_lines, num_words) = lines_and_words(text);
            Ok(
                FileInfo {
                    filename,
                    error_msg: String::new(),
                    num_lines,
                    num_words,
                    num_bytes: content.len(),
                    num_chars,
                },
            )
        },
    }
}

/// Content whose characters are all ASCII has as many bytes as characters.
pub proof fn lemma_ascii_bytes_eq_chars(content: Seq<u8>)
    requires
        valid_utf8(content),
        is_ascii_chars(decode_utf8(content)),
    ensures
        content.len() == decode_utf8(content).len(),
{
    decode_utf8_encode_utf8(content);
    is_ascii_chars_encode_utf8(decode_utf8(content));
}

} // verus!
