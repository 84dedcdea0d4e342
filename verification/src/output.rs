use std::string::FromUtf8Error;
use vstd::prelude::*;
use vstd::string::StringExecFns;
use vstd::utf8::{decode_utf8, valid_utf8};

verus! {

/// `std::string::FromUtf8Error`, the error of `String::from_utf8`. Nothing
/// is said of what it holds.
#[verifier::external_type_specification]
#[verifier::external_body]
pub struct ExFromUtf8Error(FromUtf8Error);

/// `String::from_utf8` turns bytes into text. It succeeds exactly on bytes
/// that are valid UTF-8, and the text is then what the bytes encode.
pub assume_specification[ String::from_utf8 ](vec: Vec<u8>) -> (r: Result<String, FromUtf8Error>)
    ensures
        r is Ok <==> valid_utf8(vec@),
        r matches Ok(s) ==> s@ == decode_utf8(vec@),
;

/// The bytes that a terminal gave back are not text.
#[derive(Debug, Clone, Copy, PartialEq, Eq)]
pub struct DecodeError;

/// What one terminal gave back for one command line.
#[derive(Debug)]
pub struct Output {
    /// The name of the terminal.
    pub terminal_name: String,
    /// What the last stage wrote, or the message of the stage that did not
    /// start.
    pub output: Vec<u8>,
    /// The command line, written out.
    pub command: String,
    /// Whether a stage did not start.
    pub is_error: bool,
}

/// What a result is to the contracts: its fields as text and bytes.
pub ghost struct OutputView {
    pub terminal_name: Seq<char>,
    pub output: Seq<u8>,
    pub command: Seq<char>,
    pub is_error: bool,
}

impl View for Output {
    type V = OutputView;

    open spec fn view(&self) -> OutputView {
        OutputView {
            terminal_name: self.terminal_name@,
            output: self.output@,
            command: self.command@,
            is_error: self.is_error,
        }
    }
}

/// The block of text that reports one result: the name of the terminal in
/// square brackets, a prompt, the command line, and from the next line on
/// what the terminal gave back.
pub open spec fn report_of(terminal_name: Seq<char>, command: Seq<char>, text: Seq<char>) -> Seq<
    char,
> {
    seq!['['] + terminal_name + seq![']', '>', ' '] + command + seq!['\n'] + text
}

/// A copy of the bytes.
pub fn copy_bytes(bytes: &Vec<u8>) -> (r: Vec<u8>)
    ensures
        r@ == bytes@,
{
    let mut r: Vec<u8> = Vec::new();
    let mut i: usize = 0;
    while i < bytes.len()
        invariant
            i <= bytes.len(),
            r@ == bytes@.take(i as int),
        decreases bytes.len() - i,
    {
        r.push(bytes[i]);
        proof {
            assert(bytes@.take(i + 1) =~= bytes@.take(i as int).push(bytes@[i as int]));
        }
        i = i + 1;
    }
    proof {
        assert(bytes@.take(i as int) =~= bytes@);
    }
    r
}

impl Output {
    /// The block of text that reports the result. Bytes that are not valid
    /// UTF-8 cannot be shown and make an error.
    pub fn render(&self) -> (r: Result<String, DecodeError>)
        ensures
            r is Ok <==> valid_utf8(self.output@),
            r matches Ok(text) ==> text@ == report_of(
                self.terminal_name@,
                self.command@,
                decode_utf8(self.output@),
            ),
    {
        match String::from_utf8(copy_bytes(&self.output)) {
            Ok(payload) => {
                proof {
                    reveal_strlit("[");
                    reveal_strlit("]> ");
                    reveal_strlit("\n");
                    assert("["@ =~= seq!['[']);
                    assert("]> "@ =~= seq![']', '>', ' ']);
                    assert("\n"@ =~= seq!['\n']);
                }
                let mut text = "[".to_owned();
                text.append(self.terminal_name.as_str());
                text.append("]> ");
                text.append(self.command.as_str());
                text.append("\n");
                text.append(payload.as_str());
                Ok(text)
            },
            Err(_) => Err(DecodeError),
        }
    }
}

} // verus!
