//! A chat between two peers, line by line.

use crate::p2p::{content, law_text_arrives, P2PError, Receive, P2P};
use crate::text::{is_white_space, law_trimmed, trim, trimmed};
use bytes::Bytes;
use vstd::prelude::*;
use vstd::utf8::{decode_utf8, encode_utf8, valid_utf8};

verus! {

/// How a peer takes part in a chat.
#[derive(Debug)]
pub enum Role {
    /// It creates a connection code.
    Create,
    /// It connects by a connection code.
    Join(String),
}

/// The line that a user entered, without the white space around it.
pub fn read_line(line: &str) -> (r: String)
    ensures
        r@ == trimmed(line@),
{
    trim(line)
}

/// What the first line that a user enters says: an `a` asks for a code, and anything else is one.
pub fn choose_role(line: &str) -> (r: Role)
    ensures
        match r {
            Role::Create => trimmed(line@) == "a"@,
            Role::Join(code) => code@ == trimmed(line@) && code@ != "a"@,
        },
{
    let line = read_line(line);
    if line == "a".to_owned() {
        Role::Create
    } else {
        Role::Join(line)
    }
}

/// The message for a line that a user entered.
pub fn outgoing(line: &str) -> (r: String)
    ensures
        r@ == trimmed(line@).push('\n'),
{
    let mut r = read_line(line);
    r.push('\n');
    r
}

/// What is shown for something from the queue of what was received.
#[derive(Debug)]
pub enum Output {
    /// A text.
    Show(String),
    /// Nothing, for it is not text.
    NotText,
    /// The last text: the chat is over.
    Over(String),
}

/// What is shown for `received`; `None` stands for the end of the queue.
pub fn incoming(received: Option<Receive>) -> (r: Output)
    ensures
        match received {
            Some(Receive::Data(data)) => match r {
                Output::Show(text) => valid_utf8(content(data)) && text@ == "Received: "@
                    + decode_utf8(content(data)),
                Output::NotText => !valid_utf8(content(data)),
                Output::Over(_) => false,
            },
            _ => r matches Output::Over(text) && text@ == "P2P Closed!\n"@,
        },
{
    match P2P::receive_text(received) {
        Ok(message) => {
            let mut text = "Received: ".to_owned();
            text.append(message.as_str());
            Output::Show(text)
        },
        Err(P2PError::NotText(_)) => Output::NotText,
        Err(_) => Output::Over("P2P Closed!\n".to_owned()),
    }
}

/// What a user enters is what the other one is shown: the bytes of the message for a line are
/// text, and that text is the line with a line feed.
pub proof fn law_line_is_shown(line: Seq<char>, data: Bytes)
    requires
        content(data) == encode_utf8(trimmed(line).push('\n')),
    ensures
        valid_utf8(content(data)),
        decode_utf8(content(data)) == trimmed(line).push('\n'),
{
    law_text_arrives(trimmed(line).push('\n'), data);
}

/// What one user enters, without the white space around it and with a line feed, is shown to the
/// other one whole.
pub proof fn law_line_travels(
    line: &str,
    before: Seq<char>,
    words: Seq<char>,
    after: Seq<char>,
    message: String,
    data: Bytes,
    r: Output,
)
    requires
        line@ == before + words + after,
        forall|i: int| 0 <= i < before.len() ==> is_white_space(#[trigger] before[i]),
        forall|i: int| 0 <= i < after.len() ==> is_white_space(#[trigger] after[i]),
        words.len() > 0 ==> !is_white_space(words[0]) && !is_white_space(words.last()),
        call_ensures(outgoing, (line,), message),
        content(data) == encode_utf8(message@),
        call_ensures(incoming, (Some(Receive::Data(data)),), r),
    ensures
        message@ == words.push('\n'),
        r matches Output::Show(text) && text@ == "Received: "@ + words.push('\n'),
{
    law_trimmed(before, words, after);
    law_text_arrives(message@, data);
}

/// The chat is over where the connection was closed or nothing can come any more, and only there.
pub proof fn law_chat_ends(received: Option<Receive>, r: Output)
    requires
        call_ensures(incoming, (received,), r),
    ensures
        r is Over <==> received is None || received == Some(Receive::Close),
        r matches Output::Over(text) ==> text@ == "P2P Closed!\n"@,
{
}

/// An `a`, with any white space around it, asks for a code; any other line is taken as the code
/// itself, without the white space around it.
pub proof fn law_role(
    line: &str,
    before: Seq<char>,
    words: Seq<char>,
    after: Seq<char>,
    r: Role,
)
    requires
        line@ == before + words + after,
        forall|i: int| 0 <= i < before.len() ==> is_white_space(#[trigger] before[i]),
        forall|i: int| 0 <= i < after.len() ==> is_white_space(#[trigger] after[i]),
        words.len() > 0 ==> !is_white_space(words[0]) && !is_white_space(words.last()),
        call_ensures(choose_role, (line,), r),
    ensures
        r is Create <==> words == "a"@,
        r matches Role::Join(code) ==> code@ == words,
{
    law_trimmed(before, words, after);
}

} // verus!
