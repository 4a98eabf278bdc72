//! Messages of three kinds, and the line that answers each.

use crate::decimal::signed_decimal;
use vstd::prelude::*;
use vstd::string::*;

verus! {

/// A message: a text, a number or a truth value.
pub enum MessageType {
    Text(String),
    Number(i32),
    Boolean(bool),
}

/// How a truth value is written.
pub open spec fn bool_text(b: bool) -> Seq<char> {
    if b {
        "true"@
    } else {
        "false"@
    }
}

/// The line that answers a message: what kind it is, and then its content, a
/// text as it stands, a number in decimal and a truth value as `true` or
/// `false`.
pub open spec fn message_line(msg: MessageType) -> Seq<char> {
    match msg {
        MessageType::Text(text) => "Received text: "@ + text@,
        MessageType::Number(num) => "Received number: "@ + signed_decimal(num as int),
        MessageType::Boolean(b) => "Received boolean: "@ + bool_text(b),
    }
}

/// Takes a message and gives the line that answers it.
pub fn process_message(msg: MessageType) -> (line: String)
    ensures
        line@ == message_line(msg),
{
    match msg {
        MessageType::Text(text) => {
            let mut line = "Received text: ".to_owned();
            line.append(text.as_str());
            line
        },
        MessageType::Number(num) => {
            let mut line = "Received number: ".to_owned();
            crate::decimal::append_signed_decimal(&mut line, num);
            line
        },
        MessageType::Boolean(b) => {
            let mut line = "Received boolean: ".to_owned();
            line.append(if b { "true" } else { "false" });
            line
        },
    }
}

} // verus!
