//! What can go wrong between a drained batch and its acknowledgement, and
//! how a failure reads as text.
use vstd::prelude::*;
use vstd::string::StringExecFns;

verus! {

/// `quick_protobuf::Error`: what a writer of the wire format fails with,
/// handed on without a look inside.
#[verifier::external_type_specification]
#[verifier::external_body]
pub struct ExProtobufError(quick_protobuf::Error);

/// `snap::Error`: what the compressor fails with, handed on without a look
/// inside.
#[verifier::external_type_specification]
#[verifier::external_body]
pub struct ExSnappyError(snap::Error);

/// A failed attempt to send a batch.
#[derive(Debug)]
pub enum ScrapeError {
    /// The batch could not be written in the wire format. The writer of
    /// this library appends to a vector and never fails, so no send of a
    /// `LokiScrapeProcess` ends in this; a process of one's own may.
    SerializeError(quick_protobuf::Error),
    /// The encoded batch could not be compressed.
    CompressError(snap::Error),
    /// The store answered with a status that reports an error.
    Status { status: u16, body: String },
    /// No answer came from the store: the transport failed.
    Transport { status_text: String, status: u16, body: String },
}

/// The decimal digit of a number below ten.
pub open spec fn digit(value: nat) -> char {
    if value == 0 {
        '0'
    } else if value == 1 {
        '1'
    } else if value == 2 {
        '2'
    } else if value == 3 {
        '3'
    } else if value == 4 {
        '4'
    } else if value == 5 {
        '5'
    } else if value == 6 {
        '6'
    } else if value == 7 {
        '7'
    } else if value == 8 {
        '8'
    } else {
        '9'
    }
}

/// A number in decimal digits, without leading zeros.
pub open spec fn decimal(value: nat) -> Seq<char>
    decreases value,
{
    if value < 10 {
        seq![digit(value)]
    } else {
        decimal(value / 10).push(digit(value % 10))
    }
}

/// The text of a refused push.
pub open spec fn status_message(status: u16, body: Seq<char>) -> Seq<char> {
    "Send request error with status: "@ + decimal(status as nat) + ", and result: '"@ + body
        + "'"@
}

/// The text of a push that the transport could not carry out.
pub open spec fn transport_message(status_text: Seq<char>, status: u16, body: Seq<char>) -> Seq<
    char,
> {
    "Send request error with status: '"@ + status_text + "'("@ + decimal(status as nat) + "), '"@
        + body + "'"@
}

/// The text of a batch that could not be written, given the text of what
/// went wrong.
pub open spec fn serialize_message(cause: Seq<char>) -> Seq<char> {
    "Serialization error as '"@ + cause + "'"@
}

/// The `Debug` text of the outside error, as `format` writes it. Nothing
/// is known of it.
#[verifier::external_body]
fn debug_text(cause: &quick_protobuf::Error) -> String {
    format!("{:?}", cause)
}

/// The digit of a number below ten, as a string.
fn digit_str(value: u16) -> (text: &'static str)
    requires
        value < 10,
    ensures
        text@ == seq![digit(value as nat)],
{
    proof {
        reveal_strlit("0");
        reveal_strlit("1");
        reveal_strlit("2");
        reveal_strlit("3");
        reveal_strlit("4");
        reveal_strlit("5");
        reveal_strlit("6");
        reveal_strlit("7");
        reveal_strlit("8");
        reveal_strlit("9");
    }
    let text = if value == 0 {
        "0"
    } else if value == 1 {
        "1"
    } else if value == 2 {
        "2"
    } else if value == 3 {
        "3"
    } else if value == 4 {
        "4"
    } else if value == 5 {
        "5"
    } else if value == 6 {
        "6"
    } else if value == 7 {
        "7"
    } else if value == 8 {
        "8"
    } else {
        "9"
    };
    proof {
        assert(text@ =~= seq![digit(value as nat)]);
    }
    text
}

/// Appends `value` in decimal digits to `text`.
pub fn push_decimal(text: &mut String, value: u16)
    ensures
        final(text)@ == old(text)@ + decimal(value as nat),
    decreases value,
{
    if value >= 10 {
        push_decimal(text, value / 10);
    }
    text.append(digit_str(value % 10));
    proof {
        assert(text@ =~= old(text)@ + decimal(value as nat));
    }
}

impl ScrapeError {
    /// The failure as a line of text.
    pub fn message(&self) -> (text: String)
        ensures
            *self matches ScrapeError::Status { status, body } ==> text@ == status_message(
                status,
                body@,
            ),
            *self matches ScrapeError::Transport { status_text, status, body } ==> text@
                == transport_message(status_text@, status, body@),
            self is CompressError ==> text@ == "Snappy compress error"@,
            self is SerializeError ==> exists|cause: Seq<char>| text@ == serialize_message(cause),
    {
        let mut text = String::new();
        match self {
            ScrapeError::SerializeError(cause) => {
                let cause_text = debug_text(cause);
                text.append("Serialization error as '");
                text.append(cause_text.as_str());
                text.append("'");
                proof {
                    assert(text@ =~= serialize_message(cause_text@));
                }
            },
            ScrapeError::CompressError(_) => {
                text.append("Snappy compress error");
                proof {
                    assert(text@ =~= "Snappy compress error"@);
                }
            },
            ScrapeError::Status { status, body } => {
                text.append("Send request error with status: ");
                push_decimal(&mut text, *status);
                text.append(", and result: '");
                text.append(body.as_str());
                text.append("'");
                proof {
                    assert(text@ =~= status_message(*status, body@));
                }
            },
            ScrapeError::Transport { status_text, status, body } => {
                text.append("Send request error with status: '");
                text.append(status_text.as_str());
                text.append("'(");
                push_decimal(&mut text, *status);
                text.append("), '");
                text.append(body.as_str());
                text.append("'");
                proof {
                    assert(text@ =~= transport_message(status_text@, *status, body@));
                }
            },
        }
        text
    }
}

} // verus!
