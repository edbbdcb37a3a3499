//! Signaling messages and their JSON text form.
use vstd::prelude::*;

verus! {

/// One signaling message; the `type` field of its JSON form names the variant.
#[derive(Debug)]
pub enum SignalingMessage {
    Offer { passphrase_length: u8, sdp: String },
    Passphrase { passphrase: String },
    Answer { sdp: String },
    IceCandidate { candidate: Option<String> },
    ConnectionRequest { passphrase: String },
}

/// A lowercase hexadecimal digit.
pub open spec fn hex_digit(n: nat) -> char {
    seq!['0', '1', '2', '3', '4', '5', '6', '7', '8', '9', 'a', 'b', 'c', 'd', 'e', 'f'][n as int]
}

/// How one character stands inside a JSON string: a quote, a backslash and
/// the control characters are escaped, everything else stands as it is.
pub open spec fn escape_char(c: char) -> Seq<char> {
    if c == '"' {
        seq!['\\', '"']
    } else if c == '\\' {
        seq!['\\', '\\']
    } else if c == '\u{8}' {
        seq!['\\', 'b']
    } else if c == '\t' {
        seq!['\\', 't']
    } else if c == '\n' {
        seq!['\\', 'n']
    } else if c == '\u{c}' {
        seq!['\\', 'f']
    } else if c == '\r' {
        seq!['\\', 'r']
    } else if (c as u32) < 0x20 {
        seq!['\\', 'u', '0', '0', hex_digit((c as u32 / 16) as nat), hex_digit((c as u32 % 16) as nat)]
    } else {
        seq![c]
    }
}

/// The JSON string literal for `s`: its characters escaped, between quotes.
pub open spec fn json_string(s: Seq<char>) -> Seq<char> {
    seq!['"'] + s.map_values(|c: char| escape_char(c)).flatten() + seq!['"']
}

/// Relies on `serde_json::to_string` applied to a `&str`: the text between
/// quotes, each character escaped by serde_json's table (a quote, a backslash
/// and the characters below U+0020). Serialising into memory does not fail.
#[verifier::external_body]
fn quote(s: &str) -> (r: String)
    ensures
        r@ == json_string(s@),
{
    match serde_json::to_string(s) {
        Ok(t) => t,
        Err(_) => String::new(),
    }
}

/// The character of a decimal digit.
pub open spec fn digit_char(d: nat) -> char {
    if d == 0 {
        '0'
    } else if d == 1 {
        '1'
    } else if d == 2 {
        '2'
    } else if d == 3 {
        '3'
    } else if d == 4 {
        '4'
    } else if d == 5 {
        '5'
    } else if d == 6 {
        '6'
    } else if d == 7 {
        '7'
    } else if d == 8 {
        '8'
    } else {
        '9'
    }
}

/// `n` written in decimal, without leading zeros.
pub open spec fn decimal(n: nat) -> Seq<char>
    decreases n,
{
    if n < 10 {
        seq![digit_char(n)]
    } else {
        decimal(n / 10) + seq![digit_char(n % 10)]
    }
}

/// The JSON text of a message, fields in declaration order.
pub open spec fn wire(m: &SignalingMessage) -> Seq<char> {
    match m {
        SignalingMessage::Offer { passphrase_length, sdp } => "{\"type\":\"offer\",\"passphraseLength\":"@
            + decimal(*passphrase_length as nat) + ",\"sdp\":"@ + json_string(sdp@) + "}"@,
        SignalingMessage::Passphrase { passphrase } => "{\"type\":\"passphrase\",\"passphrase\":"@
            + json_string(passphrase@) + "}"@,
        SignalingMessage::Answer { sdp } => "{\"type\":\"answer\",\"sdp\":"@ + json_string(sdp@)
            + "}"@,
        SignalingMessage::IceCandidate { candidate } => match candidate {
            Some(c) => "{\"type\":\"ice-candidate\",\"candidate\":"@ + json_string(c@) + "}"@,
            None => "{\"type\":\"ice-candidate\",\"candidate\":null}"@,
        },
        SignalingMessage::ConnectionRequest { passphrase } =>
            "{\"type\":\"connection-request\",\"passphrase\":"@ + json_string(passphrase@) + "}"@,
    }
}

/// Appends the digit `d` to `out`.
fn push_digit(out: &mut String, d: u8)
    requires
        d < 10,
    ensures
        final(out)@ == old(out)@ + seq![digit_char(d as nat)],
{
    let s: &str = if d == 0 {
        "0"
    } else if d == 1 {
        "1"
    } else if d == 2 {
        "2"
    } else if d == 3 {
        "3"
    } else if d == 4 {
        "4"
    } else if d == 5 {
        "5"
    } else if d == 6 {
        "6"
    } else if d == 7 {
        "7"
    } else if d == 8 {
        "8"
    } else {
        "9"
    };
    proof {
        reveal_strlit("0");
        reveal_strlit("1");
        reveal_strlit("2");
        reveal_strlit("3");
        reveal_strlit("4");
        reveal_strlit("5");
        reveal_strlit("6");
        reveal_strlit("7");
        reveal_strlit("8");
        reveal_strlit("9");
        assert(s@ =~= seq![digit_char(d as nat)]);
    }
    out.append(s);
}

/// Appends `n` in decimal to `out`.
fn push_decimal(out: &mut String, n: u8)
    ensures
        final(out)@ == old(out)@ + decimal(n as nat),
{
    if n >= 100 {
        push_digit(out, n / 100);
    }
    if n >= 10 {
        push_digit(out, (n / 10) % 10);
    }
    push_digit(out, n % 10);
    proof {
        let x = n as nat;
        if x >= 10 {
            assert(decimal(x) == decimal(x / 10) + seq![digit_char(x % 10)]);
            if x >= 100 {
                assert(decimal(x / 10) == decimal(x / 100) + seq![digit_char((x / 10) % 10)]);
                assert(decimal(x / 100) == seq![digit_char(x / 100)]);
            } else {
                assert(decimal(x / 10) == seq![digit_char(x / 10)]);
            }
        }
    }
}

impl SignalingMessage {
    /// The JSON text of this message.
    pub fn encode(&self) -> (r: String)
        ensures
            r@ == wire(self),
    {
        match self {
            SignalingMessage::Offer { passphrase_length, sdp } => {
                let mut out = String::from_str("{\"type\":\"offer\",\"passphraseLength\":");
                push_decimal(&mut out, *passphrase_length);
                out.append(",\"sdp\":");
                out.append(quote(sdp.as_str()).as_str());
                out.append("}");
                out
            },
            SignalingMessage::Passphrase { passphrase } => {
                let mut out = String::from_str("{\"type\":\"passphrase\",\"passphrase\":");
                out.append(quote(passphrase.as_str()).as_str());
                out.append("}");
                out
            },
            SignalingMessage::Answer { sdp } => {
                let mut out = String::from_str("{\"type\":\"answer\",\"sdp\":");
                out.append(quote(sdp.as_str()).as_str());
                out.append("}");
                out
            },
            SignalingMessage::IceCandidate { candidate } => match candidate {
                Some(c) => {
                    let mut out = String::from_str("{\"type\":\"ice-candidate\",\"candidate\":");
                    out.append(quote(c.as_str()).as_str());
                    out.append("}");
                    out
                },
                None => String::from_str("{\"type\":\"ice-candidate\",\"candidate\":null}"),
            },
            SignalingMessage::ConnectionRequest { passphrase } => {
                let mut out = String::from_str("{\"type\":\"connection-request\",\"passphrase\":");
                out.append(quote(passphrase.as_str()).as_str());
                out.append("}");
                out
            },
        }
    }
}

} // verus!
