//! Events that the companion's connection task reports to the Android app,
//! and their JSON form as the app polls them.

use vstd::prelude::*;
use vstd::string::StrSliceExecFns;

verus! {

/// Events emitted by the companion's QUIC client to the Android app.
#[derive(Debug, Clone)]
pub enum ClientEvent {
    /// A pairing PIN was generated.
    PairingPinGenerated(u32),
    /// Connection established.
    Connected,
    /// Connection closed or failed, with the reason.
    Disconnected(String),
    /// A message arrived on a stream: stream type byte and payload.
    MessageReceived(u8, Vec<u8>),
}

/// The value of a `ClientEvent`.
pub enum ClientEventView {
    PairingPinGenerated(u32),
    Connected,
    Disconnected(Seq<char>),
    MessageReceived(u8, Seq<u8>),
}

impl View for ClientEvent {
    type V = ClientEventView;

    open spec fn view(&self) -> ClientEventView {
        match self {
            ClientEvent::PairingPinGenerated(p) => ClientEventView::PairingPinGenerated(*p),
            ClientEvent::Connected => ClientEventView::Connected,
            ClientEvent::Disconnected(r) => ClientEventView::Disconnected(r@),
            ClientEvent::MessageReceived(t, d) => ClientEventView::MessageReceived(*t, d@),
        }
    }
}

/// The character of a decimal or hexadecimal digit (lower case).
pub open spec fn digit_char(n: nat) -> char {
    if n < 10 {
        (0x30 + n) as char
    } else {
        (0x61 + n - 10) as char
    }
}

/// Decimal notation of a number, without leading zeros.
pub open spec fn decimal(n: nat) -> Seq<char>
    decreases n,
{
    if n < 10 {
        seq![digit_char(n)]
    } else {
        decimal(n / 10) + seq![digit_char(n % 10)]
    }
}

/// Two lower-case hex digits per byte, no separators.
pub open spec fn lower_hex(data: Seq<u8>) -> Seq<char>
    decreases data.len(),
{
    if data.len() == 0 {
        seq![]
    } else {
        lower_hex(data.drop_last()) + seq![
            digit_char((data.last() / 16) as nat),
            digit_char((data.last() % 16) as nat),
        ]
    }
}

/// A character as it stands inside a JSON string: quote and backslash are
/// escaped with a backslash, the control characters with a short escape
/// where JSON has one and as `\u00XX` (lower-case hex) otherwise; every
/// other character stands for itself.
pub open spec fn json_escape_char(c: char) -> Seq<char> {
    if c == '"' {
        "\\\""@
    } else if c == '\\' {
        "\\\\"@
    } else if c == '\n' {
        "\\n"@
    } else if c == '\r' {
        "\\r"@
    } else if c == '\t' {
        "\\t"@
    } else if c == '\u{8}' {
        "\\b"@
    } else if c == '\u{c}' {
        "\\f"@
    } else if (c as u32) < 0x20 {
        "\\u00"@ + seq![digit_char(((c as u32) / 16) as nat), digit_char(((c as u32) % 16) as nat)]
    } else {
        seq![c]
    }
}

/// The contents of a JSON string literal holding `s`.
pub open spec fn json_escape(s: Seq<char>) -> Seq<char>
    decreases s.len(),
{
    if s.len() == 0 {
        seq![]
    } else {
        json_escape(s.drop_last()) + json_escape_char(s.last())
    }
}

/// The JSON object that the app receives for an event; a disconnection
/// reason becomes a JSON string.
pub open spec fn event_json(e: ClientEventView) -> Seq<char> {
    match e {
        ClientEventView::PairingPinGenerated(pin) => "{\"type\":\"pairing_pin\",\"pin\":"@ + decimal(
            pin as nat,
        ) + "}"@,
        ClientEventView::Connected => "{\"type\":\"connected\"}"@,
        ClientEventView::Disconnected(reason) => "{\"type\":\"disconnected\",\"reason\":\""@ + json_escape(
            reason,
        ) + "\"}"@,
        ClientEventView::MessageReceived(stream_type, data) => "{\"type\":\"message\",\"stream_type\":"@
            + decimal(stream_type as nat) + ",\"payload\":\""@ + lower_hex(data) + "\"}"@,
    }
}

/// The one-character string of a digit below 16 (lower-case hex letters).
fn digit_str(n: u32) -> (r: &'static str)
    requires
        n < 16,
    ensures
        r@ == seq![digit_char(n as nat)],
{
    match n {
        0 => {
            proof {
                reveal_strlit("0");
            }
            "0"
        },
        1 => {
            proof {
                reveal_strlit("1");
            }
            "1"
        },
        2 => {
            proof {
                reveal_strlit("2");
            }
            "2"
        },
        3 => {
            proof {
                reveal_strlit("3");
            }
            "3"
        },
        4 => {
            proof {
                reveal_strlit("4");
            }
            "4"
        },
        5 => {
            proof {
                reveal_strlit("5");
            }
            "5"
        },
        6 => {
            proof {
                reveal_strlit("6");
            }
            "6"
        },
        7 => {
            proof {
                reveal_strlit("7");
            }
            "7"
        },
        8 => {
            proof {
                reveal_strlit("8");
            }
            "8"
        },
        9 => {
            proof {
                reveal_strlit("9");
            }
            "9"
        },
        10 => {
            proof {
                reveal_strlit("a");
            }
            "a"
        },
        11 => {
            proof {
                reveal_strlit("b");
            }
            "b"
        },
        12 => {
            proof {
                reveal_strlit("c");
            }
            "c"
        },
        13 => {
            proof {
                reveal_strlit("d");
            }
            "d"
        },
        14 => {
            proof {
                reveal_strlit("e");
            }
            "e"
        },
        _ => {
            proof {
                reveal_strlit("f");
            }
            "f"
        },
    }
}

/// Appends the decimal notation of `n`.
fn push_decimal(s: &mut String, n: u32)
    ensures
        final(s)@ == old(s)@ + decimal(n as nat),
    decreases n,
{
    if n >= 10 {
        push_decimal(s, n / 10);
    }
    s.append(digit_str(n % 10));
}

/// Appends two lower-case hex digits per byte of `data`.
fn push_lower_hex(s: &mut String, data: &[u8])
    ensures
        final(s)@ == old(s)@ + lower_hex(data@),
{
    let mut i: usize = 0;
    assert(data@.take(0) =~= Seq::<u8>::empty());
    while i < data.len()
        invariant
            0 <= i <= data@.len(),
            s@ == old(s)@ + lower_hex(data@.take(i as int)),
        decreases data@.len() - i,
    {
        let b = data[i];
        s.append(digit_str((b / 16) as u32));
        s.append(digit_str((b % 16) as u32));
        proof {
            assert(data@.take(i + 1).drop_last() =~= data@.take(i as int));
            assert(data@.take(i + 1).last() == b);
            assert(s@ =~= old(s)@ + lower_hex(data@.take(i + 1)));
        }
        i = i + 1;
    }
    assert(data@.take(data@.len() as int) =~= data@);
}

/// Appends `text` escaped as the contents of a JSON string.
fn push_json_escaped(s: &mut String, text: &str)
    ensures
        final(s)@ == old(s)@ + json_escape(text@),
{
    let n = text.unicode_len();
    let mut i: usize = 0;
    assert(text@.take(0) =~= Seq::<char>::empty());
    while i < n
        invariant
            0 <= i <= n,
            n == text@.len(),
            s@ == old(s)@ + json_escape(text@.take(i as int)),
        decreases n - i,
    {
        let c = text.get_char(i);
        let ghost before = s@;
        if c == '"' {
            s.append("\\\"");
        } else if c == '\\' {
            s.append("\\\\");
        } else if c == '\n' {
            s.append("\\n");
        } else if c == '\r' {
            s.append("\\r");
        } else if c == '\t' {
            s.append("\\t");
        } else if c == '\u{8}' {
            s.append("\\b");
        } else if c == '\u{c}' {
            s.append("\\f");
        } else if (c as u32) < 0x20 {
            s.append("\\u00");
            s.append(digit_str((c as u32) / 16));
            s.append(digit_str((c as u32) % 16));
        } else {
            s.append(text.substring_char(i, i + 1));
            assert(text@.subrange(i as int, i + 1) =~= seq![c]);
        }
        proof {
            assert(text@.take(i + 1).drop_last() =~= text@.take(i as int));
            assert(text@.take(i + 1).last() == c);
            assert(s@ =~= before + json_escape_char(c));
        }
        i = i + 1;
    }
    assert(text@.take(n as int) =~= text@);
}

impl ClientEvent {
    /// The event as the JSON object that the app polls.
    pub fn to_json(&self) -> (r: String)
        ensures
            r@ == event_json(self@),
    {
        let mut s = String::new();
        match self {
            ClientEvent::PairingPinGenerated(pin) => {
                s.append("{\"type\":\"pairing_pin\",\"pin\":");
                push_decimal(&mut s, *pin);
                s.append("}");
            },
            ClientEvent::Connected => {
                s.append("{\"type\":\"connected\"}");
            },
            ClientEvent::Disconnected(reason) => {
                s.append("{\"type\":\"disconnected\",\"reason\":\"");
                push_json_escaped(&mut s, reason.as_str());
                s.append("\"}");
            },
            ClientEvent::MessageReceived(stream_type, data) => {
                s.append("{\"type\":\"message\",\"stream_type\":");
                push_decimal(&mut s, *stream_type as u32);
                s.append(",\"payload\":\"");
                push_lower_hex(&mut s, data.as_slice());
                s.append("\"}");
            },
        }
        s
    }
}

} // verus!
