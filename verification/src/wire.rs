//! The JSON-RPC wire format.
//!
//! One request frame is a single JSON document
//! `{"jsonrpc":"2.0","method":M,"params":P,"id":I}` where the method
//! and correlation id are JSON strings and the params document is
//! spliced in as already-serialized text.  The whole frame is built
//! here character by character, against an exact sequence-level model:
//! [`request_text_spec`] says precisely which characters go out on the
//! wire, down to the escaping of the method and id strings.

use vstd::prelude::*;
use vstd::string::*;

verus! {

/// The decimal digit `d`, as a character.
pub open spec fn digit_char(d: nat) -> char {
    if d == 0 {
        '0'
    } else if d == 1 {
        '1'
    } else if d == 2 {
        '2'
    } else if d == 3 {
        '3'
    } else if d == 4 {
        '4'
    } else if d == 5 {
        '5'
    } else if d == 6 {
        '6'
    } else if d == 7 {
        '7'
    } else if d == 8 {
        '8'
    } else {
        '9'
    }
}

/// The hexadecimal digit `d`, as a lower-case character.
pub open spec fn hex_digit_char(d: nat) -> char {
    if d < 10 {
        digit_char(d)
    } else if d == 10 {
        'a'
    } else if d == 11 {
        'b'
    } else if d == 12 {
        'c'
    } else if d == 13 {
        'd'
    } else if d == 14 {
        'e'
    } else {
        'f'
    }
}

/// The usual decimal rendering of `n`, most significant digit first,
/// with no leading zeros (a single `'0'` for zero).
pub open spec fn decimal_of(n: nat) -> Seq<char>
    decreases n,
{
    if n < 10 {
        seq![digit_char(n)]
    } else {
        decimal_of(n / 10) + seq![digit_char(n % 10)]
    }
}

/// How one character is written inside a JSON string: quote and
/// backslash get a backslash escape, control characters get the
/// four-digit `\u00..` form, everything else stands for itself.
pub open spec fn escape_char(c: char) -> Seq<char> {
    if c == '"' {
        seq!['\\', '"']
    } else if c == '\\' {
        seq!['\\', '\\']
    } else if (c as u32) < 32 {
        seq!['\\', 'u', '0', '0', hex_digit_char((c as u32 / 16) as nat), hex_digit_char(
            (c as u32 % 16) as nat,
        )]
    } else {
        seq![c]
    }
}

/// The body of a JSON string holding the characters `s`: each
/// character written as [`escape_char`] says.
pub open spec fn json_escaped(s: Seq<char>) -> Seq<char>
    decreases s.len(),
{
    if s.len() == 0 {
        Seq::empty()
    } else {
        json_escaped(s.drop_last()) + escape_char(s.last())
    }
}

/// The exact text of one request frame.
pub open spec fn request_text_spec(method: Seq<char>, params: Seq<char>, id: Seq<char>) -> Seq<
    char,
> {
    "{\"jsonrpc\":\"2.0\",\"method\":\""@ + json_escaped(method) + "\",\"params\":"@ + params
        + ",\"id\":\""@ + json_escaped(id) + "\"}"@
}

/// The exact text of the URL a call connects to for a given port.
pub open spec fn ws_url_text_spec(port: u16) -> Seq<char> {
    "ws://127.0.0.1:"@ + decimal_of(port as nat)
}

/// The decimal digit `d` as a one-character string slice.
fn digit_str(d: u16) -> (r: &'static str)
    requires
        d < 10,
    ensures
        r@ == seq![digit_char(d as nat)],
{
    proof {
        reveal_strlit("0");
        reveal_strlit("1");
        reveal_strlit("2");
        reveal_strlit("3");
        reveal_strlit("4");
        reveal_strlit("5");
        reveal_strlit("6");
        reveal_strlit("7");
        reveal_strlit("8");
        reveal_strlit("9");
    }
    if d == 0 {
        proof {
            assert("0"@ =~= seq![digit_char(d as nat)]);
        }
        "0"
    } else if d == 1 {
        proof {
            assert("1"@ =~= seq![digit_char(d as nat)]);
        }
        "1"
    } else if d == 2 {
        proof {
            assert("2"@ =~= seq![digit_char(d as nat)]);
        }
        "2"
    } else if d == 3 {
        proof {
            assert("3"@ =~= seq![digit_char(d as nat)]);
        }
        "3"
    } else if d == 4 {
        proof {
            assert("4"@ =~= seq![digit_char(d as nat)]);
        }
        "4"
    } else if d == 5 {
        proof {
            assert("5"@ =~= seq![digit_char(d as nat)]);
        }
        "5"
    } else if d == 6 {
        proof {
            assert("6"@ =~= seq![digit_char(d as nat)]);
        }
        "6"
    } else if d == 7 {
        proof {
            assert("7"@ =~= seq![digit_char(d as nat)]);
        }
        "7"
    } else if d == 8 {
        proof {
            assert("8"@ =~= seq![digit_char(d as nat)]);
        }
        "8"
    } else {
        proof {
            assert("9"@ =~= seq![digit_char(d as nat)]);
        }
        "9"
    }
}

/// The hexadecimal digit `d` as a one-character string slice.
fn hex_digit_str(d: u16) -> (r: &'static str)
    requires
        d < 16,
    ensures
        r@ == seq![hex_digit_char(d as nat)],
{
    if d < 10 {
        digit_str(d)
    } else {
        proof {
            reveal_strlit("a");
            reveal_strlit("b");
            reveal_strlit("c");
            reveal_strlit("d");
            reveal_strlit("e");
            reveal_strlit("f");
        }
        if d == 10 {
            proof {
                assert("a"@ =~= seq![hex_digit_char(d as nat)]);
            }
            "a"
        } else if d == 11 {
            proof {
                assert("b"@ =~= seq![hex_digit_char(d as nat)]);
            }
            "b"
        } else if d == 12 {
            proof {
                assert("c"@ =~= seq![hex_digit_char(d as nat)]);
            }
            "c"
        } else if d == 13 {
            proof {
                assert("d"@ =~= seq![hex_digit_char(d as nat)]);
            }
            "d"
        } else if d == 14 {
            proof {
                assert("e"@ =~= seq![hex_digit_char(d as nat)]);
            }
            "e"
        } else {
            proof {
                assert("f"@ =~= seq![hex_digit_char(d as nat)]);
            }
            "f"
        }
    }
}

/// Append the decimal rendering of `n` to `out`.
pub fn append_decimal(n: u16, out: &mut String)
    ensures
        final(out)@ == old(out)@ + decimal_of(n as nat),
    decreases n,
{
    if n >= 10 {
        append_decimal(n / 10, out);
        out.append(digit_str(n % 10));
        proof {
            assert(final(out)@ =~= old(out)@ + decimal_of(n as nat));
        }
    } else {
        out.append(digit_str(n));
    }
}

/// The decimal rendering of `n` as a fresh string.
pub fn u16_to_string(n: u16) -> (r: String)
    ensures
        r@ == decimal_of(n as nat),
{
    let mut out = String::new();
    append_decimal(n, &mut out);
    proof {
        assert(out@ =~= decimal_of(n as nat));
    }
    out
}

/// Append the characters of `s`, written as JSON string contents, to
/// `out`.
pub fn append_json_escaped(s: &str, out: &mut String)
    ensures
        final(out)@ == old(out)@ + json_escaped(s@),
{
    let n = s.unicode_len();
    let mut i: usize = 0;
    proof {
        assert(s@.take(0) =~= Seq::<char>::empty());
    }
    while i < n
        invariant
            i <= n,
            n == s@.len(),
            out@ == old(out)@ + json_escaped(s@.take(i as int)),
        decreases n - i,
    {
        let c = s.get_char(i);
        if c == '"' {
            out.append("\\\"");
            proof {
                reveal_strlit("\\\"");
                assert("\\\""@ =~= escape_char(c));
            }
        } else if c == '\\' {
            out.append("\\\\");
            proof {
                reveal_strlit("\\\\");
                assert("\\\\"@ =~= escape_char(c));
            }
        } else if (c as u32) < 32 {
            let code = c as u32;
            out.append("\\u00");
            out.append(hex_digit_str((code / 16) as u16));
            out.append(hex_digit_str((code % 16) as u16));
            proof {
                reveal_strlit("\\u00");
                assert("\\u00"@ + seq![hex_digit_char((c as u32 / 16) as nat)] + seq![
                    hex_digit_char((c as u32 % 16) as nat),
                ] =~= escape_char(c));
            }
        } else {
            out.append(s.substring_char(i, i + 1));
            proof {
                assert(s@.subrange(i as int, i as int + 1) =~= escape_char(c));
            }
        }
        proof {
            assert(s@.take(i as int + 1).drop_last() =~= s@.take(i as int));
            assert(s@.take(i as int + 1).last() == s@[i as int]);
            assert(out@ =~= old(out)@ + json_escaped(s@.take(i as int + 1)));
        }
        i += 1;
    }
    proof {
        assert(s@.take(n as int) =~= s@);
    }
}

/// Build the full request frame for one call: method and id written
/// as escaped JSON strings, the params document spliced in verbatim.
pub fn encode_request(method: &str, params_text: &str, id: &str) -> (r: String)
    ensures
        r@ == request_text_spec(method@, params_text@, id@),
{
    let mut out = String::new();
    out.append("{\"jsonrpc\":\"2.0\",\"method\":\"");
    append_json_escaped(method, &mut out);
    out.append("\",\"params\":");
    out.append(params_text);
    out.append(",\"id\":\"");
    append_json_escaped(id, &mut out);
    out.append("\"}");
    proof {
        assert(out@ =~= request_text_spec(method@, params_text@, id@));
    }
    out
}

/// The URL text a call connects to: the loopback host with the
/// session's port.
pub fn ws_url_text(port: u16) -> (r: String)
    ensures
        r@ == ws_url_text_spec(port),
{
    let mut out = String::new();
    out.append("ws://127.0.0.1:");
    append_decimal(port, &mut out);
    proof {
        assert(out@ =~= ws_url_text_spec(port));
    }
    out
}

} // verus!
