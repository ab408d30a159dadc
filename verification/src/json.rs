//! JSON string escaping and the text of the typed-data document.

use vstd::prelude::*;

use crate::address::checksummed_text;
use crate::ext::push_char;
use crate::hexchars::{hex_char_lower, hex_char_of, hex_lower_chars};

verus! {

/// How one character appears inside a JSON string literal: quote and backslash
/// get a backslash escape, control characters get their short escape or the
/// `\u00` hex form, every other character stands for itself.
pub open spec fn escape_char(c: char) -> Seq<char> {
    if c == '"' {
        seq!['\\', '"']
    } else if c == '\\' {
        seq!['\\', '\\']
    } else if (c as u32) < 32 {
        if c == '\u{8}' {
            seq!['\\', 'b']
        } else if c == '\t' {
            seq!['\\', 't']
        } else if c == '\n' {
            seq!['\\', 'n']
        } else if c == '\u{c}' {
            seq!['\\', 'f']
        } else if c == '\r' {
            seq!['\\', 'r']
        } else {
            seq!['\\', 'u', '0', '0', hex_char_lower(((c as u32) >> 4u32) as u8), hex_char_lower(
                ((c as u32) & 15u32) as u8,
            )]
        }
    } else {
        seq![c]
    }
}

/// A whole string escaped for use inside a JSON string literal.
pub open spec fn json_escaped(s: Seq<char>) -> Seq<char>
    decreases s.len(),
{
    if s.len() == 0 {
        Seq::empty()
    } else {
        json_escaped(s.drop_last()) + escape_char(s.last())
    }
}

/// Escape a string for use inside a JSON string literal.
pub fn escape_json(s: &str) -> (r: String)
    ensures
        r@ == json_escaped(s@),
{
    let n = s.unicode_len();
    let mut out = String::new();
    proof {
        assert(out@ =~= json_escaped(s@.take(0)));
    }
    let mut i: usize = 0;
    while i < n
        invariant
            n == s@.len(),
            i <= n,
            out@ == json_escaped(s@.take(i as int)),
        decreases n - i,
    {
        let c = s.get_char(i);
        let u = c as u32;
        if c == '"' {
            out.append("\\\"");
            proof {
                reveal_strlit("\\\"");
                assert(("\\\"")@ =~= escape_char(c));
            }
        } else if c == '\\' {
            out.append("\\\\");
            proof {
                reveal_strlit("\\\\");
                assert(("\\\\")@ =~= escape_char(c));
            }
        } else if u < 32 {
            if c == '\u{8}' {
                out.append("\\b");
                proof {
                    reveal_strlit("\\b");
                    assert(("\\b")@ =~= escape_char(c));
                }
            } else if c == '\t' {
                out.append("\\t");
                proof {
                    reveal_strlit("\\t");
                    assert(("\\t")@ =~= escape_char(c));
                }
            } else if c == '\n' {
                out.append("\\n");
                proof {
                    reveal_strlit("\\n");
                    assert(("\\n")@ =~= escape_char(c));
                }
            } else if c == '\u{c}' {
                out.append("\\f");
                proof {
                    reveal_strlit("\\f");
                    assert(("\\f")@ =~= escape_char(c));
                }
            } else if c == '\r' {
                out.append("\\r");
                proof {
                    reveal_strlit("\\r");
                    assert(("\\r")@ =~= escape_char(c));
                }
            } else {
                out.append("\\u00");
                assert(u >> 4u32 < 16 && u & 15u32 < 16) by (bit_vector)
                    requires
                        u < 32,
                ;
                let hi = (u >> 4) as u8;
                let lo = (u & 15) as u8;
                push_char(&mut out, hex_char_of(hi));
                push_char(&mut out, hex_char_of(lo));
                proof {
                    reveal_strlit("\\u00");
                    assert(("\\u00")@.push(hex_char_lower(hi)).push(hex_char_lower(lo))
                        =~= escape_char(c));
                }
            }
        } else {
            push_char(&mut out, c);
            proof {
                assert(out@ =~= json_escaped(s@.take(i as int)) + escape_char(c));
            }
        }
        i = i + 1;
        proof {
            assert(s@.take(i as int).drop_last() =~= s@.take(i - 1));
            assert(s@.take(i as int).last() == s@[i - 1]);
            assert(out@ =~= json_escaped(s@.take(i as int)));
        }
    }
    proof {
        assert(s@.take(n as int) =~= s@);
    }
    out
}

/// The complete typed-data document: the fixed type schema, the primary type
/// `LinkSigner`, the domain with its chain id in decimal and its contract
/// checksummed, and the message with the subaccount in lowercase hex, the
/// signer checksummed, and the nonce in decimal.
pub open spec fn typed_data_json(
    name: Seq<char>,
    version: Seq<char>,
    chain: Seq<char>,
    contract: Seq<u8>,
    sub: Seq<u8>,
    signer: Seq<u8>,
    nonce: Seq<char>,
) -> Seq<char> {
    "{\"types\":{\"EIP712Domain\":[{\"name\":\"name\",\"type\":\"string\"},{\"name\":\"version\",\"type\":\"string\"},{\"name\":\"chainId\",\"type\":\"uint256\"},{\"name\":\"verifyingContract\",\"type\":\"address\"}],\"LinkSigner\":[{\"name\":\"sender\",\"type\":\"bytes32\"},{\"name\":\"signer\",\"type\":\"address\"},{\"name\":\"nonce\",\"type\":\"uint256\"}]},\"primaryType\":\"LinkSigner\",\"domain\":{\"name\":\""@
        + json_escaped(name) + "\",\"version\":\""@ + json_escaped(version) + "\",\"chainId\":\""@
        + chain + "\",\"verifyingContract\":\""@ + checksummed_text(contract)
        + "\"},\"message\":{\"sender\":\"0x"@ + hex_lower_chars(sub) + "\",\"signer\":\""@
        + checksummed_text(signer) + "\",\"nonce\":\""@ + nonce + "\"}}"@
}

} // verus!
