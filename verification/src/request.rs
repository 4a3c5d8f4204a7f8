//! Framing of wallet JSON-RPC request bodies.
//!
//! Every request the pipeline sends is built here, character by character,
//! against a specification of the exact body text: the fixed JSON-RPC
//! envelope around properly escaped string data and decimal amounts.

use vstd::prelude::*;
use vstd::string::StrSliceExecFns;
use vstd::string::StringExecFns;
use crate::amount::{amount_str, dec_str, push_amount, push_dec};
use crate::decode::{inputs_view, TxInput};

verus! {

/// The hexadecimal digit character for a value below sixteen.
pub open spec fn hex_digit(d: int) -> char {
    if d < 10 {
        ((d + 48) as u8) as char
    } else {
        ((d + 87) as u8) as char
    }
}

/// How one character appears inside a JSON string literal: quote and
/// backslash get a backslash escape, control characters a `\u00..` escape,
/// everything else stands as itself.
pub open spec fn esc_char(c: char) -> Seq<char> {
    if c == '"' {
        seq!['\\', '"']
    } else if c == '\\' {
        seq!['\\', '\\']
    } else if (c as u32) < 32 {
        seq!['\\', 'u', '0', '0', hex_digit((c as u32) as int / 16), hex_digit((c as u32) as int % 16)]
    } else {
        seq![c]
    }
}

/// The body of a JSON string literal carrying the text `s`.
pub open spec fn escaped(s: Seq<char>) -> Seq<char>
    decreases s.len(),
{
    if s.len() == 0 {
        Seq::empty()
    } else {
        esc_char(s[0]) + escaped(s.drop_first())
    }
}

proof fn lemma_escaped_snoc(s: Seq<char>)
    requires
        s.len() > 0,
    ensures
        escaped(s) == escaped(s.drop_last()) + esc_char(s.last()),
    decreases s.len(),
{
    if s.len() == 1 {
        assert(s.drop_first() =~= Seq::<char>::empty());
        assert(s.drop_last() =~= Seq::<char>::empty());
        assert(escaped(s) =~= escaped(s.drop_last()) + esc_char(s.last()));
    } else {
        lemma_escaped_snoc(s.drop_first());
        assert(s.drop_first().drop_last() =~= s.drop_last().drop_first());
        assert(s.drop_first().last() == s.last());
        assert(s.drop_last()[0] == s[0]);
        assert(escaped(s) == esc_char(s[0]) + (escaped(s.drop_last().drop_first()) + esc_char(
            s.last(),
        )));
        assert(esc_char(s[0]) + (escaped(s.drop_last().drop_first()) + esc_char(s.last())) =~= (
        esc_char(s.drop_last()[0]) + escaped(s.drop_last().drop_first())) + esc_char(s.last()));
    }
}

/// Appends `s` to `out` with JSON string escaping.
#[verifier::loop_isolation(false)]
pub fn push_escaped(out: &mut String, s: &str)
    ensures
        final(out)@ == old(out)@ + escaped(s@),
{
    let n = s.unicode_len();
    let mut i: usize = 0;
    while i < n
        invariant
            i <= n,
            n == s@.len(),
            out@ == old(out)@ + escaped(s@.take(i as int)),
        decreases n - i,
    {
        let c = s.get_char(i);
        let v = c as u32;
        if c == '"' {
            out.push('\\');
            out.push('"');
        } else if c == '\\' {
            out.push('\\');
            out.push('\\');
        } else if v < 32 {
            out.push('\\');
            out.push('u');
            out.push('0');
            out.push('0');
            let hi = (v / 16) as u8;
            let lo = (v % 16) as u8;
            let hc = if hi < 10 {
                (hi + 48) as char
            } else {
                (hi + 87) as char
            };
            let lc = if lo < 10 {
                (lo + 48) as char
            } else {
                (lo + 87) as char
            };
            out.push(hc);
            out.push(lc);
        } else {
            out.push(c);
        }
        proof {
            lemma_escaped_snoc(s@.take(i as int + 1));
            assert(s@.take(i as int + 1).drop_last() =~= s@.take(i as int));
            assert(s@.take(i as int + 1).last() == s@[i as int]);
            assert(out@ =~= old(out)@ + escaped(s@.take(i as int + 1)));
        }
        i += 1;
    }
    proof {
        assert(s@.take(n as int) =~= s@);
    }
}

/// The `getaddressesbylabel` request body for a label.
pub open spec fn resolve_request(label: Seq<char>) -> Seq<char> {
    "{\"jsonrpc\":\"1.0\",\"id\":\"listaddressesbylabel\",\"method\":\"getaddressesbylabel\",\"params\":[\""@
        + escaped(label) + "\"]}"@
}

/// Builds the `getaddressesbylabel` request body.
pub fn build_resolve_request(label: &str) -> (r: String)
    ensures
        r@ == resolve_request(label@),
{
    let mut out = String::new();
    out.append(
        "{\"jsonrpc\":\"1.0\",\"id\":\"listaddressesbylabel\",\"method\":\"getaddressesbylabel\",\"params\":[\"",
    );
    push_escaped(&mut out, label);
    out.append("\"]}");
    proof {
        assert(out@ =~= resolve_request(label@));
    }
    out
}

/// A quoted JSON string literal carrying `s`.
pub open spec fn quoted(s: Seq<char>) -> Seq<char> {
    seq!['"'] + escaped(s) + seq!['"']
}

/// The first `k` elements of `addrs` as a comma-separated list of quoted
/// strings.
pub open spec fn quoted_items(addrs: Seq<Seq<char>>, k: int) -> Seq<char>
    decreases k,
{
    if k <= 0 {
        Seq::empty()
    } else if k == 1 {
        quoted(addrs[0])
    } else {
        quoted_items(addrs, k - 1) + seq![','] + quoted(addrs[k - 1])
    }
}

/// The `listunspent` request body: an unbounded confirmation range over
/// the given addresses.
pub open spec fn unspent_request(addrs: Seq<Seq<char>>) -> Seq<char> {
    "{\"jsonrpc\":\"1.0\",\"id\":\"listunspent\",\"method\":\"listunspent\",\"params\":[0,9999999,["@
        + quoted_items(addrs, addrs.len() as int) + "]]}"@
}

/// Builds the `listunspent` request body.
#[verifier::loop_isolation(false)]
pub fn build_unspent_request(addrs: &Vec<String>) -> (r: String)
    ensures
        r@ == unspent_request(addrs.deep_view()),
{
    let ghost a = addrs.deep_view();
    let mut out = String::new();
    out.append(
        "{\"jsonrpc\":\"1.0\",\"id\":\"listunspent\",\"method\":\"listunspent\",\"params\":[0,9999999,[",
    );
    let ghost pre = out@;
    let n = addrs.len();
    let mut i: usize = 0;
    while i < n
        invariant
            i <= n,
            n == addrs@.len(),
            a == addrs.deep_view(),
            out@ == pre + quoted_items(a, i as int),
        decreases n - i,
    {
        if i > 0 {
            out.push(',');
        }
        out.push('"');
        push_escaped(&mut out, addrs[i].as_str());
        out.push('"');
        proof {
            assert(a[i as int] == addrs@[i as int]@);
            if i == 0 {
                assert(out@ =~= pre + quoted_items(a, 1));
            } else {
                assert(out@ =~= pre + (quoted_items(a, i as int) + seq![','] + quoted(
                    a[i as int],
                )));
            }
        }
        i += 1;
    }
    out.append("]]}");
    proof {
        assert(out@ =~= unspent_request(a));
    }
    out
}

/// One entry of the `createrawtransaction` input list.
pub open spec fn input_item(txid: Seq<char>, vout: u64) -> Seq<char> {
    "{\"txid\":\""@ + escaped(txid) + "\",\"vout\":"@ + dec_str(vout as nat) + "}"@
}

/// The first `k` inputs as a comma-separated list.
pub open spec fn input_items(inputs: Seq<(Seq<char>, u64)>, k: int) -> Seq<char>
    decreases k,
{
    if k <= 0 {
        Seq::empty()
    } else if k == 1 {
        input_item(inputs[0].0, inputs[0].1)
    } else {
        input_items(inputs, k - 1) + seq![','] + input_item(inputs[k - 1].0, inputs[k - 1].1)
    }
}

/// The `createrawtransaction` request body: every input, and one output
/// paying `send_units` to the destination.
pub open spec fn create_request(
    inputs: Seq<(Seq<char>, u64)>,
    dest: Seq<char>,
    send_units: u64,
) -> Seq<char> {
    "{\"jsonrpc\":\"1.0\",\"id\":\"createrawtransaction\",\"method\":\"createrawtransaction\",\"params\":[["@
        + input_items(inputs, inputs.len() as int) + "],{\""@ + escaped(dest) + "\":"@
        + amount_str(send_units) + "}]}"@
}

/// Builds the `createrawtransaction` request body.
#[verifier::loop_isolation(false)]
pub fn build_create_request(inputs: &Vec<TxInput>, dest: &str, send_units: u64) -> (r: String)
    ensures
        r@ == create_request(inputs_view(inputs@), dest@, send_units),
{
    let ghost iv = inputs_view(inputs@);
    let mut out = String::new();
    out.append(
        "{\"jsonrpc\":\"1.0\",\"id\":\"createrawtransaction\",\"method\":\"createrawtransaction\",\"params\":[[",
    );
    let ghost pre = out@;
    let n = inputs.len();
    let mut i: usize = 0;
    while i < n
        invariant
            i <= n,
            n == inputs@.len(),
            iv == inputs_view(inputs@),
            out@ == pre + input_items(iv, i as int),
        decreases n - i,
    {
        if i > 0 {
            out.push(',');
        }
        out.append("{\"txid\":\"");
        push_escaped(&mut out, inputs[i].txid.as_str());
        out.append("\",\"vout\":");
        push_dec(&mut out, inputs[i].vout);
        out.append("}");
        proof {
            assert(iv[i as int] == (inputs@[i as int].txid@, inputs@[i as int].vout));
            if i == 0 {
                assert(out@ =~= pre + input_items(iv, 1));
            } else {
                assert(out@ =~= pre + (input_items(iv, i as int) + seq![','] + input_item(
                    iv[i as int].0,
                    iv[i as int].1,
                )));
            }
        }
        i += 1;
    }
    out.append("],{\"");
    push_escaped(&mut out, dest);
    out.append("\":");
    push_amount(&mut out, send_units);
    out.append("}]}");
    proof {
        assert(out@ =~= create_request(iv, dest@, send_units));
    }
    out
}

/// The `signrawtransactionwithwallet` request body for a raw transaction.
pub open spec fn sign_request(hex: Seq<char>) -> Seq<char> {
    "{\"jsonrpc\":\"1.0\",\"id\":\"signrawtransactionwithwallet\",\"method\":\"signrawtransactionwithwallet\",\"params\":[\""@
        + escaped(hex) + "\"]}"@
}

/// Builds the `signrawtransactionwithwallet` request body.
pub fn build_sign_request(hex: &str) -> (r: String)
    ensures
        r@ == sign_request(hex@),
{
    let mut out = String::new();
    out.append(
        "{\"jsonrpc\":\"1.0\",\"id\":\"signrawtransactionwithwallet\",\"method\":\"signrawtransactionwithwallet\",\"params\":[\"",
    );
    push_escaped(&mut out, hex);
    out.append("\"]}");
    proof {
        assert(out@ =~= sign_request(hex@));
    }
    out
}

/// The `sendrawtransaction` request body for a signed transaction.
pub open spec fn send_request(hex: Seq<char>) -> Seq<char> {
    "{\"jsonrpc\":\"1.0\",\"id\":\"sendrawtransaction\",\"method\":\"sendrawtransaction\",\"params\":[\""@
        + escaped(hex) + "\"]}"@
}

/// Builds the `sendrawtransaction` request body.
pub fn build_send_request(hex: &str) -> (r: String)
    ensures
        r@ == send_request(hex@),
{
    let mut out = String::new();
    out.append(
        "{\"jsonrpc\":\"1.0\",\"id\":\"sendrawtransaction\",\"method\":\"sendrawtransaction\",\"params\":[\"",
    );
    push_escaped(&mut out, hex);
    out.append("\"]}");
    proof {
        assert(out@ =~= send_request(hex@));
    }
    out
}

/// The `getnewaddress` request body for a label.
pub open spec fn new_address_request(label: Seq<char>) -> Seq<char> {
    "{\"jsonrpc\":\"1.0\",\"id\":\"curltest\",\"method\":\"getnewaddress\",\"params\":[\""@
        + escaped(label) + "\"]}"@
}

/// Builds the `getnewaddress` request body.
pub fn build_new_address_request(label: &str) -> (r: String)
    ensures
        r@ == new_address_request(label@),
{
    let mut out = String::new();
    out.append("{\"jsonrpc\":\"1.0\",\"id\":\"curltest\",\"method\":\"getnewaddress\",\"params\":[\"");
    push_escaped(&mut out, label);
    out.append("\"]}");
    proof {
        assert(out@ =~= new_address_request(label@));
    }
    out
}

} // verus!
