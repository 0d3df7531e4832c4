//! The request side of the remote calls: JSON string escaping, the batched
//! redemption body, the login body, the batch URL and the authorization
//! header value. The remote API takes an ordered batch as a JSON object
//! whose keys are decimal indices, so the encoders here fix that positional
//! shape exactly.

use vstd::prelude::*;

use crate::text::{dec_str, push_char, push_decimal};

verus! {

/// The hexadecimal digit character for `d` (`d < 16`), lower case.
pub open spec fn hex_digit(d: nat) -> char
    recommends
        d < 16,
{
    if d == 0 {
        '0'
    } else if d == 1 {
        '1'
    } else if d == 2 {
        '2'
    } else if d == 3 {
        '3'
    } else if d == 4 {
        '4'
    } else if d == 5 {
        '5'
    } else if d == 6 {
        '6'
    } else if d == 7 {
        '7'
    } else if d == 8 {
        '8'
    } else if d == 9 {
        '9'
    } else if d == 10 {
        'a'
    } else if d == 11 {
        'b'
    } else if d == 12 {
        'c'
    } else if d == 13 {
        'd'
    } else if d == 14 {
        'e'
    } else {
        'f'
    }
}

/// How one character stands inside a JSON string literal: quote and
/// backslash escaped, control characters as `\u00XX`, everything else as
/// itself.
pub open spec fn escape_char(c: char) -> Seq<char> {
    if c as u32 == 34 {
        seq!['\\', '"']
    } else if c as u32 == 92 {
        seq!['\\', '\\']
    } else if (c as u32) < 32 {
        seq!['\\', 'u', '0', '0', hex_digit((c as u32 / 16) as nat), hex_digit((c as u32 % 16) as nat)]
    } else {
        seq![c]
    }
}

/// The body of the JSON string literal that encodes `s`: every character in
/// order, escaped as JSON requires.
pub open spec fn json_escaped(s: Seq<char>) -> Seq<char>
    decreases s.len(),
{
    if s.len() == 0 {
        Seq::empty()
    } else {
        json_escaped(s.drop_last()) + escape_char(s.last())
    }
}

/// `s` as a JSON string literal: quoted and escaped.
pub open spec fn json_string(s: Seq<char>) -> Seq<char> {
    seq!['"'] + json_escaped(s) + seq!['"']
}

/// Executable counterpart of [`hex_digit`].
fn hex_digit_exec(d: u32) -> (c: char)
    requires
        d < 16,
    ensures
        c == hex_digit(d as nat),
{
    if d == 0 {
        '0'
    } else if d == 1 {
        '1'
    } else if d == 2 {
        '2'
    } else if d == 3 {
        '3'
    } else if d == 4 {
        '4'
    } else if d == 5 {
        '5'
    } else if d == 6 {
        '6'
    } else if d == 7 {
        '7'
    } else if d == 8 {
        '8'
    } else if d == 9 {
        '9'
    } else if d == 10 {
        'a'
    } else if d == 11 {
        'b'
    } else if d == 12 {
        'c'
    } else if d == 13 {
        'd'
    } else if d == 14 {
        'e'
    } else {
        'f'
    }
}

/// Appends the escaped form of one character to `out`.
fn push_escaped(out: &mut String, c: char)
    ensures
        final(out)@ == old(out)@ + escape_char(c),
{
    let u = c as u32;
    if u == 34 {
        push_char(out, '\\');
        push_char(out, '"');
        proof {
            assert(old(out)@.push('\\').push('"') =~= old(out)@ + escape_char(c));
        }
    } else if u == 92 {
        push_char(out, '\\');
        push_char(out, '\\');
        proof {
            assert(old(out)@.push('\\').push('\\') =~= old(out)@ + escape_char(c));
        }
    } else if u < 32 {
        push_char(out, '\\');
        push_char(out, 'u');
        push_char(out, '0');
        push_char(out, '0');
        push_char(out, hex_digit_exec(u / 16));
        push_char(out, hex_digit_exec(u % 16));
        proof {
            assert(old(out)@.push('\\').push('u').push('0').push('0').push(
                hex_digit((u / 16) as nat),
            ).push(hex_digit((u % 16) as nat)) =~= old(out)@ + escape_char(c));
        }
    } else {
        push_char(out, c);
        proof {
            assert(old(out)@.push(c) =~= old(out)@ + escape_char(c));
        }
    }
}

/// Appends the JSON string literal that encodes `s` to `out`.
fn append_json_string(out: &mut String, s: &str)
    ensures
        final(out)@ == old(out)@ + json_string(s@),
{
    let n = s.unicode_len();
    push_char(out, '"');
    proof {
        assert(old(out)@.push('"') =~= old(out)@ + seq!['"'] + json_escaped(s@.take(0)));
    }
    let mut i: usize = 0;
    while i < n
        invariant
            n == s@.len(),
            i <= n,
            out@ == old(out)@ + seq!['"'] + json_escaped(s@.take(i as int)),
        decreases n - i,
    {
        let c = s.get_char(i);
        proof {
            assert(s@.take(i as int + 1).drop_last() =~= s@.take(i as int));
            assert(s@.take(i as int + 1).last() == s@[i as int]);
        }
        push_escaped(out, c);
        proof {
            assert((old(out)@ + seq!['"'] + json_escaped(s@.take(i as int))) + escape_char(
                s@[i as int],
            ) =~= old(out)@ + seq!['"'] + json_escaped(s@.take(i as int + 1)));
        }
        i += 1;
    }
    proof {
        assert(s@.take(n as int) =~= s@);
    }
    push_char(out, '"');
    proof {
        assert((old(out)@ + seq!['"'] + json_escaped(s@)).push('"') =~= old(out)@ + json_string(
            s@,
        ));
    }
}

/// One entry of the batched redemption body: the decimal index as a JSON
/// key, its key candidate wrapped in a `json` member.
pub open spec fn batch_entry(index: nat, key: Seq<char>) -> Seq<char> {
    json_string(dec_str(index)) + ":{\"json\":"@ + json_string(key) + seq!['}']
}

/// The comma-separated entries of the batched redemption body, one per key,
/// indexed in submission order.
pub open spec fn batch_entries(keys: Seq<Seq<char>>) -> Seq<char>
    decreases keys.len(),
{
    if keys.len() == 0 {
        Seq::empty()
    } else if keys.len() == 1 {
        batch_entry(0, keys[0])
    } else {
        batch_entries(keys.drop_last()) + seq![','] + batch_entry(
            (keys.len() - 1) as nat,
            keys.last(),
        )
    }
}

/// The JSON body of one batched redemption call: a positional map from
/// decimal indices to `{"json": <key>}` wrappers, in submission order.
pub open spec fn batch_body(keys: Seq<Seq<char>>) -> Seq<char> {
    seq!['{'] + batch_entries(keys) + seq!['}']
}

/// Appends one batch entry to `out`.
fn append_batch_entry(out: &mut String, index: usize, key: &str)
    ensures
        final(out)@ == old(out)@ + batch_entry(index as nat, key@),
{
    let mut index_text = String::new();
    push_decimal(&mut index_text, index);
    proof {
        assert(index_text@ =~= dec_str(index as nat));
    }
    append_json_string(out, index_text.as_str());
    out.append(":{\"json\":");
    append_json_string(out, key);
    push_char(out, '}');
    proof {
        assert((((old(out)@ + json_string(dec_str(index as nat))) + ":{\"json\":"@) + json_string(
            key@,
        )).push('}') =~= old(out)@ + batch_entry(index as nat, key@));
    }
}

/// Encodes one batched redemption call's body from the candidate keys, in
/// submission order.
pub fn encode_batch_body(keys: &Vec<String>) -> (body: String)
    ensures
        body@ == batch_body(keys.deep_view()),
{
    let mut out = String::new();
    push_char(&mut out, '{');
    proof {
        assert(Seq::<char>::empty().push('{') =~= seq!['{'] + batch_entries(
            keys.deep_view().take(0),
        ));
    }
    let mut i: usize = 0;
    while i < keys.len()
        invariant
            keys@.len() == keys.deep_view().len(),
            i <= keys@.len(),
            out@ == seq!['{'] + batch_entries(keys.deep_view().take(i as int)),
        decreases keys@.len() - i,
    {
        let ghost taken = keys.deep_view().take(i as int + 1);
        proof {
            assert(taken.drop_last() =~= keys.deep_view().take(i as int));
            assert(taken.last() == keys.deep_view()[i as int]);
            assert(keys.deep_view()[i as int] == keys@[i as int]@);
        }
        if i > 0 {
            push_char(&mut out, ',');
        }
        append_batch_entry(&mut out, i, keys[i].as_str());
        proof {
            if i == 0 {
                assert(out@ =~= seq!['{'] + batch_entries(taken));
            } else {
                assert(out@ =~= seq!['{'] + batch_entries(taken));
            }
        }
        i += 1;
    }
    proof {
        assert(keys.deep_view().take(keys@.len() as int) =~= keys.deep_view());
    }
    push_char(&mut out, '}');
    proof {
        assert((seq!['{'] + batch_entries(keys.deep_view())).push('}') =~= batch_body(
            keys.deep_view(),
        ));
    }
    out
}

/// The JSON body of the login call: the credential pair wrapped in the
/// positional map the remote API expects.
pub open spec fn login_body(login: Seq<char>, password: Seq<char>) -> Seq<char> {
    "{\"0\":{\"json\":{\"emailOrUsername\":"@ + json_string(login) + ",\"password\":"@
        + json_string(password) + "}}}"@
}

/// Encodes the login call's body from the configured credential pair.
pub fn encode_login_body(login: &str, password: &str) -> (body: String)
    ensures
        body@ == login_body(login@, password@),
{
    let mut out = String::new();
    out.append("{\"0\":{\"json\":{\"emailOrUsername\":");
    append_json_string(&mut out, login);
    out.append(",\"password\":");
    append_json_string(&mut out, password);
    out.append("}}}");
    proof {
        assert(out@ =~= login_body(login@, password@));
    }
    out
}

/// The URL of one batched redemption call, carrying the batch size.
pub open spec fn redeem_url_spec(batch_len: nat) -> Seq<char> {
    "https://api.acedia.gg/trpc/license.claim?batch="@ + dec_str(batch_len)
}

/// Builds the redemption URL for a batch of `batch_len` keys.
pub fn redeem_url(batch_len: usize) -> (url: String)
    ensures
        url@ == redeem_url_spec(batch_len as nat),
{
    let mut out = String::new();
    out.append("https://api.acedia.gg/trpc/license.claim?batch=");
    push_decimal(&mut out, batch_len);
    proof {
        assert(out@ =~= redeem_url_spec(batch_len as nat));
    }
    out
}

/// The authorization header value built from a credential snapshot.
pub open spec fn bearer_value_spec(token: Seq<char>) -> Seq<char> {
    "Bearer "@ + token
}

/// Builds the bearer authorization header value from a credential snapshot.
pub fn bearer_value(token: &str) -> (value: String)
    ensures
        value@ == bearer_value_spec(token@),
{
    let mut out = String::new();
    out.append("Bearer ");
    out.append(token);
    proof {
        assert(out@ =~= bearer_value_spec(token@));
    }
    out
}

} // verus!
