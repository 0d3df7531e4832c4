//! The authenticator's pure parts: reading the session credential out of a
//! `Set-Cookie` header value, classifying the login response, and updating
//! the credential store on structural success only.

use vstd::prelude::*;

use crate::credential::CredentialStore;
use crate::text::{is_space_char, push_char, space_char};

verus! {

/// The pieces of `s` that remain to be produced when splitting at `sep`,
/// with `cur` carrying the piece in progress. Empty pieces are kept, so a
/// split always yields at least one piece.
pub open spec fn split_from(s: Seq<char>, sep: char, cur: Seq<char>) -> Seq<Seq<char>>
    decreases s.len(),
{
    if s.len() == 0 {
        seq![cur]
    } else if s[0] == sep {
        seq![cur] + split_from(s.drop_first(), sep, Seq::empty())
    } else {
        split_from(s.drop_first(), sep, cur.push(s[0]))
    }
}

/// `s` split at every occurrence of `sep`, empty pieces kept.
pub open spec fn split_on(s: Seq<char>, sep: char) -> Seq<Seq<char>> {
    split_from(s, sep, Seq::empty())
}

/// `s` without its leading white space.
pub open spec fn trim_left(s: Seq<char>) -> Seq<char>
    decreases s.len(),
{
    if s.len() > 0 && is_space_char(s[0]) {
        trim_left(s.drop_first())
    } else {
        s
    }
}

/// `s` without its trailing white space.
pub open spec fn trim_right(s: Seq<char>) -> Seq<char>
    decreases s.len(),
{
    if s.len() > 0 && is_space_char(s.last()) {
        trim_right(s.drop_last())
    } else {
        s
    }
}

/// `s` without leading and trailing white space.
pub open spec fn trimmed(s: Seq<char>) -> Seq<char> {
    trim_right(trim_left(s))
}

/// The (name, value) reading of one cookie fragment: its two `=`-separated
/// halves, trimmed — or a pair of empties where the fragment does not split
/// in exactly two.
pub open spec fn cookie_pair(fragment: Seq<char>) -> (Seq<char>, Seq<char>) {
    let halves = split_on(fragment, '=');
    if halves.len() == 2 {
        (trimmed(halves[0]), trimmed(halves[1]))
    } else {
        (Seq::empty(), Seq::empty())
    }
}

/// The value of the first fragment among `fragments` whose cookie name is
/// `_session`, empty when there is none.
pub open spec fn session_of_fragments(fragments: Seq<Seq<char>>) -> Seq<char>
    decreases fragments.len(),
{
    if fragments.len() == 0 {
        Seq::empty()
    } else if cookie_pair(fragments[0]).0 == "_session"@ {
        cookie_pair(fragments[0]).1
    } else {
        session_of_fragments(fragments.drop_first())
    }
}

/// The session credential carried by a `Set-Cookie` header value: the value
/// of its `_session` cookie, empty when the header carries none.
pub open spec fn session_cookie_of(header: Seq<char>) -> Seq<char> {
    session_of_fragments(split_on(header, ';'))
}

/// Splits `s` at every occurrence of `sep`, keeping empty pieces.
fn split_on_exec(s: &str, sep: char) -> (pieces: Vec<String>)
    ensures
        pieces.deep_view() == split_on(s@, sep),
{
    let n = s.unicode_len();
    let mut pieces: Vec<String> = Vec::new();
    let mut cur = String::new();
    let mut i: usize = 0;
    proof {
        assert(s@.skip(0) =~= s@);
        assert(pieces.deep_view() =~~= Seq::<Seq<char>>::empty());
        assert(Seq::<Seq<char>>::empty() + split_from(s@, sep, cur@) =~~= split_from(
            s@,
            sep,
            cur@,
        ));
    }
    while i < n
        invariant
            n == s@.len(),
            i <= n,
            split_on(s@, sep) == pieces.deep_view() + split_from(s@.skip(i as int), sep, cur@),
        decreases n - i,
    {
        let c = s.get_char(i);
        proof {
            assert(s@.skip(i as int)[0] == s@[i as int]);
            assert(s@.skip(i as int).drop_first() =~= s@.skip(i as int + 1));
        }
        if c == sep {
            let ghost old_pieces = pieces.deep_view();
            let ghost cur_view = cur@;
            pieces.push(cur);
            cur = String::new();
            proof {
                assert(pieces.deep_view() =~~= old_pieces + seq![cur_view]);
                assert(old_pieces + (seq![cur_view] + split_from(
                    s@.skip(i as int + 1),
                    sep,
                    Seq::empty(),
                )) =~~= (old_pieces + seq![cur_view]) + split_from(
                    s@.skip(i as int + 1),
                    sep,
                    Seq::empty(),
                ));
            }
        } else {
            push_char(&mut cur, c);
        }
        i += 1;
    }
    proof {
        assert(s@.skip(n as int) =~= Seq::<char>::empty());
    }
    let ghost old_pieces = pieces.deep_view();
    let ghost cur_view = cur@;
    pieces.push(cur);
    proof {
        assert(pieces.deep_view() =~~= old_pieces + seq![cur_view]);
        assert(split_on(s@, sep) =~~= pieces.deep_view());
    }
    pieces
}

/// Trims white space off both ends of `s`.
fn trim_exec(s: &str) -> (t: String)
    ensures
        t@ == trimmed(s@),
{
    let n = s.unicode_len();
    let mut start: usize = 0;
    proof {
        assert(s@.skip(0) =~= s@);
    }
    while start < n && space_char(s.get_char(start))
        invariant
            n == s@.len(),
            start <= n,
            trim_left(s@) == trim_left(s@.skip(start as int)),
        decreases n - start,
    {
        proof {
            assert(s@.skip(start as int)[0] == s@[start as int]);
            assert(s@.skip(start as int).drop_first() =~= s@.skip(start as int + 1));
        }
        start += 1;
    }
    let ghost left = s@.skip(start as int);
    proof {
        if start == n {
            assert(left =~= Seq::<char>::empty());
        } else {
            assert(left[0] == s@[start as int]);
        }
        assert(trim_left(s@) == left);
    }
    let mut end: usize = n;
    proof {
        assert(left.take(n - start as int) =~= left);
    }
    while end > start && space_char(s.get_char(end - 1))
        invariant
            n == s@.len(),
            start <= end <= n,
            left == s@.skip(start as int),
            trim_right(left) == trim_right(left.take(end - start as int)),
        decreases end,
    {
        proof {
            let m = end - start as int;
            assert(left.take(m).last() == s@[end - 1]);
            assert(left.take(m).drop_last() =~= left.take(m - 1));
        }
        end -= 1;
    }
    let ghost kept = left.take(end - start as int);
    proof {
        if end == start {
            assert(kept =~= Seq::<char>::empty());
        } else {
            assert(kept.last() == s@[end - 1]);
        }
        assert(trim_right(left) == kept);
    }
    let mut t = String::new();
    let mut i: usize = start;
    while i < end
        invariant
            n == s@.len(),
            start <= i <= end <= n,
            left == s@.skip(start as int),
            kept == left.take(end - start as int),
            t@ == left.take(i - start as int),
        decreases end - i,
    {
        let c = s.get_char(i);
        proof {
            assert(left.take(i + 1 - start as int).drop_last() =~= left.take(i - start as int));
            assert(left.take(i + 1 - start as int).last() == s@[i as int]);
            assert(t@.push(s@[i as int]) =~= left.take(i + 1 - start as int));
        }
        push_char(&mut t, c);
        i += 1;
    }
    proof {
        assert(t@ == trimmed(s@));
    }
    t
}

/// Reads one cookie fragment as a trimmed (name, value) pair.
fn cookie_pair_exec(fragment: &str) -> (pair: (String, String))
    ensures
        (pair.0@, pair.1@) == cookie_pair(fragment@),
{
    let halves = split_on_exec(fragment, '=');
    if halves.len() == 2 {
        proof {
            assert(halves.deep_view()[0] == halves@[0]@);
            assert(halves.deep_view()[1] == halves@[1]@);
        }
        (trim_exec(halves[0].as_str()), trim_exec(halves[1].as_str()))
    } else {
        (String::new(), String::new())
    }
}

/// Extracts the session credential from a `Set-Cookie` header value: the
/// value of its first `_session` cookie, the empty string when the header
/// carries none.
pub fn extract_session_cookie(header: &str) -> (token: String)
    ensures
        token@ == session_cookie_of(header@),
{
    let fragments = split_on_exec(header, ';');
    let wanted = String::from_str("_session");
    let mut i: usize = 0;
    proof {
        assert(fragments.deep_view().skip(0) =~= fragments.deep_view());
    }
    while i < fragments.len()
        invariant
            fragments@.len() == fragments.deep_view().len(),
            i <= fragments@.len(),
            wanted@ == "_session"@,
            session_cookie_of(header@) == session_of_fragments(
                fragments.deep_view().skip(i as int),
            ),
        decreases fragments@.len() - i,
    {
        let ghost rest = fragments.deep_view().skip(i as int);
        proof {
            assert(rest[0] == fragments.deep_view()[i as int]);
            assert(fragments.deep_view()[i as int] == fragments@[i as int]@);
            assert(rest.drop_first() =~= fragments.deep_view().skip(i as int + 1));
        }
        let (name, value) = cookie_pair_exec(fragments[i].as_str());
        if name == wanted {
            return value;
        }
        i += 1;
    }
    proof {
        assert(fragments.deep_view().skip(fragments@.len() as int) =~= Seq::<Seq<char>>::empty());
    }
    String::new()
}

/// What the login response body carries: the rendering of the value at
/// `[0].error.json.message`, and whether a `result` member is present at
/// `[0]`. An unparseable body, or one whose first element is missing, reads
/// as `(None, false)`.
pub uninterp spec fn login_fields_of(body: Seq<char>) -> (Option<Seq<char>>, bool);

/// Relies on serde_json::from_str::<Value>, Value::get and Value's
/// `to_string`: reads the first element of the parsed response array,
/// renders the value at `.error.json.message`, and reports whether a
/// `result` member is present.
#[verifier::external_body]
fn read_login_fields(body: &str) -> (r: (Option<String>, bool))
    ensures
        (r.0.deep_view(), r.1) == login_fields_of(body@),
{
    let parsed: serde_json::Value = match serde_json::from_str(body) {
        Ok(value) => value,
        Err(_) => return (None, false),
    };
    let entry = parsed.get(0);
    let error = entry.and_then(|e| e.get("error")).and_then(|e| e.get("json")).and_then(
        |e| e.get("message"),
    ).map(|m| m.to_string());
    let has_result = entry.map_or(false, |e| e.get("result").is_some());
    (error, has_result)
}

/// The failure owed to one login response, by the fixed precedence: a
/// reported error message is that failure; else a present result is success
/// (`None`); else the response's shape is not recognized.
pub open spec fn spec_login_failure(fields: (Option<Seq<char>>, bool)) -> Option<Seq<char>> {
    if fields.0 is Some {
        Some(fields.0->0)
    } else if fields.1 {
        None
    } else {
        Some("Invalid Response"@)
    }
}

/// Applies one login response to the credential store: on structural success
/// stores the session credential extracted from the response's cookie and
/// returns `None`; on any failure returns the reason and leaves the store
/// untouched.
pub fn apply_login_response(store: &mut CredentialStore, body: &str, session: String) -> (failure:
    Option<String>)
    ensures
        failure.deep_view() == spec_login_failure(login_fields_of(body@)),
        spec_login_failure(login_fields_of(body@)) is None ==> final(store)@ == session@,
        spec_login_failure(login_fields_of(body@)) is Some ==> final(store)@ == old(store)@,
{
    let (error, has_result) = read_login_fields(body);
    match error {
        Some(message) => Some(message),
        None => {
            if has_result {
                store.set(session);
                None
            } else {
                Some(String::from_str("Invalid Response"))
            }
        },
    }
}

} // verus!
