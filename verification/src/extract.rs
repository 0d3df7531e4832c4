//! The key extractor: a pure pass from raw message text to the ordered
//! sequence of normalized candidate keys, filtered by length and
//! composition rules.

use vstd::prelude::*;

use crate::text::{
    is_key_char, is_letter_char, is_digit_char, is_space_char, key_char, letter_char, digit_char,
    space_char, push_char,
};

verus! {

/// The words of `text` that remain to be produced when `cur` carries the
/// word in progress: maximal runs of non-white-space characters, in order.
pub open spec fn words_from(text: Seq<char>, cur: Seq<char>) -> Seq<Seq<char>>
    decreases text.len(),
{
    if text.len() == 0 {
        if cur.len() == 0 {
            Seq::empty()
        } else {
            seq![cur]
        }
    } else if is_space_char(text[0]) {
        if cur.len() == 0 {
            words_from(text.drop_first(), Seq::empty())
        } else {
            seq![cur] + words_from(text.drop_first(), Seq::empty())
        }
    } else {
        words_from(text.drop_first(), cur.push(text[0]))
    }
}

/// The white-space-delimited words of `text`, in order.
pub open spec fn words(text: Seq<char>) -> Seq<Seq<char>> {
    words_from(text, Seq::empty())
}

/// The normalized form of a word: its ASCII letters and digits, in order,
/// every other character stripped.
pub open spec fn strip_word(w: Seq<char>) -> Seq<char>
    decreases w.len(),
{
    if w.len() == 0 {
        Seq::empty()
    } else if is_key_char(w.last()) {
        strip_word(w.drop_last()).push(w.last())
    } else {
        strip_word(w.drop_last())
    }
}

/// True when `w` holds at least one ASCII letter.
pub open spec fn has_letter(w: Seq<char>) -> bool {
    exists|i: int| 0 <= i < w.len() && is_letter_char(#[trigger] w[i])
}

/// True when `w` holds at least one ASCII digit.
pub open spec fn has_digit(w: Seq<char>) -> bool {
    exists|i: int| 0 <= i < w.len() && is_digit_char(#[trigger] w[i])
}

/// True when some accepted length equals `n`.
pub open spec fn len_accepted(n: nat, lengths: Seq<usize>) -> bool {
    exists|i: int| 0 <= i < lengths.len() && #[trigger] lengths[i] as nat == n
}

/// True of words that begin with an `http:` or `https:` scheme prefix.
pub open spec fn is_url_word(w: Seq<char>) -> bool {
    ||| (w.len() >= 5 && w[0] == 'h' && w[1] == 't' && w[2] == 't' && w[3] == 'p' && w[4] == ':')
    ||| (w.len() >= 6 && w[0] == 'h' && w[1] == 't' && w[2] == 't' && w[3] == 'p' && w[4] == 's'
        && w[5] == ':')
}

/// True when the word `w` survives filtering: not a URL (where that rule is
/// on), its normalized form of an accepted length, and under the strict rule
/// holding both a letter and a digit.
pub open spec fn keep_word(w: Seq<char>, lengths: Seq<usize>, strict: bool, skip_urls: bool) -> bool {
    &&& !(skip_urls && is_url_word(w))
    &&& len_accepted(strip_word(w).len(), lengths)
    &&& (strict ==> has_letter(strip_word(w)) && has_digit(strip_word(w)))
}

/// The normalized forms of the kept words among `ws`, in order, duplicates
/// preserved.
pub open spec fn selected(ws: Seq<Seq<char>>, lengths: Seq<usize>, strict: bool, skip_urls: bool) -> Seq<
    Seq<char>,
>
    decreases ws.len(),
{
    if ws.len() == 0 {
        Seq::empty()
    } else {
        let rest = selected(ws.drop_last(), lengths, strict, skip_urls);
        if keep_word(ws.last(), lengths, strict, skip_urls) {
            rest.push(strip_word(ws.last()))
        } else {
            rest
        }
    }
}

/// The candidate keys of `text`: the normalized form of every
/// white-space-delimited word that survives filtering, in order of
/// occurrence, duplicates preserved.
pub open spec fn candidates(
    text: Seq<char>,
    lengths: Seq<usize>,
    strict: bool,
    skip_urls: bool,
) -> Seq<Seq<char>> {
    selected(words(text), lengths, strict, skip_urls)
}

/// True when `k` obeys the filtering rules: an accepted length and, under
/// the strict rule, at least one letter and at least one digit.
pub open spec fn candidate_ok(k: Seq<char>, lengths: Seq<usize>, strict: bool) -> bool {
    &&& len_accepted(k.len(), lengths)
    &&& (strict ==> has_letter(k) && has_digit(k))
}

proof fn lemma_selected_ok(ws: Seq<Seq<char>>, lengths: Seq<usize>, strict: bool, skip_urls: bool)
    ensures
        forall|i: int|
            0 <= i < selected(ws, lengths, strict, skip_urls).len() ==> candidate_ok(
                #[trigger] selected(ws, lengths, strict, skip_urls)[i],
                lengths,
                strict,
            ),
    decreases ws.len(),
{
    if ws.len() > 0 {
        lemma_selected_ok(ws.drop_last(), lengths, strict, skip_urls);
        let rest = selected(ws.drop_last(), lengths, strict, skip_urls);
        let whole = selected(ws, lengths, strict, skip_urls);
        if keep_word(ws.last(), lengths, strict, skip_urls) {
            assert forall|i: int| 0 <= i < whole.len() implies candidate_ok(
                #[trigger] whole[i],
                lengths,
                strict,
            ) by {
                if i < rest.len() {
                    assert(whole[i] == rest[i]);
                } else {
                    assert(whole[i] == strip_word(ws.last()));
                }
            }
        }
    }
}

/// Law: every candidate the extractor returns has an accepted length and,
/// under the strict rule, contains at least one letter and at least one
/// digit.
pub proof fn lemma_candidates_filtered(
    text: Seq<char>,
    lengths: Seq<usize>,
    strict: bool,
    skip_urls: bool,
)
    ensures
        forall|i: int|
            0 <= i < candidates(text, lengths, strict, skip_urls).len() ==> candidate_ok(
                #[trigger] candidates(text, lengths, strict, skip_urls)[i],
                lengths,
                strict,
            ),
{
    lemma_selected_ok(words(text), lengths, strict, skip_urls);
}

/// Law: extraction is a function of the text and the settings alone — two
/// extractions of the same text under the same settings yield the same
/// candidates, in the same order.
pub proof fn lemma_extraction_deterministic(
    first: Seq<Seq<char>>,
    second: Seq<Seq<char>>,
    text: Seq<char>,
    lengths: Seq<usize>,
    strict: bool,
    skip_urls: bool,
)
    requires
        first == candidates(text, lengths, strict, skip_urls),
        second == candidates(text, lengths, strict, skip_urls),
    ensures
        first == second,
{
}

/// Splits `text` into its white-space-delimited words.
fn split_words(text: &str) -> (ws: Vec<String>)
    ensures
        ws.deep_view() == words(text@),
{
    let n = text.unicode_len();
    let mut ws: Vec<String> = Vec::new();
    let mut cur = String::new();
    let mut i: usize = 0;
    proof {
        assert(text@.skip(0) =~= text@);
        assert(ws.deep_view() =~~= Seq::<Seq<char>>::empty());
        assert(Seq::<Seq<char>>::empty() + words_from(text@, cur@) =~~= words_from(text@, cur@));
    }
    while i < n
        invariant
            n == text@.len(),
            i <= n,
            words(text@) == ws.deep_view() + words_from(text@.skip(i as int), cur@),
        decreases n - i,
    {
        let c = text.get_char(i);
        proof {
            assert(text@.skip(i as int)[0] == text@[i as int]);
            assert(text@.skip(i as int).drop_first() =~= text@.skip(i as int + 1));
        }
        if space_char(c) {
            if !cur.as_str().is_empty() {
                let ghost old_ws = ws.deep_view();
                let ghost cur_view = cur@;
                ws.push(cur);
                cur = String::new();
                proof {
                    assert(ws.deep_view() =~~= old_ws + seq![cur_view]);
                    assert(old_ws + (seq![cur_view] + words_from(
                        text@.skip(i as int + 1),
                        Seq::empty(),
                    )) =~~= (old_ws + seq![cur_view]) + words_from(
                        text@.skip(i as int + 1),
                        Seq::empty(),
                    ));
                }
            } else {
                proof {
                    assert(cur@ =~= Seq::<char>::empty());
                }
            }
        } else {
            push_char(&mut cur, c);
        }
        i += 1;
    }
    proof {
        assert(text@.skip(n as int) =~= Seq::<char>::empty());
    }
    if !cur.as_str().is_empty() {
        let ghost old_ws = ws.deep_view();
        let ghost cur_view = cur@;
        ws.push(cur);
        proof {
            assert(ws.deep_view() =~~= old_ws + seq![cur_view]);
        }
    } else {
        proof {
            assert(cur@ =~= Seq::<char>::empty());
        }
    }
    proof {
        assert(words(text@) =~~= ws.deep_view());
    }
    ws
}

/// Normalizes one word: keeps its ASCII letters and digits, strips the rest.
fn strip_exec(w: &str) -> (s: String)
    ensures
        s@ == strip_word(w@),
{
    let n = w.unicode_len();
    let mut s = String::new();
    let mut i: usize = 0;
    while i < n
        invariant
            n == w@.len(),
            i <= n,
            s@ == strip_word(w@.take(i as int)),
        decreases n - i,
    {
        let c = w.get_char(i);
        proof {
            assert(w@.take(i as int + 1).drop_last() =~= w@.take(i as int));
            assert(w@.take(i as int + 1).last() == w@[i as int]);
        }
        if key_char(c) {
            push_char(&mut s, c);
        }
        i += 1;
    }
    proof {
        assert(w@.take(n as int) =~= w@);
    }
    s
}

/// Whether `s` holds at least one ASCII letter, and whether it holds at
/// least one ASCII digit.
fn scan_flags(s: &str) -> (r: (bool, bool))
    ensures
        r.0 == has_letter(s@),
        r.1 == has_digit(s@),
{
    let n = s.unicode_len();
    let mut saw_letter = false;
    let mut saw_digit = false;
    let mut i: usize = 0;
    while i < n
        invariant
            n == s@.len(),
            i <= n,
            saw_letter == has_letter(s@.take(i as int)),
            saw_digit == has_digit(s@.take(i as int)),
        decreases n - i,
    {
        let c = s.get_char(i);
        let ghost prefix = s@.take(i as int);
        let ghost longer = s@.take(i as int + 1);
        proof {
            assert(longer.drop_last() =~= prefix);
            assert(longer.last() == s@[i as int]);
            assert forall|j: int| 0 <= j < longer.len() implies longer[j] == (if j < prefix.len() {
                prefix[j]
            } else {
                s@[i as int]
            }) by {}
        }
        if letter_char(c) {
            saw_letter = true;
            proof {
                assert(is_letter_char(longer[i as int]));
            }
        }
        if digit_char(c) {
            saw_digit = true;
            proof {
                assert(is_digit_char(longer[i as int]));
            }
        }
        proof {
            if has_letter(longer) && !has_letter(prefix) && !is_letter_char(s@[i as int]) {
                let j = choose|j: int| 0 <= j < longer.len() && is_letter_char(#[trigger] longer[j]);
                assert(is_letter_char(prefix[j]));
            }
            if has_digit(longer) && !has_digit(prefix) && !is_digit_char(s@[i as int]) {
                let j = choose|j: int| 0 <= j < longer.len() && is_digit_char(#[trigger] longer[j]);
                assert(is_digit_char(prefix[j]));
            }
        }
        i += 1;
    }
    proof {
        assert(s@.take(n as int) =~= s@);
    }
    (saw_letter, saw_digit)
}

/// Whether `n` is one of the accepted key lengths.
fn length_accepted(n: usize, lengths: &Vec<usize>) -> (r: bool)
    ensures
        r == len_accepted(n as nat, lengths@),
{
    let mut i: usize = 0;
    while i < lengths.len()
        invariant
            i <= lengths@.len(),
            forall|j: int| 0 <= j < i ==> #[trigger] lengths@[j] as nat != n as nat,
        decreases lengths@.len() - i,
    {
        if lengths[i] == n {
            return true;
        }
        i += 1;
    }
    false
}

/// Whether the raw word begins with an `http:` or `https:` scheme prefix.
fn url_word(w: &str) -> (r: bool)
    ensures
        r == is_url_word(w@),
{
    let n = w.unicode_len();
    if n < 5 {
        return false;
    }
    if !(w.get_char(0) == 'h' && w.get_char(1) == 't' && w.get_char(2) == 't' && w.get_char(3)
        == 'p') {
        return false;
    }
    if w.get_char(4) == ':' {
        return true;
    }
    n >= 6 && w.get_char(4) == 's' && w.get_char(5) == ':'
}

/// Extracts the candidate keys of `text`: splits it on white space,
/// normalizes each word to its ASCII letters and digits, and keeps the words
/// of an accepted length — under the strict rule only those holding both a
/// letter and a digit, and with `skip_urls` none that begins with an `http:`
/// or `https:` scheme prefix. Order of occurrence and duplicates are
/// preserved.
pub fn get_potential_keys(
    text: &str,
    key_lengths: &Vec<usize>,
    strict: bool,
    skip_urls: bool,
) -> (keys: Vec<String>)
    ensures
        keys.deep_view() == candidates(text@, key_lengths@, strict, skip_urls),
{
    let ws = split_words(text);
    let mut keys: Vec<String> = Vec::new();
    let mut k: usize = 0;
    proof {
        assert(keys.deep_view() =~~= Seq::<Seq<char>>::empty());
        assert(ws.deep_view().take(0) =~= Seq::<Seq<char>>::empty());
    }
    while k < ws.len()
        invariant
            ws@.len() == ws.deep_view().len(),
            k <= ws@.len(),
            ws.deep_view() == words(text@),
            keys.deep_view() == selected(ws.deep_view().take(k as int), key_lengths@, strict, skip_urls),
        decreases ws@.len() - k,
    {
        let ghost taken = ws.deep_view().take(k as int + 1);
        proof {
            assert(taken.drop_last() =~= ws.deep_view().take(k as int));
            assert(taken.last() == ws.deep_view()[k as int]);
            assert(ws.deep_view()[k as int] == ws@[k as int]@);
        }
        let w = &ws[k];
        let stripped = strip_exec(w.as_str());
        let not_url = !(skip_urls && url_word(w.as_str()));
        let good_len = length_accepted(stripped.as_str().unicode_len(), key_lengths);
        let (saw_letter, saw_digit) = scan_flags(stripped.as_str());
        let keep = not_url && good_len && (!strict || (saw_letter && saw_digit));
        proof {
            assert(keep == keep_word(ws@[k as int]@, key_lengths@, strict, skip_urls));
        }
        if keep {
            let ghost old_keys = keys.deep_view();
            keys.push(stripped);
            proof {
                assert(keys.deep_view() =~~= old_keys.push(strip_word(ws@[k as int]@)));
            }
        }
        k += 1;
    }
    proof {
        assert(ws.deep_view().take(ws@.len() as int) =~= ws.deep_view());
    }
    keys
}

} // verus!
