//! Splitting one pipe segment into whitespace-separated tokens.
//!
//! The grammar keeps quoted substrings and backslash-escaped characters
//! intact: a double-quoted run becomes part of the surrounding token with its
//! quotes removed (so embedded whitespace survives), and a backslash keeps
//! itself and the character after it verbatim, stripping that character of any
//! special meaning. A quote that is never closed, or a backslash with nothing
//! after it, is a malformed segment.

use vstd::prelude::*;

verus! {

/// The way a segment failed to tokenize.
#[derive(Debug, Clone, Copy, PartialEq, Eq, Structural)]
pub enum TokenFault {
    UnterminatedQuote,
    TrailingEscape,
}

/// The views of a sequence of strings.
pub open spec fn views_of(ss: Seq<String>) -> Seq<Seq<char>> {
    Seq::new(ss.len(), |j: int| ss[j]@)
}

pub proof fn lemma_views_of_push(ss: Seq<String>, x: String)
    ensures
        views_of(ss.push(x)) =~= views_of(ss).push(x@),
{
    assert forall|j: int| 0 <= j < ss.len() + 1 implies views_of(ss.push(x))[j] == views_of(
        ss,
    ).push(x@)[j] by {
        if j < ss.len() {
            assert(ss.push(x)[j] == ss[j]);
        }
    }
}

/// The tokenizer, one character at a time: `i` characters of `s` are consumed,
/// `done` holds the finished tokens, `cur` the token being built, `started`
/// whether `cur` is underway (so that `""` yields an empty token), and
/// `quoted` whether a double quote is open.
pub open spec fn tokenize_from(
    s: Seq<char>,
    i: int,
    done: Seq<Seq<char>>,
    cur: Seq<char>,
    started: bool,
    quoted: bool,
) -> Result<Seq<Seq<char>>, TokenFault>
    decreases s.len() - i,
{
    if i < 0 || i >= s.len() {
        if quoted {
            Err(TokenFault::UnterminatedQuote)
        } else if started {
            Ok(done.push(cur))
        } else {
            Ok(done)
        }
    } else {
        let c = s[i];
        if c == '\\' {
            if i + 1 >= s.len() {
                Err(TokenFault::TrailingEscape)
            } else {
                tokenize_from(s, i + 2, done, cur.push('\\').push(s[i + 1]), true, quoted)
            }
        } else if quoted {
            if c == '"' {
                tokenize_from(s, i + 1, done, cur, true, false)
            } else {
                tokenize_from(s, i + 1, done, cur.push(c), true, true)
            }
        } else if c == '"' {
            tokenize_from(s, i + 1, done, cur, true, true)
        } else if c == ' ' || c == '\t' {
            if started {
                tokenize_from(s, i + 1, done.push(cur), Seq::empty(), false, false)
            } else {
                tokenize_from(s, i + 1, done, cur, false, false)
            }
        } else {
            tokenize_from(s, i + 1, done, cur.push(c), true, false)
        }
    }
}

/// The tokens of a whole segment, or the fault that makes it malformed.
pub open spec fn tokenize(s: Seq<char>) -> Result<Seq<Seq<char>>, TokenFault> {
    tokenize_from(s, 0, Seq::empty(), Seq::empty(), false, false)
}

/// Relies on `String: FromIterator<char>`: collecting an iterator of
/// characters builds the string holding exactly those characters in order.
#[verifier::external_body]
pub(crate) fn chars_to_string(cs: &Vec<char>) -> (r: String)
    ensures
        r@ == cs@,
{
    cs.iter().collect()
}

/// Split one segment into its tokens, exactly as [`tokenize`] describes.
pub fn tokenize_str(s: &str) -> (r: Result<Vec<String>, TokenFault>)
    ensures
        match tokenize(s@) {
            Ok(toks) => r matches Ok(v) && views_of(v@) == toks,
            Err(f) => r matches Err(g) && g == f,
        },
{
    let n = s.unicode_len();
    let mut i: usize = 0;
    let mut done: Vec<String> = Vec::new();
    let mut cur: Vec<char> = Vec::new();
    let mut started = false;
    let mut quoted = false;
    proof {
        assert(views_of(done@) =~= Seq::<Seq<char>>::empty());
    }
    while i < n
        invariant
            n == s@.len(),
            i <= n,
            quoted ==> started,
            tokenize_from(s@, i as int, views_of(done@), cur@, started, quoted) == tokenize(s@),
        decreases n - i,
    {
        let c = s.get_char(i);
        if c == '\\' {
            if i + 1 >= n {
                return Err(TokenFault::TrailingEscape);
            }
            let d = s.get_char(i + 1);
            cur.push('\\');
            cur.push(d);
            started = true;
            i = i + 2;
        } else if quoted {
            if c == '"' {
                quoted = false;
            } else {
                cur.push(c);
            }
            i = i + 1;
        } else if c == '"' {
            started = true;
            quoted = true;
            i = i + 1;
        } else if c == ' ' || c == '\t' {
            if started {
                let tok = chars_to_string(&cur);
                proof {
                    lemma_views_of_push(done@, tok);
                }
                done.push(tok);
                cur = Vec::new();
                started = false;
            }
            i = i + 1;
        } else {
            cur.push(c);
            started = true;
            i = i + 1;
        }
    }
    if quoted {
        return Err(TokenFault::UnterminatedQuote);
    }
    if started {
        let tok = chars_to_string(&cur);
        proof {
            lemma_views_of_push(done@, tok);
        }
        done.push(tok);
    }
    Ok(done)
}

} // verus!
