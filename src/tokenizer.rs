//! Splits one input line into words, honouring single and double quotes and
//! backslash escapes.
use vstd::prelude::*;
use crate::text::{chars_of, string_from_chars, views, lemma_views_push};

verus! {

/// The characters that a backslash escapes inside double quotes.
pub open spec fn preserved(c: char) -> bool {
    c == '"' || c == '\\' || c == '$' || c == '`'
}

pub open spec fn is_blank(c: char) -> bool {
    c == ' ' || c == '\t'
}

/// Ends the word under way: an empty word is never emitted.
pub open spec fn flush(words: Seq<Seq<char>>, cur: Seq<char>) -> Seq<Seq<char>> {
    if cur.len() == 0 {
        words
    } else {
        words.push(cur)
    }
}

/// The scan from position `i` of `s`, with the words found so far, the word
/// under way and the open quote, if any.
pub open spec fn scan(
    s: Seq<char>,
    i: int,
    words: Seq<Seq<char>>,
    cur: Seq<char>,
    quote: Option<char>,
) -> Seq<Seq<char>>
    decreases s.len() - i,
{
    if i < 0 || i >= s.len() {
        flush(words, cur)
    } else {
        let c = s[i];
        if c == '\\' && quote != Some('\'') {
            if i + 1 >= s.len() {
                flush(words, cur)
            } else {
                let n = s[i + 1];
                if quote == Some('"') && !preserved(n) {
                    scan(s, i + 2, words, cur.push('\\').push(n), quote)
                } else {
                    scan(s, i + 2, words, cur.push(n), quote)
                }
            }
        } else if c == '\'' || c == '"' {
            match quote {
                None => scan(s, i + 1, words, cur, Some(c)),
                Some(q) => if q == c {
                    scan(s, i + 1, words, cur, None)
                } else {
                    scan(s, i + 1, words, cur.push(c), quote)
                },
            }
        } else if is_blank(c) && quote is None {
            scan(s, i + 1, flush(words, cur), Seq::empty(), quote)
        } else {
            scan(s, i + 1, words, cur.push(c), quote)
        }
    }
}

/// The words of a line.
pub open spec fn tokenize(s: Seq<char>) -> Seq<Seq<char>> {
    scan(s, 0, Seq::empty(), Seq::empty(), None)
}

pub open spec fn all_nonempty(words: Seq<Seq<char>>) -> bool {
    forall|k: int| 0 <= k < words.len() ==> #[trigger] words[k].len() > 0
}

proof fn lemma_scan_nonempty(
    s: Seq<char>,
    i: int,
    words: Seq<Seq<char>>,
    cur: Seq<char>,
    quote: Option<char>,
)
    requires
        all_nonempty(words),
    ensures
        all_nonempty(scan(s, i, words, cur, quote)),
    decreases s.len() - i,
{
    assert(all_nonempty(flush(words, cur))) by {
        if cur.len() > 0 {
            assert forall|k: int| 0 <= k < words.push(cur).len() implies #[trigger] words.push(cur)[k].len() > 0 by {
                if k < words.len() {
                    assert(words.push(cur)[k] == words[k]);
                }
            }
        }
    }
    if 0 <= i < s.len() {
        let c = s[i];
        if c == '\\' && quote != Some('\'') {
            if i + 1 < s.len() {
                let n = s[i + 1];
                if quote == Some('"') && !preserved(n) {
                    lemma_scan_nonempty(s, i + 2, words, cur.push('\\').push(n), quote);
                } else {
                    lemma_scan_nonempty(s, i + 2, words, cur.push(n), quote);
                }
            }
        } else if c == '\'' || c == '"' {
            match quote {
                None => lemma_scan_nonempty(s, i + 1, words, cur, Some(c)),
                Some(q) => if q == c {
                    lemma_scan_nonempty(s, i + 1, words, cur, None);
                } else {
                    lemma_scan_nonempty(s, i + 1, words, cur.push(c), quote);
                },
            }
        } else if is_blank(c) && quote is None {
            lemma_scan_nonempty(s, i + 1, flush(words, cur), Seq::empty(), quote);
        } else {
            lemma_scan_nonempty(s, i + 1, words, cur.push(c), quote);
        }
    }
}

fn flush_word(words: &mut Vec<String>, cur: &Vec<char>)
    ensures
        views(final(words)@) == flush(views(old(words)@), cur@),
{
    if cur.len() > 0 {
        let w = string_from_chars(cur);
        proof {
            lemma_views_push(words@, w);
        }
        words.push(w);
    }
}

/// Splits `input` into words. Outside quotes, blanks separate words and a
/// backslash makes the next character literal. Inside single quotes every
/// character is literal. Inside double quotes a backslash escapes only
/// `"`, `\`, `$` and `` ` ``, and is kept before any other character. Quote
/// characters themselves are dropped; an unterminated quote runs to the end
/// of the line. No word is empty.
pub fn parse_single_quotes(input: &str) -> (r: Vec<String>)
    ensures
        views(r@) == tokenize(input@),
        all_nonempty(views(r@)),
{
    proof {
        lemma_scan_nonempty(input@, 0, Seq::empty(), Seq::empty(), None);
    }
    let s = chars_of(input);
    let n = s.len();
    let mut words: Vec<String> = Vec::new();
    let mut cur: Vec<char> = Vec::new();
    let mut quote: Option<char> = None;
    let mut i: usize = 0;
    assert(views(words@) =~= Seq::<Seq<char>>::empty());
    while i < n
        invariant
            n == s@.len(),
            s@ == input@,
            i <= n,
            scan(s@, i as int, views(words@), cur@, quote) == tokenize(input@),
        decreases n - i,
    {
        let c = s[i];
        if c == '\\' && quote != Some('\'') {
            if i + 1 >= n {
                i = n;
            } else {
                let next = s[i + 1];
                if quote == Some('"') && !(next == '"' || next == '\\' || next == '$' || next == '`') {
                    cur.push('\\');
                }
                cur.push(next);
                i = i + 2;
            }
        } else if c == '\'' || c == '"' {
            match quote {
                None => {
                    quote = Some(c);
                },
                Some(q) => {
                    if q == c {
                        quote = None;
                    } else {
                        cur.push(c);
                    }
                },
            }
            i = i + 1;
        } else if (c == ' ' || c == '\t') && quote.is_none() {
            flush_word(&mut words, &cur);
            cur = Vec::new();
            i = i + 1;
        } else {
            cur.push(c);
            i = i + 1;
        }
    }
    flush_word(&mut words, &cur);
    words
}

} // verus!
