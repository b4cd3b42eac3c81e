//! Resolves backslash escape sequences inside a word.
use vstd::prelude::*;
use crate::text::{chars_of, string_from_chars};

verus! {

pub open spec fn is_octal(c: char) -> bool {
    '0' <= c && c <= '7'
}

pub open spec fn octal_digit(c: char) -> int {
    c as int - '0' as int
}

/// How many octal digits an escape that starts at `j` takes: the digit at
/// `j` and at most two more.
pub open spec fn octal_run(s: Seq<char>, j: int) -> int {
    if j + 1 < s.len() && is_octal(s[j + 1]) {
        if j + 2 < s.len() && is_octal(s[j + 2]) {
            3
        } else {
            2
        }
    } else {
        1
    }
}

/// The value, base 8, of the `k` digits from `j`.
pub open spec fn octal_value(s: Seq<char>, j: int, k: int) -> int
    decreases k,
{
    if k <= 0 {
        0
    } else {
        octal_value(s, j, k - 1) * 8 + octal_digit(s[j + k - 1])
    }
}

/// What an escaped character other than an octal digit stands for.
pub open spec fn escaped(c: char) -> char {
    if c == 'n' {
        '\n'
    } else if c == 't' {
        '\t'
    } else if c == 'r' {
        '\r'
    } else {
        c
    }
}

/// The resolution of `s` from position `i`. A backslash at the very end is
/// dropped. An octal escape whose value does not fit in a byte yields nothing.
pub open spec fn resolve_from(s: Seq<char>, i: int) -> Seq<char>
    decreases s.len() - i,
{
    if i < 0 || i >= s.len() {
        Seq::empty()
    } else if s[i] != '\\' {
        seq![s[i]] + resolve_from(s, i + 1)
    } else if i + 1 >= s.len() {
        Seq::empty()
    } else if is_octal(s[i + 1]) {
        let k = octal_run(s, i + 1);
        let v = octal_value(s, i + 1, k);
        if v < 256 {
            seq![(v as u8) as char] + resolve_from(s, i + 1 + k)
        } else {
            resolve_from(s, i + 1 + k)
        }
    } else {
        seq![escaped(s[i + 1])] + resolve_from(s, i + 2)
    }
}

pub open spec fn resolve(s: Seq<char>) -> Seq<char> {
    resolve_from(s, 0)
}

proof fn lemma_octal_value_bound(s: Seq<char>, j: int, k: int)
    requires
        0 <= j,
        0 <= k <= 3,
        j + k <= s.len(),
        forall|t: int| j <= t < j + k ==> is_octal(#[trigger] s[t]),
    ensures
        0 <= octal_value(s, j, k) < 512,
    decreases k,
{
    if k > 0 {
        lemma_octal_value_bound(s, j, k - 1);
        let p = octal_value(s, j, k - 1);
        if k == 1 {
            assert(octal_value(s, j, 0) == 0);
        } else if k == 2 {
            lemma_octal_value_bound(s, j, 1);
            assert(octal_value(s, j, 1) < 8) by {
                assert(octal_value(s, j, 0) == 0);
            }
        } else {
            assert(octal_value(s, j, 1) < 8) by {
                assert(octal_value(s, j, 0) == 0);
            }
            assert(octal_value(s, j, 2) < 64);
        }
    }
}

/// Expands `\n`, `\t`, `\r`, `\\`, `\'`, `\"` and octal escapes of one to
/// three digits; any other escaped character stands for itself.
pub fn unescape_string(s: &str) -> (r: String)
    ensures
        r@ == resolve(s@),
{
    let cs = chars_of(s);
    let n = cs.len();
    let mut out: Vec<char> = Vec::new();
    let mut i: usize = 0;
    while i < n
        invariant
            n == cs@.len(),
            cs@ == s@,
            i <= n,
            out@ + resolve_from(s@, i as int) == resolve(s@),
        decreases n - i,
    {
        let c = cs[i];
        if c != '\\' {
            out.push(c);
            i = i + 1;
            assert(out@ + resolve_from(s@, i as int) =~= resolve(s@));
        } else if i + 1 >= n {
            i = n;
            assert(out@ + resolve_from(s@, i as int) =~= resolve(s@));
        } else {
            let d = cs[i + 1];
            if '0' <= d && d <= '7' {
                let mut k: usize = 1;
                let mut v: u32 = (d as u32) - ('0' as u32);
                assert(octal_value(s@, i + 1, 1) == v) by {
                    assert(octal_value(s@, i + 1, 0) == 0);
                }
                while k < 3 && i + 1 + k < n && '0' <= cs[i + 1 + k] && cs[i + 1 + k] <= '7'
                    invariant
                        n == cs@.len(),
                        cs@ == s@,
                        i + 1 < n,
                        is_octal(s@[i + 1]),
                        1 <= k <= 3,
                        i + 1 + k <= n,
                        forall|t: int| i + 1 <= t < i + 1 + k ==> is_octal(#[trigger] s@[t]),
                        v == octal_value(s@, i + 1, k as int),
                        k >= 2 ==> is_octal(s@[i + 2]),
                    decreases 3 - k,
                {
                    proof {
                        lemma_octal_value_bound(s@, i + 1, k as int);
                    }
                    v = v * 8 + ((cs[i + 1 + k] as u32) - ('0' as u32));
                    k = k + 1;
                }
                proof {
                    lemma_octal_value_bound(s@, i + 1, k as int);
                    assert(k as int == octal_run(s@, i + 1));
                }
                if v < 256 {
                    out.push((v as u8) as char);
                }
                i = i + 1 + k;
                assert(out@ + resolve_from(s@, i as int) =~= resolve(s@));
            } else {
                let e = if d == 'n' {
                    '\n'
                } else if d == 't' {
                    '\t'
                } else if d == 'r' {
                    '\r'
                } else {
                    d
                };
                out.push(e);
                i = i + 2;
                assert(out@ + resolve_from(s@, i as int) =~= resolve(s@));
            }
        }
    }
    assert(out@ =~= resolve(s@));
    string_from_chars(&out)
}

} // verus!
