//! Splitting an HTTP request line into its method, path and protocol
//! version. The line is cut at its first two spaces; the remainder is
//! the version with surrounding ASCII whitespace trimmed off.

use vstd::prelude::*;
use vstd::string::StrSliceExecFns;

verus! {

/// ASCII whitespace, as trimmed around the version field.
pub open spec fn is_line_space(c: char) -> bool {
    c == ' ' || c == '\t' || c == '\r' || c == '\n'
}

/// A sequence of characters with its leading ASCII whitespace removed.
pub open spec fn trim_front(s: Seq<char>) -> Seq<char>
    decreases s.len(),
{
    if s.len() > 0 && is_line_space(s[0]) {
        trim_front(s.skip(1))
    } else {
        s
    }
}

/// A sequence of characters with its trailing ASCII whitespace removed.
pub open spec fn trim_back(s: Seq<char>) -> Seq<char>
    decreases s.len(),
{
    if s.len() > 0 && is_line_space(s[s.len() - 1]) {
        trim_back(s.take(s.len() - 1))
    } else {
        s
    }
}

/// A sequence of characters with ASCII whitespace removed on both ends.
pub open spec fn trimmed(s: Seq<char>) -> Seq<char> {
    trim_back(trim_front(s))
}

proof fn lemma_trim_front_is_skip(s: Seq<char>, a: int)
    requires
        0 <= a <= s.len(),
        forall|k: int| 0 <= k < a ==> is_line_space(s[k]),
        a == s.len() || !is_line_space(s[a]),
    ensures
        trim_front(s) == s.skip(a),
    decreases a,
{
    if a == 0 {
        assert(s.skip(0) =~= s);
    } else {
        assert(is_line_space(s[0]));
        lemma_trim_front_is_skip(s.skip(1), a - 1);
        assert(s.skip(1).skip(a - 1) =~= s.skip(a));
    }
}

proof fn lemma_trim_back_is_take(s: Seq<char>, b: int)
    requires
        0 <= b <= s.len(),
        forall|k: int| b <= k < s.len() ==> is_line_space(s[k]),
        b == 0 || !is_line_space(s[b - 1]),
    ensures
        trim_back(s) == s.take(b),
    decreases s.len(),
{
    if b == s.len() {
        assert(s.take(b) =~= s);
    } else {
        assert(is_line_space(s[s.len() - 1]));
        lemma_trim_back_is_take(s.take(s.len() - 1), b);
    }
}

/// Find the first space at or after `from`; one must exist.
fn find_space_from(s: &str, from: usize) -> (r: usize)
    requires
        s@.len() <= usize::MAX,
        exists|k: int| from <= k < s@.len() && s@[k] == ' ',
    ensures
        from <= r < s@.len(),
        s@[r as int] == ' ',
        forall|k: int| from <= k < r ==> s@[k] != ' ',
{
    let mut i: usize = from;
    loop
        invariant
            s@.len() <= usize::MAX,
            from <= i,
            exists|k: int| i <= k < s@.len() && s@[k] == ' ',
            forall|k: int| from <= k < i ==> s@[k] != ' ',
        decreases s@.len() - i,
    {
        if s.get_char(i) == ' ' {
            return i;
        }
        i = i + 1;
    }
}

/// Trim ASCII whitespace from both ends of a string slice.
fn trim_line_spaces(s: &str) -> (r: &str)
    ensures
        r@ == trimmed(s@),
{
    let n: usize = s.unicode_len();
    let mut a: usize = 0;
    while a < n && is_space_char(s.get_char(a))
        invariant
            0 <= a <= n,
            n == s@.len(),
            forall|k: int| 0 <= k < a ==> is_line_space(s@[k]),
        decreases n - a,
    {
        a = a + 1;
    }
    let mut b: usize = n;
    while b > a && is_space_char(s.get_char(b - 1))
        invariant
            a <= b <= n,
            n == s@.len(),
            forall|k: int| 0 <= k < a ==> is_line_space(s@[k]),
            forall|k: int| b <= k < n ==> is_line_space(s@[k]),
        decreases b,
    {
        b = b - 1;
    }
    proof {
        lemma_trim_front_is_skip(s@, a as int);
        lemma_trim_back_is_take(s@.skip(a as int), b - a);
        assert(s@.skip(a as int).take(b - a) =~= s@.subrange(a as int, b as int));
    }
    s.substring_char(a, b)
}

/// Whether a character is ASCII whitespace.
fn is_space_char(c: char) -> (r: bool)
    ensures
        r == is_line_space(c),
{
    c == ' ' || c == '\t' || c == '\r' || c == '\n'
}

/// Split a request line at its first two spaces into method, path
/// and version; the version is the remainder with surrounding ASCII
/// whitespace trimmed off. The line must hold at least two spaces.
pub fn parse_http_headline(headline: &String) -> (r: (&str, &str, &str))
    requires
        exists|i: int, j: int|
            0 <= i < j < headline@.len() && headline@[i] == ' ' && headline@[j] == ' ',
    ensures
        ({
            let s = headline@;
            let m = r.0@;
            let p = r.1@;
            &&& m.len() + 1 + p.len() + 1 <= s.len()
            &&& m == s.subrange(0, m.len() as int)
            &&& s[m.len() as int] == ' '
            &&& forall|k: int| 0 <= k < m.len() ==> s[k] != ' '
            &&& p == s.subrange((m.len() + 1) as int, (m.len() + 1 + p.len()) as int)
            &&& s[(m.len() + 1 + p.len()) as int] == ' '
            &&& forall|k: int| m.len() + 1 <= k < m.len() + 1 + p.len() ==> s[k] != ' '
            &&& r.2@ == trimmed(s.subrange((m.len() + 2 + p.len()) as int, s.len() as int))
        }),
{
    let s: &str = headline.as_str();
    let n: usize = s.unicode_len();
    let i = find_space_from(s, 0);
    proof {
        let (i0, j0) = choose|i0: int, j0: int|
            0 <= i0 < j0 < s@.len() && s@[i0] == ' ' && s@[j0] == ' ';
        assert(i <= i0);
        assert(i + 1 <= j0 < s@.len() && s@[j0] == ' ');
    }
    let j = find_space_from(s, i + 1);
    let method = s.substring_char(0, i);
    let path = s.substring_char(i + 1, j);
    let rest = s.substring_char(j + 1, n);
    let version = trim_line_spaces(rest);
    proof {
        assert(method@.len() == i as int);
        assert(path@.len() == j - i - 1);
        assert(rest@ =~= s@.subrange(j + 1, s@.len() as int));
    }
    (method, path, version)
}

} // verus!
