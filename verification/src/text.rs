//! Character-level text primitives shared by the rule checkers:
//! substring occurrence, splitting content into lines, trimming, and
//! small character-class predicates.  Every executable function is
//! proved against a spec function over `Seq<char>`.

use vstd::prelude::*;

verus! {

/// Word characters: ASCII letters, digits and underscore.  A rule token
/// must not match as a substring of a longer identifier, so a match may
/// not be preceded by one of these.  Identifiers are taken as ASCII: a
/// non-ASCII letter before a token does not glue onto it.  This is a
/// known limitation on non-ASCII input.
pub open spec fn is_word_char(c: char) -> bool {
    ('a' <= c && c <= 'z') || ('A' <= c && c <= 'Z') || ('0' <= c && c <= '9') || c == '_'
}

/// Whitespace characters: the Unicode White_Space set.
pub open spec fn is_space_char(c: char) -> bool {
    ||| ('\u{9}' <= c && c <= '\u{d}')
    ||| c == ' '
    ||| c == '\u{85}'
    ||| c == '\u{a0}'
    ||| c == '\u{1680}'
    ||| ('\u{2000}' <= c && c <= '\u{200a}')
    ||| c == '\u{2028}'
    ||| c == '\u{2029}'
    ||| c == '\u{202f}'
    ||| c == '\u{205f}'
    ||| c == '\u{3000}'
}

pub fn word_char(c: char) -> (b: bool)
    ensures
        b == is_word_char(c),
{
    ('a' <= c && c <= 'z') || ('A' <= c && c <= 'Z') || ('0' <= c && c <= '9') || c == '_'
}

pub fn space_char(c: char) -> (b: bool)
    ensures
        b == is_space_char(c),
{
    ('\u{9}' <= c && c <= '\u{d}') || c == ' ' || c == '\u{85}' || c == '\u{a0}'
        || c == '\u{1680}' || ('\u{2000}' <= c && c <= '\u{200a}') || c == '\u{2028}'
        || c == '\u{2029}' || c == '\u{202f}' || c == '\u{205f}' || c == '\u{3000}'
}

/// `pat` occurs in `text` starting at position `i`.
pub open spec fn occurs_at(text: Seq<char>, i: int, pat: Seq<char>) -> bool {
    &&& 0 <= i
    &&& i + pat.len() <= text.len()
    &&& text.subrange(i, i + pat.len()) == pat
}

/// `pat` occurs somewhere in `text`.
pub open spec fn contains_seq(text: Seq<char>, pat: Seq<char>) -> bool {
    exists|i: int| occurs_at(text, i, pat)
}

/// Whether `pat` occurs in `text` starting at position `i`.
pub fn occurs_at_pos(text: &str, i: usize, pat: &str) -> (b: bool)
    requires
        i + pat@.len() <= text@.len(),
    ensures
        b == occurs_at(text@, i as int, pat@),
{
    let n = text.unicode_len();
    let m = pat.unicode_len();
    let mut j: usize = 0;
    while j < m
        invariant
            n == text@.len(),
            m == pat@.len(),
            i + m <= text@.len(),
            j <= m,
            forall|k: int| 0 <= k < j ==> text@[i + k] == pat@[k],
        decreases m - j,
    {
        if text.get_char(i + j) != pat.get_char(j) {
            proof {
                if occurs_at(text@, i as int, pat@) {
                    assert(text@.subrange(i as int, i + pat@.len())[j as int] == pat@[j as int]);
                }
            }
            return false;
        }
        j += 1;
    }
    proof {
        assert(text@.subrange(i as int, i + pat@.len()) =~= pat@);
    }
    true
}

/// Whether `pat` occurs anywhere in `text`.
pub fn contains_str(text: &str, pat: &str) -> (b: bool)
    ensures
        b == contains_seq(text@, pat@),
{
    let n = text.unicode_len();
    let m = pat.unicode_len();
    if m > n {
        proof {
            assert forall|i: int| !occurs_at(text@, i, pat@) by {}
        }
        return false;
    }
    if m == 0 {
        proof {
            assert(text@.subrange(0, 0) =~= pat@);
            assert(occurs_at(text@, 0, pat@));
        }
        return true;
    }
    let mut i: usize = 0;
    while i <= n - m
        invariant
            n == text@.len(),
            m == pat@.len(),
            1 <= m <= n,
            i <= n - m + 1,
            forall|j: int| 0 <= j < i ==> !occurs_at(text@, j, pat@),
        decreases n - m + 1 - i,
    {
        if occurs_at_pos(text, i, pat) {
            return true;
        }
        i += 1;
    }
    proof {
        assert forall|j: int| !occurs_at(text@, j, pat@) by {
            if 0 <= j && j + pat@.len() <= text@.len() {
                assert(j < i);
            }
        }
    }
    false
}

/// Whether `text` starts with `pat`.
pub fn starts_with_str(text: &str, pat: &str) -> (b: bool)
    ensures
        b == occurs_at(text@, 0, pat@),
{
    let n = text.unicode_len();
    let m = pat.unicode_len();
    if m > n {
        return false;
    }
    occurs_at_pos(text, 0, pat)
}

/// Index of the first newline in `s`, or `s.len()` if there is none.
pub open spec fn first_nl(s: Seq<char>) -> int
    decreases s.len(),
{
    if s.len() == 0 {
        0
    } else if s[0] == '\n' {
        0
    } else {
        1 + first_nl(s.subrange(1, s.len() as int))
    }
}

proof fn lemma_first_nl(s: Seq<char>)
    ensures
        0 <= first_nl(s) <= s.len(),
        first_nl(s) < s.len() ==> s[first_nl(s)] == '\n',
        forall|j: int| 0 <= j < first_nl(s) ==> s[j] != '\n',
    decreases s.len(),
{
    if s.len() == 0 {
    } else if s[0] == '\n' {
    } else {
        let t = s.subrange(1, s.len() as int);
        lemma_first_nl(t);
        assert forall|j: int| 0 <= j < first_nl(s) implies s[j] != '\n' by {
            if j > 0 {
                assert(s[j] == t[j - 1]);
            }
        }
        if first_nl(s) < s.len() {
            assert(s[first_nl(s)] == t[first_nl(s) - 1]);
        }
    }
}

/// `first_nl` is the unique position with no newline before it and a
/// newline (or the end of the text) at it.
proof fn lemma_first_nl_is(s: Seq<char>, k: int)
    requires
        0 <= k <= s.len(),
        forall|j: int| 0 <= j < k ==> s[j] != '\n',
        k < s.len() ==> s[k] == '\n',
    ensures
        first_nl(s) == k,
{
    lemma_first_nl(s);
    if first_nl(s) < k {
        assert(s[first_nl(s)] != '\n');
    } else if first_nl(s) > k {
        assert(k < s.len());
        assert(s[k] != '\n');
    }
}

/// A line with a trailing carriage return dropped (a `\r\n` line ending).
pub open spec fn strip_cr(l: Seq<char>) -> Seq<char> {
    if l.len() > 0 && l[l.len() - 1] == '\r' {
        l.subrange(0, l.len() - 1)
    } else {
        l
    }
}

/// The lines of `s`: split at `\n`, dropping a `\r` that stands just
/// before the `\n`; a final segment without a newline is a line as it
/// stands, and a final newline opens no further line.
pub open spec fn spec_lines(s: Seq<char>) -> Seq<Seq<char>>
    decreases s.len(),
{
    if s.len() == 0 {
        Seq::<Seq<char>>::empty()
    } else {
        let i = first_nl(s);
        if 0 <= i && i < s.len() {
            seq![strip_cr(s.subrange(0, i))] + spec_lines(s.subrange(i + 1, s.len() as int))
        } else {
            seq![s]
        }
    }
}

/// Split `content` into its lines.
pub fn split_lines(content: &str) -> (lines: Vec<String>)
    ensures
        lines@.len() == spec_lines(content@).len(),
        forall|k: int| 0 <= k < lines@.len() ==> lines@[k]@ == spec_lines(content@)[k],
{
    let n = content.unicode_len();
    let mut lines: Vec<String> = Vec::new();
    let mut start: usize = 0;
    let mut p: usize = 0;
    proof {
        assert(content@.subrange(0, n as int) =~= content@);
        assert(lines.deep_view() =~~= Seq::<Seq<char>>::empty());
        assert(lines.deep_view() + spec_lines(content@) =~~= spec_lines(content@));
    }
    while p < n
        invariant
            n == content@.len(),
            start <= p <= n,
            forall|j: int| start <= j < p ==> content@[j] != '\n',
            spec_lines(content@) == lines.deep_view() + spec_lines(
                content@.subrange(start as int, n as int),
            ),
        decreases n - p,
    {
        let c = content.get_char(p);
        if c == '\n' {
            let le: usize = if p > start && content.get_char(p - 1) == '\r' {
                p - 1
            } else {
                p
            };
            let line_str = content.substring_char(start, le);
            let ghost old_lines = lines.deep_view();
            lines.push(line_str.to_owned());
            proof {
                let suffix = content@.subrange(start as int, n as int);
                lemma_first_nl_is(suffix, p - start);
                assert(suffix.subrange(0, p - start) =~= content@.subrange(
                    start as int,
                    p as int,
                ));
                assert(strip_cr(suffix.subrange(0, p - start)) =~= content@.subrange(
                    start as int,
                    le as int,
                ));
                assert(suffix.subrange(p - start + 1, suffix.len() as int) =~= content@.subrange(
                    p + 1,
                    n as int,
                ));
                assert(lines.deep_view() =~~= old_lines + seq![line_str@]);
                assert(spec_lines(content@) =~~= lines.deep_view() + spec_lines(
                    content@.subrange(p + 1, n as int),
                ));
            }
            start = p + 1;
        }
        p += 1;
    }
    if start < n {
        let line_str = content.substring_char(start, n);
        let ghost old_lines = lines.deep_view();
        lines.push(line_str.to_owned());
        proof {
            let suffix = content@.subrange(start as int, n as int);
            lemma_first_nl_is(suffix, n - start);
            assert(lines.deep_view() =~~= old_lines + seq![line_str@]);
            assert(spec_lines(content@) =~~= lines.deep_view());
        }
    } else {
        proof {
            assert(content@.subrange(start as int, n as int).len() == 0);
            assert(spec_lines(content@) =~~= lines.deep_view());
        }
    }
    proof {
        assert forall|k: int| 0 <= k < lines@.len() implies lines@[k]@ == spec_lines(content@)[k] by {
            assert(lines.deep_view()[k] == lines@[k]@);
        }
    }
    lines
}

/// `l` without leading whitespace.
pub open spec fn spec_trim_start(l: Seq<char>) -> Seq<char>
    decreases l.len(),
{
    if l.len() == 0 {
        l
    } else if is_space_char(l[0]) {
        spec_trim_start(l.subrange(1, l.len() as int))
    } else {
        l
    }
}

/// `l` without trailing whitespace.
pub open spec fn spec_trim_end(l: Seq<char>) -> Seq<char>
    decreases l.len(),
{
    if l.len() == 0 {
        l
    } else if is_space_char(l[l.len() - 1]) {
        spec_trim_end(l.subrange(0, l.len() - 1))
    } else {
        l
    }
}

/// `l` without leading and trailing whitespace.
pub open spec fn spec_trim(l: Seq<char>) -> Seq<char> {
    spec_trim_end(spec_trim_start(l))
}

/// Trim leading and trailing whitespace from `s`.
pub fn trim_str(s: &str) -> (r: String)
    ensures
        r@ == spec_trim(s@),
{
    let n = s.unicode_len();
    let mut b: usize = 0;
    proof {
        assert(s@.subrange(0, n as int) =~= s@);
    }
    while b < n && space_char(s.get_char(b))
        invariant
            n == s@.len(),
            b <= n,
            spec_trim_start(s@) == spec_trim_start(s@.subrange(b as int, n as int)),
        decreases n - b,
    {
        proof {
            let cur = s@.subrange(b as int, n as int);
            assert(cur[0] == s@[b as int]);
            assert(cur.subrange(1, cur.len() as int) =~= s@.subrange(b + 1, n as int));
        }
        b += 1;
    }
    proof {
        let cur = s@.subrange(b as int, n as int);
        if b < n {
            assert(!is_space_char(cur[0]));
            assert(spec_trim_start(cur) == cur);
        }
        assert(spec_trim_start(s@) == s@.subrange(b as int, n as int));
    }
    let mut e: usize = n;
    while e > b && space_char(s.get_char(e - 1))
        invariant
            n == s@.len(),
            b <= e <= n,
            spec_trim_start(s@) == s@.subrange(b as int, n as int),
            spec_trim(s@) == spec_trim_end(s@.subrange(b as int, e as int)),
        decreases e,
    {
        proof {
            let cur = s@.subrange(b as int, e as int);
            assert(cur[cur.len() - 1] == s@[e - 1]);
            assert(cur.subrange(0, cur.len() - 1) =~= s@.subrange(b as int, e - 1));
        }
        e -= 1;
    }
    proof {
        let cur = s@.subrange(b as int, e as int);
        if e > b {
            assert(!is_space_char(cur[cur.len() - 1]));
        }
        assert(spec_trim(s@) == s@.subrange(b as int, e as int));
    }
    let t = s.substring_char(b, e);
    t.to_owned()
}

/// From position `p` on, `l` holds only whitespace until an opening
/// parenthesis.
pub open spec fn ws_then_paren_at(l: Seq<char>, p: int) -> bool
    decreases l.len() - p,
{
    if p < 0 || p >= l.len() {
        false
    } else if l[p] == '(' {
        true
    } else if is_space_char(l[p]) {
        ws_then_paren_at(l, p + 1)
    } else {
        false
    }
}

/// Whether, from position `p` on, `s` holds only whitespace until an
/// opening parenthesis.
pub fn ws_then_paren_from(s: &str, p: usize) -> (b: bool)
    requires
        p <= s@.len(),
    ensures
        b == ws_then_paren_at(s@, p as int),
{
    let n = s.unicode_len();
    let mut q: usize = p;
    while q < n && space_char(s.get_char(q))
        invariant
            n == s@.len(),
            p <= q <= n,
            ws_then_paren_at(s@, p as int) == ws_then_paren_at(s@, q as int),
        decreases n - q,
    {
        q += 1;
    }
    if q < n {
        s.get_char(q) == '('
    } else {
        false
    }
}

} // verus!
