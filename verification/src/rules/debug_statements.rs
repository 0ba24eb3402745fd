//! The debug-statement rule (`DBG001`): flags calls of the fixed debug
//! functions `dd`, `dump`, `var_dump`, `print_r`, `ray` left in source.
//! A call is an occurrence of the identifier as a whole word, followed,
//! over whitespace only, by an opening parenthesis.  Each matching line
//! yields one violation, naming the function of the leftmost match.

use vstd::prelude::*;
use vstd::string::StringExecFns;

use crate::rules::{
    hit_count, lemma_line_pass_characterization, line_pass, make_violation, rule_title_ok, VioData,
    Violation,
};
use crate::text::{
    is_word_char, occurs_at, spec_lines, spec_trim, split_lines, trim_str, word_char,
    ws_then_paren_at, ws_then_paren_from, occurs_at_pos,
};

verus! {

/// The debug-function identifiers, in the order they are tried.
pub open spec fn debug_names() -> Seq<Seq<char>> {
    seq!["dd"@, "dump"@, "var_dump"@, "print_r"@, "ray"@]
}

/// The debug-function identifier with index `i`.
fn debug_name(i: usize) -> (s: &'static str)
    requires
        i < 5,
    ensures
        s@ == debug_names()[i as int],
{
    match i {
        0 => "dd",
        1 => "dump",
        2 => "var_dump",
        3 => "print_r",
        _ => "ray",
    }
}

/// Debug function `name` is called at position `i` of `line`: it stands
/// there as a whole word (not preceded by a word character) and is
/// followed, over whitespace only, by an opening parenthesis.
pub open spec fn debug_match_at(line: Seq<char>, i: int, name: Seq<char>) -> bool {
    &&& occurs_at(line, i, name)
    &&& (i == 0 || !is_word_char(line[i - 1]))
    &&& ws_then_paren_at(line, i + name.len())
}

/// Some debug name matches at position `i` of `line`.
pub open spec fn debug_hit_at(line: Seq<char>, i: int) -> bool {
    exists|n: int| 0 <= n < debug_names().len() && debug_match_at(line, i, debug_names()[n])
}

/// Some debug name matches somewhere in `line`.
pub open spec fn debug_line_hit(line: Seq<char>) -> bool {
    exists|i: int| debug_hit_at(line, i)
}

/// The first name in try order that matches at position `i` of `line`.
pub open spec fn debug_name_at(line: Seq<char>, i: int) -> Seq<char> {
    if debug_match_at(line, i, "dd"@) {
        "dd"@
    } else if debug_match_at(line, i, "dump"@) {
        "dump"@
    } else if debug_match_at(line, i, "var_dump"@) {
        "var_dump"@
    } else if debug_match_at(line, i, "print_r"@) {
        "print_r"@
    } else {
        "ray"@
    }
}

/// The name reported for `line`: the one matching at the leftmost
/// matching position, from `i` on.
pub open spec fn first_debug_name(line: Seq<char>, i: int) -> Seq<char>
    decreases line.len() - i,
{
    if i < 0 || i >= line.len() {
        ""@
    } else if debug_hit_at(line, i) {
        debug_name_at(line, i)
    } else {
        first_debug_name(line, i + 1)
    }
}

/// No debug name is empty.
pub proof fn lemma_debug_names_nonempty()
    ensures
        forall|n: int| 0 <= n < debug_names().len() ==> (#[trigger] debug_names()[n]).len() > 0,
{
    reveal_strlit("dd");
    reveal_strlit("dump");
    reveal_strlit("var_dump");
    reveal_strlit("print_r");
    reveal_strlit("ray");
    assert forall|n: int| 0 <= n < debug_names().len() implies (#[trigger] debug_names()[n]).len()
        > 0 by {
        if n == 0 {
            assert(debug_names()[0] == "dd"@);
        } else if n == 1 {
            assert(debug_names()[1] == "dump"@);
        } else if n == 2 {
            assert(debug_names()[2] == "var_dump"@);
        } else if n == 3 {
            assert(debug_names()[3] == "print_r"@);
        } else {
            assert(debug_names()[4] == "ray"@);
        }
    }
}

/// A debug name never matches as a substring of a longer identifier: at
/// a position preceded by a word character there is no match.
pub proof fn lemma_debug_whole_word(line: Seq<char>, i: int)
    requires
        0 < i,
        is_word_char(line[i - 1]),
    ensures
        !debug_hit_at(line, i),
{
}

/// Whether `name` has a debug match at position `i` of `line`.
fn match_debug_at(line: &str, i: usize, name: &str) -> (b: bool)
    requires
        i < line@.len(),
    ensures
        b == debug_match_at(line@, i as int, name@),
{
    let len = line.unicode_len();
    let m = name.unicode_len();
    if m > len - i {
        return false;
    }
    if !occurs_at_pos(line, i, name) {
        return false;
    }
    if i > 0 && word_char(line.get_char(i - 1)) {
        return false;
    }
    ws_then_paren_from(line, i + m)
}

/// Find the leftmost debug match in `line`: its position and the index
/// of the matching name in try order.
fn find_debug_match(line: &str) -> (r: Option<(usize, usize)>)
    ensures
        match r {
            Some(pair) => {
                &&& pair.0 < line@.len()
                &&& pair.1 < 5
                &&& debug_match_at(line@, pair.0 as int, debug_names()[pair.1 as int])
                &&& forall|j: int| 0 <= j < pair.0 ==> !debug_hit_at(line@, j)
                &&& forall|m: int|
                    0 <= m < pair.1 ==> !debug_match_at(line@, pair.0 as int, debug_names()[m])
            },
            None => !debug_line_hit(line@),
        },
{
    let len = line.unicode_len();
    let mut i: usize = 0;
    while i < len
        invariant
            len == line@.len(),
            i <= len,
            forall|j: int| 0 <= j < i ==> !debug_hit_at(line@, j),
        decreases len - i,
    {
        let mut n: usize = 0;
        while n < 5
            invariant
                len == line@.len(),
                i < len,
                n <= 5,
                forall|m: int| 0 <= m < n ==> !debug_match_at(line@, i as int, debug_names()[m]),
                forall|j: int| 0 <= j < i ==> !debug_hit_at(line@, j),
            decreases 5 - n,
        {
            if match_debug_at(line, i, debug_name(n)) {
                return Some((i, n));
            }
            n += 1;
        }
        proof {
            assert(!debug_hit_at(line@, i as int));
        }
        i += 1;
    }
    proof {
        lemma_debug_names_nonempty();
        assert forall|j: int| !debug_hit_at(line@, j) by {
            if debug_hit_at(line@, j) {
                let n = choose|n: int|
                    0 <= n < debug_names().len() && debug_match_at(line@, j, debug_names()[n]);
                assert(debug_names()[n].len() > 0);
                assert(0 <= j < line@.len());
            }
        }
    }
    None
}

/// At the leftmost matching position, the first matching name in try
/// order is the name `first_debug_name` reports.
proof fn lemma_first_debug_name(line: Seq<char>, start: int, i: int, n: int)
    requires
        0 <= start <= i < line.len(),
        0 <= n < 5,
        debug_match_at(line, i, debug_names()[n]),
        forall|j: int| start <= j < i ==> !debug_hit_at(line, j),
        forall|m: int| 0 <= m < n ==> !debug_match_at(line, i, debug_names()[m]),
    ensures
        first_debug_name(line, start) == debug_names()[n],
    decreases i - start,
{
    if start == i {
        assert(debug_hit_at(line, i));
        assert(debug_names()[0] == "dd"@);
        assert(debug_names()[1] == "dump"@);
        assert(debug_names()[2] == "var_dump"@);
        assert(debug_names()[3] == "print_r"@);
        assert(debug_names()[4] == "ray"@);
    } else {
        assert(!debug_hit_at(line, start));
        lemma_first_debug_name(line, start + 1, i, n);
    }
}

/// The message reported for a debug call of `name`.
pub open spec fn debug_message(name: Seq<char>) -> Seq<char> {
    "Debug statement '"@ + name + "()' found - remove before committing"@
}

/// The violation reported for the line numbered `k` (1-based) holding
/// `line`.
pub open spec fn dbg_vio(file: Seq<char>, k: int, line: Seq<char>) -> VioData {
    VioData {
        file: file,
        line: k,
        rule_code: "DBG001"@,
        rule_name: "No Debug Statements"@,
        message: debug_message(first_debug_name(line, 0)),
        code_snippet: spec_trim(line),
        suggestion: Some("Remove this debug statement before committing"@),
    }
}

/// The debug rule's line predicate, as a function value.
pub open spec fn debug_hit_fn() -> spec_fn(Seq<char>) -> bool {
    |l: Seq<char>| debug_line_hit(l)
}

/// The debug rule's violation constructor, as a function value.
pub open spec fn dbg_vio_fn(file: Seq<char>) -> spec_fn(int, Seq<char>) -> VioData {
    |k: int, l: Seq<char>| dbg_vio(file, k, l)
}

/// All debug-statement violations of the file `file` with text
/// `content`: one per line with a debug call, in line order.
pub open spec fn spec_debug_check(file: Seq<char>, content: Seq<char>) -> Seq<VioData> {
    line_pass(debug_hit_fn(), dbg_vio_fn(file), spec_lines(content), 0)
}

/// The debug checker yields exactly one violation per line with a debug
/// call: entries come in increasing line order, each names a line on
/// which some debug name matches and is that line's `dbg_vio` record,
/// every such line contributes one, and the count is the number of such
/// lines.
pub proof fn lemma_debug_one_per_line(file: Seq<char>, content: Seq<char>)
    ensures
        ({
            let ls = spec_lines(content);
            let d = spec_debug_check(file, content);
            &&& d.len() == hit_count(debug_hit_fn(), ls, 0)
            &&& forall|idx: int|
                0 <= idx < d.len() ==> {
                    let v = #[trigger] d[idx];
                    &&& 1 <= v.line <= ls.len()
                    &&& debug_line_hit(ls[v.line - 1])
                    &&& v == dbg_vio(file, v.line, ls[v.line - 1])
                    &&& rule_title_ok(v)
                    &&& v.file == file
                }
            &&& forall|j: int|
                0 <= j < ls.len() && debug_line_hit(#[trigger] ls[j]) ==> d.contains(
                    dbg_vio(file, j + 1, ls[j]),
                )
            &&& forall|i1: int, i2: int|
                0 <= i1 < i2 < d.len() ==> #[trigger] d[i1].line < #[trigger] d[i2].line
        }),
{
    let ls = spec_lines(content);
    assert forall|j: int, l: Seq<char>| (#[trigger] dbg_vio_fn(file)(j, l)).line == j by {}
    lemma_line_pass_characterization(debug_hit_fn(), dbg_vio_fn(file), ls, 0);
    let d = spec_debug_check(file, content);
    assert forall|idx: int| 0 <= idx < d.len() implies {
        let v = #[trigger] d[idx];
        &&& 1 <= v.line <= ls.len()
        &&& debug_line_hit(ls[v.line - 1])
        &&& v == dbg_vio(file, v.line, ls[v.line - 1])
        &&& rule_title_ok(v)
        &&& v.file == file
    } by {
        let v = d[idx];
        assert(v == dbg_vio_fn(file)(v.line, ls[v.line - 1]));
    }
}

/// Scan the file `file` with text `content` for leftover debug
/// statements.
pub fn check(file: &str, content: &str) -> (r: Vec<Violation>)
    ensures
        r.deep_view() == spec_debug_check(file@, content@),
{
    let ghost hit = debug_hit_fn();
    let ghost vio = dbg_vio_fn(file@);
    let ghost ls = spec_lines(content@);
    let lines = split_lines(content);
    let mut r: Vec<Violation> = Vec::new();
    proof {
        assert(r.deep_view() =~~= Seq::<VioData>::empty());
        assert(line_pass(hit, vio, ls, 0) =~~= r.deep_view() + line_pass(hit, vio, ls, 0));
    }
    let nlines = lines.len();
    let mut k: usize = 0;
    while k < nlines
        invariant
            nlines == lines@.len(),
            lines@.len() == ls.len(),
            forall|j: int| 0 <= j < ls.len() ==> lines@[j]@ == ls[j],
            k <= nlines,
            ls == spec_lines(content@),
            hit == debug_hit_fn(),
            vio == dbg_vio_fn(file@),
            line_pass(hit, vio, ls, 0) == r.deep_view() + line_pass(hit, vio, ls, k as int),
        decreases nlines - k,
    {
        let line: &String = &lines[k];
        match find_debug_match(line.as_str()) {
            Some(pair) => {
                let name_str = debug_name(pair.1);
                let msg = String::from_str("Debug statement '").concat(name_str).concat(
                    "()' found - remove before committing",
                );
                let snippet = trim_str(line.as_str());
                let v = make_violation(
                    file,
                    k + 1,
                    "DBG001",
                    "No Debug Statements",
                    msg,
                    snippet,
                    "Remove this debug statement before committing",
                );
                let ghost old_r = r.deep_view();
                r.push(v);
                proof {
                    lemma_first_debug_name(ls[k as int], 0, pair.0 as int, pair.1 as int);
                    assert(debug_hit_at(ls[k as int], pair.0 as int));
                    assert(debug_line_hit(ls[k as int]));
                    assert(hit(ls[k as int]));
                    assert(v@ =~= dbg_vio(file@, k + 1, ls[k as int]));
                    assert(r.deep_view() =~~= old_r + seq![v@]);
                    assert(line_pass(hit, vio, ls, k as int) == seq![vio(k + 1, ls[k as int])]
                        + line_pass(hit, vio, ls, k + 1));
                    assert(line_pass(hit, vio, ls, 0) =~~= r.deep_view() + line_pass(
                        hit,
                        vio,
                        ls,
                        k + 1,
                    ));
                }
            },
            None => {
                proof {
                    assert(!hit(ls[k as int]));
                    assert(line_pass(hit, vio, ls, k as int) =~~= line_pass(hit, vio, ls, k + 1));
                    assert(line_pass(hit, vio, ls, 0) =~~= r.deep_view() + line_pass(
                        hit,
                        vio,
                        ls,
                        k + 1,
                    ));
                }
            },
        }
        k += 1;
    }
    proof {
        assert(line_pass(hit, vio, ls, nlines as int) =~~= Seq::<VioData>::empty());
        assert(r.deep_view() =~~= line_pass(hit, vio, ls, 0));
        assert(r.deep_view() =~~= spec_debug_check(file@, content@));
    }
    r
}

} // verus!
