//! The violation data model and the shape shared by all rule checkers:
//! a pass over the lines of a file that yields one violation per line
//! on which the rule's predicate holds, in line order.

use vstd::prelude::*;

pub mod business_logic;
pub mod debug_statements;

verus! {

/// One reported instance of a rule being broken, tied to one file and
/// one line.
#[derive(Debug, Clone)]
pub struct Violation {
    /// Path of the offending file.
    pub file: String,
    /// 1-based line number within the file.
    pub line: usize,
    /// Stable rule identifier.
    pub rule_code: String,
    /// Human-readable rule title.
    pub rule_name: String,
    /// Why this is a violation.
    pub message: String,
    /// The offending source line, trimmed of surrounding whitespace.
    pub code_snippet: String,
    /// Remediation hint, absent if none is defined.
    pub suggestion: Option<String>,
}

/// The mathematical content of a [`Violation`].
#[verifier::ext_equal]
pub ghost struct VioData {
    pub file: Seq<char>,
    pub line: int,
    pub rule_code: Seq<char>,
    pub rule_name: Seq<char>,
    pub message: Seq<char>,
    pub code_snippet: Seq<char>,
    pub suggestion: Option<Seq<char>>,
}

impl View for Violation {
    type V = VioData;

    open spec fn view(&self) -> VioData {
        VioData {
            file: self.file@,
            line: self.line as int,
            rule_code: self.rule_code@,
            rule_name: self.rule_name@,
            message: self.message@,
            code_snippet: self.code_snippet@,
            suggestion: self.suggestion.deep_view(),
        }
    }
}

impl DeepView for Violation {
    type V = VioData;

    open spec fn deep_view(&self) -> VioData {
        self@
    }
}

/// Build a violation record from its parts.
pub fn make_violation(
    file: &str,
    line: usize,
    rule_code: &str,
    rule_name: &str,
    message: String,
    code_snippet: String,
    suggestion: &str,
) -> (v: Violation)
    ensures
        v@ == (VioData {
            file: file@,
            line: line as int,
            rule_code: rule_code@,
            rule_name: rule_name@,
            message: message@,
            code_snippet: code_snippet@,
            suggestion: Some(suggestion@),
        }),
{
    let v = Violation {
        file: file.to_owned(),
        line,
        rule_code: rule_code.to_owned(),
        rule_name: rule_name.to_owned(),
        message,
        code_snippet,
        suggestion: Some(suggestion.to_owned()),
    };
    proof {
        assert(v@ =~= (VioData {
            file: file@,
            line: line as int,
            rule_code: rule_code@,
            rule_name: rule_name@,
            message: message@,
            code_snippet: code_snippet@,
            suggestion: Some(suggestion@),
        }));
    }
    v
}

/// The violation carries one of the four rule code/title pairs: the
/// rule code determines the rule title.
pub open spec fn rule_title_ok(v: VioData) -> bool {
    ||| (v.rule_code == "DBG001"@ && v.rule_name == "No Debug Statements"@)
    ||| (v.rule_code == "BL001"@ && v.rule_name == "Business Logic in UI Layer"@)
    ||| (v.rule_code == "BL002"@ && v.rule_name == "Direct Model Access in UI"@)
    ||| (v.rule_code == "BL003"@ && v.rule_name == "Service Bypassing Repository"@)
}

/// The violations one rule yields on the lines of a file, from 0-based
/// line index `k` on: one violation per line on which `hit` holds,
/// built by `vio` from the 1-based line number and the line, in line
/// order.
pub open spec fn line_pass(
    hit: spec_fn(Seq<char>) -> bool,
    vio: spec_fn(int, Seq<char>) -> VioData,
    ls: Seq<Seq<char>>,
    k: int,
) -> Seq<VioData>
    decreases ls.len() - k,
{
    if k < 0 || k >= ls.len() {
        Seq::<VioData>::empty()
    } else {
        (if hit(ls[k]) {
            seq![vio(k + 1, ls[k])]
        } else {
            Seq::<VioData>::empty()
        }) + line_pass(hit, vio, ls, k + 1)
    }
}

/// How many of the lines of `ls`, from index `k` on, satisfy `hit`.
pub open spec fn hit_count(hit: spec_fn(Seq<char>) -> bool, ls: Seq<Seq<char>>, k: int) -> int
    decreases ls.len() - k,
{
    if k < 0 || k >= ls.len() {
        0
    } else {
        (if hit(ls[k]) {
            1int
        } else {
            0int
        }) + hit_count(hit, ls, k + 1)
    }
}

/// A rule pass yields exactly one violation per line on which the rule
/// hits, carrying that line's number, and in increasing line order:
/// every entry comes from a hit line, every hit line contributes its
/// entry, and the number of entries is the number of hit lines.
pub proof fn lemma_line_pass_characterization(
    hit: spec_fn(Seq<char>) -> bool,
    vio: spec_fn(int, Seq<char>) -> VioData,
    ls: Seq<Seq<char>>,
    k: int,
)
    requires
        0 <= k <= ls.len(),
        forall|j: int, l: Seq<char>| (#[trigger] vio(j, l)).line == j,
    ensures
        forall|idx: int|
            0 <= idx < line_pass(hit, vio, ls, k).len() ==> {
                let v = #[trigger] line_pass(hit, vio, ls, k)[idx];
                &&& k < v.line <= ls.len()
                &&& hit(ls[v.line - 1])
                &&& v == vio(v.line, ls[v.line - 1])
            },
        forall|j: int|
            k <= j < ls.len() && hit(#[trigger] ls[j]) ==> line_pass(hit, vio, ls, k).contains(
                vio(j + 1, ls[j]),
            ),
        line_pass(hit, vio, ls, k).len() == hit_count(hit, ls, k),
        forall|i1: int, i2: int|
            0 <= i1 < i2 < line_pass(hit, vio, ls, k).len() ==> #[trigger] line_pass(
                hit,
                vio,
                ls,
                k,
            )[i1].line < #[trigger] line_pass(hit, vio, ls, k)[i2].line,
    decreases ls.len() - k,
{
    if k == ls.len() {
    } else {
        lemma_line_pass_characterization(hit, vio, ls, k + 1);
        let rest = line_pass(hit, vio, ls, k + 1);
        let cur = line_pass(hit, vio, ls, k);
        if hit(ls[k]) {
            assert(cur == seq![vio(k + 1, ls[k])] + rest);
            assert(cur[0] == vio(k + 1, ls[k]));
            assert forall|idx: int| 0 <= idx < cur.len() implies {
                let v = #[trigger] cur[idx];
                &&& k < v.line <= ls.len()
                &&& hit(ls[v.line - 1])
                &&& v == vio(v.line, ls[v.line - 1])
            } by {
                if idx > 0 {
                    assert(cur[idx] == rest[idx - 1]);
                }
            }
            assert forall|j: int|
                k <= j < ls.len() && hit(#[trigger] ls[j]) implies cur.contains(
                vio(j + 1, ls[j]),
            ) by {
                if j == k {
                    assert(cur[0] == vio(j + 1, ls[j]));
                } else {
                    let idx = choose|idx: int|
                        0 <= idx < rest.len() && rest[idx] == vio(j + 1, ls[j]);
                    assert(cur[idx + 1] == vio(j + 1, ls[j]));
                }
            }
            assert forall|i1: int, i2: int|
                0 <= i1 < i2 < cur.len() implies #[trigger] cur[i1].line < #[trigger] cur[i2].line by {
                if i1 == 0 {
                    assert(cur[i2] == rest[i2 - 1]);
                    assert(cur[i2].line > k + 1);
                } else {
                    assert(cur[i1] == rest[i1 - 1]);
                    assert(cur[i2] == rest[i2 - 1]);
                }
            }
        } else {
            assert(cur =~= rest);
            assert forall|j: int|
                k <= j < ls.len() && hit(#[trigger] ls[j]) implies cur.contains(
                vio(j + 1, ls[j]),
            ) by {
                assert(j != k);
            }
        }
    }
}

} // verus!
