//! The business-logic-layering rules, scoped by substring tests on the
//! file's path:
//!
//! - `BL001`: no transaction initiation (`DB::transaction`) in Filament
//!   (admin UI) files;
//! - `BL002`: no direct model call `<Model>::<verb>(` in Filament files
//!   (lines holding `function`, or `return` together with `::class`,
//!   are skipped as relationship definitions or type hints) nor in
//!   Controllers files (where no such suppression applies);
//! - `BL003`: no direct model call of a narrower name and verb subset
//!   in Services files, interface files exempt.

use vstd::prelude::*;
use vstd::string::StringExecFns;

use crate::rules::{
    hit_count, lemma_line_pass_characterization, line_pass, make_violation, rule_title_ok, VioData,
    Violation,
};
use crate::text::{contains_seq, contains_str, spec_lines, spec_trim, split_lines, trim_str};

verus! {

/// The domain model names whose direct use the rules police, in the
/// order they are tried.
pub open spec fn model_names() -> Seq<Seq<char>> {
    seq!["Race"@, "Player"@, "User"@, "Prize"@, "Role"@, "Permission"@, "Market"@]
}

/// The data-access verbs, in the order they are tried.  The first five
/// form the subset rule `BL003` polices; the first four model names do.
pub open spec fn access_verbs() -> Seq<Seq<char>> {
    seq!["create"@, "where"@, "find"@, "update"@, "delete"@, "all"@, "first"@]
}

/// The model name with index `i`.
fn model_name(i: usize) -> (s: &'static str)
    requires
        i < 7,
    ensures
        s@ == model_names()[i as int],
{
    match i {
        0 => "Race",
        1 => "Player",
        2 => "User",
        3 => "Prize",
        4 => "Role",
        5 => "Permission",
        _ => "Market",
    }
}

/// The data-access verb with index `i`.
fn access_verb(i: usize) -> (s: &'static str)
    requires
        i < 7,
    ensures
        s@ == access_verbs()[i as int],
{
    match i {
        0 => "create",
        1 => "where",
        2 => "find",
        3 => "update",
        4 => "delete",
        5 => "all",
        _ => "first",
    }
}

/// The direct model call pattern `<name>::<verb>(`.
pub open spec fn model_call_pat(name: Seq<char>, verb: Seq<char>) -> Seq<char> {
    name + "::"@ + verb + "("@
}

/// `line` holds a direct model call of one of the first `n_names` model
/// names with one of the first `n_verbs` verbs.
pub open spec fn model_call_hit(line: Seq<char>, n_names: int, n_verbs: int) -> bool {
    exists|n: int, v: int|
        0 <= n < n_names && 0 <= v < n_verbs && contains_seq(
            line,
            model_call_pat(model_names()[n], access_verbs()[v]),
        )
}

/// Whether `line` holds `<name>::<verb>(` for one of the first
/// `n_names` model names and first `n_verbs` verbs.
fn model_call_in_line(line: &str, n_names: usize, n_verbs: usize) -> (b: bool)
    requires
        n_names <= 7,
        n_verbs <= 7,
    ensures
        b == model_call_hit(line@, n_names as int, n_verbs as int),
{
    let mut n: usize = 0;
    while n < n_names
        invariant
            n_names <= 7,
            n_verbs <= 7,
            n <= n_names,
            forall|nn: int, vv: int|
                0 <= nn < n && 0 <= vv < n_verbs ==> !contains_seq(
                    line@,
                    model_call_pat(model_names()[nn], access_verbs()[vv]),
                ),
        decreases n_names - n,
    {
        let mut v: usize = 0;
        while v < n_verbs
            invariant
                n_names <= 7,
                n_verbs <= 7,
                n < n_names,
                v <= n_verbs,
                forall|vv: int|
                    0 <= vv < v ==> !contains_seq(
                        line@,
                        model_call_pat(model_names()[n as int], access_verbs()[vv]),
                    ),
                forall|nn: int, vv: int|
                    0 <= nn < n && 0 <= vv < n_verbs ==> !contains_seq(
                        line@,
                        model_call_pat(model_names()[nn], access_verbs()[vv]),
                    ),
            decreases n_verbs - v,
        {
            let pat = String::from_str(model_name(n)).concat("::").concat(access_verb(v)).concat(
                "(",
            );
            if contains_str(line, pat.as_str()) {
                proof {
                    assert(pat@ == model_call_pat(
                        model_names()[n as int],
                        access_verbs()[v as int],
                    ));
                }
                return true;
            }
            v += 1;
        }
        n += 1;
    }
    false
}

/// `BL001` hits a line holding a transaction initiation.
pub open spec fn bl001_hit(line: Seq<char>) -> bool {
    contains_seq(line, "DB::transaction"@)
}

/// The `BL002` suppression heuristic for Filament files: lines that
/// look like relationship definitions or type hints are skipped.
pub open spec fn bl002_suppressed(line: Seq<char>) -> bool {
    contains_seq(line, "function"@) || (contains_seq(line, "return"@) && contains_seq(
        line,
        "::class"@,
    ))
}

/// `BL002` hits, in a Filament file, a direct model call of any of the
/// seven names and seven verbs on a line that is not suppressed.
pub open spec fn bl002_filament_hit(line: Seq<char>) -> bool {
    model_call_hit(line, 7, 7) && !bl002_suppressed(line)
}

/// `BL002` hits, in a Controllers file, a direct model call of any of
/// the seven names and seven verbs; no suppression applies there.
pub open spec fn bl002_controllers_hit(line: Seq<char>) -> bool {
    model_call_hit(line, 7, 7)
}

/// `BL003` hits a direct model call of the four-name, five-verb subset.
pub open spec fn bl003_hit(line: Seq<char>) -> bool {
    model_call_hit(line, 4, 5)
}

/// `path` lies in the Filament (admin UI) layer.
pub open spec fn spec_in_filament(path: Seq<char>) -> bool {
    contains_seq(path, "/Filament/"@)
}

/// `path` lies in the Controllers layer.
pub open spec fn spec_in_controllers(path: Seq<char>) -> bool {
    contains_seq(path, "/Controllers/"@)
}

/// `path` lies in the Services layer.
pub open spec fn spec_in_services(path: Seq<char>) -> bool {
    contains_seq(path, "/Services/"@)
}

/// `path` names a service interface file, exempt from `BL003`.
pub open spec fn spec_is_service_interface(path: Seq<char>) -> bool {
    contains_seq(path, "Interface.php"@)
}

/// The four passes the business-logic checker runs, in order.
#[derive(Clone, Copy, Debug)]
pub enum PassKind {
    /// `BL001` on Filament files.
    Transaction,
    /// `BL002` on Filament files, with suppression.
    ModelInFilament,
    /// `BL002` on Controllers files, without suppression.
    ModelInControllers,
    /// `BL003` on Services files.
    ModelInService,
}

/// The rule code a pass reports under.
pub open spec fn spec_pass_code(kind: PassKind) -> Seq<char> {
    match kind {
        PassKind::Transaction => "BL001"@,
        PassKind::ModelInFilament => "BL002"@,
        PassKind::ModelInControllers => "BL002"@,
        PassKind::ModelInService => "BL003"@,
    }
}

/// The rule title a pass reports under.
pub open spec fn spec_pass_name(kind: PassKind) -> Seq<char> {
    match kind {
        PassKind::Transaction => "Business Logic in UI Layer"@,
        PassKind::ModelInFilament => "Direct Model Access in UI"@,
        PassKind::ModelInControllers => "Direct Model Access in UI"@,
        PassKind::ModelInService => "Service Bypassing Repository"@,
    }
}

/// The message a pass reports.
pub open spec fn spec_pass_message(kind: PassKind) -> Seq<char> {
    match kind {
        PassKind::Transaction => "Database transactions belong in Service layer, not Filament components"@,
        PassKind::ModelInFilament => "Filament components should use Services, not direct model queries"@,
        PassKind::ModelInControllers => "Filament components should use Services, not direct model queries"@,
        PassKind::ModelInService => "Services should use Repositories for data access, not direct model queries"@,
    }
}

/// The remediation hint a pass reports.
pub open spec fn spec_pass_suggestion(kind: PassKind) -> Seq<char> {
    match kind {
        PassKind::Transaction => "Move this transaction to a Service class and call from Filament"@,
        PassKind::ModelInFilament => "Create a Service method and call it from this component"@,
        PassKind::ModelInControllers => "Create a Service method and call it from this component"@,
        PassKind::ModelInService => "Inject the Repository and use its methods instead of direct model access"@,
    }
}

/// The line predicate of a pass, as a function value.
pub open spec fn pass_hit_fn(kind: PassKind) -> spec_fn(Seq<char>) -> bool {
    match kind {
        PassKind::Transaction => (|l: Seq<char>| bl001_hit(l)),
        PassKind::ModelInFilament => (|l: Seq<char>| bl002_filament_hit(l)),
        PassKind::ModelInControllers => (|l: Seq<char>| bl002_controllers_hit(l)),
        PassKind::ModelInService => (|l: Seq<char>| bl003_hit(l)),
    }
}

/// The violation a pass of `kind` reports for the line numbered `k`
/// (1-based) holding `line`.
pub open spec fn bl_vio(kind: PassKind, file: Seq<char>, k: int, line: Seq<char>) -> VioData {
    VioData {
        file: file,
        line: k,
        rule_code: spec_pass_code(kind),
        rule_name: spec_pass_name(kind),
        message: spec_pass_message(kind),
        code_snippet: spec_trim(line),
        suggestion: Some(spec_pass_suggestion(kind)),
    }
}

/// The violation constructor of a pass, as a function value.
pub open spec fn pass_vio_fn(kind: PassKind, file: Seq<char>) -> spec_fn(int, Seq<char>) -> VioData {
    |k: int, l: Seq<char>| bl_vio(kind, file, k, l)
}

/// The violations one pass yields on the lines `ls`.
pub open spec fn bl_pass(kind: PassKind, file: Seq<char>, ls: Seq<Seq<char>>) -> Seq<VioData> {
    line_pass(pass_hit_fn(kind), pass_vio_fn(kind, file), ls, 0)
}

/// All business-logic violations of the file `file` with text
/// `content`: the `BL001` pass (Filament only), then the `BL002` pass
/// on Filament files, then the `BL002` pass on Controllers files, then
/// the `BL003` pass (Services, interface files exempt), each in line
/// order.
pub open spec fn spec_business_check(file: Seq<char>, content: Seq<char>) -> Seq<VioData> {
    let ls = spec_lines(content);
    (if spec_in_filament(file) {
        bl_pass(PassKind::Transaction, file, ls)
    } else {
        Seq::<VioData>::empty()
    }) + (if spec_in_filament(file) {
        bl_pass(PassKind::ModelInFilament, file, ls)
    } else {
        Seq::<VioData>::empty()
    }) + (if spec_in_controllers(file) {
        bl_pass(PassKind::ModelInControllers, file, ls)
    } else {
        Seq::<VioData>::empty()
    }) + (if spec_in_services(file) && !spec_is_service_interface(file) {
        bl_pass(PassKind::ModelInService, file, ls)
    } else {
        Seq::<VioData>::empty()
    })
}

/// Whether a pass's line predicate holds of `line`.
fn pass_hits(kind: PassKind, line: &str) -> (b: bool)
    ensures
        b == pass_hit_fn(kind)(line@),
{
    match kind {
        PassKind::Transaction => contains_str(line, "DB::transaction"),
        PassKind::ModelInFilament => {
            if !model_call_in_line(line, 7, 7) {
                false
            } else if contains_str(line, "function") {
                false
            } else if contains_str(line, "return") && contains_str(line, "::class") {
                false
            } else {
                true
            }
        },
        PassKind::ModelInControllers => model_call_in_line(line, 7, 7),
        PassKind::ModelInService => model_call_in_line(line, 4, 5),
    }
}

/// The rule code a pass reports under.
fn pass_code(kind: PassKind) -> (s: &'static str)
    ensures
        s@ == spec_pass_code(kind),
{
    match kind {
        PassKind::Transaction => "BL001",
        PassKind::ModelInFilament => "BL002",
        PassKind::ModelInControllers => "BL002",
        PassKind::ModelInService => "BL003",
    }
}

/// The rule title a pass reports under.
fn pass_name(kind: PassKind) -> (s: &'static str)
    ensures
        s@ == spec_pass_name(kind),
{
    match kind {
        PassKind::Transaction => "Business Logic in UI Layer",
        PassKind::ModelInFilament => "Direct Model Access in UI",
        PassKind::ModelInControllers => "Direct Model Access in UI",
        PassKind::ModelInService => "Service Bypassing Repository",
    }
}

/// The message a pass reports.
fn pass_message(kind: PassKind) -> (s: &'static str)
    ensures
        s@ == spec_pass_message(kind),
{
    match kind {
        PassKind::Transaction => "Database transactions belong in Service layer, not Filament components",
        PassKind::ModelInFilament => "Filament components should use Services, not direct model queries",
        PassKind::ModelInControllers => "Filament components should use Services, not direct model queries",
        PassKind::ModelInService => "Services should use Repositories for data access, not direct model queries",
    }
}

/// The remediation hint a pass reports.
fn pass_suggestion(kind: PassKind) -> (s: &'static str)
    ensures
        s@ == spec_pass_suggestion(kind),
{
    match kind {
        PassKind::Transaction => "Move this transaction to a Service class and call from Filament",
        PassKind::ModelInFilament => "Create a Service method and call it from this component",
        PassKind::ModelInControllers => "Create a Service method and call it from this component",
        PassKind::ModelInService => "Inject the Repository and use its methods instead of direct model access",
    }
}

/// Run one pass over the lines of a file, appending its violations.
fn run_pass(
    file: &str,
    lines: &Vec<String>,
    kind: PassKind,
    r: &mut Vec<Violation>,
    Ghost(ls): Ghost<Seq<Seq<char>>>,
)
    requires
        lines@.len() == ls.len(),
        forall|j: int| 0 <= j < ls.len() ==> lines@[j]@ == ls[j],
    ensures
        final(r).deep_view() == old(r).deep_view() + bl_pass(kind, file@, ls),
{
    let ghost hit = pass_hit_fn(kind);
    let ghost vio = pass_vio_fn(kind, file@);
    let ghost r0 = r.deep_view();
    proof {
        assert(line_pass(hit, vio, ls, 0) =~~= Seq::<VioData>::empty() + line_pass(
            hit,
            vio,
            ls,
            0,
        ));
        assert(r.deep_view() =~~= r0 + Seq::<VioData>::empty());
    }
    let nlines = lines.len();
    let mut k: usize = 0;
    while k < nlines
        invariant
            nlines == lines@.len(),
            lines@.len() == ls.len(),
            forall|j: int| 0 <= j < ls.len() ==> lines@[j]@ == ls[j],
            k <= nlines,
            hit == pass_hit_fn(kind),
            vio == pass_vio_fn(kind, file@),
            r0 + line_pass(hit, vio, ls, 0) == r.deep_view() + line_pass(hit, vio, ls, k as int),
        decreases nlines - k,
    {
        let line: &String = &lines[k];
        if pass_hits(kind, line.as_str()) {
            let snippet = trim_str(line.as_str());
            let v = make_violation(
                file,
                k + 1,
                pass_code(kind),
                pass_name(kind),
                String::from_str(pass_message(kind)),
                snippet,
                pass_suggestion(kind),
            );
            let ghost old_r = r.deep_view();
            r.push(v);
            proof {
                assert(hit(ls[k as int]));
                assert(v@ =~= bl_vio(kind, file@, k + 1, ls[k as int]));
                assert(r.deep_view() =~~= old_r + seq![v@]);
                assert(line_pass(hit, vio, ls, k as int) == seq![vio(k + 1, ls[k as int])]
                    + line_pass(hit, vio, ls, k + 1));
                assert(r0 + line_pass(hit, vio, ls, 0) =~~= r.deep_view() + line_pass(
                    hit,
                    vio,
                    ls,
                    k + 1,
                ));
            }
        } else {
            proof {
                assert(!hit(ls[k as int]));
                assert(line_pass(hit, vio, ls, k as int) =~~= line_pass(hit, vio, ls, k + 1));
                assert(r0 + line_pass(hit, vio, ls, 0) =~~= r.deep_view() + line_pass(
                    hit,
                    vio,
                    ls,
                    k + 1,
                ));
            }
        }
        k += 1;
    }
    proof {
        assert(line_pass(hit, vio, ls, nlines as int) =~~= Seq::<VioData>::empty());
        assert(r.deep_view() =~~= r0 + line_pass(hit, vio, ls, 0));
    }
}

/// Scan the file `file` with text `content` for business-logic-layering
/// violations.
pub fn check(file: &str, content: &str) -> (r: Vec<Violation>)
    ensures
        r.deep_view() == spec_business_check(file@, content@),
{
    let ghost ls = spec_lines(content@);
    let lines = split_lines(content);
    let mut r: Vec<Violation> = Vec::new();
    let in_filament = contains_str(file, "/Filament/");
    let in_controllers = contains_str(file, "/Controllers/");
    let in_services = contains_str(file, "/Services/");
    let is_interface = contains_str(file, "Interface.php");
    let ghost e = Seq::<VioData>::empty();
    proof {
        assert(r.deep_view() =~~= e);
    }
    let ghost a = if spec_in_filament(file@) {
        bl_pass(PassKind::Transaction, file@, ls)
    } else {
        e
    };
    if in_filament {
        run_pass(file, &lines, PassKind::Transaction, &mut r, Ghost(ls));
    }
    proof {
        assert(r.deep_view() =~~= a);
    }
    let ghost b = if spec_in_filament(file@) {
        bl_pass(PassKind::ModelInFilament, file@, ls)
    } else {
        e
    };
    if in_filament {
        run_pass(file, &lines, PassKind::ModelInFilament, &mut r, Ghost(ls));
    }
    proof {
        assert(r.deep_view() =~~= a + b);
    }
    let ghost c = if spec_in_controllers(file@) {
        bl_pass(PassKind::ModelInControllers, file@, ls)
    } else {
        e
    };
    if in_controllers {
        run_pass(file, &lines, PassKind::ModelInControllers, &mut r, Ghost(ls));
    }
    proof {
        assert(r.deep_view() =~~= (a + b) + c);
    }
    let ghost d = if spec_in_services(file@) && !spec_is_service_interface(file@) {
        bl_pass(PassKind::ModelInService, file@, ls)
    } else {
        e
    };
    if in_services && !is_interface {
        run_pass(file, &lines, PassKind::ModelInService, &mut r, Ghost(ls));
    }
    proof {
        assert(r.deep_view() =~~= ((a + b) + c) + d);
        assert(spec_business_check(file@, content@) == ((a + b) + c) + d);
    }
    r
}

/// One business-logic pass yields exactly one violation per line its
/// predicate hits: entries come in increasing line order, each names a
/// hit line of the file and is that line's `bl_vio` record under the
/// pass's own rule code and title, every hit line contributes one, and
/// the count is the number of hit lines.
pub proof fn lemma_bl_pass_one_per_line(kind: PassKind, file: Seq<char>, ls: Seq<Seq<char>>)
    ensures
        ({
            let d = bl_pass(kind, file, ls);
            &&& d.len() == hit_count(pass_hit_fn(kind), ls, 0)
            &&& forall|idx: int|
                0 <= idx < d.len() ==> {
                    let v = #[trigger] d[idx];
                    &&& 1 <= v.line <= ls.len()
                    &&& pass_hit_fn(kind)(ls[v.line - 1])
                    &&& v == bl_vio(kind, file, v.line, ls[v.line - 1])
                    &&& rule_title_ok(v)
                    &&& v.file == file
                }
            &&& forall|j: int|
                0 <= j < ls.len() && pass_hit_fn(kind)(#[trigger] ls[j]) ==> d.contains(
                    bl_vio(kind, file, j + 1, ls[j]),
                )
            &&& forall|i1: int, i2: int|
                0 <= i1 < i2 < d.len() ==> #[trigger] d[i1].line < #[trigger] d[i2].line
        }),
{
    assert forall|j: int, l: Seq<char>| (#[trigger] pass_vio_fn(kind, file)(j, l)).line == j by {}
    lemma_line_pass_characterization(pass_hit_fn(kind), pass_vio_fn(kind, file), ls, 0);
    let d = bl_pass(kind, file, ls);
    assert forall|idx: int| 0 <= idx < d.len() implies {
        let v = #[trigger] d[idx];
        &&& 1 <= v.line <= ls.len()
        &&& pass_hit_fn(kind)(ls[v.line - 1])
        &&& v == bl_vio(kind, file, v.line, ls[v.line - 1])
        &&& rule_title_ok(v)
        &&& v.file == file
    } by {
        let v = d[idx];
        assert(v == pass_vio_fn(kind, file)(v.line, ls[v.line - 1]));
        match kind {
            PassKind::Transaction => {
                assert(v.rule_code == "BL001"@);
            },
            PassKind::ModelInFilament => {
                assert(v.rule_code == "BL002"@);
            },
            PassKind::ModelInControllers => {
                assert(v.rule_code == "BL002"@);
            },
            PassKind::ModelInService => {
                assert(v.rule_code == "BL003"@);
            },
        }
    }
}

/// A file outside the Filament and Controllers layers, and not a
/// non-interface Services file, yields no business-logic violations,
/// whatever its text holds.
pub proof fn lemma_business_path_scoped(file: Seq<char>, content: Seq<char>)
    requires
        !spec_in_filament(file),
        !spec_in_controllers(file),
        !(spec_in_services(file) && !spec_is_service_interface(file)),
    ensures
        spec_business_check(file, content) == Seq::<VioData>::empty(),
{
    assert(spec_business_check(file, content) =~~= Seq::<VioData>::empty());
}

} // verus!
