//! The violation aggregator: runs every rule on every discovered file,
//! skipping files under a vendor directory, and concatenates the
//! results in discovery order, then rule order, then line order.

use vstd::prelude::*;

use crate::rules::business_logic;
use crate::rules::debug_statements;
use crate::rules::{rule_title_ok, VioData, Violation};
use crate::text::{contains_seq, contains_str, occurs_at, spec_lines, starts_with_str};

verus! {

/// A discovered source file: its path and its full text.
pub struct SourceFile {
    pub path: String,
    pub content: String,
}

/// The mathematical content of a [`SourceFile`].
#[verifier::ext_equal]
pub ghost struct FileData {
    pub path: Seq<char>,
    pub content: Seq<char>,
}

impl View for SourceFile {
    type V = FileData;

    open spec fn view(&self) -> FileData {
        FileData { path: self.path@, content: self.content@ }
    }
}

impl DeepView for SourceFile {
    type V = FileData;

    open spec fn deep_view(&self) -> FileData {
        self@
    }
}

/// Paths with a vendor-directory segment are excluded from checking:
/// the segment may stand anywhere in the path, including first.
pub open spec fn spec_is_vendored(path: Seq<char>) -> bool {
    contains_seq(path, "/vendor/"@) || occurs_at(path, 0, "vendor/"@)
}

/// Whether `path` holds a vendor-directory segment.
pub fn is_vendored(path: &str) -> (b: bool)
    ensures
        b == spec_is_vendored(path@),
{
    contains_str(path, "/vendor/") || starts_with_str(path, "vendor/")
}

/// All violations of one file: the debug-statement violations, then the
/// business-logic violations.
pub open spec fn spec_check_file(path: Seq<char>, content: Seq<char>) -> Seq<VioData> {
    debug_statements::spec_debug_check(path, content) + business_logic::spec_business_check(
        path,
        content,
    )
}

/// All violations of the files from index `k` on, per file in discovery
/// order, skipping vendored paths.
pub open spec fn spec_run(files: Seq<FileData>, k: int) -> Seq<VioData>
    decreases files.len() - k,
{
    if k < 0 || k >= files.len() {
        Seq::<VioData>::empty()
    } else {
        (if spec_is_vendored(files[k].path) {
            Seq::<VioData>::empty()
        } else {
            spec_check_file(files[k].path, files[k].content)
        }) + spec_run(files, k + 1)
    }
}

/// Run every rule on one file.
pub fn check_file(path: &str, content: &str) -> (r: Vec<Violation>)
    ensures
        r.deep_view() == spec_check_file(path@, content@),
{
    let mut r = debug_statements::check(path, content);
    let mut b = business_logic::check(path, content);
    let ghost r0 = r.deep_view();
    let ghost b0 = b.deep_view();
    r.append(&mut b);
    proof {
        assert(r.deep_view() =~~= r0 + b0);
    }
    r
}

/// Run every rule on every file, in discovery order, skipping files
/// under a vendor directory.
pub fn check_files(files: &Vec<SourceFile>) -> (r: Vec<Violation>)
    ensures
        r.deep_view() == spec_run(files.deep_view(), 0),
{
    let ghost fs = files.deep_view();
    let mut r: Vec<Violation> = Vec::new();
    proof {
        assert(r.deep_view() =~~= Seq::<VioData>::empty());
        assert(spec_run(fs, 0) =~~= r.deep_view() + spec_run(fs, 0));
    }
    let nfiles = files.len();
    let mut k: usize = 0;
    while k < nfiles
        invariant
            nfiles == files@.len(),
            files@.len() == fs.len(),
            fs == files.deep_view(),
            k <= nfiles,
            spec_run(fs, 0) == r.deep_view() + spec_run(fs, k as int),
        decreases nfiles - k,
    {
        let file: &SourceFile = &files[k];
        proof {
            assert(fs[k as int] == files@[k as int]@);
        }
        if !is_vendored(file.path.as_str()) {
            let mut v = check_file(file.path.as_str(), file.content.as_str());
            let ghost r1 = r.deep_view();
            let ghost v1 = v.deep_view();
            r.append(&mut v);
            proof {
                assert(r.deep_view() =~~= r1 + v1);
                assert(spec_run(fs, 0) =~~= r.deep_view() + spec_run(fs, k + 1));
            }
        } else {
            proof {
                assert(spec_run(fs, k as int) =~~= spec_run(fs, k + 1));
            }
        }
        k += 1;
    }
    proof {
        assert(spec_run(fs, nfiles as int) =~~= Seq::<VioData>::empty());
        assert(r.deep_view() =~~= spec_run(fs, 0));
    }
    r
}

/// Every violation one file's check yields is well formed: it names the
/// checked file, its line number is 1-based and names a real line of
/// the file, and its rule code determines its rule title.
pub proof fn lemma_check_file_wf(path: Seq<char>, content: Seq<char>, idx: int)
    requires
        0 <= idx < spec_check_file(path, content).len(),
    ensures
        ({
            let v = spec_check_file(path, content)[idx];
            &&& v.file == path
            &&& 1 <= v.line <= spec_lines(content).len()
            &&& rule_title_ok(v)
        }),
{
    let ls = spec_lines(content);
    let d = debug_statements::spec_debug_check(path, content);
    let b = business_logic::spec_business_check(path, content);
    debug_statements::lemma_debug_one_per_line(path, content);
    business_logic::lemma_bl_pass_one_per_line(
        business_logic::PassKind::Transaction,
        path,
        ls,
    );
    business_logic::lemma_bl_pass_one_per_line(
        business_logic::PassKind::ModelInFilament,
        path,
        ls,
    );
    business_logic::lemma_bl_pass_one_per_line(
        business_logic::PassKind::ModelInControllers,
        path,
        ls,
    );
    business_logic::lemma_bl_pass_one_per_line(
        business_logic::PassKind::ModelInService,
        path,
        ls,
    );
    if idx < d.len() {
        assert(spec_check_file(path, content)[idx] == d[idx]);
    } else {
        let v = spec_check_file(path, content)[idx];
        assert(v == b[idx - d.len()]);
    }
}

/// Every violation a run yields carries a 1-based line number and one
/// of the four rule code/title pairs.
pub proof fn lemma_run_wf(files: Seq<FileData>, k: int, idx: int)
    requires
        0 <= k <= files.len(),
        0 <= idx < spec_run(files, k).len(),
    ensures
        1 <= spec_run(files, k)[idx].line,
        rule_title_ok(spec_run(files, k)[idx]),
    decreases files.len() - k,
{
    let head = if spec_is_vendored(files[k].path) {
        Seq::<VioData>::empty()
    } else {
        spec_check_file(files[k].path, files[k].content)
    };
    if idx < head.len() {
        lemma_check_file_wf(files[k].path, files[k].content, idx);
        assert(spec_run(files, k)[idx] == head[idx]);
    } else {
        assert(spec_run(files, k)[idx] == spec_run(files, k + 1)[idx - head.len()]);
        lemma_run_wf(files, k + 1, idx - head.len());
    }
}

/// A run over files none of which yields violations yields none.
pub proof fn lemma_clean_run(files: Seq<FileData>, k: int)
    requires
        0 <= k <= files.len(),
        forall|j: int|
            k <= j < files.len() ==> spec_check_file(
                (#[trigger] files[j]).path,
                files[j].content,
            ) == Seq::<VioData>::empty(),
    ensures
        spec_run(files, k) == Seq::<VioData>::empty(),
    decreases files.len() - k,
{
    if k < files.len() {
        lemma_clean_run(files, k + 1);
        assert(spec_run(files, k) =~~= Seq::<VioData>::empty());
    }
}

/// The run over the files from index `k` on, where `k` lies past a
/// removed entry, is unchanged by the removal (indices shift by one).
proof fn lemma_run_remove_suffix(files: Seq<FileData>, i: int, k: int)
    requires
        0 <= i < files.len(),
        i <= k <= files.remove(i).len(),
    ensures
        spec_run(files.remove(i), k) == spec_run(files, k + 1),
    decreases files.len() - k,
{
    let g = files.remove(i);
    if k < g.len() {
        assert(g[k] == files[k + 1]);
        lemma_run_remove_suffix(files, i, k + 1);
        assert(spec_run(g, k) =~~= spec_run(files, k + 1));
    }
}

/// A file under a vendor directory contributes nothing: the run equals
/// the run over the files without it.
pub proof fn lemma_vendored_excluded(files: Seq<FileData>, i: int)
    requires
        0 <= i < files.len(),
        spec_is_vendored(files[i].path),
    ensures
        spec_run(files, 0) == spec_run(files.remove(i), 0),
{
    lemma_vendored_excluded_from(files, i, 0);
}

proof fn lemma_vendored_excluded_from(files: Seq<FileData>, i: int, k: int)
    requires
        0 <= k <= i < files.len(),
        spec_is_vendored(files[i].path),
    ensures
        spec_run(files, k) == spec_run(files.remove(i), k),
    decreases i - k,
{
    let g = files.remove(i);
    if k == i {
        lemma_run_remove_suffix(files, i, i);
        assert(spec_run(files, i) =~~= spec_run(files, i + 1));
        assert(spec_run(g, i) =~~= spec_run(files, i));
    } else {
        assert(g[k] == files[k]);
        lemma_vendored_excluded_from(files, i, k + 1);
        assert(spec_run(files, k) =~~= spec_run(g, k));
    }
}

} // verus!
