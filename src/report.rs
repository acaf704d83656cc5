//! The run reporter: the human-readable summary of a manifest, the success
//! and failure counts of a run, and the failed artifacts in manifest order.
use vstd::prelude::*;

use crate::fetch::FetchError;
use crate::manifest::{
    ModFile, ModrinthIndex, dependency_or_unknown, dependency_or_unknown_text, detect_loader,
    loader_label, loader_of, loader_version, loader_version_of,
};
use crate::text::{append_decimal, decimal};

verus! {

/// What `Path::file_name` yields for a path: its last component, if it has one.
pub uninterp spec fn file_name_of(p: Seq<char>) -> Option<Seq<char>>;

/// Relies on std's `Path::file_name`: the result depends on the path text alone.
#[verifier::external_body]
fn path_file_name(p: &str) -> (r: Option<String>)
    ensures
        match r {
            Some(n) => file_name_of(p@) == Some(n@),
            None => file_name_of(p@) is None,
        },
{
    std::path::Path::new(p).file_name().map(|n| n.to_string_lossy().into_owned())
}

/// The name under which an artifact is listed: the file name of its path,
/// empty where the path has none.
pub open spec fn display_name(p: Seq<char>) -> Seq<char> {
    match file_name_of(p) {
        Some(n) => n,
        None => Seq::<char>::empty(),
    }
}

/// The file name of an artifact's path, empty where the path has none.
pub fn artifact_file_name(path: &str) -> (r: String)
    ensures
        r@ == display_name(path@),
{
    match path_file_name(path) {
        Some(n) => n,
        None => String::new(),
    }
}

/// One line of the listing: `- <file name> (<size> bytes)`.
pub open spec fn entry_of(f: ModFile) -> Seq<char> {
    "- "@ + display_name(f.path@) + " ("@ + decimal(f.file_size as nat) + " bytes)\n"@
}

/// The listing of all artifacts, in manifest order.
pub open spec fn listing_of(files: Seq<ModFile>) -> Seq<char>
    decreases files.len(),
{
    if files.len() == 0 {
        Seq::<char>::empty()
    } else {
        listing_of(files.drop_last()) + entry_of(files.last())
    }
}

/// The summary's head: pack name, game version, loader and artifact count.
pub open spec fn header_of(index: ModrinthIndex) -> Seq<char> {
    "Modpack: "@ + index.name@ + "\n"@ + "Minecraft version: "@ + dependency_or_unknown(
        index.dependencies@,
        "minecraft"@,
    ) + "\n"@ + "Loader: "@ + loader_label(loader_of(index.dependencies@)) + " "@
        + loader_version_of(index.dependencies@) + "\n"@ + "Total mods: "@ + decimal(
        index.files@.len(),
    ) + "\n\n"@ + "Installed mods:\n"@
}

/// The summary text of a manifest. It lists every artifact, whatever the
/// outcome of its fetch.
pub open spec fn summary_of(index: ModrinthIndex) -> Seq<char> {
    header_of(index) + listing_of(index.files@)
}

/// One line of the listing for an artifact.
pub fn entry_line(f: &ModFile) -> (r: String)
    ensures
        r@ == entry_of(*f),
{
    let mut out = String::from_str("- ");
    let name = artifact_file_name(f.path.as_str());
    out.append(name.as_str());
    out.append(" (");
    append_decimal(&mut out, f.file_size);
    out.append(" bytes)\n");
    out
}

fn header_text(index: &ModrinthIndex) -> (r: String)
    ensures
        r@ == header_of(*index),
{
    let mut out = String::from_str("Modpack: ");
    out.append(index.name.as_str());
    out.append("\n");
    out.append("Minecraft version: ");
    let mc = dependency_or_unknown_text(&index.dependencies, "minecraft");
    out.append(mc.as_str());
    out.append("\n");
    out.append("Loader: ");
    out.append(detect_loader(&index.dependencies).label());
    out.append(" ");
    let lv = loader_version(&index.dependencies);
    out.append(lv.as_str());
    out.append("\n");
    out.append("Total mods: ");
    append_decimal(&mut out, index.files.len() as u64);
    out.append("\n\n");
    out.append("Installed mods:\n");
    out
}

/// The summary text written beside the installed artifacts.
pub fn summary_text(index: &ModrinthIndex) -> (r: String)
    ensures
        r@ == summary_of(*index),
{
    let mut out = header_text(index);
    let n = index.files.len();
    let mut i: usize = 0;
    proof {
        assert(index.files@.take(0) =~= Seq::<ModFile>::empty());
        assert(out@ =~= header_of(*index) + listing_of(index.files@.take(0)));
    }
    while i < n
        invariant
            n == index.files@.len(),
            i <= n,
            out@ == header_of(*index) + listing_of(index.files@.take(i as int)),
        decreases n - i,
    {
        let line = entry_line(&index.files[i]);
        out.append(line.as_str());
        proof {
            let t = index.files@.take(i + 1);
            assert(t.drop_last() =~= index.files@.take(i as int));
            assert(t.last() == index.files@[i as int]);
            assert(out@ =~= header_of(*index) + listing_of(t));
        }
        i = i + 1;
    }
    proof {
        assert(index.files@.take(n as int) =~= index.files@);
    }
    out
}

/// Number of successful outcomes.
pub open spec fn count_ok(s: Seq<Result<(), FetchError>>) -> nat
    decreases s.len(),
{
    if s.len() == 0 {
        0
    } else {
        count_ok(s.drop_last()) + if s.last() is Ok {
            1nat
        } else {
            0nat
        }
    }
}

/// Indices of the failed outcomes, in increasing order.
pub open spec fn failed_indices(s: Seq<Result<(), FetchError>>) -> Seq<usize>
    decreases s.len(),
{
    if s.len() == 0 {
        Seq::<usize>::empty()
    } else if s.last() is Err {
        failed_indices(s.drop_last()).push((s.len() - 1) as usize)
    } else {
        failed_indices(s.drop_last())
    }
}

proof fn lemma_count_ok_bound(s: Seq<Result<(), FetchError>>)
    ensures
        count_ok(s) <= s.len(),
        failed_indices(s).len() + count_ok(s) == s.len(),
    decreases s.len(),
{
    if s.len() > 0 {
        lemma_count_ok_bound(s.drop_last());
    }
}

/// The counts of a run and its failed artifacts.
pub struct RunSummary {
    pub success_count: usize,
    pub failure_count: usize,
    /// Indices of the failed artifacts, in manifest order.
    pub failed: Vec<usize>,
}

/// Counts successes and failures of a run's outcome and lists the failed
/// artifacts in manifest order.
pub fn tally(outcome: &Vec<Result<(), FetchError>>) -> (r: RunSummary)
    ensures
        r.success_count == count_ok(outcome@),
        r.failure_count == outcome@.len() - count_ok(outcome@),
        r.failed@ == failed_indices(outcome@),
{
    let n = outcome.len();
    let mut ok: usize = 0;
    let mut failed: Vec<usize> = Vec::new();
    let mut i: usize = 0;
    proof {
        assert(outcome@.take(0) =~= Seq::<Result<(), FetchError>>::empty());
    }
    while i < n
        invariant
            n == outcome@.len(),
            i <= n,
            ok == count_ok(outcome@.take(i as int)),
            failed@ == failed_indices(outcome@.take(i as int)),
        decreases n - i,
    {
        let ghost t = outcome@.take(i + 1);
        proof {
            assert(t.drop_last() =~= outcome@.take(i as int));
            lemma_count_ok_bound(outcome@.take(i as int));
        }
        if outcome[i].is_ok() {
            ok = ok + 1;
        } else {
            failed.push(i);
        }
        i = i + 1;
    }
    proof {
        assert(outcome@.take(n as int) =~= outcome@);
        lemma_count_ok_bound(outcome@);
    }
    RunSummary { success_count: ok, failure_count: n - ok, failed }
}

/// `Successfully downloaded: <successes>/<total>`.
pub open spec fn success_line_of(successes: nat, total: nat) -> Seq<char> {
    "Successfully downloaded: "@ + decimal(successes) + "/"@ + decimal(total)
}

/// `Failed to download: <failures>/<total>`.
pub open spec fn failure_line_of(failures: nat, total: nat) -> Seq<char> {
    "Failed to download: "@ + decimal(failures) + "/"@ + decimal(total)
}

/// The line that reports how many artifacts were installed.
pub fn success_line(successes: u64, total: u64) -> (r: String)
    ensures
        r@ == success_line_of(successes as nat, total as nat),
{
    let mut out = String::from_str("Successfully downloaded: ");
    append_decimal(&mut out, successes);
    out.append("/");
    append_decimal(&mut out, total);
    out
}

/// The line that reports how many artifacts failed.
pub fn failure_line(failures: u64, total: u64) -> (r: String)
    ensures
        r@ == failure_line_of(failures as nat, total as nat),
{
    let mut out = String::from_str("Failed to download: ");
    append_decimal(&mut out, failures);
    out.append("/");
    append_decimal(&mut out, total);
    out
}

/// The reason shown for a failed artifact.
pub open spec fn reason_of(e: FetchError) -> Seq<char> {
    match e {
        FetchError::HttpStatus(code) => "HTTP "@ + decimal(code as nat),
        FetchError::Transport(m) => "transport error: "@ + m@,
        FetchError::LocalIO(m) => "file error: "@ + m@,
        FetchError::PathEscape => "path leads outside the output directory"@,
    }
}

/// The reason shown for a failed artifact.
pub fn describe_error(e: &FetchError) -> (r: String)
    ensures
        r@ == reason_of(*e),
{
    match e {
        FetchError::HttpStatus(code) => {
            let mut out = String::from_str("HTTP ");
            append_decimal(&mut out, *code as u64);
            out
        },
        FetchError::Transport(m) => {
            let mut out = String::from_str("transport error: ");
            out.append(m.as_str());
            out
        },
        FetchError::LocalIO(m) => {
            let mut out = String::from_str("file error: ");
            out.append(m.as_str());
            out
        },
        FetchError::PathEscape => String::from_str("path leads outside the output directory"),
    }
}

} // verus!
