//! The per-artifact side of a run: errors of one fetch, and the decisions
//! taken before and during it (source URL, destination, HTTP status).
use vstd::prelude::*;

use crate::manifest::ModFile;
use crate::paths::{stays_within, stays_within_root};

verus! {

/// Why one artifact could not be materialized. Such an error is recorded for
/// that artifact alone and never stops the run.
#[derive(Debug, PartialEq, Eq)]
pub enum FetchError {
    /// The server answered with a status outside 200..=299.
    HttpStatus(u16),
    /// The request or the body stream failed (DNS, connect, TLS, timeout).
    Transport(String),
    /// Creating a directory or writing the file failed.
    LocalIO(String),
    /// The artifact's relative path leads outside the output root.
    PathEscape,
}

/// Whether an HTTP status code means success.
pub open spec fn is_success_status(code: u16) -> bool {
    200 <= code <= 299
}

/// Turns the status of a response into the artifact's result: success for
/// 2xx, `HttpStatus(code)` otherwise.
pub fn classify_status(code: u16) -> (r: Result<(), FetchError>)
    ensures
        r is Ok <==> is_success_status(code),
        !is_success_status(code) ==> r == Err::<(), FetchError>(FetchError::HttpStatus(code)),
{
    if 200 <= code && code <= 299 {
        Ok(())
    } else {
        Err(FetchError::HttpStatus(code))
    }
}

/// Where one artifact comes from and where it goes.
pub struct FetchPlan {
    pub url: String,
    pub destination: String,
}

/// The destination of a relative path under a root directory.
pub open spec fn joined(root: Seq<char>, relative: Seq<char>) -> Seq<char> {
    root + seq!['/'] + relative
}

/// Decides where an artifact is fetched from (its first download URL) and
/// where it is written (`output_root/relative_path`). A path that leads outside
/// the root is refused with `PathEscape`, before anything is written.
pub fn plan_fetch(file: &ModFile, output_root: &str) -> (r: Result<FetchPlan, FetchError>)
    requires
        file.downloads@.len() > 0,
    ensures
        r is Ok <==> stays_within_root(file.path@),
        r matches Err(e) ==> e == FetchError::PathEscape,
        r matches Ok(plan) ==> plan.url@ == file.downloads@[0]@ && plan.destination@ == joined(
            output_root@,
            file.path@,
        ),
{
    if !stays_within(file.path.as_str()) {
        return Err(FetchError::PathEscape);
    }
    let url = file.downloads[0].clone();
    let mut destination = String::from_str(output_root);
    destination.append("/");
    destination.append(file.path.as_str());
    proof {
        reveal_strlit("/");
    }
    Ok(FetchPlan { url, destination })
}

/// Where a materialization stands: which outside step it waits on.
#[derive(Debug, Clone, Copy, PartialEq, Eq)]
pub enum Stage {
    /// Waiting for the destination's parent directories to exist.
    AwaitDirs,
    /// Waiting for the response to the GET request.
    AwaitResponse,
    /// Waiting for the destination file to be created (or truncated).
    AwaitFile,
    /// Copying the body to the file, chunk by chunk.
    Streaming,
    /// Waiting for the file to be flushed.
    AwaitFlush,
    /// Done; the last action carried the result.
    Finished,
}

/// What happened at the outside step that was asked for last.
#[derive(Debug, PartialEq, Eq)]
pub enum Event {
    /// The step asked for succeeded (directories made, file created, flushed).
    Ready,
    /// The server answered with this status.
    Status(u16),
    /// A chunk of this many bytes was written to the file.
    Chunk(u64),
    /// The body has no more chunks.
    EndOfBody,
    /// The step asked for failed.
    Failed(FetchError),
}

/// The outside step to perform next.
#[derive(Debug, PartialEq, Eq)]
pub enum Action {
    /// Create every missing parent directory of this file path.
    MakeParentDirs(String),
    /// Send a GET request to this URL.
    Get(String),
    /// Create this file, emptying it if it exists.
    CreateFile(String),
    /// Read the next chunk of the body, write it to the file and report its length.
    CopyChunk,
    /// Flush the file.
    Flush,
    /// Stop: the artifact's result.
    Finish(Result<(), FetchError>),
}

/// Whether `e` can follow the action issued on entering `stage`.
pub open spec fn accepts(stage: Stage, e: Event) -> bool {
    match stage {
        Stage::Finished => false,
        Stage::AwaitDirs | Stage::AwaitFile | Stage::AwaitFlush => e is Ready || e is Failed,
        Stage::AwaitResponse => e is Status || e is Failed,
        Stage::Streaming => e is Chunk || e is EndOfBody || e is Failed,
    }
}

/// The stage after an accepted event.
pub open spec fn next_stage(stage: Stage, e: Event) -> Stage {
    match e {
        Event::Failed(_) => Stage::Finished,
        Event::Status(code) => if is_success_status(code) {
            Stage::AwaitFile
        } else {
            Stage::Finished
        },
        Event::Chunk(_) => Stage::Streaming,
        Event::EndOfBody => Stage::AwaitFlush,
        Event::Ready => match stage {
            Stage::AwaitDirs => Stage::AwaitResponse,
            Stage::AwaitFile => Stage::Streaming,
            _ => Stage::Finished,
        },
    }
}

/// The action issued after an accepted event.
pub open spec fn next_action(plan: FetchPlan, stage: Stage, e: Event) -> Action {
    match e {
        Event::Failed(err) => Action::Finish(Err(err)),
        Event::Status(code) => if is_success_status(code) {
            Action::CreateFile(plan.destination)
        } else {
            Action::Finish(Err(FetchError::HttpStatus(code)))
        },
        Event::Chunk(_) => Action::CopyChunk,
        Event::EndOfBody => Action::Flush,
        Event::Ready => match stage {
            Stage::AwaitDirs => Action::Get(plan.url),
            Stage::AwaitFile => Action::CopyChunk,
            _ => Action::Finish(Ok(())),
        },
    }
}

/// Bytes written after an accepted event; the count stops at `u64::MAX`.
pub open spec fn next_bytes(bytes: u64, e: Event) -> u64 {
    match e {
        Event::Chunk(n) => if bytes + n > u64::MAX {
            u64::MAX
        } else {
            (bytes + n) as u64
        },
        _ => bytes,
    }
}

/// One artifact's fetch as a sequence of outside steps: make the parent
/// directories, GET the first URL, check the status, create the file, copy
/// the body chunk by chunk, flush. Any failure ends it with that error; a
/// partly written file is left as it is.
pub struct Materialization {
    plan: FetchPlan,
    stage: Stage,
    bytes_written: u64,
}

impl Materialization {
    pub closed spec fn plan(&self) -> FetchPlan {
        self.plan
    }

    pub closed spec fn stage(&self) -> Stage {
        self.stage
    }

    pub closed spec fn bytes(&self) -> u64 {
        self.bytes_written
    }

    /// Starts a materialization; its first action makes the destination's
    /// parent directories.
    pub fn start(plan: FetchPlan) -> (r: (Materialization, Action))
        ensures
            r.0.plan() == plan,
            r.0.stage() == Stage::AwaitDirs,
            r.0.bytes() == 0,
            r.1 == Action::MakeParentDirs(plan.destination),
    {
        let dest = plan.destination.clone();
        (Materialization { plan, stage: Stage::AwaitDirs, bytes_written: 0 }, Action::MakeParentDirs(dest))
    }

    /// Whether `e` can follow the last action.
    pub fn accepts(&self, e: &Event) -> (r: bool)
        ensures
            r == accepts(self.stage(), *e),
    {
        match self.stage {
            Stage::Finished => false,
            Stage::AwaitDirs | Stage::AwaitFile | Stage::AwaitFlush => match e {
                Event::Ready | Event::Failed(_) => true,
                _ => false,
            },
            Stage::AwaitResponse => match e {
                Event::Status(_) | Event::Failed(_) => true,
                _ => false,
            },
            Stage::Streaming => match e {
                Event::Chunk(_) | Event::EndOfBody | Event::Failed(_) => true,
                _ => false,
            },
        }
    }

    /// Whether the materialization has ended.
    pub fn is_finished(&self) -> (r: bool)
        ensures
            r == (self.stage() == Stage::Finished),
    {
        match self.stage {
            Stage::Finished => true,
            _ => false,
        }
    }

    /// Bytes written to the file so far.
    pub fn bytes_written(&self) -> (r: u64)
        ensures
            r == self.bytes(),
    {
        self.bytes_written
    }

    /// Takes in what the last outside step produced and decides the next one.
    pub fn step(&mut self, e: Event) -> (r: Action)
        requires
            accepts(old(self).stage(), e),
        ensures
            final(self).plan() == old(self).plan(),
            final(self).stage() == next_stage(old(self).stage(), e),
            final(self).bytes() == next_bytes(old(self).bytes(), e),
            r == next_action(old(self).plan(), old(self).stage(), e),
    {
        match e {
            Event::Failed(err) => {
                self.stage = Stage::Finished;
                Action::Finish(Err(err))
            },
            Event::Status(code) => {
                match classify_status(code) {
                    Ok(()) => {
                        self.stage = Stage::AwaitFile;
                        Action::CreateFile(self.plan.destination.clone())
                    },
                    Err(err) => {
                        self.stage = Stage::Finished;
                        Action::Finish(Err(err))
                    },
                }
            },
            Event::Chunk(n) => {
                self.bytes_written = self.bytes_written.saturating_add(n);
                Action::CopyChunk
            },
            Event::EndOfBody => {
                self.stage = Stage::AwaitFlush;
                Action::Flush
            },
            Event::Ready => {
                match self.stage {
                    Stage::AwaitDirs => {
                        self.stage = Stage::AwaitResponse;
                        Action::Get(self.plan.url.clone())
                    },
                    Stage::AwaitFile => {
                        self.stage = Stage::Streaming;
                        Action::CopyChunk
                    },
                    _ => {
                        self.stage = Stage::Finished;
                        Action::Finish(Ok(()))
                    },
                }
            },
        }
    }
}

/// Bytes reach the file only in the streaming stage, and that stage is
/// entered only right after the destination was created (emptied if it
/// existed); so a session never appends to what an earlier one wrote.
pub proof fn lemma_writes_follow_file_creation(stage: Stage, e: Event)
    requires
        accepts(stage, e),
        next_stage(stage, e) == Stage::Streaming,
    ensures
        stage == Stage::Streaming || (stage == Stage::AwaitFile && e == Event::Ready),
{
}

/// A session ends with success only after the status was a success and the
/// file was flushed: `Finish(Ok)` follows `Ready` in the flush stage alone.
pub proof fn lemma_success_only_after_flush(plan: FetchPlan, stage: Stage, e: Event)
    requires
        accepts(stage, e),
        next_action(plan, stage, e) == Action::Finish(Ok(())),
    ensures
        stage == Stage::AwaitFlush && e == Event::Ready,
{
}

} // verus!
