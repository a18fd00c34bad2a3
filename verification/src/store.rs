//! How a checkpoint is saved, and why a crash never leaves half of one.
//!
//! Saving is a plan of three steps on the storage medium: write the whole
//! snapshot to a temporary file, flush that file to durable storage, and
//! rename it over the checkpoint. The plan is carried out elsewhere. What is
//! proved here rests on a model of the medium: what is written is durable
//! only once it is flushed, and a rename takes effect at once and for good.

use vstd::prelude::*;
use vstd::string::*;
use crate::aggregate::CachedAggregate;
use crate::state::State;

verus! {

/// One step on the storage medium.
#[derive(Debug)]
pub enum FileOp {
    /// Create the file at `path`, or empty it, and write `contents` to it.
    Write { path: String, contents: String },
    /// Flush the file at `path` to durable storage.
    Flush { path: String },
    /// Put the file at `from` in the place of `to`, in one step.
    Rename { from: String, to: String },
}

/// A step on the storage medium, over the characters of its paths and
/// contents.
pub enum DiskOp {
    Write { path: Seq<char>, contents: Seq<char> },
    Flush { path: Seq<char> },
    Rename { from: Seq<char>, to: Seq<char> },
}

impl View for FileOp {
    type V = DiskOp;

    open spec fn view(&self) -> DiskOp {
        match self {
            FileOp::Write { path, contents } => DiskOp::Write {
                path: path@,
                contents: contents@,
            },
            FileOp::Flush { path } => DiskOp::Flush { path: path@ },
            FileOp::Rename { from, to } => DiskOp::Rename { from: from@, to: to@ },
        }
    }
}

/// The name of the temporary file that a checkpoint is written to before it
/// takes the place of `filename`.
pub open spec fn temporary_name(filename: Seq<char>) -> Seq<char> {
    filename + seq!['.', 't', 'm', 'p']
}

/// The steps that save `contents` under `filename`.
pub open spec fn save_plan(filename: Seq<char>, contents: Seq<char>) -> Seq<DiskOp> {
    seq![
        DiskOp::Write { path: temporary_name(filename), contents },
        DiskOp::Flush { path: temporary_name(filename) },
        DiskOp::Rename { from: temporary_name(filename), to: filename },
    ]
}

/// A file on the medium: what a reader finds in it now, and what would be
/// left of it after a crash.
pub struct StoredFile {
    pub current: Seq<char>,
    pub durable: Seq<char>,
}

/// The medium: the files that exist, by path.
pub type Disk = Map<Seq<char>, StoredFile>;

/// The medium after a step has been carried out. A write leaves the new
/// contents for readers, and `torn` for a crash to find: until it is flushed,
/// nothing is promised of what has reached durable storage. A flush makes
/// the current contents durable. A rename moves the file, as it is, to its
/// new path, and does nothing where there is no such file.
pub open spec fn performed(disk: Disk, op: DiskOp, torn: Seq<char>) -> Disk {
    match op {
        DiskOp::Write { path, contents } => disk.insert(
            path,
            StoredFile { current: contents, durable: torn },
        ),
        DiskOp::Flush { path } => if disk.contains_key(path) {
            disk.insert(
                path,
                StoredFile { current: disk[path].current, durable: disk[path].current },
            )
        } else {
            disk
        },
        DiskOp::Rename { from, to } => if disk.contains_key(from) {
            disk.remove(from).insert(to, disk[from])
        } else {
            disk
        },
    }
}

/// What loading finds under `filename`: the current contents of the file,
/// if there is one.
pub open spec fn loaded(disk: Disk, filename: Seq<char>) -> Option<Seq<char>> {
    if disk.contains_key(filename) {
        Some(disk[filename].current)
    } else {
        None
    }
}

/// What loading finds under `filename` after a crash and a restart: what
/// had reached durable storage.
pub open spec fn recovered(disk: Disk, filename: Seq<char>) -> Option<Seq<char>> {
    if disk.contains_key(filename) {
        Some(disk[filename].durable)
    } else {
        None
    }
}

impl<T: State> CachedAggregate<T> {
    /// The steps that save `contents`, this snapshot in serialised form,
    /// under `filename`: the whole of it goes to a temporary file beside
    /// the checkpoint, is flushed, and takes the checkpoint's place by a
    /// rename.
    pub fn snapshot(&self, filename: &str, contents: String) -> (plan: Vec<FileOp>)
        ensures
            plan@.map_values(|op: FileOp| op@) == save_plan(filename@, contents@),
    {
        let mut plan: Vec<FileOp> = Vec::new();
        plan.push(FileOp::Write { path: String::from_str(filename).concat(".tmp"), contents });
        plan.push(FileOp::Flush { path: String::from_str(filename).concat(".tmp") });
        plan.push(
            FileOp::Rename {
                from: String::from_str(filename).concat(".tmp"),
                to: String::from_str(filename),
            },
        );
        proof {
            reveal_strlit(".tmp");
            assert(".tmp"@ =~= seq!['.', 't', 'm', 'p']);
            assert(plan@.map_values(|op: FileOp| op@) =~= save_plan(filename@, contents@));
        }
        plan
    }
}

/// Saving is atomic. Whatever the medium held, and whatever a crash leaves
/// of a file that was not flushed: as long as the rename has not been
/// carried out, loading finds under `filename` what it found before the save
/// began, with or without a crash, also while the temporary file is only
/// partly written. Once the rename has been carried out, loading finds the
/// whole of the new contents, with or without a crash.
pub proof fn lemma_save_is_atomic(
    disk: Disk,
    filename: Seq<char>,
    contents: Seq<char>,
    partial: Seq<char>,
    torn: Seq<char>,
)
    ensures
        ({
            let plan = save_plan(filename, contents);
            let writing = performed(
                disk,
                DiskOp::Write { path: temporary_name(filename), contents: partial },
                torn,
            );
            let written = performed(disk, plan[0], torn);
            let flushed = performed(written, plan[1], torn);
            let renamed = performed(flushed, plan[2], torn);
            &&& loaded(writing, filename) == loaded(disk, filename)
            &&& recovered(writing, filename) == recovered(disk, filename)
            &&& loaded(written, filename) == loaded(disk, filename)
            &&& recovered(written, filename) == recovered(disk, filename)
            &&& loaded(flushed, filename) == loaded(disk, filename)
            &&& recovered(flushed, filename) == recovered(disk, filename)
            &&& loaded(renamed, filename) == Some(contents)
            &&& recovered(renamed, filename) == Some(contents)
        }),
{
    assert(temporary_name(filename).len() == filename.len() + 4);
    assert(temporary_name(filename) != filename);
}

} // verus!
