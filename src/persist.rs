use crate::session::SessionError;
use crate::store::{last_lookup, KvStore};
use crate::value::Value;
use vstd::prelude::*;

verus! {

/// One disk operation of a flush, performed by the caller in the order given.
#[derive(Debug, Clone, Copy, PartialEq, Eq, Structural)]
pub enum DiskOp {
    /// Write the whole new content to the temporary file beside the target.
    WriteTemp,
    /// Force the temporary file's content to stable storage.
    SyncTemp,
    /// Rename the temporary file over the target, in one step.
    ReplaceTarget,
}

/// What a flush may leave on disk: the content of the target file and of the
/// temporary file beside it, each absent or present.
pub struct DiskImage {
    pub target: Option<Seq<u8>>,
    pub temp: Option<Seq<u8>>,
}

/// The disk after `op` has run to completion, the new content being `content`.
pub open spec fn apply_op(op: DiskOp, disk: DiskImage, content: Seq<u8>) -> DiskImage {
    match op {
        DiskOp::WriteTemp => DiskImage { target: disk.target, temp: Some(content) },
        DiskOp::SyncTemp => disk,
        DiskOp::ReplaceTarget => DiskImage { target: disk.temp, temp: None },
    }
}

/// The disk after `op` was cut short: a write leaves any part of its bytes
/// (`partial`); a sync changes no content; a rename happens whole or not at all.
pub open spec fn interrupt_op(op: DiskOp, disk: DiskImage, partial: Seq<u8>) -> DiskImage {
    match op {
        DiskOp::WriteTemp => DiskImage { target: disk.target, temp: Some(partial) },
        _ => disk,
    }
}

/// The disk after `ops` have run one after another.
pub open spec fn run_ops(ops: Seq<DiskOp>, disk: DiskImage, content: Seq<u8>) -> DiskImage
    decreases ops.len(),
{
    if ops.len() == 0 {
        disk
    } else {
        apply_op(ops.last(), run_ops(ops.drop_last(), disk, content), content)
    }
}

/// What loading the store reads back: the target file alone.
pub open spec fn loaded(disk: DiskImage) -> Option<Seq<u8>> {
    disk.target
}

/// The operations of a flush: write aside, make durable, then swap in.
pub open spec fn flush_plan_spec() -> Seq<DiskOp> {
    seq![DiskOp::WriteTemp, DiskOp::SyncTemp, DiskOp::ReplaceTarget]
}

/// The operations that make a new content of the store durable.
pub fn flush_plan() -> (r: Vec<DiskOp>)
    ensures
        r@ == flush_plan_spec(),
{
    let mut ops: Vec<DiskOp> = Vec::new();
    ops.push(DiskOp::WriteTemp);
    ops.push(DiskOp::SyncTemp);
    ops.push(DiskOp::ReplaceTarget);
    assert(ops@ =~= flush_plan_spec());
    ops
}

/// The path of the temporary file that a flush of `path` writes first.
pub fn temp_path(path: &String) -> (r: String)
    ensures
        r@ == path@ + ".tmp"@,
        r@ != path@,
{
    let mut t = path.clone();
    t.append(".tmp");
    proof {
        reveal_strlit(".tmp");
        assert(t@.len() != path@.len());
    }
    t
}

/// The result of a session operation once its flush has run: a failed flush is
/// a `Persistence` error carrying the failure's description.
pub fn flush_result(outcome: Result<(), String>) -> (r: Result<(), SessionError>)
    ensures
        match outcome {
            Ok(_) => r is Ok,
            Err(m) => r == Err::<(), SessionError>(SessionError::Persistence(m)),
        },
{
    match outcome {
        Ok(()) => Ok(()),
        Err(m) => Err(SessionError::Persistence(m)),
    }
}

/// A flush interrupted at any point, even in the middle of an operation,
/// leaves a disk that loads either the old content or the new one, never
/// anything else; a flush that completes loads the new one.
pub proof fn lemma_flush_crash_safe(disk: DiskImage, content: Seq<u8>, done: int, partial: Seq<u8>)
    requires
        0 <= done <= flush_plan_spec().len(),
    ensures
        ({
            let mid = run_ops(flush_plan_spec().take(done), disk, content);
            &&& loaded(mid) == loaded(disk) || loaded(mid) == Some(content)
            &&& done < flush_plan_spec().len() ==> {
                let cut = interrupt_op(flush_plan_spec()[done], mid, partial);
                loaded(cut) == loaded(disk) || loaded(cut) == Some(content)
            }
        }),
        loaded(run_ops(flush_plan_spec(), disk, content)) == Some(content),
{
    let plan = flush_plan_spec();
    let upto0 = plan.take(0);
    let upto1 = plan.take(1);
    let upto2 = plan.take(2);
    assert(upto0.len() == 0);
    assert(upto1.drop_last() =~= upto0);
    assert(upto2.drop_last() =~= upto1);
    assert(plan.drop_last() =~= upto2);
    assert(plan.take(3) =~= plan);
    assert(plan[0] == DiskOp::WriteTemp && plan[1] == DiskOp::SyncTemp && plan[2]
        == DiskOp::ReplaceTarget);
    let d0 = run_ops(upto0, disk, content);
    let d1 = run_ops(upto1, disk, content);
    let d2 = run_ops(upto2, disk, content);
    let d3 = run_ops(plan, disk, content);
    assert(d0 == disk);
    assert(d1 == DiskImage { target: disk.target, temp: Some(content) });
    assert(d2 == d1);
    assert(d3.target == Some(content));
}

/// What reading the backing file gave.
pub enum FileContent {
    /// There is no file yet.
    Missing,
    /// The file holds this mapping, entry by entry.
    Entries(Vec<(String, Value)>),
    /// The file exists but does not hold a mapping; why, in words.
    Unreadable(String),
}

/// The store that the backing file gives at start-up: an empty one where there
/// is no file, the file's mapping where it holds one, and a `CorruptStore`
/// error where it does not (a damaged file is reported, never discarded).
pub fn load_store(file: FileContent) -> (r: Result<KvStore<Value>, SessionError>)
    ensures
        match file {
            FileContent::Missing => r matches Ok(st) && st.wf() && forall|k: Seq<char>|
                #[trigger] st.value_of(k) is None,
            FileContent::Entries(e) => r matches Ok(st) && st.wf() && forall|k: Seq<char>|
                #[trigger] st.value_of(k) == last_lookup(e@, k),
            FileContent::Unreadable(m) => r == Err::<KvStore<Value>, SessionError>(
                SessionError::CorruptStore(m),
            ),
        },
{
    match file {
        FileContent::Missing => Ok(KvStore::new()),
        FileContent::Entries(e) => Ok(KvStore::from_entries(e)),
        FileContent::Unreadable(m) => Err(SessionError::CorruptStore(m)),
    }
}

} // verus!
