//! The copy dispatcher: from sources and a destination to copy tasks.
//!
//! The caller looks every source up once and hands in what it found. The
//! dispatcher checks the sources, adds up their sizes for the progress
//! display, and decides where each source is written. Nothing is planned
//! unless every source can be planned, so that no transfer starts when one
//! source is missing.

use vstd::prelude::*;
use crate::chunking::{file_chunks, lemma_file_chunks_sum, sum_bytes};
use crate::paths::{file_name, join, path_file_name, path_join};
use crate::progress::{lemma_running_total_monotonic, lemma_sum_concat, lemma_sum_order_independent};

verus! {

/// What the file system says of a source.
#[derive(Clone, Copy, Debug, PartialEq, Eq, Structural)]
pub struct SourceMetadata {
    /// The length of the source in bytes.
    pub size: usize,
    /// Whether the source is a directory.
    pub is_directory: bool,
}

/// A source path together with what was found at it.
#[derive(Debug, PartialEq, Eq)]
pub struct SourceProbe {
    /// The path as given.
    pub path: String,
    /// The metadata of the source, or `None` where the path does not exist
    /// or cannot be read.
    pub metadata: Option<SourceMetadata>,
}

/// One file to copy: where from, where to, and how many bytes.
#[derive(Debug, PartialEq, Eq)]
pub struct CopyTask {
    /// The path of the file to read.
    pub source_path: String,
    /// The path of the file to create or overwrite.
    pub destination_path: String,
    /// The size of the source, as measured before the copy.
    pub size_in_bytes: usize,
}

/// The mathematical value of a [`CopyTask`].
pub struct CopyTaskView {
    pub source_path: Seq<char>,
    pub destination_path: Seq<char>,
    pub size_in_bytes: usize,
}

impl View for CopyTask {
    type V = CopyTaskView;

    open spec fn view(&self) -> CopyTaskView {
        CopyTaskView {
            source_path: self.source_path@,
            destination_path: self.destination_path@,
            size_in_bytes: self.size_in_bytes,
        }
    }
}

/// The tasks of one invocation, and the number of bytes they move in all.
#[derive(Debug, PartialEq, Eq)]
pub struct CopyPlan {
    /// One task for each source, in the order of the sources.
    pub tasks: Vec<CopyTask>,
    /// The sum of the sizes of all sources.
    pub total_expected_bytes: usize,
}

/// Why no plan was made.
#[derive(Clone, Copy, Debug, PartialEq, Eq, Structural)]
pub enum DispatchError {
    /// No source was given.
    NoSources,
    /// The source at this position does not exist or cannot be read.
    SourceUnavailable(usize),
    /// The source at this position is a directory, and directories are not
    /// expanded.
    DirectoryNotExpanded(usize),
    /// The sizes of the sources add up to more than `usize::MAX`.
    TotalSizeOverflow,
    /// The source at this position has no final component to name its copy
    /// by.
    MissingFileName(usize),
}

/// What is wrong with a single source.
pub enum SourceFault {
    /// It does not exist or cannot be read.
    Unavailable,
    /// It is a directory where directories would have to be expanded.
    Directory,
}

/// What is wrong with a source, if anything. A directory is at fault only
/// in recursive mode, where it would have to be expanded.
pub open spec fn source_fault(probe: SourceProbe, recursive: bool) -> Option<SourceFault> {
    match probe.metadata {
        None => Some(SourceFault::Unavailable),
        Some(metadata) => if recursive && metadata.is_directory {
            Some(SourceFault::Directory)
        } else {
            None
        },
    }
}

/// No source is at fault.
pub open spec fn sources_sound(probes: Seq<SourceProbe>, recursive: bool) -> bool {
    forall|i: int| 0 <= i < probes.len() ==> source_fault(#[trigger] probes[i], recursive) is None
}

/// The source at position `at` is at fault, and none before it is.
pub open spec fn first_fault_at(probes: Seq<SourceProbe>, recursive: bool, at: int) -> bool {
    &&& 0 <= at < probes.len()
    &&& source_fault(probes[at], recursive) is Some
    &&& sources_sound(probes.take(at), recursive)
}

/// The size by which a source counts: its length, or nothing where it is
/// unavailable.
pub open spec fn probe_size(probe: SourceProbe) -> usize {
    match probe.metadata {
        Some(metadata) => metadata.size,
        None => 0,
    }
}

/// The sizes of the sources, in order.
pub open spec fn source_sizes(probes: Seq<SourceProbe>) -> Seq<usize> {
    Seq::new(probes.len(), |i: int| probe_size(probes[i]))
}

/// Where a source is written. A single source goes to the destination
/// itself. With several sources the destination is a directory, and each
/// source goes to its own file name inside it; a source without a file
/// name has no destination.
pub open spec fn destination_for(source: Seq<char>, destination: Seq<char>, count: nat) -> Option<
    Seq<char>,
> {
    if count == 1 {
        Some(destination)
    } else {
        match path_file_name(source) {
            Some(name) => Some(path_join(destination, name)),
            None => None,
        }
    }
}

/// Whether a source of `count` has a destination: a single source always
/// has, any other needs a file name.
pub open spec fn has_destination(source: Seq<char>, count: nat) -> bool {
    count == 1 || path_file_name(source) is Some
}

/// Every source has a destination.
pub open spec fn all_named(probes: Seq<SourceProbe>, count: nat) -> bool {
    forall|i: int| 0 <= i < probes.len() ==> has_destination((#[trigger] probes[i]).path@, count)
}

/// The source at position `at` has no destination, and every one before it
/// has.
pub open spec fn first_unnamed_at(probes: Seq<SourceProbe>, at: int) -> bool {
    &&& 0 <= at < probes.len()
    &&& !has_destination(probes[at].path@, probes.len())
    &&& all_named(probes.take(at), probes.len())
}

/// A plan can be made: there is a source, no source is at fault, the sizes
/// fit, and every source has a destination.
pub open spec fn plannable(probes: Seq<SourceProbe>, recursive: bool) -> bool {
    &&& probes.len() > 0
    &&& sources_sound(probes, recursive)
    &&& sum_bytes(source_sizes(probes)) <= usize::MAX
    &&& all_named(probes, probes.len())
}

/// The task for one source of `count`.
pub open spec fn planned_task(probe: SourceProbe, destination: Seq<char>, count: nat) -> CopyTaskView {
    CopyTaskView {
        source_path: probe.path@,
        destination_path: destination_for(probe.path@, destination, count).unwrap(),
        size_in_bytes: probe_size(probe),
    }
}

/// Checks every source, in order, and lists their sizes.
///
/// Fails at the first source that is unavailable or, in recursive mode, is
/// a directory.
pub fn check_sources(probes: &Vec<SourceProbe>, recursive: bool) -> (result: Result<
    Vec<usize>,
    DispatchError,
>)
    ensures
        result is Ok <==> sources_sound(probes@, recursive),
        match result {
            Ok(sizes) => sizes@ == source_sizes(probes@),
            Err(DispatchError::SourceUnavailable(at)) => first_fault_at(
                probes@,
                recursive,
                at as int,
            ) && probes@[at as int].metadata is None,
            Err(DispatchError::DirectoryNotExpanded(at)) => first_fault_at(
                probes@,
                recursive,
                at as int,
            ) && probes@[at as int].metadata is Some,
            Err(_) => false,
        },
{
    let mut sizes: Vec<usize> = Vec::new();
    let mut at: usize = 0;
    while at < probes.len()
        invariant
            at <= probes@.len(),
            sources_sound(probes@.take(at as int), recursive),
            sizes@ =~= source_sizes(probes@.take(at as int)),
        decreases probes@.len() - at,
    {
        match probes[at].metadata {
            None => {
                return Err(DispatchError::SourceUnavailable(at));
            },
            Some(metadata) => {
                if recursive && metadata.is_directory {
                    return Err(DispatchError::DirectoryNotExpanded(at));
                }
                sizes.push(metadata.size);
            },
        }
        at = at + 1;
        assert forall|i: int| 0 <= i < at implies source_fault(
            #[trigger] probes@.take(at as int)[i],
            recursive,
        ) is None by {
            if i < at - 1 {
                assert(probes@.take(at as int)[i] == probes@.take(at - 1)[i]);
            }
        }
    }
    assert(probes@.take(at as int) =~= probes@);
    Ok(sizes)
}

/// Adds up the sizes of the sources; `None` where the sum does not fit.
pub fn total_bytes(sizes: &Vec<usize>) -> (total: Option<usize>)
    ensures
        total is Some <==> sum_bytes(sizes@) <= usize::MAX,
        total is Some ==> total.unwrap() == sum_bytes(sizes@),
{
    let mut total: usize = 0;
    let mut at: usize = 0;
    proof {
        assert(sizes@.take(0).len() == 0);
    }
    while at < sizes.len()
        invariant
            at <= sizes@.len(),
            total == sum_bytes(sizes@.take(at as int)),
        decreases sizes@.len() - at,
    {
        proof {
            assert(sizes@.take(at + 1).drop_last() =~= sizes@.take(at as int));
            lemma_running_total_monotonic(sizes@, at + 1, sizes@.len() as int);
        }
        match total.checked_add(sizes[at]) {
            Some(sum) => {
                total = sum;
            },
            None => {
                return None;
            },
        }
        at = at + 1;
    }
    assert(sizes@.take(at as int) =~= sizes@);
    Some(total)
}

/// Decides where one source of `count` is written.
///
/// A single source is written to `destination` as it stands, whatever the
/// source is called. Any other source is written inside `destination`,
/// under the last component of its own path; the directories above that
/// component are not kept.
pub fn resolve_destination(source: &String, destination: &String, count: usize) -> (resolved: Option<
    String,
>)
    ensures
        resolved is Some <==> has_destination(source@, count as nat),
        resolved is Some ==> Some(resolved.unwrap()@) == destination_for(
            source@,
            destination@,
            count as nat,
        ),
        count == 1 ==> resolved is Some && resolved.unwrap()@ == destination@,
{
    if count == 1 {
        Some(destination.clone())
    } else {
        match file_name(source) {
            Some(name) => Some(join(destination, &name)),
            None => None,
        }
    }
}

/// Turns the sources of one invocation into copy tasks.
///
/// The sources are checked first, all of them: a plan is made only where
/// every source is available, so that a missing source leaves no task to
/// run. Then the sizes are added up, and each source gets its destination.
/// The first failure, in this order, is the error.
pub fn plan_copies(probes: &Vec<SourceProbe>, destination: &String, recursive: bool) -> (result:
    Result<CopyPlan, DispatchError>)
    ensures
        result is Ok <==> plannable(probes@, recursive),
        forall|i: int|
            0 <= i < probes@.len() && (#[trigger] probes@[i]).metadata is None ==> result is Err,
        match result {
            Ok(plan) => {
                &&& plan.tasks@.len() == probes@.len()
                &&& forall|i: int|
                    0 <= i < probes@.len() ==> (#[trigger] plan.tasks@[i])@ == planned_task(
                        probes@[i],
                        destination@,
                        probes@.len(),
                    )
                &&& plan.total_expected_bytes == sum_bytes(source_sizes(probes@))
                &&& probes@.len() == 1 ==> plan.tasks@[0].destination_path@ == destination@
            },
            Err(DispatchError::NoSources) => probes@.len() == 0,
            Err(DispatchError::SourceUnavailable(at)) => first_fault_at(
                probes@,
                recursive,
                at as int,
            ) && probes@[at as int].metadata is None,
            Err(DispatchError::DirectoryNotExpanded(at)) => first_fault_at(
                probes@,
                recursive,
                at as int,
            ) && probes@[at as int].metadata is Some,
            Err(DispatchError::TotalSizeOverflow) => sources_sound(probes@, recursive) && sum_bytes(
                source_sizes(probes@),
            ) > usize::MAX,
            Err(DispatchError::MissingFileName(at)) => {
                &&& sources_sound(probes@, recursive)
                &&& sum_bytes(source_sizes(probes@)) <= usize::MAX
                &&& first_unnamed_at(probes@, at as int)
            },
        },
{
    let sizes = match check_sources(probes, recursive) {
        Ok(sizes) => sizes,
        Err(error) => {
            proof {
                let at = choose|at: int| first_fault_at(probes@, recursive, at);
                assert(source_fault(probes@[at], recursive) is Some);
            }
            return Err(error);
        },
    };
    let total = match total_bytes(&sizes) {
        Some(total) => total,
        None => {
            return Err(DispatchError::TotalSizeOverflow);
        },
    };
    let count: usize = probes.len();
    if count == 0 {
        return Err(DispatchError::NoSources);
    }
    let mut tasks: Vec<CopyTask> = Vec::new();
    let mut at: usize = 0;
    while at < count
        invariant
            at <= count,
            count == probes@.len(),
            sizes@ == source_sizes(probes@),
            sources_sound(probes@, recursive),
            total == sum_bytes(source_sizes(probes@)),
            all_named(probes@.take(at as int), count as nat),
            tasks@.len() == at,
            forall|i: int|
                0 <= i < at ==> (#[trigger] tasks@[i])@ == planned_task(
                    probes@[i],
                    destination@,
                    count as nat,
                ),
        decreases count - at,
    {
        let probe = &probes[at];
        match resolve_destination(&probe.path, destination, count) {
            None => {
                proof {
                    assert(!has_destination(probes@[at as int].path@, count as nat));
                }
                return Err(DispatchError::MissingFileName(at));
            },
            Some(resolved) => {
                tasks.push(
                    CopyTask {
                        source_path: probe.path.clone(),
                        destination_path: resolved,
                        size_in_bytes: sizes[at],
                    },
                );
            },
        }
        at = at + 1;
        assert forall|i: int| 0 <= i < at implies has_destination(
            (#[trigger] probes@.take(at as int)[i]).path@,
            count as nat,
        ) by {
            if i < at - 1 {
                assert(probes@.take(at as int)[i] == probes@.take(at - 1)[i]);
            }
        }
    }
    proof {
        assert(probes@.take(at as int) =~= probes@);
        assert forall|i: int| 0 <= i < probes@.len() implies (#[trigger] probes@[i]).metadata
            is Some by {
            assert(source_fault(probes@[i], recursive) is None);
        }
    }
    Ok(CopyPlan { tasks, total_expected_bytes: total })
}

/// With several sources, two sources with the same file name are written
/// to the same destination, whatever directories they come from. The plan
/// does not notice the collision.
pub proof fn lemma_same_name_same_destination(
    first: Seq<char>,
    second: Seq<char>,
    destination: Seq<char>,
    count: nat,
)
    requires
        count != 1,
        path_file_name(first) == path_file_name(second),
    ensures
        destination_for(first, destination, count) == destination_for(second, destination, count),
{
}

/// The events of all transfers of a plan, one transfer after the other:
/// for each size, in order, the blocks in which a file of that size is
/// moved.
pub open spec fn all_events(sizes: Seq<usize>) -> Seq<usize>
    decreases sizes.len(),
{
    if sizes.len() == 0 {
        Seq::empty()
    } else {
        all_events(sizes.drop_last()) + file_chunks(sizes.last())
    }
}

/// The events of all transfers add up to the sum of the sizes.
pub proof fn lemma_all_events_sum(sizes: Seq<usize>)
    ensures
        sum_bytes(all_events(sizes)) == sum_bytes(sizes),
    decreases sizes.len(),
{
    if sizes.len() > 0 {
        lemma_all_events_sum(sizes.drop_last());
        lemma_sum_concat(all_events(sizes.drop_last()), file_chunks(sizes.last()));
        lemma_file_chunks_sum(sizes.last());
    }
}

/// Aggregate progress on full success. Let the workers emit the events of
/// their transfers in any interleaving. Then the running total after any
/// number of events does not pass the sum of the sizes, does not fall from
/// one event to the next, and is the sum of the sizes after the last
/// event.
pub proof fn lemma_progress_reaches_total(sizes: Seq<usize>, stream: Seq<usize>, i: int, j: int)
    requires
        stream.to_multiset() == all_events(sizes).to_multiset(),
        0 <= i <= j <= stream.len(),
    ensures
        sum_bytes(stream.take(i)) <= sum_bytes(stream.take(j)) <= sum_bytes(sizes),
        sum_bytes(stream.take(stream.len() as int)) == sum_bytes(sizes),
{
    lemma_sum_order_independent(stream, all_events(sizes));
    lemma_all_events_sum(sizes);
    lemma_running_total_monotonic(stream, i, j);
    assert(stream.take(stream.len() as int) =~= stream);
}

} // verus!
