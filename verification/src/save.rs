//! Keeping the tracked instances in the state file, and getting them back.

use vstd::prelude::*;
use vstd::string::*;

use crate::config::{AntaresConfig, AntaresState, ConfigView};
use crate::fs_path::{parent_of, FsPath};
use crate::jobs::JobTable;
use crate::outcome::{
    ActionView, AntaresError, ErrorKind, ErrorView, Fault, FaultView, Reply, ReplyView,
};

verus! {

/// What saving the state waits for.
#[derive(Debug)]
pub enum SaveStep {
    /// The text of the state.
    Encode,
    /// The directory of the state file.
    MakeParent { parent: FsPath, data: String },
    /// The state file.
    Write { data: String },
}

/// The model of `SaveStep`.
#[verifier::ext_equal]
pub enum SaveStepView {
    Encode,
    MakeParent { parent: Seq<u8>, data: Seq<char> },
    Write { data: Seq<char> },
}

impl View for SaveStep {
    type V = SaveStepView;

    open spec fn view(&self) -> SaveStepView {
        match self {
            SaveStep::Encode => SaveStepView::Encode,
            SaveStep::MakeParent { parent, data } => SaveStepView::MakeParent {
                parent: parent@,
                data: data@,
            },
            SaveStep::Write { data } => SaveStepView::Write { data: data@ },
        }
    }
}

/// Where a reply leaves the saving of the state.
#[derive(Debug)]
pub enum SaveNext<E> {
    /// It waits for this step.
    Wait(SaveStep),
    /// The state is saved.
    Saved,
    /// The state could not be saved.
    Failed(AntaresError<E>),
}

/// The model of `SaveNext`.
#[verifier::ext_equal]
pub enum SaveNextView<E> {
    Wait(SaveStepView),
    Saved,
    Failed(ErrorView<E>),
}

impl<E> View for SaveNext<E> {
    type V = SaveNextView<E>;

    open spec fn view(&self) -> SaveNextView<E> {
        match self {
            SaveNext::Wait(step) => SaveNextView::Wait(step@),
            SaveNext::Saved => SaveNextView::Saved,
            SaveNext::Failed(error) => SaveNextView::Failed(error@),
        }
    }
}

/// The instances of a list are those of a map, each listed once under its own job.
pub open spec fn lists(list: Seq<ConfigView>, instances: Map<Seq<char>, ConfigView>) -> bool {
    &&& forall|i: int|
        0 <= i < list.len() ==> instances.contains_key((#[trigger] list[i]).job_id)
            && instances[list[i].job_id] == list[i]
    &&& forall|i: int, j: int|
        0 <= i < j < list.len() ==> (#[trigger] list[i]).job_id != (#[trigger] list[j]).job_id
    &&& forall|job: Seq<char>| #[trigger]
        instances.contains_key(job) ==> exists|i: int|
            0 <= i < list.len() && (#[trigger] list[i]).job_id == job
}

/// Whether `action` is what saving the state asks for at `step`.
pub open spec fn save_asks(
    step: SaveStepView,
    state_file: Seq<u8>,
    instances: Map<Seq<char>, ConfigView>,
    action: ActionView,
) -> bool {
    match step {
        SaveStepView::Encode => action matches ActionView::EncodeState(list) && lists(
            list,
            instances,
        ),
        SaveStepView::MakeParent { parent, .. } => action == ActionView::CreateDirAll(parent),
        SaveStepView::Write { data } => action == ActionView::WriteFile { path: state_file, data },
    }
}

/// Where `reply` takes the saving of the state from `step`. The directory of the state
/// file is made first, where it has one. A reply that is no answer changes nothing.
pub open spec fn save_after<F, E>(
    step: SaveStepView,
    state_file: Seq<u8>,
    reply: ReplyView<F, E>,
) -> SaveNextView<E> {
    match (step, reply) {
        (SaveStepView::Encode, ReplyView::Encoded(data)) => SaveNextView::Wait(
            match parent_of(state_file) {
                Some(parent) => SaveStepView::MakeParent { parent, data },
                None => SaveStepView::Write { data },
            },
        ),
        (SaveStepView::Encode, ReplyView::Failed(fault)) => SaveNextView::Failed(
            ErrorView::Raised { kind: ErrorKind::Other, message: "encode state: "@ + fault.text },
        ),
        (SaveStepView::MakeParent { parent, data }, ReplyView::Done) => SaveNextView::Wait(
            SaveStepView::Write { data },
        ),
        (SaveStepView::Write { .. }, ReplyView::Done) => SaveNextView::Saved,
        (SaveStepView::MakeParent { .. }, ReplyView::Failed(fault)) => SaveNextView::Failed(
            ErrorView::Io(fault),
        ),
        (SaveStepView::Write { .. }, ReplyView::Failed(fault)) => SaveNextView::Failed(
            ErrorView::Io(fault),
        ),
        _ => SaveNextView::Wait(step),
    }
}

/// Takes the saving of the state on by one reply.
pub fn save_next<F, E>(step: SaveStep, state_file: &FsPath, reply: Reply<F, E>) -> (res: SaveNext<
    E,
>)
    ensures
        res@ == save_after(step@, state_file@, reply@),
{
    match (step, reply) {
        (SaveStep::Encode, Reply::Encoded(data)) => {
            match state_file.parent() {
                Some(parent) => SaveNext::Wait(SaveStep::MakeParent { parent, data }),
                None => SaveNext::Wait(SaveStep::Write { data }),
            }
        },
        (SaveStep::Encode, Reply::Failed(fault)) => SaveNext::Failed(
            AntaresError::Raised {
                kind: ErrorKind::Other,
                message: "encode state: ".to_string().concat(fault.text.as_str()),
            },
        ),
        (SaveStep::MakeParent { parent: _, data }, Reply::Done) => SaveNext::Wait(SaveStep::Write { data }),
        (SaveStep::Write { .. }, Reply::Done) => SaveNext::Saved,
        (SaveStep::MakeParent { .. }, Reply::Failed(fault)) => SaveNext::Failed(
            AntaresError::Io(fault),
        ),
        (SaveStep::Write { .. }, Reply::Failed(fault)) => SaveNext::Failed(AntaresError::Io(fault)),
        (step, _) => SaveNext::Wait(step),
    }
}

/// What came of reading the state file.
#[derive(Debug)]
pub enum StateRead<E> {
    /// There is no such file.
    Missing,
    /// The file could not be read.
    Unreadable(Fault<E>),
    /// What it holds is no state, with the reason.
    Malformed(String),
    /// It holds this state.
    Parsed(AntaresState),
}

/// The model of `StateRead`.
#[verifier::ext_equal]
pub enum StateReadView<E> {
    Missing,
    Unreadable(FaultView<E>),
    Malformed(Seq<char>),
    Parsed(Seq<ConfigView>),
}

impl<E> View for StateRead<E> {
    type V = StateReadView<E>;

    open spec fn view(&self) -> StateReadView<E> {
        match self {
            StateRead::Missing => StateReadView::Missing,
            StateRead::Unreadable(fault) => StateReadView::Unreadable(fault@),
            StateRead::Malformed(reason) => StateReadView::Malformed(reason@),
            StateRead::Parsed(state) => StateReadView::Parsed(state@),
        }
    }
}

/// The instances of a list under their jobs. Of two with the same job the later one counts.
pub open spec fn by_job(list: Seq<ConfigView>) -> Map<Seq<char>, ConfigView>
    decreases list.len(),
{
    if list.len() == 0 {
        Map::empty()
    } else {
        by_job(list.drop_last()).insert(list.last().job_id, list.last())
    }
}

/// The instances that a read of the state file gives back.
pub open spec fn loaded<E>(read: StateReadView<E>) -> Result<
    Map<Seq<char>, ConfigView>,
    ErrorView<E>,
> {
    match read {
        StateReadView::Missing => Ok(Map::empty()),
        StateReadView::Unreadable(fault) => Err(ErrorView::Io(fault)),
        StateReadView::Malformed(reason) => Err(
            ErrorView::Raised {
                kind: ErrorKind::InvalidData,
                message: "parse state: "@ + reason,
            },
        ),
        StateReadView::Parsed(list) => Ok(by_job(list)),
    }
}

/// Whether no later instance of `list` has the job of the one at `at`.
pub open spec fn is_last_of_its_job(list: Seq<ConfigView>, at: int) -> bool {
    &&& 0 <= at < list.len()
    &&& forall|i: int| at < i < list.len() ==> (#[trigger] list[i]).job_id != list[at].job_id
}

/// Whether `instances` holds of every job of `list` the last instance that the list has of it,
/// and nothing else.
pub open spec fn holds_last_of_each(
    instances: Map<Seq<char>, ConfigView>,
    list: Seq<ConfigView>,
) -> bool {
    &&& forall|at: int| #[trigger]
        is_last_of_its_job(list, at) ==> instances.contains_key(list[at].job_id)
            && instances[list[at].job_id] == list[at]
    &&& forall|job: Seq<char>| #[trigger]
        instances.contains_key(job) ==> exists|at: int| #[trigger]
            is_last_of_its_job(list, at) && list[at].job_id == job
}

/// The model of a table of instances.
pub open spec fn table_view(table: JobTable<AntaresConfig>) -> Map<Seq<char>, ConfigView> {
    table@.map_values(|config: AntaresConfig| config@)
}

/// Gets the tracked instances back from what was read.
pub fn load_state<E>(read: StateRead<E>) -> (res: Result<JobTable<AntaresConfig>, AntaresError<E>>)
    ensures
        match res {
            Ok(table) => loaded(read@) == Ok::<_, ErrorView<E>>(table_view(table)),
            Err(error) => loaded(read@) == Err::<Map<Seq<char>, ConfigView>, _>(error@),
        },
        match read@ {
            StateReadView::Missing => res matches Ok(table) && table_view(table)
                == Map::<Seq<char>, ConfigView>::empty(),
            StateReadView::Unreadable(fault) => res matches Err(error) && error@ == (ErrorView::Io(
                fault,
            )),
            StateReadView::Malformed(reason) => res matches Err(error) && error@ == (
            ErrorView::<E>::Raised {
                kind: ErrorKind::InvalidData,
                message: "parse state: "@ + reason,
            }),
            StateReadView::Parsed(list) => res matches Ok(table) && holds_last_of_each(
                table_view(table),
                list,
            ),
        },
{
    match read {
        StateRead::Missing => {
            let table = JobTable::new();
            assert(table_view(table) =~= Map::empty());
            Ok(table)
        },
        StateRead::Unreadable(fault) => Err(AntaresError::Io(fault)),
        StateRead::Malformed(reason) => Err(
            AntaresError::Raised {
                kind: ErrorKind::InvalidData,
                message: "parse state: ".to_string().concat(reason.as_str()),
            },
        ),
        StateRead::Parsed(state) => {
            let ghost list = state@;
            let mut table: JobTable<AntaresConfig> = JobTable::new();
            assert(table_view(table) =~= Map::empty());
            for mount in it: state.mounts
                invariant
                    it.seq() == state.mounts@,
                    list == state@,
                    table_view(table) == by_job(list.take(it.index() as int)),
            {
                let ghost at = it.index() as int;
                let ghost before = table@;
                let ghost config = mount;
                table.insert(mount.job_id.clone(), mount);
                proof {
                    assert(list.take(at + 1).drop_last() =~= list.take(at));
                    assert(table_view(table) =~= before.map_values(
                        |config: AntaresConfig| config@,
                    ).insert(config.job_id@, config@));
                }
            }
            assert(list.take(list.len() as int) =~= list);
            proof {
                lemma_by_job_holds_last(list);
            }
            Ok(table)
        },
    }
}

/// Of the instances of a list, the last one of each job is kept under it.
pub proof fn lemma_by_job_holds_last(list: Seq<ConfigView>)
    ensures
        holds_last_of_each(by_job(list), list),
    decreases list.len(),
{
    if list.len() > 0 {
        let rest = list.drop_last();
        let end = list.len() - 1;
        lemma_by_job_holds_last(rest);
        assert forall|at: int| #[trigger] is_last_of_its_job(list, at) implies by_job(
            list,
        ).contains_key(list[at].job_id) && by_job(list)[list[at].job_id] == list[at] by {
            if at < end {
                assert(list[end].job_id != list[at].job_id);
                assert forall|i: int| at < i < rest.len() implies (#[trigger] rest[i]).job_id
                    != rest[at].job_id by {
                    assert(list[i] == rest[i]);
                }
                assert(is_last_of_its_job(rest, at));
            }
        }
        assert forall|job: Seq<char>| #[trigger] by_job(list).contains_key(job) implies exists|
            at: int,
        | #[trigger] is_last_of_its_job(list, at) && list[at].job_id == job by {
            if job == list.last().job_id {
                assert(is_last_of_its_job(list, end));
            } else {
                let at = choose|at: int| #[trigger]
                    is_last_of_its_job(rest, at) && rest[at].job_id == job;
                assert forall|i: int| at < i < list.len() implies (#[trigger] list[i]).job_id
                    != list[at].job_id by {
                    if i < end {
                        assert(list[i] == rest[i]);
                    }
                }
                assert(is_last_of_its_job(list, at));
            }
        }
    }
}

/// Instances put under their jobs are kept under their own jobs.
proof fn lemma_by_job_keyed(list: Seq<ConfigView>)
    ensures
        forall|job: Seq<char>| #[trigger]
            by_job(list).contains_key(job) ==> by_job(list)[job].job_id == job,
    decreases list.len(),
{
    if list.len() > 0 {
        lemma_by_job_keyed(list.drop_last());
    }
}

/// What the state file gives back is kept under its own jobs.
pub proof fn lemma_loaded_keyed<E>(read: StateReadView<E>)
    ensures
        loaded(read) matches Ok(instances) ==> forall|job: Seq<char>| #[trigger]
            instances.contains_key(job) ==> instances[job].job_id == job,
{
    if let StateReadView::Parsed(list) = read {
        lemma_by_job_keyed(list);
    }
}

} // verus!
