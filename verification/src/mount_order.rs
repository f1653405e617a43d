//! What a mount asks for, in which order, and what comes of it: told by the whole of what was
//! asked and answered, from the request to the result.

use vstd::prelude::*;

use crate::config::ConfigView;
use crate::fs_path::{lossy_text, parent_of};
use crate::manager::ManagerView;
use crate::mount::{fresh_run, mount_asks, MountPhaseView, MountView};
use crate::mount_laws::{
    law_mount_keeps_stage, mount_happens, mount_sound, mount_stage, mount_through, rolls_back,
    Happening,
};
use crate::outcome::{answers, ActionView, ErrorKind, ErrorView, ReplyView};
use crate::probe::{kept_target, ProbeStep};
use crate::save::{lists, SaveStepView};

verus! {

/// Something that was asked for and answered.
#[verifier::ext_equal]
pub struct Step<F, E> {
    /// What the manager keeps of other jobs when it is asked for.
    pub others: ManagerView<F>,
    /// What is asked for.
    pub action: ActionView,
    /// What has become of the overlay that the run holds, where it was used.
    pub used: Option<F>,
    /// The answer.
    pub reply: ReplyView<F, E>,
}

/// What was asked for, in order.
pub open spec fn actions<F, E>(steps: Seq<Step<F, E>>) -> Seq<ActionView> {
    steps.map_values(|step: Step<F, E>| step.action)
}

/// The manager and the run when `step` asks.
pub open spec fn mount_before<F, E>(
    manager: ManagerView<F>,
    run: MountView<F, E>,
    step: Step<F, E>,
) -> (ManagerView<F>, MountView<F, E>) {
    mount_happens(manager, run, Happening::Elsewhere(step.others))
}

/// The manager and the run after `step`.
pub open spec fn mount_step<F, E>(
    manager: ManagerView<F>,
    run: MountView<F, E>,
    step: Step<F, E>,
) -> (ManagerView<F>, MountView<F, E>) {
    let (m, r) = mount_before(manager, run, step);
    let (m, r) = match step.used {
        Some(fuse) => mount_happens(m, r, Happening::Used(fuse)),
        None => (m, r),
    };
    mount_happens(m, r, Happening::Reply(step.reply))
}

/// The manager and the run after all of `steps`.
pub open spec fn mount_steps<F, E>(
    manager: ManagerView<F>,
    run: MountView<F, E>,
    steps: Seq<Step<F, E>>,
) -> (ManagerView<F>, MountView<F, E>)
    decreases steps.len(),
{
    if steps.len() == 0 {
        (manager, run)
    } else {
        let (m, r) = mount_steps(manager, run, steps.drop_last());
        mount_step(m, r, steps.last())
    }
}

/// Whether `steps` are what the run asked for, each with an answer to it.
pub open spec fn mount_follows<F, E>(
    manager: ManagerView<F>,
    run: MountView<F, E>,
    steps: Seq<Step<F, E>>,
) -> bool
    decreases steps.len(),
{
    steps.len() > 0 ==> {
        let (m, r) = mount_steps(manager, run, steps.drop_last());
        let (m1, r1) = mount_before(m, r, steps.last());
        &&& mount_follows(manager, run, steps.drop_last())
        &&& mount_asks(m1, r1, steps.last().action)
        &&& answers(steps.last().action, steps.last().reply)
    }
}

/// The overlay that was built last, as its uses have left it.
pub open spec fn overlay<F, E>(steps: Seq<Step<F, E>>) -> Option<F>
    decreases steps.len(),
{
    if steps.len() == 0 {
        None
    } else {
        match (steps.last().reply, steps.last().used) {
            (ReplyView::Built(fuse), _) => Some(fuse),
            (_, Some(fuse)) => if overlay(steps.drop_last()) is Some {
                Some(fuse)
            } else {
                None
            },
            (_, None) => overlay(steps.drop_last()),
        }
    }
}

/// What a mount comes upon on its way.
#[verifier::ext_equal]
pub struct Course {
    /// The instances that are saved, and the text that they are written out as.
    pub list: Seq<ConfigView>,
    pub data: Seq<char>,
    /// Whether the mountpoint has an entry.
    pub root_entry: bool,
    /// Whether the ready path is a directory, and whether it has an entry.
    pub ready_dir: bool,
    pub ready_entry: bool,
    /// The instances that are saved after a rollback, and their text.
    pub left_list: Seq<ConfigView>,
    pub left_data: Seq<char>,
}

/// The directories of the layers are made.
pub open spec fn layers_made(config: ConfigView) -> Seq<ActionView> {
    let upper = seq![ActionView::CreateDirAll(config.upper_dir)];
    match config.cl_dir {
        Some(dir) => upper.push(ActionView::CreateDirAll(dir)),
        None => upper,
    }
}

/// The mountpoint is made, too.
pub open spec fn places_made(config: ConfigView) -> Seq<ActionView> {
    layers_made(config).push(ActionView::CreateDirAll(config.mountpoint))
}

/// Behind `so_far`, the state is written out, and the directory of the state file is made where
/// it has one.
pub open spec fn state_encoded(
    so_far: Seq<ActionView>,
    state_file: Seq<u8>,
    list: Seq<ConfigView>,
) -> Seq<ActionView> {
    let encoded = so_far.push(ActionView::EncodeState(list));
    match parent_of(state_file) {
        Some(parent) => encoded.push(ActionView::CreateDirAll(parent)),
        None => encoded,
    }
}

/// Behind `so_far`, the state is saved.
pub open spec fn state_saved(
    so_far: Seq<ActionView>,
    state_file: Seq<u8>,
    list: Seq<ConfigView>,
    data: Seq<char>,
) -> Seq<ActionView> {
    state_encoded(so_far, state_file, list).push(ActionView::WriteFile { path: state_file, data })
}

/// The instance is saved with the others.
pub open spec fn instance_saved(state_file: Seq<u8>, config: ConfigView, c: Course) -> Seq<
    ActionView,
> {
    state_saved(places_made(config), state_file, c.list, c.data)
}

/// The Dicfuse of the source path has the ready path, or the root where none is asked for.
pub open spec fn store_awaited(
    state_file: Seq<u8>,
    config: ConfigView,
    ready_path: Option<Seq<char>>,
    c: Course,
) -> Seq<ActionView> {
    instance_saved(state_file, config, c).push(
        ActionView::AwaitStore {
            source_path: config.source_path,
            ready_path: match ready_path {
                Some(path) => path,
                None => seq!['/'],
            },
            timeout_millis: 15_000,
            poll_millis: 100,
        },
    )
}

/// The overlay of the layers on that Dicfuse is built, and its session started.
pub open spec fn session_started(
    state_file: Seq<u8>,
    config: ConfigView,
    ready_path: Option<Seq<char>>,
    c: Course,
) -> Seq<ActionView> {
    store_awaited(state_file, config, ready_path, c).push(
        ActionView::BuildFuse {
            source_path: config.source_path,
            mountpoint: config.mountpoint,
            upper_dir: config.upper_dir,
            cl_dir: config.cl_dir,
        },
    ).push(ActionView::MountFuse)
}

/// The mountpoint was looked at and read, with the type of its first entry where it has one.
pub open spec fn root_probed(
    state_file: Seq<u8>,
    config: ConfigView,
    ready_path: Option<Seq<char>>,
    c: Course,
) -> Seq<ActionView> {
    let read = session_started(state_file, config, ready_path, c).push(
        ActionView::Stat(config.mountpoint),
    ).push(ActionView::ReadFirstEntry(config.mountpoint));
    if c.root_entry {
        read.push(ActionView::EntryType)
    } else {
        read
    }
}

/// All that a mount asks for: at last the ready path, where one is asked for, was looked at
/// below the mountpoint, and read as the mountpoint was, or opened.
pub open spec fn whole_mount(
    state_file: Seq<u8>,
    config: ConfigView,
    ready_path: Option<Seq<char>>,
    c: Course,
) -> Seq<ActionView> {
    let probed = root_probed(state_file, config, ready_path, c);
    match kept_target(config.mountpoint, ready_path) {
        None => probed,
        Some(target) => {
            let found = probed.push(ActionView::Stat(target));
            if c.ready_dir {
                let read = found.push(ActionView::ReadFirstEntry(target));
                if c.ready_entry {
                    read.push(ActionView::EntryType)
                } else {
                    read
                }
            } else {
                found.push(ActionView::OpenFile(target))
            }
        },
    }
}

/// The session was ended, and the mountpoint and the layers removed.
pub open spec fn torn_down(config: ConfigView) -> Seq<ActionView> {
    let upper = seq![
        ActionView::UnmountFuse,
        ActionView::RemoveDirAll(config.mountpoint),
        ActionView::RemoveDirAll(config.upper_dir),
    ];
    match config.cl_dir {
        Some(dir) => upper.push(ActionView::RemoveDirAll(dir)),
        None => upper,
    }
}

/// All that a rollback asks for: in the end the state is saved once more.
pub open spec fn whole_rollback(state_file: Seq<u8>, config: ConfigView, c: Course) -> Seq<
    ActionView,
> {
    state_saved(torn_down(config), state_file, c.left_list, c.left_data)
}

/// Whether `action` takes something back.
pub open spec fn takes_back(action: ActionView) -> bool {
    action is UnmountFuse || action is RemoveDirAll
}

/// Whether none of `steps` failed, none took anything back, and what they came upon is that of
/// `c`. The instances to save were those of the other jobs, with `config` as that of its job.
pub open spec fn went_well<F, E>(
    state_file: Seq<u8>,
    config: ConfigView,
    ready_path: Option<Seq<char>>,
    steps: Seq<Step<F, E>>,
    c: Course,
) -> bool {
    let encoding = places_made(config).len() as int;
    let looking = session_started(state_file, config, ready_path, c).len() as int;
    let ready = root_probed(state_file, config, ready_path, c).len() as int;
    &&& forall|i: int| 0 <= i < steps.len() ==> !((#[trigger] steps[i]).reply is Failed)
    &&& forall|i: int| 0 <= i < steps.len() ==> !takes_back((#[trigger] steps[i]).action)
    &&& encoding < steps.len() ==> steps[encoding].reply == ReplyView::<F, E>::Encoded(c.data)
        && lists(c.list, steps[encoding].others.instances.insert(config.job_id, config))
    &&& looking < steps.len() ==> steps[looking].reply == (ReplyView::<F, E>::Stat { is_dir: true })
    &&& looking + 1 < steps.len() ==> steps[looking + 1].reply == (ReplyView::<F, E>::FirstEntry {
        present: c.root_entry,
    })
    &&& ready < steps.len() ==> steps[ready].reply == (ReplyView::<F, E>::Stat {
        is_dir: c.ready_dir,
    })
    &&& ready + 1 < steps.len() && c.ready_dir ==> steps[ready + 1].reply == (ReplyView::<
        F,
        E,
    >::FirstEntry { present: c.ready_entry })
}

/// The message of a probe that was refused for `cause`.
pub open spec fn refusal(config: ConfigView, cause: Seq<char>) -> Seq<char> {
    "mount probe failed on "@ + lossy_text(config.mountpoint) + ": "@ + cause
}

/// Whether the session is there, so that what was made has to be taken back.
pub open spec fn has_session(action: ActionView) -> bool {
    match action {
        ActionView::MountFuse => true,
        ActionView::Stat(_) => true,
        ActionView::ReadFirstEntry(_) => true,
        ActionView::EntryType => true,
        ActionView::OpenFile(_) => true,
        _ => false,
    }
}

/// The error with which a mount fails at `step`.
pub open spec fn error_of<F, E>(config: ConfigView, step: Step<F, E>) -> Option<ErrorView<E>> {
    match step.reply {
        ReplyView::Failed(fault) => Some(
            match step.action {
                ActionView::EncodeState(_) => ErrorView::Raised {
                    kind: ErrorKind::Other,
                    message: "encode state: "@ + fault.text,
                },
                ActionView::Stat(_) | ActionView::ReadFirstEntry(_) | ActionView::EntryType
                | ActionView::OpenFile(_) => ErrorView::Raised {
                    kind: ErrorKind::Other,
                    message: refusal(config, fault.text),
                },
                _ => ErrorView::Io(fault),
            },
        ),
        ReplyView::Stat { .. } => Some(
            ErrorView::Raised {
                kind: ErrorKind::Other,
                message: refusal(
                    config,
                    lossy_text(config.mountpoint) + " is not a directory"@,
                ),
            },
        ),
        _ => None,
    }
}

/// Whether `step` is one that a mount fails at: it failed, or it found the mountpoint to be no
/// directory.
pub open spec fn is_refused<F, E>(config: ConfigView, step: Step<F, E>) -> bool {
    ||| step.reply is Failed
    ||| step.action == ActionView::Stat(config.mountpoint) && step.reply == (ReplyView::<
        F,
        E,
    >::Stat { is_dir: false })
}

/// Whether a rollback that began at `cut` asked for what it has to, whatever came of that, and
/// saved the instances of the other jobs alone.
pub open spec fn rolled_back<F, E>(
    state_file: Seq<u8>,
    config: ConfigView,
    steps: Seq<Step<F, E>>,
    over: bool,
    c: Course,
    cut: int,
) -> bool {
    let done = actions(steps).skip(cut);
    let encoding = (cut + torn_down(config).len()) as int;
    &&& done.is_prefix_of(whole_rollback(state_file, config, c))
    &&& encoding < steps.len() ==> lists(
        c.left_list,
        steps[encoding].others.instances.remove(config.job_id),
    )
    &&& encoding + 1 < steps.len() ==> steps[encoding].reply == ReplyView::<F, E>::Encoded(
        c.left_data,
    )
    &&& over ==> torn_down(config).len() < done.len() && (done == whole_rollback(
        state_file,
        config,
        c,
    ) || steps.last().reply is Failed)
}

/// Whether `steps` are those of a mount that came upon `c`, up to `cut` those of the mount
/// itself, and then those of its rollback.
pub open spec fn mount_history<F, E>(
    state_file: Seq<u8>,
    config: ConfigView,
    ready_path: Option<Seq<char>>,
    steps: Seq<Step<F, E>>,
    run: MountView<F, E>,
    c: Course,
    cut: int,
) -> bool {
    let whole = whole_mount(state_file, config, ready_path, c);
    match run.failure {
        None => {
            &&& cut == steps.len()
            &&& actions(steps).is_prefix_of(whole)
            &&& went_well(state_file, config, ready_path, steps, c)
            &&& run.result() is Some ==> actions(steps) == whole && run.result() == Some(
                Ok::<_, ErrorView<E>>(config),
            )
        },
        Some(error) => {
            &&& 0 < cut <= steps.len()
            &&& actions(steps).take(cut).is_prefix_of(whole)
            &&& went_well(state_file, config, ready_path, steps.take(cut - 1), c)
            &&& is_refused(config, steps[cut - 1])
            &&& error_of(config, steps[cut - 1]) == Some(error)
            &&& run.result() is Some ==> run.result() == Some(Err::<ConfigView, _>(error))
            &&& if has_session(steps[cut - 1].action) {
                rolled_back(state_file, config, steps, run.result() is Some, c, cut)
            } else {
                cut == steps.len() && run.result() is Some
            }
        },
    }
}

/// Whether `manager` keeps of the job of `config` what it has to, when it kept `instance` and
/// `session` of it before `steps`: those until the places were made; from then on the new
/// instance; with the success also the new session; and neither once a rollback has removed
/// what was made.
pub open spec fn job_kept<F, E>(
    instance: Option<ConfigView>,
    session: Option<F>,
    manager: ManagerView<F>,
    config: ConfigView,
    steps: Seq<Step<F, E>>,
    run: MountView<F, E>,
    cut: int,
) -> bool {
    let job = config.job_id;
    let gone = run.failure is Some && has_session(steps[cut - 1].action) && steps.len() - cut
        >= torn_down(config).len();
    let made = if run.failure is None {
        cut >= places_made(config).len()
    } else {
        cut > places_made(config).len()
    };
    if gone {
        manager.instance(job) is None && manager.session(job) is None
    } else {
        &&& manager.instance(job) == (if made {
            Some(config)
        } else {
            instance
        })
        &&& manager.session(job) == (if run.failure is None && run.result() is Some {
            overlay(steps)
        } else {
            session
        })
    }
}

/// The happenings that make up `steps`.
spec fn happenings<F, E>(steps: Seq<Step<F, E>>) -> Seq<Happening<F, E>>
    decreases steps.len(),
{
    if steps.len() == 0 {
        Seq::empty()
    } else {
        let step = steps.last();
        let asked = happenings(steps.drop_last()).push(Happening::Elsewhere(step.others));
        let used = match step.used {
            Some(fuse) => asked.push(Happening::Used(fuse)),
            None => asked,
        };
        used.push(Happening::Reply(step.reply))
    }
}

/// Something more happens last.
proof fn lemma_through_push<F, E>(
    manager: ManagerView<F>,
    run: MountView<F, E>,
    what: Seq<Happening<F, E>>,
    more: Happening<F, E>,
)
    ensures
        mount_through(manager, run, what.push(more)) == ({
            let (m, r) = mount_through(manager, run, what);
            mount_happens(m, r, more)
        }),
{
    assert(what.push(more).drop_last() =~= what);
}

/// The steps lead where their happenings do.
proof fn lemma_steps_happen<F, E>(
    manager: ManagerView<F>,
    run: MountView<F, E>,
    steps: Seq<Step<F, E>>,
)
    ensures
        mount_steps(manager, run, steps) == mount_through(manager, run, happenings(steps)),
    decreases steps.len(),
{
    if steps.len() > 0 {
        let step = steps.last();
        let before = happenings(steps.drop_last());
        let asked = before.push(Happening::Elsewhere(step.others));
        lemma_steps_happen(manager, run, steps.drop_last());
        lemma_through_push(manager, run, before, Happening::Elsewhere(step.others));
        if let Some(fuse) = step.used {
            lemma_through_push(manager, run, asked, Happening::Used(fuse));
            lemma_through_push(
                manager,
                run,
                asked.push(Happening::Used(fuse)),
                Happening::Reply(step.reply),
            );
        } else {
            lemma_through_push(manager, run, asked, Happening::Reply(step.reply));
        }
    }
}

/// Whatever the steps, a run is sound and keeps what it is about.
proof fn lemma_steps_keep_stage<F, E>(
    manager: ManagerView<F>,
    config: ConfigView,
    ready_path: Option<Seq<char>>,
    steps: Seq<Step<F, E>>,
)
    ensures
        ({
            let (m, r) = mount_steps(manager, fresh_run::<F, E>(config, ready_path), steps);
            &&& r.config == config
            &&& r.ready_path == ready_path
            &&& m.paths == manager.paths
            &&& mount_sound(r)
            &&& mount_stage(
                manager.instance(config.job_id),
                manager.session(config.job_id),
                m,
                r,
            )
        }),
{
    lemma_steps_happen(manager, fresh_run::<F, E>(config, ready_path), steps);
    law_mount_keeps_stage(manager, config, ready_path, happenings(steps));
}

/// What a run that has not failed has asked for by the time of `phase`.
spec fn behind(
    state_file: Seq<u8>,
    config: ConfigView,
    ready_path: Option<Seq<char>>,
    c: Course,
    phase: MountPhaseView,
) -> Seq<ActionView> {
    let started = session_started(state_file, config, ready_path, c);
    let probed = root_probed(state_file, config, ready_path, c);
    let target = kept_target(config.mountpoint, ready_path)->0;
    match phase {
        MountPhaseView::MakeUpper => Seq::empty(),
        MountPhaseView::MakeCl => seq![ActionView::CreateDirAll(config.upper_dir)],
        MountPhaseView::MakeMountpoint => layers_made(config),
        MountPhaseView::Saving(SaveStepView::Encode) => places_made(config),
        MountPhaseView::Saving(SaveStepView::MakeParent { .. }) => places_made(config).push(
            ActionView::EncodeState(c.list),
        ),
        MountPhaseView::Saving(SaveStepView::Write { .. }) => state_encoded(
            places_made(config),
            state_file,
            c.list,
        ),
        MountPhaseView::AwaitStore => instance_saved(state_file, config, c),
        MountPhaseView::BuildFuse => store_awaited(state_file, config, ready_path, c),
        MountPhaseView::StartFuse => started.drop_last(),
        MountPhaseView::Probing(ProbeStep::StatRoot) => started,
        MountPhaseView::Probing(ProbeStep::ListRoot) => started.push(
            ActionView::Stat(config.mountpoint),
        ),
        MountPhaseView::Probing(ProbeStep::TypeRoot) => probed.drop_last(),
        MountPhaseView::Probing(ProbeStep::StatReady) => probed,
        MountPhaseView::Probing(ProbeStep::ListReady) => probed.push(ActionView::Stat(target)),
        MountPhaseView::Probing(ProbeStep::OpenReady) => probed.push(ActionView::Stat(target)),
        MountPhaseView::Probing(ProbeStep::TypeReady) => probed.push(
            ActionView::Stat(target),
        ).push(ActionView::ReadFirstEntry(target)),
        _ => whole_mount(state_file, config, ready_path, c),
    }
}

/// Whether a run that came upon `c` can be at `phase`.
spec fn can_be_at(state_file: Seq<u8>, c: Course, phase: MountPhaseView) -> bool {
    match phase {
        MountPhaseView::Saving(SaveStepView::MakeParent { parent, data }) => parent_of(state_file)
            == Some(parent) && data == c.data,
        MountPhaseView::Saving(SaveStepView::Write { data }) => data == c.data,
        MountPhaseView::Probing(ProbeStep::TypeRoot) => c.root_entry,
        MountPhaseView::Probing(ProbeStep::ListReady) => c.ready_dir,
        MountPhaseView::Probing(ProbeStep::OpenReady) => !c.ready_dir,
        MountPhaseView::Probing(ProbeStep::TypeReady) => c.ready_dir && c.ready_entry,
        _ => true,
    }
}

/// What a run learns from the answer to `action`.
spec fn learned<F, E>(c: Course, phase: MountPhaseView, step: Step<F, E>) -> Course {
    match (phase, step.reply) {
        (MountPhaseView::Saving(SaveStepView::Encode), ReplyView::Encoded(data)) => Course {
            list: step.action->EncodeState_0,
            data,
            ..c
        },
        (MountPhaseView::Saving(SaveStepView::Encode), _) => Course {
            list: step.action->EncodeState_0,
            ..c
        },
        (
            MountPhaseView::Probing(ProbeStep::ListRoot),
            ReplyView::FirstEntry { present },
        ) => Course { root_entry: present, ..c },
        (MountPhaseView::Probing(ProbeStep::StatReady), ReplyView::Stat { is_dir }) => Course {
            ready_dir: is_dir,
            ..c
        },
        (
            MountPhaseView::Probing(ProbeStep::ListReady),
            ReplyView::FirstEntry { present },
        ) => Course { ready_entry: present, ..c },
        _ => c,
    }
}

/// What a run learns does not change what it has asked for before.
proof fn lemma_behind_stays<F, E>(
    state_file: Seq<u8>,
    config: ConfigView,
    ready_path: Option<Seq<char>>,
    c: Course,
    phase: MountPhaseView,
    step: Step<F, E>,
)
    ensures
        behind(state_file, config, ready_path, learned(c, phase, step), phase) == behind(
            state_file,
            config,
            ready_path,
            c,
            phase,
        ),
{
}

/// A step that does not fail a run is put behind what was asked before.
#[verifier::spinoff_prover]
#[verifier::rlimit(40)]
proof fn lemma_goes_on<F, E>(
    manager: ManagerView<F>,
    run: MountView<F, E>,
    step: Step<F, E>,
    c: Course,
)
    requires
        mount_sound(run),
        run.failure is None,
        can_be_at(manager.paths.state_file, c, run.phase),
        mount_asks(mount_before(manager, run, step).0, run, step.action),
        answers(step.action, step.reply),
        mount_step(manager, run, step).1.failure is None,
    ensures
        ({
            let next = mount_step(manager, run, step).1;
            let d = learned(c, run.phase, step);
            let file = manager.paths.state_file;
            &&& behind(file, run.config, run.ready_path, d, next.phase) == behind(
                file,
                run.config,
                run.ready_path,
                c,
                run.phase,
            ).push(step.action)
            &&& can_be_at(file, d, next.phase)
            &&& !(step.reply is Failed)
            &&& !takes_back(step.action)
        }),
{
    let next = mount_step(manager, run, step).1;
    let d = learned(c, run.phase, step);
    let file = manager.paths.state_file;
    lemma_behind_stays(file, run.config, run.ready_path, c, run.phase, step);
    assert(behind(file, run.config, run.ready_path, d, next.phase) =~= behind(
        file,
        run.config,
        run.ready_path,
        d,
        run.phase,
    ).push(step.action));
}

/// How much a mount has asked for by the time that it writes the state out, looks at the
/// mountpoint and looks at the ready path.
proof fn lemma_lengths(
    state_file: Seq<u8>,
    config: ConfigView,
    ready_path: Option<Seq<char>>,
    c: Course,
)
    ensures
        places_made(config).len() == (if config.cl_dir is Some {
            3nat
        } else {
            2
        }),
        session_started(state_file, config, ready_path, c).len() == places_made(config).len() + (
        if parent_of(state_file) is Some {
            6nat
        } else {
            5
        }),
        root_probed(state_file, config, ready_path, c).len() == session_started(
            state_file,
            config,
            ready_path,
            c,
        ).len() + (if c.root_entry {
            3nat
        } else {
            2
        }),
{
}

/// What was asked for by the time of a phase, and what is asked for then, begins what a mount
/// asks for in all.
#[verifier::spinoff_prover]
#[verifier::rlimit(60)]
proof fn lemma_behind_begins_whole<F, E>(
    manager: ManagerView<F>,
    run: MountView<F, E>,
    step: Step<F, E>,
    c: Course,
)
    requires
        mount_sound(run),
        run.failure is None,
        can_be_at(manager.paths.state_file, c, run.phase),
        mount_asks(mount_before(manager, run, step).0, run, step.action),
        answers(step.action, step.reply),
    ensures
        ({
            let d = learned(c, run.phase, step);
            let file = manager.paths.state_file;
            let whole = whole_mount(file, run.config, run.ready_path, d);
            behind(file, run.config, run.ready_path, c, run.phase).push(step.action).is_prefix_of(
                whole,
            )
        }),
{
    let d = learned(c, run.phase, step);
    let file = manager.paths.state_file;
    let whole = whole_mount(file, run.config, run.ready_path, d);
    lemma_behind_stays(file, run.config, run.ready_path, c, run.phase, step);
    let asked = behind(file, run.config, run.ready_path, d, run.phase).push(step.action);
    assert(asked.len() <= whole.len());
    assert(asked =~= whole.take(asked.len() as int));
}

/// What was asked for by the time of a phase begins what a mount asks for in all.
#[verifier::spinoff_prover]
#[verifier::rlimit(60)]
proof fn lemma_behind_is_prefix<F, E>(state_file: Seq<u8>, run: MountView<F, E>, c: Course)
    requires
        mount_sound(run),
        run.failure is None,
        can_be_at(state_file, c, run.phase),
    ensures
        behind(state_file, run.config, run.ready_path, c, run.phase).is_prefix_of(
            whole_mount(state_file, run.config, run.ready_path, c),
        ),
{
    let whole = whole_mount(state_file, run.config, run.ready_path, c);
    let asked = behind(state_file, run.config, run.ready_path, c, run.phase);
    assert(asked.len() <= whole.len());
    assert(asked =~= whole.take(asked.len() as int));
}

/// What a step came upon is learned, and what was learned before stands.
#[verifier::spinoff_prover]
#[verifier::rlimit(60)]
proof fn lemma_goes_on_well<F, E>(
    manager: ManagerView<F>,
    run: MountView<F, E>,
    rest: Seq<Step<F, E>>,
    step: Step<F, E>,
    c: Course,
)
    requires
        mount_sound(run),
        run.failure is None,
        can_be_at(manager.paths.state_file, c, run.phase),
        mount_asks(mount_before(manager, run, step).0, run, step.action),
        answers(step.action, step.reply),
        mount_step(manager, run, step).1.failure is None,
        run.phase is Saving ==> manager.instance(run.config.job_id) == Some(run.config),
        rest.len() == behind(
            manager.paths.state_file,
            run.config,
            run.ready_path,
            c,
            run.phase,
        ).len(),
        went_well(manager.paths.state_file, run.config, run.ready_path, rest, c),
    ensures
        went_well(
            manager.paths.state_file,
            run.config,
            run.ready_path,
            rest.push(step),
            learned(c, run.phase, step),
        ),
{
    let file = manager.paths.state_file;
    let d = learned(c, run.phase, step);
    let steps = rest.push(step);
    lemma_goes_on(manager, run, step, c);
    lemma_lengths(file, run.config, run.ready_path, c);
    lemma_lengths(file, run.config, run.ready_path, d);
    assert(forall|i: int| 0 <= i < rest.len() ==> steps[i] == rest[i]);
    if run.phase == MountPhaseView::Saving(SaveStepView::Encode) {
        assert(mount_before(manager, run, step).0.instances =~= step.others.instances.insert(
            run.config.job_id,
            run.config,
        ));
    }
}

/// A step that fails a run is one that was refused, and its error is that of the step.
#[verifier::spinoff_prover]
proof fn lemma_is_refused<F, E>(
    manager: ManagerView<F>,
    run: MountView<F, E>,
    step: Step<F, E>,
)
    requires
        mount_sound(run),
        run.failure is None,
        mount_asks(mount_before(manager, run, step).0, run, step.action),
        answers(step.action, step.reply),
        mount_step(manager, run, step).1.failure is Some,
    ensures
        ({
            let next = mount_step(manager, run, step).1;
            &&& is_refused(run.config, step)
            &&& error_of(run.config, step) == next.failure
            &&& has_session(step.action) ==> next.phase == MountPhaseView::StopFuse
            &&& !has_session(step.action) ==> next.phase == MountPhaseView::Finished
        }),
{
}

/// What a run that is rolled back has asked for since it failed, by the time of `phase`.
spec fn behind_back(
    state_file: Seq<u8>,
    config: ConfigView,
    c: Course,
    phase: MountPhaseView,
) -> Seq<ActionView> {
    let torn = torn_down(config);
    match phase {
        MountPhaseView::StopFuse => Seq::empty(),
        MountPhaseView::DropMountpoint => torn.take(1),
        MountPhaseView::DropUpper => torn.take(2),
        MountPhaseView::DropCl => torn.take(3),
        MountPhaseView::Resaving(SaveStepView::Encode) => torn,
        MountPhaseView::Resaving(SaveStepView::MakeParent { .. }) => torn.push(
            ActionView::EncodeState(c.left_list),
        ),
        _ => state_encoded(torn, state_file, c.left_list),
    }
}

/// Whether a run that is rolled back and came upon `c` can be at `phase`.
spec fn can_be_back_at(state_file: Seq<u8>, c: Course, phase: MountPhaseView) -> bool {
    match phase {
        MountPhaseView::Resaving(SaveStepView::MakeParent { parent, data }) => parent_of(state_file)
            == Some(parent) && data == c.left_data,
        MountPhaseView::Resaving(SaveStepView::Write { data }) => data == c.left_data,
        _ => rolls_back(phase),
    }
}

/// What a run that is rolled back learns from the answer to `action`.
spec fn learned_back<F, E>(c: Course, phase: MountPhaseView, step: Step<F, E>) -> Course {
    match (phase, step.reply) {
        (MountPhaseView::Resaving(SaveStepView::Encode), ReplyView::Encoded(data)) => Course {
            left_list: step.action->EncodeState_0,
            left_data: data,
            ..c
        },
        (MountPhaseView::Resaving(SaveStepView::Encode), _) => Course {
            left_list: step.action->EncodeState_0,
            ..c
        },
        _ => c,
    }
}

/// A step of a rollback is put behind what was asked before.
#[verifier::spinoff_prover]
#[verifier::rlimit(40)]
proof fn lemma_goes_back<F, E>(
    manager: ManagerView<F>,
    run: MountView<F, E>,
    step: Step<F, E>,
    c: Course,
)
    requires
        mount_sound(run),
        run.failure is Some,
        can_be_back_at(manager.paths.state_file, c, run.phase),
        mount_asks(mount_before(manager, run, step).0, run, step.action),
        answers(step.action, step.reply),
    ensures
        ({
            let next = mount_step(manager, run, step).1;
            let d = learned_back(c, run.phase, step);
            let file = manager.paths.state_file;
            let done = behind_back(file, run.config, c, run.phase).push(step.action);
            let whole = whole_rollback(file, run.config, d);
            &&& next.failure == run.failure
            &&& done.is_prefix_of(whole)
            &&& next.phase != MountPhaseView::Finished ==> can_be_back_at(file, d, next.phase)
                && behind_back(file, run.config, d, next.phase) == done
            &&& next.phase == MountPhaseView::Finished ==> torn_down(run.config).len() < done.len()
                && (done == whole || step.reply is Failed)
            &&& done.len() > torn_down(run.config).len() + 1 ==> !(run.phase
                == MountPhaseView::Resaving(SaveStepView::Encode))
        }),
{
    let next = mount_step(manager, run, step).1;
    let d = learned_back(c, run.phase, step);
    let file = manager.paths.state_file;
    let done = behind_back(file, run.config, c, run.phase).push(step.action);
    let whole = whole_rollback(file, run.config, d);
    assert(done.len() <= whole.len());
    assert(done =~= whole.take(done.len() as int));
    if next.phase != MountPhaseView::Finished {
        assert(behind_back(file, run.config, d, next.phase) =~= done);
    } else if !(step.reply is Failed) {
        assert(done =~= whole);
    }
}

/// Whether `steps` lead to the phase of `run`, which came upon `c` and failed at `cut`, if it did.
spec fn leads_to<F, E>(
    state_file: Seq<u8>,
    config: ConfigView,
    ready_path: Option<Seq<char>>,
    steps: Seq<Step<F, E>>,
    run: MountView<F, E>,
    c: Course,
    cut: int,
) -> bool {
    match run.failure {
        None => {
            &&& cut == steps.len()
            &&& actions(steps) == behind(state_file, config, ready_path, c, run.phase)
            &&& can_be_at(state_file, c, run.phase)
            &&& went_well(state_file, config, ready_path, steps, c)
        },
        Some(error) => {
            &&& 0 < cut <= steps.len()
            &&& actions(steps).take(cut).is_prefix_of(
                whole_mount(state_file, config, ready_path, c),
            )
            &&& went_well(state_file, config, ready_path, steps.take(cut - 1), c)
            &&& is_refused(config, steps[cut - 1])
            &&& error_of(config, steps[cut - 1]) == Some(error)
            &&& if run.phase != MountPhaseView::Finished {
                &&& has_session(steps[cut - 1].action)
                &&& can_be_back_at(state_file, c, run.phase)
                &&& actions(steps).skip(cut) == behind_back(state_file, config, c, run.phase)
                &&& rolled_back(state_file, config, steps, false, c, cut)
                &&& run.phase is Resaving && !(run.phase->Resaving_0 is Encode)
                    ==> steps[cut + torn_down(config).len()].reply == ReplyView::<F, E>::Encoded(
                    c.left_data,
                )
            } else if has_session(steps[cut - 1].action) {
                rolled_back(state_file, config, steps, true, c, cut)
            } else {
                cut == steps.len()
            }
        },
    }
}

/// The steps of a run that has not failed before, and one more.
proof fn lemma_leads_on<F, E>(
    manager: ManagerView<F>,
    run: MountView<F, E>,
    rest: Seq<Step<F, E>>,
    step: Step<F, E>,
    c: Course,
)
    requires
        mount_sound(run),
        run.failure is None,
        mount_asks(mount_before(manager, run, step).0, run, step.action),
        answers(step.action, step.reply),
        run.phase is Saving ==> manager.instance(run.config.job_id) == Some(run.config),
        leads_to(
            manager.paths.state_file,
            run.config,
            run.ready_path,
            rest,
            run,
            c,
            rest.len() as int,
        ),
    ensures
        leads_to(
            manager.paths.state_file,
            run.config,
            run.ready_path,
            rest.push(step),
            mount_step(manager, run, step).1,
            learned(c, run.phase, step),
            (rest.len() + 1) as int,
        ),
{
    let file = manager.paths.state_file;
    let next = mount_step(manager, run, step).1;
    let d = learned(c, run.phase, step);
    let steps = rest.push(step);
    assert(actions(steps) =~= actions(rest).push(step.action));
    lemma_behind_stays(file, run.config, run.ready_path, c, run.phase, step);
    if next.failure is None {
        lemma_goes_on(manager, run, step, c);
        lemma_goes_on_well(manager, run, rest, step, c);
    } else {
        lemma_is_refused(manager, run, step);
        lemma_behind_begins_whole(manager, run, step, c);
        let cut = steps.len() as int;
        assert(actions(steps).take(cut) =~= actions(steps));
        assert(steps.take(cut - 1) =~= rest);
        lemma_stays_well(file, run, rest, step, c);
        if has_session(step.action) {
            assert(actions(steps).skip(cut) =~= Seq::empty());
            let whole = whole_rollback(file, run.config, d);
            assert(whole.take(0) =~= Seq::empty());
        }
    }
}

/// What a step that is refused came upon changes nothing of what was learned before.
#[verifier::spinoff_prover]
#[verifier::rlimit(40)]
proof fn lemma_stays_well<F, E>(
    state_file: Seq<u8>,
    run: MountView<F, E>,
    rest: Seq<Step<F, E>>,
    step: Step<F, E>,
    c: Course,
)
    requires
        rest.len() == behind(state_file, run.config, run.ready_path, c, run.phase).len(),
        went_well(state_file, run.config, run.ready_path, rest, c),
    ensures
        went_well(
            state_file,
            run.config,
            run.ready_path,
            rest,
            learned(c, run.phase, step),
        ),
{
    lemma_lengths(state_file, run.config, run.ready_path, c);
    lemma_lengths(state_file, run.config, run.ready_path, learned(c, run.phase, step));
}

/// The steps of a run that has failed before, and one more.
#[verifier::spinoff_prover]
#[verifier::rlimit(40)]
proof fn lemma_leads_back<F, E>(
    manager: ManagerView<F>,
    run: MountView<F, E>,
    rest: Seq<Step<F, E>>,
    step: Step<F, E>,
    c: Course,
    cut: int,
)
    requires
        mount_sound(run),
        run.failure is Some,
        run.phase != MountPhaseView::Finished,
        mount_asks(mount_before(manager, run, step).0, run, step.action),
        answers(step.action, step.reply),
        run.phase is Resaving ==> manager.instance(run.config.job_id) is None,
        leads_to(manager.paths.state_file, run.config, run.ready_path, rest, run, c, cut),
    ensures
        leads_to(
            manager.paths.state_file,
            run.config,
            run.ready_path,
            rest.push(step),
            mount_step(manager, run, step).1,
            learned_back(c, run.phase, step),
            cut,
        ),
{
    let file = manager.paths.state_file;
    let config = run.config;
    let next = mount_step(manager, run, step).1;
    let d = learned_back(c, run.phase, step);
    let steps = rest.push(step);
    let torn = torn_down(config);
    let encoding = (cut + torn.len()) as int;
    lemma_goes_back(manager, run, step, c);
    assert(actions(steps) =~= actions(rest).push(step.action));
    assert(actions(steps).take(cut) =~= actions(rest).take(cut));
    assert(steps.take(cut - 1) =~= rest.take(cut - 1));
    assert(whole_mount(file, config, run.ready_path, d) =~= whole_mount(
        file,
        config,
        run.ready_path,
        c,
    ));
    lemma_lengths(file, config, run.ready_path, c);
    lemma_lengths(file, config, run.ready_path, d);
    assert(went_well(file, config, run.ready_path, steps.take(cut - 1), d));
    assert(actions(steps).skip(cut) =~= actions(rest).skip(cut).push(step.action));
    let done = actions(steps).skip(cut);
    assert(done.len() == steps.len() - cut);
    assert(behind_back(file, config, c, run.phase).len() == rest.len() - cut);
    if run.phase == MountPhaseView::Resaving(SaveStepView::Encode) {
        assert(mount_before(manager, run, step).0.instances =~= step.others.instances.remove(
            config.job_id,
        ));
        assert(steps[encoding] == step);
    } else if encoding < rest.len() {
        assert(steps[encoding] == rest[encoding]);
    }
}

/// What is kept of a job goes on as its run does.
#[verifier::spinoff_prover]
#[verifier::rlimit(40)]
proof fn lemma_kept_on<F, E>(
    instance: Option<ConfigView>,
    session: Option<F>,
    manager: ManagerView<F>,
    run: MountView<F, E>,
    rest: Seq<Step<F, E>>,
    step: Step<F, E>,
    c: Course,
)
    requires
        mount_sound(run),
        run.failure is None,
        mount_asks(mount_before(manager, run, step).0, run, step.action),
        answers(step.action, step.reply),
        mount_stage(instance, session, manager, run),
        mount_stage(
            instance,
            session,
            mount_step(manager, run, step).0,
            mount_step(manager, run, step).1,
        ),
        leads_to(
            manager.paths.state_file,
            run.config,
            run.ready_path,
            rest,
            run,
            c,
            rest.len() as int,
        ),
        mount_step(manager, run, step).1.result() matches Some(Ok(_)) ==> mount_step(
            manager,
            run,
            step,
        ).0.session(run.config.job_id) == overlay(rest.push(step)),
    ensures
        job_kept(
            instance,
            session,
            mount_step(manager, run, step).0,
            run.config,
            rest.push(step),
            mount_step(manager, run, step).1,
            (rest.len() + 1) as int,
        ),
{
    let file = manager.paths.state_file;
    assert(actions(rest).len() == rest.len());
    lemma_lengths(file, run.config, run.ready_path, c);
    if mount_step(manager, run, step).1.failure is Some {
        lemma_is_refused(manager, run, step);
    }
}

/// What is kept of a job goes back as its run does.
#[verifier::spinoff_prover]
#[verifier::rlimit(40)]
proof fn lemma_kept_back<F, E>(
    instance: Option<ConfigView>,
    session: Option<F>,
    manager: ManagerView<F>,
    run: MountView<F, E>,
    rest: Seq<Step<F, E>>,
    step: Step<F, E>,
    c: Course,
    cut: int,
)
    requires
        mount_sound(run),
        run.failure is Some,
        run.phase != MountPhaseView::Finished,
        mount_asks(mount_before(manager, run, step).0, run, step.action),
        answers(step.action, step.reply),
        mount_stage(instance, session, manager, run),
        mount_stage(
            instance,
            session,
            mount_step(manager, run, step).0,
            mount_step(manager, run, step).1,
        ),
        leads_to(manager.paths.state_file, run.config, run.ready_path, rest, run, c, cut),
        job_kept(instance, session, manager, run.config, rest, run, cut),
    ensures
        job_kept(
            instance,
            session,
            mount_step(manager, run, step).0,
            run.config,
            rest.push(step),
            mount_step(manager, run, step).1,
            cut,
        ),
{
    let file = manager.paths.state_file;
    assert(actions(rest).skip(cut).len() == rest.len() - cut);
    lemma_goes_back(manager, run, step, c);
}

/// The steps of a run lead to where it is.
proof fn lemma_mount_history<F, E>(
    manager: ManagerView<F>,
    config: ConfigView,
    ready_path: Option<Seq<char>>,
    steps: Seq<Step<F, E>>,
) -> (when: (Course, int))
    requires
        mount_follows(manager, fresh_run::<F, E>(config, ready_path), steps),
    ensures
        leads_to(
            manager.paths.state_file,
            config,
            ready_path,
            steps,
            mount_steps(manager, fresh_run::<F, E>(config, ready_path), steps).1,
            when.0,
            when.1,
        ),
        job_kept(
            manager.instance(config.job_id),
            manager.session(config.job_id),
            mount_steps(manager, fresh_run::<F, E>(config, ready_path), steps).0,
            config,
            steps,
            mount_steps(manager, fresh_run::<F, E>(config, ready_path), steps).1,
            when.1,
        ),
    decreases steps.len(),
{
    let run = fresh_run::<F, E>(config, ready_path);
    if steps.len() == 0 {
        let c = Course {
            list: Seq::empty(),
            data: Seq::empty(),
            root_entry: false,
            ready_dir: false,
            ready_entry: false,
            left_list: Seq::empty(),
            left_data: Seq::empty(),
        };
        assert(actions(steps) =~= Seq::empty());
        (c, 0)
    } else {
        let rest = steps.drop_last();
        let step = steps.last();
        let (m, r) = mount_steps(manager, run, rest);
        let (c, cut) = lemma_mount_history(manager, config, ready_path, rest);
        lemma_steps_keep_stage(manager, config, ready_path, rest);
        lemma_steps_keep_stage(manager, config, ready_path, steps);
        law_session_is_the_overlay(manager, config, ready_path, steps);
        assert(rest.push(step) =~= steps);
        let instance = manager.instance(config.job_id);
        let session = manager.session(config.job_id);
        if r.failure is None {
            lemma_leads_on(m, r, rest, step, c);
            lemma_kept_on(instance, session, m, r, rest, step, c);
            (learned(c, r.phase, step), steps.len() as int)
        } else {
            lemma_leads_back(m, r, rest, step, c, cut);
            lemma_kept_back(instance, session, m, r, rest, step, c, cut);
            (learned_back(c, r.phase, step), cut)
        }
    }
}

/// A mount asks for one thing after the other, and for nothing else: the directories of the
/// layers, the mountpoint, the saving of the state with its instance in it, the Dicfuse, the
/// overlay and its session, then the mountpoint as a user would come upon it and the ready path
/// in it. With all of that done it succeeds, and only then. Where something fails before there
/// is a session, it is over, with the error of that. Where the session does not start, or
/// something fails after that, whatever it is, the session is ended, the mountpoint and all
/// the layers are removed, and the state is saved without the instance. All the while the manager
/// keeps of the job what goes with that.
pub proof fn law_mount_goes_step_by_step<F, E>(
    manager: ManagerView<F>,
    config: ConfigView,
    ready_path: Option<Seq<char>>,
    steps: Seq<Step<F, E>>,
)
    requires
        mount_follows(manager, fresh_run::<F, E>(config, ready_path), steps),
    ensures
        exists|c: Course, cut: int| #[trigger]
            mount_history(
                manager.paths.state_file,
                config,
                ready_path,
                steps,
                mount_steps(manager, fresh_run::<F, E>(config, ready_path), steps).1,
                c,
                cut,
            ) && job_kept(
                manager.instance(config.job_id),
                manager.session(config.job_id),
                mount_steps(manager, fresh_run::<F, E>(config, ready_path), steps).0,
                config,
                steps,
                mount_steps(manager, fresh_run::<F, E>(config, ready_path), steps).1,
                cut,
            ),
{
    let run = fresh_run::<F, E>(config, ready_path);
    let r = mount_steps(manager, run, steps).1;
    let (c, cut) = lemma_mount_history(manager, config, ready_path, steps);
    lemma_steps_keep_stage(manager, config, ready_path, steps);
    if r.failure is None {
        lemma_behind_is_prefix(manager.paths.state_file, r, c);
    }
    assert(mount_history(manager.paths.state_file, config, ready_path, steps, r, c, cut));
}

/// The session of a job that was mounted is the overlay that was built for it, as its uses have
/// left it; until the mount has succeeded, the run holds that overlay.
pub proof fn law_session_is_the_overlay<F, E>(
    manager: ManagerView<F>,
    config: ConfigView,
    ready_path: Option<Seq<char>>,
    steps: Seq<Step<F, E>>,
)
    requires
        mount_follows(manager, fresh_run::<F, E>(config, ready_path), steps),
    ensures
        ({
            let (m, r) = mount_steps(manager, fresh_run::<F, E>(config, ready_path), steps);
            if r.result() matches Some(Ok(_)) {
                &&& overlay(steps) is Some
                &&& m.session(config.job_id) == overlay(steps)
                &&& m.instance(config.job_id) == Some(config)
            } else {
                r.fuse == overlay(steps)
            }
        }),
    decreases steps.len(),
{
    if steps.len() > 0 {
        law_session_is_the_overlay(manager, config, ready_path, steps.drop_last());
        lemma_steps_keep_stage(manager, config, ready_path, steps.drop_last());
        lemma_steps_keep_stage(manager, config, ready_path, steps);
    }
}

/// Of what a mount asks for, all from the start of the session on needs the session, nothing
/// before that does, and nothing at all takes anything back.
proof fn lemma_session_begins_once(
    state_file: Seq<u8>,
    config: ConfigView,
    ready_path: Option<Seq<char>>,
    c: Course,
)
    ensures
        ({
            let whole = whole_mount(state_file, config, ready_path, c);
            let start = session_started(state_file, config, ready_path, c).len() - 1;
            &&& start < whole.len()
            &&& whole[start] == ActionView::MountFuse
            &&& forall|i: int| 0 <= i < start ==> !has_session(#[trigger] whole[i])
            &&& forall|i: int| start <= i < whole.len() ==> has_session(#[trigger] whole[i])
            &&& forall|i: int| 0 <= i < whole.len() ==> !takes_back(#[trigger] whole[i])
        }),
{
    lemma_lengths(state_file, config, ready_path, c);
}

/// A mount that succeeded has asked for exactly this, each time with an answer that it was done.
/// The directory of the upper layer comes first, then that of the CL layer where there is one,
/// then the mountpoint. The state is written out, the directory of its file is made where it
/// has one, and the text that came of the state is written to the file. The Dicfuse of the source
/// path has the ready path, the overlay is built on it, and the session starts. The mountpoint is
/// found to be a directory and read, and the type of its first entry told where it has one.
/// The ready path, where there is one to look for, is found below the mountpoint; if it is a
/// directory it is read in the same way, and if not, it is opened.
pub proof fn law_what_a_successful_mount_has_done<F, E>(
    manager: ManagerView<F>,
    config: ConfigView,
    ready_path: Option<Seq<char>>,
    steps: Seq<Step<F, E>>,
)
    requires
        mount_follows(manager, fresh_run::<F, E>(config, ready_path), steps),
        mount_steps(manager, fresh_run::<F, E>(config, ready_path), steps).1.result()
            matches Some(Ok(_)),
    ensures
        forall|i: int| 0 <= i < steps.len() ==> !((#[trigger] steps[i]).reply is Failed),
        steps.len() >= 9,
        ({
            let file = manager.paths.state_file;
            let at = if config.cl_dir is Some {
                3int
            } else {
                2
            };
            let on = if parent_of(file) is Some {
                at + 2
            } else {
                at + 1
            };
            &&& steps[0].action == ActionView::CreateDirAll(config.upper_dir)
            &&& config.cl_dir matches Some(dir) ==> steps[1].action == ActionView::CreateDirAll(dir)
            &&& steps[at - 1].action == ActionView::CreateDirAll(config.mountpoint)
            &&& steps[at].action matches ActionView::EncodeState(list) && lists(
                list,
                steps[at].others.instances.insert(config.job_id, config),
            )
            &&& parent_of(file) matches Some(parent) ==> steps[at + 1].action
                == ActionView::CreateDirAll(parent)
            &&& steps[at].reply matches ReplyView::Encoded(data) && steps[on].action == (
            ActionView::WriteFile { path: file, data })
            &&& steps[on + 1].action == (ActionView::AwaitStore {
                source_path: config.source_path,
                ready_path: match ready_path {
                    Some(path) => path,
                    None => seq!['/'],
                },
                timeout_millis: 15_000,
                poll_millis: 100,
            })
            &&& steps[on + 2].action == (ActionView::BuildFuse {
                source_path: config.source_path,
                mountpoint: config.mountpoint,
                upper_dir: config.upper_dir,
                cl_dir: config.cl_dir,
            })
            &&& steps[on + 3].action == ActionView::MountFuse
            &&& steps[on + 4].action == ActionView::Stat(config.mountpoint)
            &&& steps[on + 4].reply == (ReplyView::<F, E>::Stat { is_dir: true })
            &&& steps[on + 5].action == ActionView::ReadFirstEntry(config.mountpoint)
            &&& steps[on + 5].reply matches ReplyView::FirstEntry { present } && {
                let ready = if present {
                    on + 7
                } else {
                    on + 6
                };
                &&& present ==> steps[on + 6].action == ActionView::EntryType
                &&& match kept_target(config.mountpoint, ready_path) {
                    None => steps.len() == ready,
                    Some(target) => {
                        &&& steps[ready].action == ActionView::Stat(target)
                        &&& steps[ready].reply matches ReplyView::Stat { is_dir } && if is_dir {
                            &&& steps[ready + 1].action == ActionView::ReadFirstEntry(target)
                            &&& steps[ready + 1].reply matches ReplyView::FirstEntry { present }
                                && if present {
                                steps[ready + 2].action == ActionView::EntryType && steps.len()
                                    == ready + 3
                            } else {
                                steps.len() == ready + 2
                            }
                        } else {
                            steps[ready + 1].action == ActionView::OpenFile(target) && steps.len()
                                == ready + 2
                        }
                    },
                }
            }
        }),
{
    let file = manager.paths.state_file;
    let r = mount_steps(manager, fresh_run::<F, E>(config, ready_path), steps).1;
    law_mount_goes_step_by_step(manager, config, ready_path, steps);
    let (c, cut) = choose|c: Course, cut: int| #[trigger]
        mount_history(file, config, ready_path, steps, r, c, cut);
    let whole = whole_mount(file, config, ready_path, c);
    lemma_lengths(file, config, ready_path, c);
    assert(actions(steps) == whole);
    assert(forall|i: int| 0 <= i < steps.len() ==> whole[i] == (#[trigger] steps[i]).action);
    assert(whole.len() == steps.len());
}

/// A mount that fails once its session was to be started ends the session, removes the
/// mountpoint, then the directory of the upper layer, then that of the CL layer where there is
/// one, one after the other, whatever it was that failed and whatever comes of that; and it
/// removes nothing else.
pub proof fn law_rollback_removes_what_was_made<F, E>(
    manager: ManagerView<F>,
    config: ConfigView,
    ready_path: Option<Seq<char>>,
    steps: Seq<Step<F, E>>,
    at: int,
)
    requires
        mount_follows(manager, fresh_run::<F, E>(config, ready_path), steps),
        mount_steps(manager, fresh_run::<F, E>(config, ready_path), steps).1.result()
            matches Some(Err(_)),
        0 <= at < steps.len(),
        steps[at].action == ActionView::MountFuse,
    ensures
        exists|stop: int|
            {
                let behind = if config.cl_dir is Some {
                    stop + 4
                } else {
                    stop + 3
                };
                &&& at < stop && behind < steps.len()
                &&& (#[trigger] steps[stop]).action == ActionView::UnmountFuse
                &&& steps[stop + 1].action == ActionView::RemoveDirAll(config.mountpoint)
                &&& steps[stop + 2].action == ActionView::RemoveDirAll(config.upper_dir)
                &&& config.cl_dir matches Some(dir) ==> steps[stop + 3].action
                    == ActionView::RemoveDirAll(dir)
                &&& steps[behind].action matches ActionView::EncodeState(list) && lists(
                    list,
                    steps[behind].others.instances.remove(config.job_id),
                )
                &&& forall|i: int|
                    0 <= i < steps.len() && !(stop < i < behind) ==> !(
                    (#[trigger] steps[i]).action is RemoveDirAll)
            },
{
    let file = manager.paths.state_file;
    let r = mount_steps(manager, fresh_run::<F, E>(config, ready_path), steps).1;
    law_mount_goes_step_by_step(manager, config, ready_path, steps);
    let (c, cut) = choose|c: Course, cut: int| #[trigger]
        mount_history(file, config, ready_path, steps, r, c, cut);
    lemma_failed_steps(file, config, ready_path, steps, r, c, cut);
    lemma_session_begins_once(file, config, ready_path, c);
    assert(at < cut) by {
        if at >= cut {
            assert(steps[at].action == whole_rollback(file, config, c)[at - cut]);
            lemma_rollback_in_detail(file, config, c);
        }
    }
    assert(has_session(steps[cut - 1].action)) by {
        assert(steps[at].action == whole_mount(file, config, ready_path, c)[at]);
        assert(steps[cut - 1].action == whole_mount(file, config, ready_path, c)[cut - 1]);
    }
    lemma_rollback_in_detail(file, config, c);
    let back = whole_rollback(file, config, c);
    let behind = cut + torn_down(config).len();
    assert(steps[cut].action == back[0]);
    assert(steps[cut + 1].action == back[1]);
    assert(steps[cut + 2].action == back[2]);
    assert(steps[cut + 3].action == back[3]);
    assert(steps[behind].action == back[behind - cut]);
    assert forall|i: int| 0 <= i < steps.len() && !(cut < i < behind) implies !(
    (#[trigger] steps[i]).action is RemoveDirAll) by {
        if i < cut {
            assert(!takes_back(whole_mount(file, config, ready_path, c)[i]));
        } else {
            assert(steps[i].action == back[i - cut]);
        }
    }
}

/// The steps of a mount that failed are those of the mount, and then those of the rollback.
proof fn lemma_failed_steps<F, E>(
    state_file: Seq<u8>,
    config: ConfigView,
    ready_path: Option<Seq<char>>,
    steps: Seq<Step<F, E>>,
    run: MountView<F, E>,
    c: Course,
    cut: int,
)
    requires
        run.failure is Some,
        mount_history(state_file, config, ready_path, steps, run, c, cut),
    ensures
        cut <= whole_mount(state_file, config, ready_path, c).len(),
        forall|i: int|
            0 <= i < cut ==> (#[trigger] steps[i]).action == whole_mount(
                state_file,
                config,
                ready_path,
                c,
            )[i],
        has_session(steps[cut - 1].action) ==> steps.len() - cut <= whole_rollback(
            state_file,
            config,
            c,
        ).len(),
        has_session(steps[cut - 1].action) ==> forall|i: int|
            cut <= i < steps.len() ==> (#[trigger] steps[i]).action == whole_rollback(
                state_file,
                config,
                c,
            )[i - cut],
{
    let whole = whole_mount(state_file, config, ready_path, c);
    let back = whole_rollback(state_file, config, c);
    let begun = actions(steps).take(cut);
    let done = actions(steps).skip(cut);
    assert forall|i: int| 0 <= i < cut implies (#[trigger] steps[i]).action == whole[i] by {
        assert(begun[i] == actions(steps)[i]);
        assert(begun[i] == whole.take(begun.len() as int)[i]);
    }
    if has_session(steps[cut - 1].action) {
        assert forall|i: int| cut <= i < steps.len() implies (#[trigger] steps[i]).action == back[i
            - cut] by {
            assert(done[i - cut] == actions(steps)[i]);
            assert(done[i - cut] == back.take(done.len() as int)[i - cut]);
        }
    }
}

/// What a rollback asks for, one by one.
proof fn lemma_rollback_in_detail(state_file: Seq<u8>, config: ConfigView, c: Course)
    ensures
        ({
            let back = whole_rollback(state_file, config, c);
            let torn = torn_down(config).len() as int;
            &&& torn == (if config.cl_dir is Some {
                4int
            } else {
                3
            })
            &&& torn < back.len()
            &&& back[0] == ActionView::UnmountFuse
            &&& back[1] == ActionView::RemoveDirAll(config.mountpoint)
            &&& back[2] == ActionView::RemoveDirAll(config.upper_dir)
            &&& config.cl_dir matches Some(dir) ==> back[3] == ActionView::RemoveDirAll(dir)
            &&& back[torn] == ActionView::EncodeState(c.left_list)
            &&& forall|i: int| torn <= i < back.len() ==> !(#[trigger] back[i] is RemoveDirAll)
            &&& forall|i: int|
                0 <= i < back.len() ==> #[trigger] back[i] != ActionView::MountFuse
        }),
{
}

/// A mount that succeeds, or that has not come to its session, ends no session and removes
/// nothing.
pub proof fn law_nothing_is_removed_without_need<F, E>(
    manager: ManagerView<F>,
    config: ConfigView,
    ready_path: Option<Seq<char>>,
    steps: Seq<Step<F, E>>,
    at: int,
)
    requires
        mount_follows(manager, fresh_run::<F, E>(config, ready_path), steps),
        0 <= at < steps.len(),
        steps[at].action == ActionView::UnmountFuse || steps[at].action is RemoveDirAll,
    ensures
        !(mount_steps(manager, fresh_run::<F, E>(config, ready_path), steps).1.result()
            matches Some(Ok(_))),
        exists|i: int|
            0 <= i < at && (#[trigger] steps[i]).action == ActionView::MountFuse,
{
    let file = manager.paths.state_file;
    let r = mount_steps(manager, fresh_run::<F, E>(config, ready_path), steps).1;
    law_mount_goes_step_by_step(manager, config, ready_path, steps);
    let (c, cut) = choose|c: Course, cut: int| #[trigger]
        mount_history(file, config, ready_path, steps, r, c, cut);
    let whole = whole_mount(file, config, ready_path, c);
    lemma_lengths(file, config, ready_path, c);
    lemma_session_begins_once(file, config, ready_path, c);
    assert(takes_back(steps[at].action));
    assert(r.failure is Some);
    let begun = actions(steps).take(cut);
    assert forall|i: int| 0 <= i < cut implies whole[i] == (#[trigger] steps[i]).action by {
        assert(begun[i] == actions(steps)[i]);
        assert(begun[i] == whole.take(begun.len() as int)[i]);
    }
    if at < cut - 1 {
        assert(steps.take(cut - 1)[at] == steps[at]);
    } else if at == cut - 1 {
        assert(whole[at] == steps[at].action);
    }
    let start = session_started(file, config, ready_path, c).len() - 1;
    assert(has_session(steps[cut - 1].action));
    assert(start <= cut - 1);
    assert(steps[start].action == whole[start]);
}

/// A mount fails at the first thing that was not done, and tells of that: of a failure before the
/// session and of a session that does not start with the error that came, of a state that cannot
/// be written out and of a mountpoint that cannot be used with what was wrong.
pub proof fn law_failed_mount_tells_why<F, E>(
    manager: ManagerView<F>,
    config: ConfigView,
    ready_path: Option<Seq<char>>,
    steps: Seq<Step<F, E>>,
    error: ErrorView<E>,
)
    requires
        mount_follows(manager, fresh_run::<F, E>(config, ready_path), steps),
        mount_steps(manager, fresh_run::<F, E>(config, ready_path), steps).1.result() == Some(
            Err::<ConfigView, _>(error),
        ),
    ensures
        exists|at: int|
            {
                &&& 0 <= at < steps.len()
                &&& forall|i: int| 0 <= i < at ==> !((#[trigger] steps[i]).reply is Failed)
                &&& match (#[trigger] steps[at]).reply {
                    ReplyView::Failed(fault) => error == (match steps[at].action {
                        ActionView::EncodeState(_) => ErrorView::<E>::Raised {
                            kind: ErrorKind::Other,
                            message: "encode state: "@ + fault.text,
                        },
                        ActionView::CreateDirAll(_) | ActionView::WriteFile { .. }
                        | ActionView::AwaitStore { .. } | ActionView::BuildFuse { .. }
                        | ActionView::MountFuse => ErrorView::Io(fault),
                        _ => ErrorView::Raised {
                            kind: ErrorKind::Other,
                            message: "mount probe failed on "@ + lossy_text(config.mountpoint)
                                + ": "@ + fault.text,
                        },
                    }),
                    ReplyView::Stat { is_dir } => !is_dir && steps[at].action == ActionView::Stat(
                        config.mountpoint,
                    ) && error == (ErrorView::<E>::Raised {
                        kind: ErrorKind::Other,
                        message: "mount probe failed on "@ + lossy_text(config.mountpoint) + ": "@
                            + (lossy_text(config.mountpoint) + " is not a directory"@),
                    }),
                    _ => false,
                }
            },
{
    let file = manager.paths.state_file;
    let r = mount_steps(manager, fresh_run::<F, E>(config, ready_path), steps).1;
    law_mount_goes_step_by_step(manager, config, ready_path, steps);
    let (c, cut) = choose|c: Course, cut: int| #[trigger]
        mount_history(file, config, ready_path, steps, r, c, cut);
    let whole = whole_mount(file, config, ready_path, c);
    let begun = actions(steps).take(cut);
    lemma_lengths(file, config, ready_path, c);
    lemma_session_begins_once(file, config, ready_path, c);
    assert(begun[cut - 1] == whole.take(begun.len() as int)[cut - 1]);
    assert(steps[cut - 1].action == whole[cut - 1]);
    lemma_kinds_of_action(file, config, ready_path, c, cut - 1);
    assert forall|i: int| 0 <= i < cut - 1 implies !((#[trigger] steps[i]).reply is Failed) by {
        assert(steps.take(cut - 1)[i] == steps[i]);
    }
}

/// A mount asks for neither the program nor its own end.
proof fn lemma_kinds_of_action(
    state_file: Seq<u8>,
    config: ConfigView,
    ready_path: Option<Seq<char>>,
    c: Course,
    at: int,
)
    requires
        0 <= at < whole_mount(state_file, config, ready_path, c).len(),
    ensures
        !(whole_mount(state_file, config, ready_path, c)[at] is RunFusermount),
        !(whole_mount(state_file, config, ready_path, c)[at] is Finish),
{
    lemma_lengths(state_file, config, ready_path, c);
}

} // verus!
