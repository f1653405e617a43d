//! What holds of the mounting of a job, however the outside world replies.

use vstd::prelude::*;
use vstd::utf8::*;

use crate::config::ConfigView;
use crate::manager::ManagerView;
use crate::mount::{
    fresh_run, mount_after, mount_asks, probe_failed, store_ready_path, MountPhaseView, MountView,
    DICFUSE_READY_POLL_MILLIS, DICFUSE_READY_TIMEOUT_MILLIS,
};
use crate::outcome::{answers, ActionView, ErrorKind, ErrorView, ReplyView};
use crate::probe::{kept_target, probe_after, probe_asks, ProbeNextView, ProbeStep};
use crate::save::SaveStepView;

verus! {

/// How many replies saving the state can still take.
pub open spec fn save_rank(step: SaveStepView) -> nat {
    match step {
        SaveStepView::Encode => 3,
        SaveStepView::MakeParent { .. } => 2,
        SaveStepView::Write { .. } => 1,
    }
}

/// How many replies the probe can still take.
pub open spec fn probe_rank(step: ProbeStep) -> nat {
    match step {
        ProbeStep::StatRoot => 6,
        ProbeStep::ListRoot => 5,
        ProbeStep::TypeRoot => 4,
        ProbeStep::StatReady => 3,
        ProbeStep::ListReady => 2,
        ProbeStep::TypeReady => 1,
        ProbeStep::OpenReady => 1,
    }
}

/// How many replies a run can still take.
pub open spec fn mount_rank(phase: MountPhaseView) -> nat {
    match phase {
        MountPhaseView::MakeUpper => 22,
        MountPhaseView::MakeCl => 21,
        MountPhaseView::MakeMountpoint => 20,
        MountPhaseView::Saving(step) => 16 + save_rank(step),
        MountPhaseView::AwaitStore => 16,
        MountPhaseView::BuildFuse => 15,
        MountPhaseView::StartFuse => 14,
        MountPhaseView::Probing(step) => 7 + probe_rank(step),
        MountPhaseView::StopFuse => 7,
        MountPhaseView::DropMountpoint => 6,
        MountPhaseView::DropUpper => 5,
        MountPhaseView::DropCl => 4,
        MountPhaseView::Resaving(step) => save_rank(step),
        MountPhaseView::Finished => 0,
    }
}

/// Whether a run is in a state that a request can lead to.
pub open spec fn mount_sound<F, E>(run: MountView<F, E>) -> bool {
    match run.phase {
        MountPhaseView::MakeUpper => run.fuse is None && run.failure is None,
        MountPhaseView::MakeCl => run.fuse is None && run.failure is None && run.config.cl_dir
            is Some,
        MountPhaseView::MakeMountpoint => run.fuse is None && run.failure is None,
        MountPhaseView::Saving(_) => run.fuse is None && run.failure is None,
        MountPhaseView::AwaitStore => run.fuse is None && run.failure is None,
        MountPhaseView::BuildFuse => run.fuse is None && run.failure is None,
        MountPhaseView::StartFuse => run.fuse is Some && run.failure is None,
        MountPhaseView::Probing(step) => run.fuse is Some && run.failure is None && (probe_rank(
            step,
        ) <= 3 ==> run.target() is Some),
        MountPhaseView::StopFuse => run.fuse is Some && run.failure is Some,
        MountPhaseView::DropMountpoint => run.fuse is Some && run.failure is Some,
        MountPhaseView::DropUpper => run.fuse is Some && run.failure is Some,
        MountPhaseView::DropCl => run.fuse is Some && run.failure is Some && run.config.cl_dir
            is Some,
        MountPhaseView::Resaving(_) => run.fuse is Some && run.failure is Some,
        MountPhaseView::Finished => run.failure is None ==> run.fuse is None,
    }
}

/// A fresh run is sound, and no reply makes a sound run unsound.
pub proof fn law_mount_stays_sound<F, E>(
    manager: ManagerView<F>,
    run: MountView<F, E>,
    reply: ReplyView<F, E>,
)
    ensures
        mount_sound(fresh_run::<F, E>(run.config, run.ready_path)),
        mount_sound(run) ==> mount_sound(mount_after(manager, run, reply).1),
{
}

/// A sound run that is not over asks for something.
pub proof fn law_mount_asks_until_over<F, E>(
    manager: ManagerView<F>,
    run: MountView<F, E>,
    action: ActionView,
)
    requires
        mount_sound(run),
        mount_asks(manager, run, action),
    ensures
        action == ActionView::Finish <==> run.result() is Some,
{
}

/// An answer to what a sound run asks brings it nearer to its end; any other reply leaves
/// the run and the manager as they are. So a run is over after at most so many answers as a
/// fresh run ranks.
pub proof fn law_mount_comes_to_an_end<F, E>(
    manager: ManagerView<F>,
    run: MountView<F, E>,
    action: ActionView,
    reply: ReplyView<F, E>,
)
    requires
        mount_sound(run),
        mount_asks(manager, run, action),
    ensures
        answers(action, reply) ==> mount_rank(mount_after(manager, run, reply).1.phase)
            < mount_rank(run.phase),
        !answers(action, reply) ==> mount_after(manager, run, reply) == (manager, run),
        mount_rank(run.phase) == 0 <==> run.result() is Some,
{
}

/// Success is owed: as long as what a sound run asks for is done, and the mountpoint is found
/// to be a directory, the run does not fail; so, coming to an end, it succeeds.
pub proof fn law_mount_without_failures_succeeds<F, E>(
    manager: ManagerView<F>,
    run: MountView<F, E>,
    action: ActionView,
    reply: ReplyView<F, E>,
)
    requires
        mount_sound(run),
        run.failure is None,
        mount_asks(manager, run, action),
        answers(action, reply),
        !(reply is Failed),
        run.phase == MountPhaseView::Probing(ProbeStep::StatRoot) ==> reply == (ReplyView::<
            F,
            E,
        >::Stat { is_dir: true }),
    ensures
        ({
            let next = mount_after(manager, run, reply).1;
            &&& mount_sound(next)
            &&& next.failure is None
            &&& mount_rank(next.phase) < mount_rank(run.phase)
            &&& mount_rank(next.phase) == 0 ==> next.result() == Some(
                Ok::<_, ErrorView<E>>(run.config),
            )
        }),
{
}

/// A reply changes neither what is mounted and for which job, nor where the manager places
/// things, nor anything that it keeps of other jobs.
pub proof fn law_mount_leaves_other_jobs_alone<F, E>(
    manager: ManagerView<F>,
    run: MountView<F, E>,
    reply: ReplyView<F, E>,
    job: Seq<char>,
)
    requires
        job != run.config.job_id,
    ensures
        mount_after(manager, run, reply).1.config == run.config,
        mount_after(manager, run, reply).1.ready_path == run.ready_path,
        mount_after(manager, run, reply).0.paths == manager.paths,
        mount_after(manager, run, reply).0.instance(job) == manager.instance(job),
        mount_after(manager, run, reply).0.session(job) == manager.session(job),
{
}

/// A reply to one run takes that run where it would take it whatever the manager keeps, and
/// does to the manager one of four things.
proof fn lemma_mount_effect<F, E>(
    manager: ManagerView<F>,
    other: ManagerView<F>,
    run: MountView<F, E>,
    reply: ReplyView<F, E>,
) -> (effect: Effect<F>)
    requires
        manager.paths == other.paths,
    ensures
        mount_after(manager, run, reply).1 == mount_after(other, run, reply).1,
        mount_after(manager, run, reply).0 == effect.on(manager, run.config),
        mount_after(other, run, reply).0 == effect.on(other, run.config),
{
    match run.phase {
        MountPhaseView::MakeMountpoint => if reply is Done {
            Effect::Track
        } else {
            Effect::Nothing
        },
        MountPhaseView::Probing(step) => if run.fuse is Some && probe_after(
            step,
            run.config.mountpoint,
            run.target(),
            reply,
        ) == ProbeNextView::<E>::Passed {
            Effect::Attach(run.fuse->0)
        } else {
            Effect::Nothing
        },
        MountPhaseView::DropUpper => if run.config.cl_dir is None && (reply is Done
            || reply is Failed) {
            Effect::Forget
        } else {
            Effect::Nothing
        },
        MountPhaseView::DropCl => if reply is Done || reply is Failed {
            Effect::Forget
        } else {
            Effect::Nothing
        },
        _ => Effect::Nothing,
    }
}

/// What a reply does to the manager.
enum Effect<F> {
    Nothing,
    Track,
    Attach(F),
    Forget,
}

impl<F> Effect<F> {
    /// The manager with the effect on it.
    spec fn on(self, manager: ManagerView<F>, config: ConfigView) -> ManagerView<F> {
        match self {
            Effect::Nothing => manager,
            Effect::Track => manager.tracking(config),
            Effect::Attach(fuse) => manager.attaching(config.job_id, Some(fuse)),
            Effect::Forget => manager.detaching(config.job_id).untracking(config.job_id),
        }
    }
}

/// Mounts of different jobs do not get in each other's way: in which order two runs get their
/// replies makes no difference to either, nor to the manager.
pub proof fn law_mounts_of_different_jobs_commute<F, E>(
    manager: ManagerView<F>,
    a: MountView<F, E>,
    a_reply: ReplyView<F, E>,
    b: MountView<F, E>,
    b_reply: ReplyView<F, E>,
)
    requires
        a.config.job_id != b.config.job_id,
    ensures
        ({
            let (a_first, a_then) = mount_after(manager, a, a_reply);
            let (b_first, b_then) = mount_after(manager, b, b_reply);
            &&& mount_after(a_first, b, b_reply).0 == mount_after(b_first, a, a_reply).0
            &&& mount_after(a_first, b, b_reply).1 == b_then
            &&& mount_after(b_first, a, a_reply).1 == a_then
        }),
{
    let a_first = mount_after(manager, a, a_reply).0;
    let b_first = mount_after(manager, b, b_reply).0;
    law_mount_leaves_other_jobs_alone(manager, a, a_reply, b.config.job_id);
    law_mount_leaves_other_jobs_alone(manager, b, b_reply, a.config.job_id);
    let a_effect = lemma_mount_effect(manager, b_first, a, a_reply);
    let b_effect = lemma_mount_effect(manager, a_first, b, b_reply);
    let ab = b_effect.on(a_effect.on(manager, a.config), b.config);
    let ba = a_effect.on(b_effect.on(manager, b.config), a.config);
    assert(ab.instances =~= ba.instances);
    assert(ab.sessions =~= ba.sessions);
}

/// Instances stay under their own jobs.
pub proof fn law_mount_keeps_instances_keyed<F, E>(
    manager: ManagerView<F>,
    run: MountView<F, E>,
    reply: ReplyView<F, E>,
)
    requires
        manager.keyed(),
    ensures
        mount_after(manager, run, reply).0.keyed(),
{
}

/// What can happen while a job is being mounted.
#[verifier::ext_equal]
pub enum Happening<F, E> {
    /// The run gets a reply.
    Reply(ReplyView<F, E>),
    /// The overlay that the run holds is used, and is this one from then on.
    Used(F),
    /// The manager serves other jobs, and keeps of them what this one does from then on.
    Elsewhere(ManagerView<F>),
}

/// `map` with the entry of `job`, or the lack of one, taken from `own`.
pub open spec fn with_entry_of<V>(
    map: Map<Seq<char>, V>,
    own: Map<Seq<char>, V>,
    job: Seq<char>,
) -> Map<Seq<char>, V> {
    if own.contains_key(job) {
        map.insert(job, own[job])
    } else {
        map.remove(job)
    }
}

/// The manager and the run after something happened.
pub open spec fn mount_happens<F, E>(
    manager: ManagerView<F>,
    run: MountView<F, E>,
    what: Happening<F, E>,
) -> (ManagerView<F>, MountView<F, E>) {
    match what {
        Happening::Reply(reply) => mount_after(manager, run, reply),
        Happening::Used(fuse) => (
            manager,
            if run.fuse is Some {
                MountView { fuse: Some(fuse), ..run }
            } else {
                run
            },
        ),
        Happening::Elsewhere(other) => (
            ManagerView {
                paths: manager.paths,
                instances: with_entry_of(other.instances, manager.instances, run.config.job_id),
                sessions: with_entry_of(other.sessions, manager.sessions, run.config.job_id),
            },
            run,
        ),
    }
}

/// The manager and the run after all of `what` happened.
pub open spec fn mount_through<F, E>(
    manager: ManagerView<F>,
    run: MountView<F, E>,
    what: Seq<Happening<F, E>>,
) -> (ManagerView<F>, MountView<F, E>)
    decreases what.len(),
{
    if what.len() == 0 {
        (manager, run)
    } else {
        let (m, r) = mount_through(manager, run, what.drop_last());
        mount_happens(m, r, what.last())
    }
}

/// What the manager keeps of the job of `run`, when it kept `instance` and `session` of it at
/// the start.
pub open spec fn mount_stage<F, E>(
    instance: Option<ConfigView>,
    session: Option<F>,
    manager: ManagerView<F>,
    run: MountView<F, E>,
) -> bool {
    let job = run.config.job_id;
    let untouched = manager.instance(job) == instance && manager.session(job) == session;
    let listed = manager.instance(job) == Some(run.config) && manager.session(job) == session;
    let forgotten = manager.instance(job) is None && manager.session(job) is None;
    match run.phase {
        MountPhaseView::MakeUpper => untouched,
        MountPhaseView::MakeCl => untouched,
        MountPhaseView::MakeMountpoint => untouched,
        MountPhaseView::Resaving(_) => forgotten,
        MountPhaseView::Finished => if run.failure is Some {
            untouched || listed || forgotten
        } else {
            manager.instance(job) == Some(run.config) && manager.session(job) is Some
        },
        _ => listed,
    }
}

/// Whatever happens, the manager keeps of the job what its run has come to: nothing new until
/// the directories are made; then the instance; in the end also the session where the mount
/// succeeded, and neither of them where it was rolled back.
pub proof fn law_mount_keeps_stage<F, E>(
    manager: ManagerView<F>,
    config: ConfigView,
    ready_path: Option<Seq<char>>,
    what: Seq<Happening<F, E>>,
)
    ensures
        ({
            let (m, r) = mount_through(manager, fresh_run::<F, E>(config, ready_path), what);
            &&& r.config == config
            &&& r.ready_path == ready_path
            &&& m.paths == manager.paths
            &&& mount_sound(r)
            &&& mount_stage(
                manager.instance(config.job_id),
                manager.session(config.job_id),
                m,
                r,
            )
        }),
    decreases what.len(),
{
    if what.len() > 0 {
        law_mount_keeps_stage(manager, config, ready_path, what.drop_last());
    }
}

/// While a run saves the state, the instance is among those that are saved, and while it
/// saves the state once more after a rollback, no instance of the job is.
pub proof fn law_saved_state_tells_of_the_job<F, E>(
    manager: ManagerView<F>,
    config: ConfigView,
    ready_path: Option<Seq<char>>,
    what: Seq<Happening<F, E>>,
    list: Seq<ConfigView>,
)
    requires
        ({
            let (m, r) = mount_through(manager, fresh_run::<F, E>(config, ready_path), what);
            mount_asks(m, r, ActionView::EncodeState(list))
        }),
    ensures
        ({
            let r = mount_through(manager, fresh_run::<F, E>(config, ready_path), what).1;
            &&& r.phase is Saving || r.phase is Resaving
            &&& r.phase is Saving ==> list.contains(config)
            &&& r.phase is Resaving ==> forall|i: int|
                0 <= i < list.len() ==> (#[trigger] list[i]).job_id != config.job_id
        }),
{
    law_mount_keeps_stage(manager, config, ready_path, what);
    let (m, r) = mount_through(manager, fresh_run::<F, E>(config, ready_path), what);
    if r.phase is Saving {
        assert(m.instances.contains_key(config.job_id));
        let i = choose|i: int|
            0 <= i < list.len() && (#[trigger] list[i]).job_id == config.job_id;
        assert(list[i] == config);
    }
}

/// A mount that succeeds gives its instance, which is then tracked, and has a live session.
pub proof fn law_mounted_job_is_tracked<F, E>(
    manager: ManagerView<F>,
    config: ConfigView,
    ready_path: Option<Seq<char>>,
    what: Seq<Happening<F, E>>,
)
    requires
        mount_through(manager, fresh_run::<F, E>(config, ready_path), what).1.result()
            matches Some(Ok(_)),
    ensures
        ({
            let (m, r) = mount_through(manager, fresh_run::<F, E>(config, ready_path), what);
            &&& r.result() == Some(Ok::<_, ErrorView<E>>(config))
            &&& m.instance(config.job_id) == Some(config)
            &&& m.session(config.job_id) is Some
        }),
{
    law_mount_keeps_stage(manager, config, ready_path, what);
}

/// Until a session was started, a failure ends the run at once with that error, and leaves
/// the manager as it is.
pub proof fn law_early_failure_ends_the_run<F, E>(
    manager: ManagerView<F>,
    run: MountView<F, E>,
    reply: ReplyView<F, E>,
)
    requires
        mount_rank(run.phase) > mount_rank(MountPhaseView::StartFuse),
        reply is Failed,
    ensures
        mount_after(manager, run, reply).0 == manager,
        mount_after(manager, run, reply).1.result() matches Some(Err(_)),
        !(run.phase matches MountPhaseView::Saving(SaveStepView::Encode)) ==> mount_after(
            manager,
            run,
            reply,
        ).1.result() == Some(Err::<ConfigView, _>(ErrorView::Io(reply->Failed_0))),
{
}

/// Whether a run takes back what was made.
pub open spec fn rolls_back(phase: MountPhaseView) -> bool {
    match phase {
        MountPhaseView::StopFuse => true,
        MountPhaseView::DropMountpoint => true,
        MountPhaseView::DropUpper => true,
        MountPhaseView::DropCl => true,
        MountPhaseView::Resaving(_) => true,
        _ => false,
    }
}

/// A session that does not start has the run rolled back, with the error of the session.
pub proof fn law_unstarted_session_rolls_back<F, E>(
    manager: ManagerView<F>,
    run: MountView<F, E>,
    reply: ReplyView<F, E>,
)
    requires
        run.phase == MountPhaseView::StartFuse,
        reply is Failed,
    ensures
        mount_after(manager, run, reply) == (
            manager,
            run.rolling_back(ErrorView::Io(reply->Failed_0)),
        ),
{
}

/// A probe that refuses the mountpoint has the run rolled back, with an error that names the
/// mountpoint and the reason.
pub proof fn law_failed_probe_rolls_back<F, E>(
    manager: ManagerView<F>,
    run: MountView<F, E>,
    step: ProbeStep,
    reply: ReplyView<F, E>,
)
    requires
        run.phase == MountPhaseView::Probing(step),
        probe_after(step, run.config.mountpoint, run.target(), reply) is Refused,
    ensures
        ({
            let error = probe_after(
                step,
                run.config.mountpoint,
                run.target(),
                reply,
            )->Refused_0;
            mount_after(manager, run, reply) == (
                manager,
                run.rolling_back(
                    ErrorView::Raised {
                        kind: ErrorKind::Other,
                        message: probe_failed(run.config.mountpoint, error.text()),
                    },
                ),
            )
        }),
{
}

/// Once a run is rolled back, it fails with the error it had, whatever comes of the steps
/// back; and when it is over, the manager keeps nothing of the job.
pub proof fn law_rollback_forgets_the_job<F, E>(
    manager: ManagerView<F>,
    run: MountView<F, E>,
    error: ErrorView<E>,
    what: Seq<Happening<F, E>>,
)
    requires
        run.phase == MountPhaseView::StopFuse,
        run.failure == Some(error),
    ensures
        ({
            let (m, r) = mount_through(manager, run, what);
            &&& r.config == run.config
            &&& r.failure == Some(error)
            &&& rolls_back(r.phase) || r.phase == MountPhaseView::Finished
            &&& r.phase is Resaving || r.phase == MountPhaseView::Finished ==> m.instance(
                run.config.job_id,
            ) is None && m.session(run.config.job_id) is None
            &&& r.phase == MountPhaseView::Finished ==> r.result() == Some(
                Err::<ConfigView, _>(error),
            )
        }),
    decreases what.len(),
{
    if what.len() > 0 {
        law_rollback_forgets_the_job(manager, run, error, what.drop_last());
    }
}

/// A manager that has sessions for tracked jobs only has so at every moment of a mount, as
/// far as the job of the mount goes.
pub proof fn law_session_of_mounted_job_is_tracked<F, E>(
    manager: ManagerView<F>,
    config: ConfigView,
    ready_path: Option<Seq<char>>,
    what: Seq<Happening<F, E>>,
)
    requires
        manager.session(config.job_id) is Some ==> manager.instance(config.job_id) is Some,
    ensures
        ({
            let m = mount_through(manager, fresh_run::<F, E>(config, ready_path), what).0;
            m.session(config.job_id) is Some ==> m.instance(config.job_id) is Some
        }),
{
    law_mount_keeps_stage(manager, config, ready_path, what);
}

/// The things that a mount gets done, in their order.
pub enum Milestone {
    /// The directory of the upper layer is there.
    UpperMade,
    /// The directory of the CL layer is there.
    ClMade,
    /// The mountpoint is there.
    MountpointMade,
    /// The state file is written.
    StateSaved,
    /// The Dicfuse has the ready path.
    StoreReady,
    /// The overlay is built.
    OverlayBuilt,
    /// The session is started.
    SessionStarted,
    /// The mountpoint is a directory.
    RootFound,
    /// The mountpoint can be read.
    RootRead,
    /// The ready path is below the mountpoint.
    ReadyFound,
    /// The ready path can be read or opened.
    ReadyUsed,
}

impl Milestone {
    /// The place of the milestone in the order.
    pub open spec fn place(self) -> nat {
        match self {
            Milestone::UpperMade => 0,
            Milestone::ClMade => 1,
            Milestone::MountpointMade => 2,
            Milestone::StateSaved => 3,
            Milestone::StoreReady => 4,
            Milestone::OverlayBuilt => 5,
            Milestone::SessionStarted => 6,
            Milestone::RootFound => 7,
            Milestone::RootRead => 8,
            Milestone::ReadyFound => 9,
            Milestone::ReadyUsed => 10,
        }
    }

    /// The milestone before this one. That of the CL layer is left out where there is none.
    pub open spec fn before(self, config: ConfigView) -> Option<Milestone> {
        match self {
            Milestone::UpperMade => None,
            Milestone::ClMade => Some(Milestone::UpperMade),
            Milestone::MountpointMade => if config.cl_dir is Some {
                Some(Milestone::ClMade)
            } else {
                Some(Milestone::UpperMade)
            },
            Milestone::StateSaved => Some(Milestone::MountpointMade),
            Milestone::StoreReady => Some(Milestone::StateSaved),
            Milestone::OverlayBuilt => Some(Milestone::StoreReady),
            Milestone::SessionStarted => Some(Milestone::OverlayBuilt),
            Milestone::RootFound => Some(Milestone::SessionStarted),
            Milestone::RootRead => Some(Milestone::RootFound),
            Milestone::ReadyFound => Some(Milestone::RootRead),
            Milestone::ReadyUsed => Some(Milestone::ReadyFound),
        }
    }

    /// Whether `reply` says that `action` was done, and that is the milestone.
    pub open spec fn is_met<F, E>(
        self,
        state_file: Seq<u8>,
        config: ConfigView,
        ready_path: Option<Seq<char>>,
        action: ActionView,
        reply: ReplyView<F, E>,
    ) -> bool {
        let target = kept_target(config.mountpoint, ready_path);
        match self {
            Milestone::UpperMade => action == ActionView::CreateDirAll(config.upper_dir)
                && reply is Done,
            Milestone::ClMade => config.cl_dir is Some && action == ActionView::CreateDirAll(
                config.cl_dir->0,
            ) && reply is Done,
            Milestone::MountpointMade => action == ActionView::CreateDirAll(config.mountpoint)
                && reply is Done,
            Milestone::StateSaved => action is WriteFile && action->path == state_file
                && reply is Done,
            Milestone::StoreReady => action == (ActionView::AwaitStore {
                source_path: config.source_path,
                ready_path: store_ready_path(ready_path),
                timeout_millis: DICFUSE_READY_TIMEOUT_MILLIS,
                poll_millis: DICFUSE_READY_POLL_MILLIS,
            }) && reply is Done,
            Milestone::OverlayBuilt => action == (ActionView::BuildFuse {
                source_path: config.source_path,
                mountpoint: config.mountpoint,
                upper_dir: config.upper_dir,
                cl_dir: config.cl_dir,
            }) && reply is Built,
            Milestone::SessionStarted => action == ActionView::MountFuse && reply is Done,
            Milestone::RootFound => action == ActionView::Stat(config.mountpoint) && reply == (
            ReplyView::<F, E>::Stat { is_dir: true }),
            Milestone::RootRead => action == ActionView::ReadFirstEntry(config.mountpoint)
                && reply is FirstEntry,
            Milestone::ReadyFound => target is Some && action == ActionView::Stat(target->0)
                && reply is Stat,
            Milestone::ReadyUsed => target is Some && ((action == ActionView::ReadFirstEntry(
                target->0,
            ) && reply is FirstEntry) || (action == ActionView::OpenFile(target->0)
                && reply is Done)),
        }
    }
}

/// The last milestone. Those of the ready path are left out where there is none.
pub open spec fn last_milestone(config: ConfigView, ready_path: Option<Seq<char>>) -> Milestone {
    if kept_target(config.mountpoint, ready_path) is Some {
        Milestone::ReadyUsed
    } else {
        Milestone::RootRead
    }
}

/// Whether what happened at `at` was that `milestone` was met.
pub open spec fn met_at<F, E>(
    manager: ManagerView<F>,
    run: MountView<F, E>,
    what: Seq<Happening<F, E>>,
    milestone: Milestone,
    at: int,
) -> bool {
    let (m, r) = mount_through(manager, run, what.take(at));
    &&& 0 <= at < what.len()
    &&& what[at] matches Happening::Reply(reply) && exists|action: ActionView|
        #[trigger] mount_asks(m, r, action) && milestone.is_met(
            manager.paths.state_file,
            run.config,
            run.ready_path,
            action,
            reply,
        )
}

/// Whether every milestone up to `last` was met at the time that `when` gives for it, each
/// later than the one before. That of the CL layer is left out where there is none.
pub open spec fn met_in_order<F, E>(
    manager: ManagerView<F>,
    run: MountView<F, E>,
    what: Seq<Happening<F, E>>,
    last: Milestone,
    when: Map<Milestone, int>,
) -> bool {
    forall|milestone: Milestone|
        milestone.place() <= last.place() && (milestone == Milestone::ClMade ==> run.config.cl_dir
            is Some) ==> {
            &&& met_at(manager, run, what, milestone, #[trigger] when[milestone])
            &&& milestone.before(run.config) matches Some(before) ==> when[before]
                < when[milestone]
        }
}

/// The milestone that a run has behind it.
pub open spec fn milestone_of<F, E>(run: MountView<F, E>) -> Option<Milestone> {
    match run.phase {
        MountPhaseView::MakeUpper => None,
        MountPhaseView::MakeCl => Some(Milestone::UpperMade),
        MountPhaseView::MakeMountpoint => Milestone::MountpointMade.before(run.config),
        MountPhaseView::Saving(_) => Some(Milestone::MountpointMade),
        MountPhaseView::AwaitStore => Some(Milestone::StateSaved),
        MountPhaseView::BuildFuse => Some(Milestone::StoreReady),
        MountPhaseView::StartFuse => Some(Milestone::OverlayBuilt),
        MountPhaseView::Probing(step) => match step {
            ProbeStep::StatRoot => Some(Milestone::SessionStarted),
            ProbeStep::ListRoot => Some(Milestone::RootFound),
            ProbeStep::TypeRoot => Some(Milestone::RootRead),
            ProbeStep::StatReady => Some(Milestone::RootRead),
            ProbeStep::ListReady => Some(Milestone::ReadyFound),
            ProbeStep::OpenReady => Some(Milestone::ReadyFound),
            ProbeStep::TypeReady => Some(Milestone::ReadyUsed),
        },
        MountPhaseView::Finished => if run.failure is None {
            Some(last_milestone(run.config, run.ready_path))
        } else {
            None
        },
        _ => None,
    }
}

/// What was met stays met when more happens.
proof fn lemma_met_stays<F, E>(
    manager: ManagerView<F>,
    run: MountView<F, E>,
    what: Seq<Happening<F, E>>,
    last: Milestone,
    when: Map<Milestone, int>,
)
    requires
        what.len() > 0,
        met_in_order(manager, run, what.drop_last(), last, when),
    ensures
        met_in_order(manager, run, what, last, when),
{
    assert forall|milestone: Milestone|
        milestone.place() <= last.place() && (milestone == Milestone::ClMade ==> run.config.cl_dir
            is Some) implies {
        &&& met_at(manager, run, what, milestone, #[trigger] when[milestone])
        &&& milestone.before(run.config) matches Some(before) ==> when[before] < when[milestone]
    } by {
        let at = when[milestone];
        assert(met_at(manager, run, what.drop_last(), milestone, at));
        assert(what.drop_last().take(at) =~= what.take(at));
    }
}

/// One more milestone met at the end goes behind those met before.
proof fn lemma_met_next<F, E>(
    manager: ManagerView<F>,
    run: MountView<F, E>,
    what: Seq<Happening<F, E>>,
    before: Option<Milestone>,
    last: Milestone,
    when: Map<Milestone, int>,
)
    requires
        what.len() > 0,
        last.before(run.config) == before,
        before matches Some(b) ==> met_in_order(manager, run, what.drop_last(), b, when),
        met_at(manager, run, what, last, what.len() - 1),
        last == Milestone::ClMade ==> run.config.cl_dir is Some,
    ensures
        met_in_order(manager, run, what, last, when.insert(last, what.len() - 1)),
{
    let times = when.insert(last, what.len() - 1);
    if let Some(b) = before {
        lemma_met_stays(manager, run, what, b, when);
        assert(met_at(manager, run, what.drop_last(), b, when[b]));
    }
    assert forall|milestone: Milestone|
        milestone.place() <= last.place() && (milestone == Milestone::ClMade ==> run.config.cl_dir
            is Some) implies {
        &&& met_at(manager, run, what, milestone, #[trigger] times[milestone])
        &&& milestone.before(run.config) matches Some(b) ==> times[b] < times[milestone]
    } by {
        if milestone != last {
            assert(milestone.place() <= before->0.place());
            assert(met_at(manager, run, what, milestone, when[milestone]));
        }
    }
}

/// A run has met the milestone of its phase, and those before.
proof fn lemma_milestone_met<F, E>(
    manager: ManagerView<F>,
    config: ConfigView,
    ready_path: Option<Seq<char>>,
    what: Seq<Happening<F, E>>,
) -> (when: Map<Milestone, int>)
    ensures
        milestone_of(
            mount_through(manager, fresh_run::<F, E>(config, ready_path), what).1,
        ) matches Some(milestone) ==> met_in_order(
            manager,
            fresh_run::<F, E>(config, ready_path),
            what,
            milestone,
            when,
        ),
    decreases what.len(),
{
    let run = fresh_run::<F, E>(config, ready_path);
    let (m, r) = mount_through(manager, run, what);
    if what.len() == 0 || milestone_of(r) is None {
        Map::empty()
    } else {
        let milestone = milestone_of(r)->0;
        let (m0, r0) = mount_through(manager, run, what.drop_last());
        law_mount_keeps_stage(manager, config, ready_path, what.drop_last());
        let when = lemma_milestone_met(manager, config, ready_path, what.drop_last());
        if milestone_of(r0) == Some(milestone) {
            lemma_met_stays(manager, run, what, milestone, when);
            when
        } else {
            let at = what.len() - 1;
            assert(what.take(at) =~= what.drop_last());
            assert(what.last() is Reply);
            let reply = what.last()->Reply_0;
            let action = match r0.phase {
                MountPhaseView::MakeUpper => ActionView::CreateDirAll(config.upper_dir),
                MountPhaseView::MakeCl => ActionView::CreateDirAll(config.cl_dir->0),
                MountPhaseView::MakeMountpoint => ActionView::CreateDirAll(config.mountpoint),
                MountPhaseView::Saving(step) => ActionView::WriteFile {
                    path: manager.paths.state_file,
                    data: step->Write_data,
                },
                MountPhaseView::AwaitStore => ActionView::AwaitStore {
                    source_path: config.source_path,
                    ready_path: store_ready_path(ready_path),
                    timeout_millis: DICFUSE_READY_TIMEOUT_MILLIS,
                    poll_millis: DICFUSE_READY_POLL_MILLIS,
                },
                MountPhaseView::BuildFuse => ActionView::BuildFuse {
                    source_path: config.source_path,
                    mountpoint: config.mountpoint,
                    upper_dir: config.upper_dir,
                    cl_dir: config.cl_dir,
                },
                MountPhaseView::StartFuse => ActionView::MountFuse,
                MountPhaseView::Probing(step) => probe_asks(
                    step,
                    config.mountpoint,
                    kept_target(config.mountpoint, ready_path),
                ),
                _ => ActionView::Finish,
            };
            assert(mount_asks(m0, r0, action));
            assert(milestone.is_met(
                manager.paths.state_file,
                config,
                ready_path,
                action,
                reply,
            ));
            assert(met_at(manager, run, what, milestone, at));
            lemma_met_next(manager, run, what, milestone_of(r0), milestone, when);
            when.insert(milestone, at)
        }
    }
}

/// A mount succeeds only after everything it is for was done, one after the other: the
/// layers and the mountpoint were made, the state was saved, the Dicfuse had the ready path,
/// the session was started, the mountpoint was found to be a directory that can be read, and
/// the ready path, where one is asked for, was found below it and could be read or opened.
pub proof fn law_mount_succeeds_only_when_ready<F, E>(
    manager: ManagerView<F>,
    config: ConfigView,
    ready_path: Option<Seq<char>>,
    what: Seq<Happening<F, E>>,
)
    requires
        mount_through(manager, fresh_run::<F, E>(config, ready_path), what).1.result()
            matches Some(Ok(_)),
    ensures
        exists|when: Map<Milestone, int>| #[trigger]
            met_in_order(
                manager,
                fresh_run::<F, E>(config, ready_path),
                what,
                last_milestone(config, ready_path),
                when,
            ),
{
    law_mount_keeps_stage(manager, config, ready_path, what);
    let when = lemma_milestone_met(manager, config, ready_path, what);
    assert(met_in_order(
        manager,
        fresh_run::<F, E>(config, ready_path),
        what,
        last_milestone(config, ready_path),
        when,
    ));
}

} // verus!
