//! What an unmount asks for, in which order, and what comes of it: told by the whole of what was
//! asked and answered, from the request to the result.

use vstd::prelude::*;

use crate::config::ConfigView;
use crate::fs_path::{lossy_text, parent_of};
use crate::manager::ManagerView;
use crate::mount_laws::Happening;
use crate::mount_order::{actions, state_encoded, state_saved, Step};
use crate::outcome::{answers, ActionView, ErrorKind, ErrorView, ReplyView};
use crate::path_laws::law_word_is_found_where_it_stands;
use crate::save::{lists, SaveStepView};
use crate::umount::{
    fusermount_report_of, umount_asks, umount_start, FusermountReport, UmountPhaseView, UmountView,
};
use crate::umount_laws::umount_happens;

verus! {

/// The manager and the run when `step` asks.
pub open spec fn umount_before<F, E>(
    manager: ManagerView<F>,
    run: UmountView<F, E>,
    step: Step<F, E>,
) -> (ManagerView<F>, UmountView<F, E>) {
    umount_happens(manager, run, Happening::Elsewhere(step.others))
}

/// The manager and the run after `step`.
pub open spec fn umount_step<F, E>(
    manager: ManagerView<F>,
    run: UmountView<F, E>,
    step: Step<F, E>,
) -> (ManagerView<F>, UmountView<F, E>) {
    let (m, r) = umount_before(manager, run, step);
    let (m, r) = match step.used {
        Some(fuse) => umount_happens(m, r, Happening::Used(fuse)),
        None => (m, r),
    };
    umount_happens(m, r, Happening::Reply(step.reply))
}

/// The manager and the run after the request to unmount `job` and all of `steps`.
pub open spec fn umount_steps<F, E>(
    manager: ManagerView<F>,
    job: Seq<char>,
    steps: Seq<Step<F, E>>,
) -> (ManagerView<F>, UmountView<F, E>)
    decreases steps.len(),
{
    if steps.len() == 0 {
        umount_start::<F, E>(manager, job)
    } else {
        let (m, r) = umount_steps(manager, job, steps.drop_last());
        umount_step(m, r, steps.last())
    }
}

/// Whether `steps` are what the unmounting of `job` asked for, each with an answer to it.
pub open spec fn umount_follows<F, E>(
    manager: ManagerView<F>,
    job: Seq<char>,
    steps: Seq<Step<F, E>>,
) -> bool
    decreases steps.len(),
{
    steps.len() > 0 ==> {
        let (m, r) = umount_steps(manager, job, steps.drop_last());
        let (m1, r1) = umount_before(m, r, steps.last());
        &&& umount_follows(manager, job, steps.drop_last())
        &&& umount_asks(m1, r1, steps.last().action)
        &&& answers(steps.last().action, steps.last().reply)
    }
}

/// What an unmount comes upon on its way.
#[verifier::ext_equal]
pub struct UmountCourse {
    /// Whether the session could unmount.
    pub stopped: bool,
    /// The instances that are saved, and the text that they are written out as.
    pub list: Seq<ConfigView>,
    pub data: Seq<char>,
}

/// The session, where there is one, was told to unmount.
pub open spec fn session_ended(has_session: bool) -> Seq<ActionView> {
    if has_session {
        seq![ActionView::UnmountFuse]
    } else {
        Seq::empty()
    }
}

/// The mount is gone: where the session did not do that, `fusermount` was run on the mountpoint.
pub open spec fn mount_gone(config: ConfigView, has_session: bool, c: UmountCourse) -> Seq<
    ActionView,
> {
    if has_session && c.stopped {
        session_ended(has_session)
    } else {
        session_ended(has_session).push(ActionView::RunFusermount(config.mountpoint))
    }
}

/// All that an unmount asks for: in the end the state is saved.
pub open spec fn whole_umount(
    state_file: Seq<u8>,
    config: ConfigView,
    has_session: bool,
    c: UmountCourse,
) -> Seq<ActionView> {
    state_saved(mount_gone(config, has_session, c), state_file, c.list, c.data)
}

/// What `fusermount` said, if it ran.
pub open spec fn said<F, E>(has_session: bool, steps: Seq<Step<F, E>>, c: UmountCourse) -> Option<
    FusermountReport,
> {
    let at = session_ended(has_session).len() as int;
    if !(has_session && c.stopped) && at < steps.len() {
        match steps[at].reply {
            ReplyView::Exited { success, stderr } => Some(fusermount_report_of(success, stderr)),
            _ => None,
        }
    } else {
        None
    }
}

/// Whether `steps` are those of the unmounting of `config`, which had a session or not, and came
/// upon `c`; and whether the manager and the run have become what goes with that.
pub open spec fn umount_history<F, E>(
    state_file: Seq<u8>,
    config: ConfigView,
    session: Option<F>,
    steps: Seq<Step<F, E>>,
    manager: ManagerView<F>,
    run: UmountView<F, E>,
    c: UmountCourse,
) -> bool {
    let job = config.job_id;
    let has_session = session is Some;
    let whole = whole_umount(state_file, config, has_session, c);
    let encoding = mount_gone(config, has_session, c).len() as int;
    let end = steps.len() - 1;
    &&& actions(steps).is_prefix_of(whole)
    // The session is the one that the manager had, and whether it could unmount decides on what
    // comes next.
    &&& steps.len() == 0 ==> run.fuse == session
    &&& has_session && steps.len() > 0 ==> if c.stopped {
        steps[0].reply is Done
    } else {
        steps[0].reply is Failed
    }
    &&& run.report == said(has_session, steps, c)
    // The instances of the other jobs are saved.
    &&& encoding < steps.len() ==> lists(c.list, steps[encoding].others.instances.remove(job))
    &&& encoding + 1 < steps.len() ==> steps[encoding].reply == ReplyView::<F, E>::Encoded(c.data)
    // The job is tracked until the mount is gone, and served by no session any more.
    &&& manager.session(job) is None
    &&& manager.instance(job) == (if steps.len() < encoding || (steps.len() == encoding
        && run.failure is Some) {
        Some(config)
    } else {
        None
    })
    // Nothing fails but for a session that cannot unmount, and the last step of a run that fails.
    &&& forall|i: int|
        0 <= i < steps.len() && (#[trigger] steps[i]).reply is Failed ==> steps[i].action
            == ActionView::UnmountFuse || (i == end && run.failure is Some)
    &&& match run.failure {
        None => run.result() is Some ==> actions(steps) == whole && run.result() == Some(
            Ok::<_, ErrorView<E>>(Some(config)),
        ),
        Some(error) => {
            &&& steps.len() > 0
            &&& steps[end].action != ActionView::UnmountFuse
            &&& steps[end].reply matches ReplyView::Failed(fault) && error == (
            match steps[end].action {
                ActionView::EncodeState(_) => ErrorView::<E>::Raised {
                    kind: ErrorKind::Other,
                    message: "encode state: "@ + fault.text,
                },
                _ => ErrorView::Io(fault),
            })
            &&& run.result() == Some(Err::<Option<ConfigView>, _>(error))
        },
    }
}

/// What a run that has not failed has asked for by the time of `phase`.
spec fn behind(
    state_file: Seq<u8>,
    config: ConfigView,
    has_session: bool,
    c: UmountCourse,
    phase: UmountPhaseView,
) -> Seq<ActionView> {
    let gone = mount_gone(config, has_session, c);
    match phase {
        UmountPhaseView::StopFuse => Seq::empty(),
        UmountPhaseView::Fusermount => session_ended(has_session),
        UmountPhaseView::Saving(SaveStepView::Encode) => gone,
        UmountPhaseView::Saving(SaveStepView::MakeParent { .. }) => gone.push(
            ActionView::EncodeState(c.list),
        ),
        UmountPhaseView::Saving(SaveStepView::Write { .. }) => state_encoded(
            gone,
            state_file,
            c.list,
        ),
        UmountPhaseView::Finished => whole_umount(state_file, config, has_session, c),
    }
}

/// Whether a run that came upon `c` in `steps` can be at `phase`.
spec fn can_be_at<F, E>(
    state_file: Seq<u8>,
    config: ConfigView,
    has_session: bool,
    steps: Seq<Step<F, E>>,
    c: UmountCourse,
    phase: UmountPhaseView,
) -> bool {
    let encoding = mount_gone(config, has_session, c).len() as int;
    match phase {
        UmountPhaseView::StopFuse => has_session,
        UmountPhaseView::Fusermount => has_session ==> !c.stopped,
        UmountPhaseView::Saving(SaveStepView::Encode) => true,
        UmountPhaseView::Saving(SaveStepView::MakeParent { parent, data }) => parent_of(state_file)
            == Some(parent) && data == c.data && steps[encoding].reply == ReplyView::<
            F,
            E,
        >::Encoded(c.data),
        UmountPhaseView::Saving(SaveStepView::Write { data }) => data == c.data
            && steps[encoding].reply == ReplyView::<F, E>::Encoded(c.data),
        UmountPhaseView::Finished => true,
    }
}

/// What a run learns from the answer to `action`.
spec fn learned<F, E>(c: UmountCourse, phase: UmountPhaseView, step: Step<F, E>) -> UmountCourse {
    match (phase, step.reply) {
        (UmountPhaseView::StopFuse, reply) => UmountCourse { stopped: reply is Done, ..c },
        (UmountPhaseView::Saving(SaveStepView::Encode), ReplyView::Encoded(data)) => UmountCourse {
            list: step.action->EncodeState_0,
            data,
            ..c
        },
        (UmountPhaseView::Saving(SaveStepView::Encode), _) => UmountCourse {
            list: step.action->EncodeState_0,
            ..c
        },
        _ => c,
    }
}

/// Whether `steps` lead to the phase of `run`, which came upon `c`.
spec fn leads_to<F, E>(
    state_file: Seq<u8>,
    config: ConfigView,
    session: Option<F>,
    steps: Seq<Step<F, E>>,
    manager: ManagerView<F>,
    run: UmountView<F, E>,
    c: UmountCourse,
) -> bool {
    let has_session = session is Some;
    &&& umount_history(state_file, config, session, steps, manager, run, c)
    &&& run.job_id == config.job_id
    &&& run.mountpoint == config.mountpoint
    &&& manager.paths.state_file == state_file
    &&& run.failure is None ==> {
        &&& actions(steps) == behind(state_file, config, has_session, c, run.phase)
        &&& can_be_at(state_file, config, has_session, steps, c, run.phase)
        &&& run.phase == UmountPhaseView::StopFuse || run.phase == UmountPhaseView::Fusermount ==>
            run.removed is None
        &&& run.phase is Saving ==> run.removed == Some(config)
    }
}

/// The steps of a run, and one more.
#[verifier::spinoff_prover]
#[verifier::rlimit(80)]
proof fn lemma_leads_on<F, E>(
    state_file: Seq<u8>,
    config: ConfigView,
    session: Option<F>,
    rest: Seq<Step<F, E>>,
    step: Step<F, E>,
    manager: ManagerView<F>,
    run: UmountView<F, E>,
    c: UmountCourse,
)
    requires
        leads_to(state_file, config, session, rest, manager, run, c),
        umount_asks(umount_before(manager, run, step).0, run, step.action),
        answers(step.action, step.reply),
    ensures
        leads_to(
            state_file,
            config,
            session,
            rest.push(step),
            umount_step(manager, run, step).0,
            umount_step(manager, run, step).1,
            learned(c, run.phase, step),
        ),
{
    let has_session = session is Some;
    let (m, r) = umount_step(manager, run, step);
    let d = learned(c, run.phase, step);
    let steps = rest.push(step);
    assert(actions(steps) =~= actions(rest).push(step.action));
    assert(actions(rest).len() == rest.len());
    assert(forall|i: int| 0 <= i < rest.len() ==> steps[i] == rest[i]);
    let asked = behind(state_file, config, has_session, d, run.phase).push(step.action);
    let whole = whole_umount(state_file, config, has_session, d);
    assert(asked.len() <= whole.len());
    assert(asked =~= whole.take(asked.len() as int));
    if r.failure is None {
        assert(behind(state_file, config, has_session, d, r.phase) =~= asked);
    }
    if run.phase == UmountPhaseView::Saving(SaveStepView::Encode) {
        assert(umount_before(manager, run, step).0.instances =~= step.others.instances.remove(
            config.job_id,
        ));
    }
}

/// The steps of a run lead to where it is.
proof fn lemma_umount_history<F, E>(
    manager: ManagerView<F>,
    job: Seq<char>,
    steps: Seq<Step<F, E>>,
) -> (c: UmountCourse)
    requires
        manager.keyed(),
        manager.instances.contains_key(job),
        umount_follows(manager, job, steps),
    ensures
        leads_to(
            manager.paths.state_file,
            manager.instances[job],
            manager.session(job),
            steps,
            umount_steps(manager, job, steps).0,
            umount_steps(manager, job, steps).1,
            c,
        ),
    decreases steps.len(),
{
    let file = manager.paths.state_file;
    let config = manager.instances[job];
    let session = manager.session(job);
    if steps.len() == 0 {
        let c = UmountCourse { stopped: false, list: Seq::empty(), data: Seq::empty() };
        let whole = whole_umount(file, config, session is Some, c);
        assert(actions(steps) =~= Seq::empty());
        assert(whole.take(0) =~= Seq::empty());
        c
    } else {
        let rest = steps.drop_last();
        let (m, r) = umount_steps(manager, job, rest);
        let c = lemma_umount_history(manager, job, rest);
        assert(rest.push(steps.last()) =~= steps);
        lemma_leads_on(file, config, session, rest, steps.last(), m, r, c);
        learned(c, r.phase, steps.last())
    }
}

/// The unmounting of a tracked job asks for one thing after the other, and for nothing else: that
/// its session unmounts, where it has one; that `fusermount` does, where the session does not;
/// and then, the instance being given up, that the state is saved without it. With all of that
/// done it succeeds with that instance, and only then, whatever the instance is.
pub proof fn law_umount_goes_step_by_step<F, E>(
    manager: ManagerView<F>,
    job: Seq<char>,
    steps: Seq<Step<F, E>>,
)
    requires
        manager.keyed(),
        manager.instances.contains_key(job),
        umount_follows(manager, job, steps),
    ensures
        exists|c: UmountCourse| #[trigger]
            umount_history(
                manager.paths.state_file,
                manager.instances[job],
                manager.session(job),
                steps,
                umount_steps(manager, job, steps).0,
                umount_steps(manager, job, steps).1,
                c,
            ),
{
    let c = lemma_umount_history(manager, job, steps);
}

/// The unmounting of a tracked job that succeeded has asked for exactly this, whatever the job:
/// that the session unmounts, where the job had one; that `fusermount`, where there was no
/// session or it failed, unmounts the mountpoint of the instance, and that ran; and then that
/// the state is written out without the job, that the directory of its file is made where it has
/// one, and that the text that came of the state is written to the file.
pub proof fn law_what_a_successful_umount_has_done<F, E>(
    manager: ManagerView<F>,
    job: Seq<char>,
    steps: Seq<Step<F, E>>,
)
    requires
        manager.keyed(),
        manager.instances.contains_key(job),
        umount_follows(manager, job, steps),
        umount_steps(manager, job, steps).1.result() matches Some(Ok(_)),
    ensures
        ({
            let file = manager.paths.state_file;
            let config = manager.instances[job];
            let tried = if manager.sessions.contains_key(job) {
                1int
            } else {
                0
            };
            let at = if tried == 1 && steps[0].reply is Done {
                1
            } else {
                tried + 1
            };
            let on = if parent_of(file) is Some {
                at + 2
            } else {
                at + 1
            };
            &&& umount_steps(manager, job, steps).1.result() == Some(
                Ok::<_, ErrorView<E>>(Some(config)),
            )
            &&& steps.len() == on + 1
            &&& tried == 1 ==> steps[0].action == ActionView::UnmountFuse
            &&& tried == 1 && !(steps[0].reply is Done) ==> steps[0].reply is Failed
            &&& at > tried ==> steps[tried].action == ActionView::RunFusermount(config.mountpoint)
                && steps[tried].reply is Exited
            &&& steps[at].action matches ActionView::EncodeState(list) && lists(
                list,
                steps[at].others.instances.remove(job),
            )
            &&& parent_of(file) matches Some(parent) ==> steps[at + 1].action
                == ActionView::CreateDirAll(parent)
            &&& steps[at].reply matches ReplyView::Encoded(data) && steps[on].action == (
            ActionView::WriteFile { path: file, data })
            &&& forall|i: int| at <= i < steps.len() ==> !((#[trigger] steps[i]).reply is Failed)
        }),
{
    let file = manager.paths.state_file;
    let config = manager.instances[job];
    let session = manager.session(job);
    let (m, r) = umount_steps(manager, job, steps);
    law_umount_goes_step_by_step(manager, job, steps);
    let c = choose|c: UmountCourse| #[trigger]
        umount_history(file, config, session, steps, m, r, c);
    let whole = whole_umount(file, config, session is Some, c);
    assert(actions(steps) == whole);
    assert(whole.len() == steps.len());
    assert(forall|i: int| 0 <= i < steps.len() ==> whole[i] == (#[trigger] steps[i]).action);
    lemma_follows_answers(manager, job, steps);
}

/// Every step of an unmount has an answer.
proof fn lemma_follows_answers<F, E>(
    manager: ManagerView<F>,
    job: Seq<char>,
    steps: Seq<Step<F, E>>,
)
    requires
        umount_follows(manager, job, steps),
    ensures
        forall|i: int|
            0 <= i < steps.len() ==> answers((#[trigger] steps[i]).action, steps[i].reply),
    decreases steps.len(),
{
    if steps.len() > 0 {
        lemma_follows_answers(manager, job, steps.drop_last());
        assert forall|i: int| 0 <= i < steps.len() implies answers(
            (#[trigger] steps[i]).action,
            steps[i].reply,
        ) by {
            if i < steps.len() - 1 {
                assert(steps.drop_last()[i] == steps[i]);
            }
        }
    }
}

/// The first thing that the unmounting of a tracked job asks for is that its session unmounts,
/// and the run holds that very session; where there is none, it is `fusermount` on the
/// mountpoint of the instance. Until then nothing is given up but the session.
pub proof fn law_umount_begins_with_the_mount<F, E>(
    manager: ManagerView<F>,
    job: Seq<char>,
    action: ActionView,
)
    requires
        manager.instances.contains_key(job),
        umount_asks(
            umount_start::<F, E>(manager, job).0,
            umount_start::<F, E>(manager, job).1,
            action,
        ),
    ensures
        action == (if manager.sessions.contains_key(job) {
            ActionView::UnmountFuse
        } else {
            ActionView::RunFusermount(manager.instances[job].mountpoint)
        }),
        umount_start::<F, E>(manager, job).1.fuse == manager.session(job),
        umount_start::<F, E>(manager, job).1.result() is None,
        umount_start::<F, E>(manager, job).0.instances == manager.instances,
        umount_start::<F, E>(manager, job).0.sessions == manager.sessions.remove(job),
        umount_start::<F, E>(manager, job).0.paths == manager.paths,
{
}

/// Whether `word` stands in `text`, with something, or nothing, before and behind it.
pub open spec fn stands_in(text: Seq<char>, word: Seq<char>) -> bool {
    exists|before: Seq<char>, after: Seq<char>| text == #[trigger] (before + word + after)
}

/// A call of `fusermount` that succeeded has unmounted. One that failed found nothing mounted
/// exactly where its error output says so in one of two ways, wherever in the output.
pub proof fn law_report_goes_by_the_error_output(success: bool, stderr: Seq<u8>)
    ensures
        success <==> fusermount_report_of(success, stderr) == FusermountReport::Unmounted,
        fusermount_report_of(success, stderr) == FusermountReport::NotMounted <==> !success && (
        stands_in(lossy_text(stderr), "not mounted"@) || stands_in(
            lossy_text(stderr),
            "Invalid argument"@,
        )),
{
    law_word_is_found_where_it_stands(lossy_text(stderr), "not mounted"@);
    law_word_is_found_where_it_stands(lossy_text(stderr), "Invalid argument"@);
}

} // verus!
