//! What holds of the unmounting of a job, however the outside world replies.

use vstd::prelude::*;

use crate::config::ConfigView;
use crate::manager::ManagerView;
use crate::mount::{fresh_run, MountView};
use crate::mount_laws::{
    law_mount_keeps_stage, law_mount_leaves_other_jobs_alone, law_mounted_job_is_tracked,
    mount_through, save_rank, with_entry_of, Happening,
};
use crate::outcome::{answers, ActionView, ErrorView, ReplyView};
use crate::save::SaveStepView;
use crate::umount::{umount_after, umount_asks, umount_start, UmountPhaseView, UmountView};

verus! {

/// How many replies a run can still take.
pub open spec fn umount_rank(phase: UmountPhaseView) -> nat {
    match phase {
        UmountPhaseView::StopFuse => 5,
        UmountPhaseView::Fusermount => 4,
        UmountPhaseView::Saving(step) => save_rank(step),
        UmountPhaseView::Finished => 0,
    }
}

/// A job that is not tracked is unmounted at once: there is nothing to give back, and nothing
/// changes.
pub proof fn law_untracked_job_gives_nothing<F, E>(manager: ManagerView<F>, job: Seq<char>)
    requires
        !manager.instances.contains_key(job),
    ensures
        umount_start::<F, E>(manager, job).0 == manager,
        umount_start::<F, E>(manager, job).1.result() == Some(
            Ok::<_, ErrorView<E>>(None::<ConfigView>),
        ),
{
}

/// A run asks for something until it is over; an answer to that brings it nearer to its end;
/// any other reply leaves the run and the manager as they are.
pub proof fn law_umount_comes_to_an_end<F, E>(
    manager: ManagerView<F>,
    run: UmountView<F, E>,
    action: ActionView,
    reply: ReplyView<F, E>,
)
    requires
        umount_asks(manager, run, action),
    ensures
        action == ActionView::Finish <==> run.result() is Some,
        answers(action, reply) ==> umount_rank(umount_after(manager, run, reply).1.phase)
            < umount_rank(run.phase),
        !answers(action, reply) ==> umount_after(manager, run, reply) == (manager, run),
        umount_rank(run.phase) == 0 <==> run.result() is Some,
{
}

/// Success is owed: a session that cannot unmount apart, a run does not fail as long as what
/// it asks for is done; so, coming to an end, it succeeds.
pub proof fn law_umount_without_failures_succeeds<F, E>(
    manager: ManagerView<F>,
    run: UmountView<F, E>,
    action: ActionView,
    reply: ReplyView<F, E>,
)
    requires
        run.failure is None,
        umount_asks(manager, run, action),
        answers(action, reply),
        reply is Failed ==> run.phase == UmountPhaseView::StopFuse,
    ensures
        ({
            let next = umount_after(manager, run, reply).1;
            &&& next.failure is None
            &&& umount_rank(next.phase) < umount_rank(run.phase)
            &&& umount_rank(next.phase) == 0 ==> next.result() == Some(
                Ok::<_, ErrorView<E>>(next.removed),
            )
        }),
{
}

/// Unmounting a job changes nothing that the manager keeps of other jobs.
pub proof fn law_umount_leaves_other_jobs_alone<F, E>(
    manager: ManagerView<F>,
    run: UmountView<F, E>,
    reply: ReplyView<F, E>,
    unmounted: Seq<char>,
    job: Seq<char>,
)
    ensures
        job != unmounted ==> umount_start::<F, E>(manager, unmounted).0.instance(job)
            == manager.instance(job),
        job != unmounted ==> umount_start::<F, E>(manager, unmounted).0.session(job)
            == manager.session(job),
        job != run.job_id ==> umount_after(manager, run, reply).0.instance(job)
            == manager.instance(job),
        umount_after(manager, run, reply).0.session(job) == manager.session(job),
        umount_after(manager, run, reply).0.paths == manager.paths,
        umount_after(manager, run, reply).1.job_id == run.job_id,
{
}

/// Instances stay under their own jobs.
pub proof fn law_umount_keeps_instances_keyed<F, E>(
    manager: ManagerView<F>,
    run: UmountView<F, E>,
    reply: ReplyView<F, E>,
    job: Seq<char>,
)
    requires
        manager.keyed(),
    ensures
        umount_start::<F, E>(manager, job).0.keyed(),
        umount_after(manager, run, reply).0.keyed(),
{
}

/// What the session, and the program `fusermount`, make of their calls does not keep a job
/// from being unmounted: only where the program cannot be run does the run end there.
pub proof fn law_unmounting_goes_on_after_failures<F, E>(
    manager: ManagerView<F>,
    run: UmountView<F, E>,
    reply: ReplyView<F, E>,
)
    ensures
        run.phase == UmountPhaseView::StopFuse && reply is Failed ==> umount_after(
            manager,
            run,
            reply,
        ).0 == manager && umount_after(manager, run, reply).1.phase == UmountPhaseView::Fusermount,
        run.phase == UmountPhaseView::Fusermount && reply is Exited ==> umount_after(
            manager,
            run,
            reply,
        ).0 == manager.untracking(run.job_id) && umount_after(manager, run, reply).1.phase
            == UmountPhaseView::Saving(SaveStepView::Encode),
        run.phase == UmountPhaseView::Fusermount && reply is Failed ==> umount_after(
            manager,
            run,
            reply,
        ).0 == manager && umount_after(manager, run, reply).1.result() == Some(
            Err::<Option<ConfigView>, _>(ErrorView::Io(reply->Failed_0)),
        ),
{
}

/// The manager and the run after something happened.
pub open spec fn umount_happens<F, E>(
    manager: ManagerView<F>,
    run: UmountView<F, E>,
    what: Happening<F, E>,
) -> (ManagerView<F>, UmountView<F, E>) {
    match what {
        Happening::Reply(reply) => umount_after(manager, run, reply),
        Happening::Used(fuse) => (
            manager,
            if run.fuse is Some {
                UmountView { fuse: Some(fuse), ..run }
            } else {
                run
            },
        ),
        Happening::Elsewhere(other) => (
            ManagerView {
                paths: manager.paths,
                instances: with_entry_of(other.instances, manager.instances, run.job_id),
                sessions: with_entry_of(other.sessions, manager.sessions, run.job_id),
            },
            run,
        ),
    }
}

/// The manager and the run after all of `what` happened.
pub open spec fn umount_through<F, E>(
    manager: ManagerView<F>,
    run: UmountView<F, E>,
    what: Seq<Happening<F, E>>,
) -> (ManagerView<F>, UmountView<F, E>)
    decreases what.len(),
{
    if what.len() == 0 {
        (manager, run)
    } else {
        let (m, r) = umount_through(manager, run, what.drop_last());
        umount_happens(m, r, what.last())
    }
}

/// The unmounting of `job` from its start, through all of `what`.
pub open spec fn umount_whole<F, E>(
    manager: ManagerView<F>,
    job: Seq<char>,
    what: Seq<Happening<F, E>>,
) -> (ManagerView<F>, UmountView<F, E>) {
    let (m, r) = umount_start::<F, E>(manager, job);
    umount_through(m, r, what)
}

/// Whatever happens, the manager has no session of a job that is being unmounted, and keeps
/// its instance until the mount is gone; from then on the run holds it.
pub proof fn law_umount_keeps_stage<F, E>(
    manager: ManagerView<F>,
    job: Seq<char>,
    what: Seq<Happening<F, E>>,
)
    requires
        manager.instances.contains_key(job),
    ensures
        ({
            let (m, r) = umount_whole(manager, job, what);
            let config = manager.instances[job];
            let kept = m.instance(job) == Some(config) && r.removed is None;
            let given_up = m.instance(job) is None && r.removed == Some(config);
            &&& r.job_id == job
            &&& r.mountpoint == config.mountpoint
            &&& m.paths == manager.paths
            &&& m.session(job) is None
            &&& match r.phase {
                UmountPhaseView::StopFuse => kept && r.failure is None && r.fuse is Some,
                UmountPhaseView::Fusermount => kept && r.failure is None,
                UmountPhaseView::Saving(_) => given_up && r.failure is None,
                UmountPhaseView::Finished => given_up || (kept && r.failure is Some),
            }
        }),
    decreases what.len(),
{
    if what.len() > 0 {
        law_umount_keeps_stage(manager, job, what.drop_last());
    }
}

/// A tracked job whose unmounting succeeds gives its instance back, and the manager keeps
/// nothing of it.
pub proof fn law_unmounted_job_is_forgotten<F, E>(
    manager: ManagerView<F>,
    job: Seq<char>,
    what: Seq<Happening<F, E>>,
)
    requires
        manager.instances.contains_key(job),
        umount_whole(manager, job, what).1.result() matches Some(Ok(_)),
    ensures
        ({
            let (m, r) = umount_whole(manager, job, what);
            &&& r.result() == Some(Ok::<_, ErrorView<E>>(Some(manager.instances[job])))
            &&& m.instance(job) is None
            &&& m.session(job) is None
        }),
{
    law_umount_keeps_stage(manager, job, what);
}

/// Mounting a job and unmounting it again leaves the manager with nothing of the job, and
/// gives back the instance that was mounted.
pub proof fn law_umount_undoes_mount<F, E>(
    manager: ManagerView<F>,
    config: ConfigView,
    ready_path: Option<Seq<char>>,
    mounting: Seq<Happening<F, E>>,
    unmounting: Seq<Happening<F, E>>,
)
    requires
        mount_through(manager, fresh_run::<F, E>(config, ready_path), mounting).1.result()
            matches Some(Ok(_)),
        ({
            let mounted = mount_through(
                manager,
                fresh_run::<F, E>(config, ready_path),
                mounting,
            ).0;
            umount_whole(mounted, config.job_id, unmounting).1.result() matches Some(Ok(_))
        }),
    ensures
        ({
            let mounted = mount_through(
                manager,
                fresh_run::<F, E>(config, ready_path),
                mounting,
            ).0;
            let (m, r) = umount_whole(mounted, config.job_id, unmounting);
            &&& r.result() == Some(Ok::<_, ErrorView<E>>(Some(config)))
            &&& m.instance(config.job_id) is None
            &&& m.session(config.job_id) is None
        }),
{
    law_mounted_job_is_tracked(manager, config, ready_path, mounting);
    let mounted = mount_through(manager, fresh_run::<F, E>(config, ready_path), mounting).0;
    law_unmounted_job_is_forgotten(mounted, config.job_id, unmounting);
}

/// Whether the manager serves no other job meanwhile.
pub open spec fn undisturbed<F, E>(what: Seq<Happening<F, E>>) -> bool {
    forall|i: int| 0 <= i < what.len() ==> !(#[trigger] what[i] is Elsewhere)
}

/// Left to itself, the mounting of a job changes nothing that the manager keeps of others.
pub proof fn law_mount_touches_one_job<F, E>(
    manager: ManagerView<F>,
    run: MountView<F, E>,
    what: Seq<Happening<F, E>>,
    job: Seq<char>,
)
    requires
        undisturbed(what),
        job != run.config.job_id,
    ensures
        mount_through(manager, run, what).0.instance(job) == manager.instance(job),
        mount_through(manager, run, what).0.session(job) == manager.session(job),
        mount_through(manager, run, what).0.paths == manager.paths,
        mount_through(manager, run, what).1.config == run.config,
    decreases what.len(),
{
    if what.len() > 0 {
        assert forall|i: int| 0 <= i < what.drop_last().len() implies !(
        #[trigger] what.drop_last()[i] is Elsewhere) by {
            assert(what.drop_last()[i] == what[i]);
        }
        law_mount_touches_one_job(manager, run, what.drop_last(), job);
        assert(!(what[what.len() - 1] is Elsewhere));
        let (m, r) = mount_through(manager, run, what.drop_last());
        if let Happening::Reply(reply) = what.last() {
            law_mount_leaves_other_jobs_alone(m, r, reply, job);
        }
    }
}

/// Left to itself, the unmounting of a job changes nothing that the manager keeps of others.
pub proof fn law_umount_touches_one_job<F, E>(
    manager: ManagerView<F>,
    run: UmountView<F, E>,
    what: Seq<Happening<F, E>>,
    job: Seq<char>,
)
    requires
        undisturbed(what),
        job != run.job_id,
    ensures
        umount_through(manager, run, what).0.instance(job) == manager.instance(job),
        umount_through(manager, run, what).0.session(job) == manager.session(job),
        umount_through(manager, run, what).0.paths == manager.paths,
        umount_through(manager, run, what).1.job_id == run.job_id,
    decreases what.len(),
{
    if what.len() > 0 {
        assert forall|i: int| 0 <= i < what.drop_last().len() implies !(
        #[trigger] what.drop_last()[i] is Elsewhere) by {
            assert(what.drop_last()[i] == what[i]);
        }
        law_umount_touches_one_job(manager, run, what.drop_last(), job);
        assert(!(what[what.len() - 1] is Elsewhere));
    }
}

/// Two managers that keep the same of every job, at the same places, are the same.
proof fn lemma_same_of_every_job<F>(a: ManagerView<F>, b: ManagerView<F>)
    requires
        a.paths == b.paths,
        forall|job: Seq<char>| #[trigger] a.instance(job) == b.instance(job),
        forall|job: Seq<char>| #[trigger] a.session(job) == b.session(job),
    ensures
        a == b,
{
    assert forall|job: Seq<char>| a.instances.contains_key(job) <==> #[trigger]
        b.instances.contains_key(job) by {
        assert(a.instance(job) == b.instance(job));
    }
    assert forall|job: Seq<char>| a.instances.contains_key(job) implies #[trigger] a.instances[job]
        == b.instances[job] by {
        assert(a.instance(job) == b.instance(job));
    }
    assert forall|job: Seq<char>| a.sessions.contains_key(job) <==> #[trigger]
        b.sessions.contains_key(job) by {
        assert(a.session(job) == b.session(job));
    }
    assert forall|job: Seq<char>| a.sessions.contains_key(job) implies #[trigger] a.sessions[job]
        == b.sessions[job] by {
        assert(a.session(job) == b.session(job));
    }
    assert(a.instances =~= b.instances);
    assert(a.sessions =~= b.sessions);
}

/// Mounting and unmounting a new job leaves the manager as it was, where it serves no other
/// job meanwhile.
pub proof fn law_mount_and_umount_restore<F, E>(
    manager: ManagerView<F>,
    config: ConfigView,
    ready_path: Option<Seq<char>>,
    mounting: Seq<Happening<F, E>>,
    unmounting: Seq<Happening<F, E>>,
)
    requires
        manager.instance(config.job_id) is None,
        manager.session(config.job_id) is None,
        undisturbed(mounting),
        undisturbed(unmounting),
        mount_through(manager, fresh_run::<F, E>(config, ready_path), mounting).1.result()
            matches Some(Ok(_)),
        ({
            let mounted = mount_through(
                manager,
                fresh_run::<F, E>(config, ready_path),
                mounting,
            ).0;
            umount_whole(mounted, config.job_id, unmounting).1.result() matches Some(Ok(_))
        }),
    ensures
        ({
            let mounted = mount_through(
                manager,
                fresh_run::<F, E>(config, ready_path),
                mounting,
            ).0;
            umount_whole(mounted, config.job_id, unmounting).0 == manager
        }),
{
    let run = fresh_run::<F, E>(config, ready_path);
    let mounted = mount_through(manager, run, mounting).0;
    let start = umount_start::<F, E>(mounted, config.job_id);
    let restored = umount_whole(mounted, config.job_id, unmounting).0;
    law_umount_undoes_mount(manager, config, ready_path, mounting, unmounting);
    law_mount_keeps_stage(manager, config, ready_path, mounting);
    law_mounted_job_is_tracked(manager, config, ready_path, mounting);
    law_umount_keeps_stage(mounted, config.job_id, unmounting);
    assert forall|job: Seq<char>| #[trigger] restored.instance(job) == manager.instance(job)
        && restored.session(job) == manager.session(job) by {
        if job != config.job_id {
            law_mount_touches_one_job(manager, run, mounting, job);
            law_umount_touches_one_job(start.0, start.1, unmounting, job);
        }
    }
    assert forall|job: Seq<char>| #[trigger] restored.session(job) == manager.session(job) by {
        assert(restored.instance(job) == manager.instance(job));
    }
    lemma_same_of_every_job(restored, manager);
}

/// A new job whose mount fails, and of which no instance is left in the end, leaves the manager
/// as it was, where it serves no other job meanwhile.
pub proof fn law_failed_mount_restores<F, E>(
    manager: ManagerView<F>,
    config: ConfigView,
    ready_path: Option<Seq<char>>,
    mounting: Seq<Happening<F, E>>,
)
    requires
        manager.instance(config.job_id) is None,
        manager.session(config.job_id) is None,
        undisturbed(mounting),
        ({
            let (m, r) = mount_through(manager, fresh_run::<F, E>(config, ready_path), mounting);
            &&& r.result() matches Some(Err(_))
            &&& m.instance(config.job_id) is None
        }),
    ensures
        mount_through(manager, fresh_run::<F, E>(config, ready_path), mounting).0 == manager,
{
    let run = fresh_run::<F, E>(config, ready_path);
    let after = mount_through(manager, run, mounting).0;
    law_mount_keeps_stage(manager, config, ready_path, mounting);
    assert forall|job: Seq<char>| #[trigger] after.instance(job) == manager.instance(job)
        && after.session(job) == manager.session(job) by {
        if job != config.job_id {
            law_mount_touches_one_job(manager, run, mounting, job);
        }
    }
    assert forall|job: Seq<char>| #[trigger] after.session(job) == manager.session(job) by {
        assert(after.instance(job) == manager.instance(job));
    }
    lemma_same_of_every_job(after, manager);
}

} // verus!
