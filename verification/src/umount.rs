//! Unmounting a job.

use vstd::prelude::*;
use vstd::string::*;

use crate::config::{AntaresConfig, ConfigView};
use crate::fs_path::{lossy_text, text_of_bytes, FsPath};
use crate::manager::{config_view, AntaresManager, ManagerView};
use crate::outcome::{
    error_view, Action, ActionView, AntaresError, ErrorView, Reply, ReplyView,
};
use crate::save::{
    save_after, save_asks, save_next, SaveNext, SaveNextView, SaveStep, SaveStepView,
};
use crate::text::{contains, occurs_in};

verus! {

/// What `fusermount` made of its call.
#[derive(Debug, Clone, Copy, PartialEq, Eq, Structural)]
pub enum FusermountReport {
    /// It unmounted.
    Unmounted,
    /// It failed, for nothing was mounted there.
    NotMounted,
    /// It failed for another reason.
    Failed,
}

/// The report on a call of `fusermount` that ended so. What it says on its error output
/// tells whether nothing was mounted.
pub open spec fn fusermount_report_of(success: bool, stderr: Seq<u8>) -> FusermountReport {
    if success {
        FusermountReport::Unmounted
    } else if occurs_in(lossy_text(stderr), "not mounted"@) || occurs_in(
        lossy_text(stderr),
        "Invalid argument"@,
    ) {
        FusermountReport::NotMounted
    } else {
        FusermountReport::Failed
    }
}

/// Tells what `fusermount` made of its call.
pub fn fusermount_report(success: bool, stderr: &[u8]) -> (res: FusermountReport)
    ensures
        res == fusermount_report_of(success, stderr@),
{
    if success {
        return FusermountReport::Unmounted;
    }
    let error_msg = text_of_bytes(stderr);
    if contains(error_msg.as_str(), "not mounted") || contains(
        error_msg.as_str(),
        "Invalid argument",
    ) {
        FusermountReport::NotMounted
    } else {
        FusermountReport::Failed
    }
}

/// What the unmounting of a job waits for.
#[derive(Debug)]
pub enum UmountPhase {
    /// The end of the FUSE session.
    StopFuse,
    /// The end of `fusermount`.
    Fusermount,
    /// The state file, without the instance.
    Saving(SaveStep),
    /// Nothing more.
    Finished,
}

/// The model of `UmountPhase`.
#[verifier::ext_equal]
pub enum UmountPhaseView {
    StopFuse,
    Fusermount,
    Saving(SaveStepView),
    Finished,
}

impl View for UmountPhase {
    type V = UmountPhaseView;

    open spec fn view(&self) -> UmountPhaseView {
        match self {
            UmountPhase::StopFuse => UmountPhaseView::StopFuse,
            UmountPhase::Fusermount => UmountPhaseView::Fusermount,
            UmountPhase::Saving(step) => UmountPhaseView::Saving(step@),
            UmountPhase::Finished => UmountPhaseView::Finished,
        }
    }
}

/// The unmounting of one job, from the request to its result.
#[derive(Debug)]
pub struct UmountRun<F, E> {
    job_id: String,
    mountpoint: FsPath,
    phase: UmountPhase,
    fuse: Option<F>,
    report: Option<FusermountReport>,
    removed: Option<AntaresConfig>,
    failure: Option<AntaresError<E>>,
}

/// The model of `UmountRun`.
#[verifier::ext_equal]
pub struct UmountView<F, E> {
    /// The job to unmount.
    pub job_id: Seq<char>,
    /// Where it is mounted; of no meaning for a job that is not tracked.
    pub mountpoint: Seq<u8>,
    /// What the run waits for.
    pub phase: UmountPhaseView,
    /// The session, until it was told to end.
    pub fuse: Option<F>,
    /// What `fusermount` said, if it ran.
    pub report: Option<FusermountReport>,
    /// The instance that was given up.
    pub removed: Option<ConfigView>,
    /// Why the run failed, if it did.
    pub failure: Option<ErrorView<E>>,
}

impl<F, E> UmountView<F, E> {
    /// The result, once the run is over: the instance that was given up, if there was one.
    pub open spec fn result(self) -> Option<Result<Option<ConfigView>, ErrorView<E>>> {
        if self.phase == UmountPhaseView::Finished {
            Some(
                match self.failure {
                    Some(error) => Err(error),
                    None => Ok(self.removed),
                },
            )
        } else {
            None
        }
    }
}

impl<F, E> View for UmountRun<F, E> {
    type V = UmountView<F, E>;

    closed spec fn view(&self) -> UmountView<F, E> {
        UmountView {
            job_id: self.job_id@,
            mountpoint: self.mountpoint@,
            phase: self.phase@,
            fuse: self.fuse,
            report: self.report,
            removed: config_view(self.removed),
            failure: error_view(self.failure),
        }
    }
}

/// The start of unmounting `job`. A job that is not tracked is done with at once. Of one that
/// is, the session is taken from the manager; without one, `fusermount` has to do.
pub open spec fn umount_start<F, E>(manager: ManagerView<F>, job: Seq<char>) -> (
    ManagerView<F>,
    UmountView<F, E>,
) {
    match manager.instance(job) {
        None => (
            manager,
            UmountView {
                job_id: job,
                mountpoint: Seq::empty(),
                phase: UmountPhaseView::Finished,
                fuse: None,
                report: None,
                removed: None,
                failure: None,
            },
        ),
        Some(config) => (
            manager.detaching(job),
            UmountView {
                job_id: job,
                mountpoint: config.mountpoint,
                phase: if manager.sessions.contains_key(job) {
                    UmountPhaseView::StopFuse
                } else {
                    UmountPhaseView::Fusermount
                },
                fuse: manager.session(job),
                report: None,
                removed: None,
                failure: None,
            },
        ),
    }
}

/// Whether `action` is what `run` asks for.
pub open spec fn umount_asks<F, E>(
    manager: ManagerView<F>,
    run: UmountView<F, E>,
    action: ActionView,
) -> bool {
    match run.phase {
        UmountPhaseView::StopFuse => action == ActionView::UnmountFuse,
        UmountPhaseView::Fusermount => action == ActionView::RunFusermount(run.mountpoint),
        UmountPhaseView::Saving(step) => save_asks(
            step,
            manager.paths.state_file,
            manager.instances,
            action,
        ),
        UmountPhaseView::Finished => action == ActionView::Finish,
    }
}

/// The instance of the job is given up, and the state is to be saved.
pub open spec fn given_up<F, E>(
    manager: ManagerView<F>,
    run: UmountView<F, E>,
    report: Option<FusermountReport>,
) -> (ManagerView<F>, UmountView<F, E>) {
    (
        manager.untracking(run.job_id),
        UmountView {
            phase: UmountPhaseView::Saving(SaveStepView::Encode),
            fuse: None,
            report,
            removed: manager.instance(run.job_id),
            ..run
        },
    )
}

/// Where `reply` takes the manager and `run`. Where the session cannot unmount, `fusermount`
/// is run; that it ran is enough, whatever it said. Then the instance is given up. A reply
/// that is no answer changes nothing.
pub open spec fn umount_after<F, E>(
    manager: ManagerView<F>,
    run: UmountView<F, E>,
    reply: ReplyView<F, E>,
) -> (ManagerView<F>, UmountView<F, E>) {
    match (run.phase, reply) {
        (UmountPhaseView::StopFuse, ReplyView::Done) => given_up(manager, run, run.report),
        (UmountPhaseView::StopFuse, ReplyView::Failed(_)) => (
            manager,
            UmountView { phase: UmountPhaseView::Fusermount, fuse: None, ..run },
        ),
        (UmountPhaseView::Fusermount, ReplyView::Exited { success, stderr }) => given_up(
            manager,
            run,
            Some(fusermount_report_of(success, stderr)),
        ),
        (UmountPhaseView::Fusermount, ReplyView::Failed(fault)) => (
            manager,
            UmountView {
                phase: UmountPhaseView::Finished,
                failure: Some(ErrorView::Io(fault)),
                ..run
            },
        ),
        (UmountPhaseView::Saving(step), reply) => match save_after(
            step,
            manager.paths.state_file,
            reply,
        ) {
            SaveNextView::Wait(step) => (
                manager,
                UmountView { phase: UmountPhaseView::Saving(step), ..run },
            ),
            SaveNextView::Saved => (
                manager,
                UmountView { phase: UmountPhaseView::Finished, ..run },
            ),
            SaveNextView::Failed(error) => (
                manager,
                UmountView { phase: UmountPhaseView::Finished, failure: Some(error), ..run },
            ),
        },
        _ => (manager, run),
    }
}

impl<F, E> UmountRun<F, E> {
    /// The session that the run holds, to unmount it.
    pub fn fuse_mut(&mut self) -> (res: Option<&mut F>)
        ensures
            match res {
                Some(fuse) => old(self)@.fuse == Some(*fuse) && final(self)@ == (UmountView {
                    fuse: Some(*final(fuse)),
                    ..old(self)@
                }),
                None => old(self)@.fuse is None && final(self)@ == old(self)@,
            },
    {
        self.fuse.as_mut()
    }

    /// What `fusermount` said, if it ran.
    pub fn report(&self) -> (res: Option<FusermountReport>)
        ensures
            res == self@.report,
    {
        self.report
    }

    /// The result of the run, once it is over.
    pub fn into_result(self) -> (res: Option<Result<Option<AntaresConfig>, AntaresError<E>>>)
        ensures
            match res {
                Some(Ok(removed)) => self@.result() == Some(
                    Ok::<_, ErrorView<E>>(config_view(removed)),
                ),
                Some(Err(error)) => self@.result() == Some(Err::<Option<ConfigView>, _>(error@)),
                None => self@.result() is None,
            },
    {
        match self.phase {
            UmountPhase::Finished => match self.failure {
                Some(error) => Some(Err(error)),
                None => Some(Ok(self.removed)),
            },
            _ => None,
        }
    }
}

impl<D, F> AntaresManager<D, F> {
    /// Starts unmounting a job.
    pub fn umount_job<E>(&mut self, job_id: &str) -> (res: UmountRun<F, E>)
        ensures
            (final(self)@, res@) == umount_start::<F, E>(old(self)@, job_id@),
            final(self).dic() == old(self).dic(),
    {
        match self.instance(job_id) {
            None => {
                UmountRun {
                    job_id: job_id.to_string(),
                    mountpoint: FsPath::from_bytes(Vec::new()),
                    phase: UmountPhase::Finished,
                    fuse: None,
                    report: None,
                    removed: None,
                    failure: None,
                }
            },
            Some(config) => {
                let fuse = self.detach(job_id);
                let phase = if fuse.is_some() {
                    UmountPhase::StopFuse
                } else {
                    UmountPhase::Fusermount
                };
                UmountRun {
                    job_id: job_id.to_string(),
                    mountpoint: config.mountpoint,
                    phase,
                    fuse,
                    report: None,
                    removed: None,
                    failure: None,
                }
            },
        }
    }

    /// What a run asks for. To save the state, it asks for the instances tracked by now.
    pub fn umount_action<E>(&self, run: &UmountRun<F, E>) -> (res: Action)
        ensures
            umount_asks(self@, run@, res@),
    {
        match &run.phase {
            UmountPhase::StopFuse => Action::UnmountFuse,
            UmountPhase::Fusermount => Action::RunFusermount(run.mountpoint.clone()),
            UmountPhase::Saving(step) => self.save_action(step),
            UmountPhase::Finished => Action::Finish,
        }
    }

    /// Gives the instance of the job up.
    fn give_up<E>(&mut self, run: UmountRun<F, E>, report: Option<FusermountReport>) -> (res:
        UmountRun<F, E>)
        ensures
            (final(self)@, res@) == given_up(old(self)@, run@, report),
            final(self).dic() == old(self).dic(),
    {
        let removed = self.untrack(run.job_id.as_str());
        UmountRun {
            phase: UmountPhase::Saving(SaveStep::Encode),
            fuse: None,
            report,
            removed,
            ..run
        }
    }

    /// Takes a run on by one reply.
    pub fn advance_umount<E>(&mut self, run: UmountRun<F, E>, reply: Reply<F, E>) -> (res:
        UmountRun<F, E>)
        ensures
            (final(self)@, res@) == umount_after(old(self)@, run@, reply@),
            final(self).dic() == old(self).dic(),
    {
        match run.phase {
            UmountPhase::StopFuse => match reply {
                Reply::Done => {
                    let report = run.report;
                    self.give_up(run, report)
                },
                Reply::Failed(_) => UmountRun {
                    phase: UmountPhase::Fusermount,
                    fuse: None,
                    ..run
                },
                _ => run,
            },
            UmountPhase::Fusermount => match reply {
                Reply::Exited { success, stderr } => {
                    let report = fusermount_report(success, stderr.as_slice());
                    self.give_up(run, Some(report))
                },
                Reply::Failed(fault) => UmountRun {
                    phase: UmountPhase::Finished,
                    failure: Some(AntaresError::Io(fault)),
                    ..run
                },
                _ => run,
            },
            UmountPhase::Saving(step) => match save_next(step, &self.paths().state_file, reply) {
                SaveNext::Wait(step) => UmountRun { phase: UmountPhase::Saving(step), ..run },
                SaveNext::Saved => UmountRun { phase: UmountPhase::Finished, ..run },
                SaveNext::Failed(error) => UmountRun {
                    phase: UmountPhase::Finished,
                    failure: Some(error),
                    ..run
                },
            },
            UmountPhase::Finished => run,
        }
    }
}

} // verus!
