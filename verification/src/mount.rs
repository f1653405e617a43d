//! Mounting a job.

use vstd::prelude::*;
use vstd::string::*;
use vstd::utf8::*;

use crate::config::{AntaresConfig, AntaresState, ConfigView, PathsView};
use crate::fs_path::{joined, lossy_text, path_view, FsPath};
use crate::ids::{fresh_layer_id, is_random_uuid};
use crate::manager::{AntaresManager, ManagerView};
use crate::outcome::{
    error_view, Action, ActionView, AntaresError, ErrorKind, ErrorView, Reply, ReplyView,
};
use crate::probe::{
    kept_fs_path, kept_target, probe_action, probe_after, probe_asks, probe_next, ProbeNext,
    ProbeNextView, ProbeStep,
};
use crate::save::{
    save_after, save_asks, save_next, SaveNext, SaveNextView, SaveStep, SaveStepView,
};
use crate::text::{
    default_source_path, normalize_ready_path, normalize_source_path, normalized_path,
    normalized_ready, str_view, string_view, DEFAULT_SOURCE_PATH,
};

verus! {

/// How long the Dicfuse may take to have a path ready, in milliseconds.
pub const DICFUSE_READY_TIMEOUT_MILLIS: u64 = 15_000;

/// How long to wait between two looks at the Dicfuse, in milliseconds.
pub const DICFUSE_READY_POLL_MILLIS: u64 = 100;

/// What the mounting of a job waits for.
#[derive(Debug)]
pub enum MountPhase {
    /// The directory of the upper layer.
    MakeUpper,
    /// The directory of the CL layer.
    MakeCl,
    /// The mountpoint.
    MakeMountpoint,
    /// The state file, with the instance in it.
    Saving(SaveStep),
    /// The Dicfuse.
    AwaitStore,
    /// The overlay.
    BuildFuse,
    /// The FUSE session.
    StartFuse,
    /// The probe of the mountpoint.
    Probing(ProbeStep),
    /// The end of the FUSE session of a mount that failed.
    StopFuse,
    /// The removal of its mountpoint.
    DropMountpoint,
    /// The removal of its upper layer.
    DropUpper,
    /// The removal of its CL layer.
    DropCl,
    /// The state file, without the instance.
    Resaving(SaveStep),
    /// Nothing more.
    Finished,
}

/// The model of `MountPhase`.
#[verifier::ext_equal]
pub enum MountPhaseView {
    MakeUpper,
    MakeCl,
    MakeMountpoint,
    Saving(SaveStepView),
    AwaitStore,
    BuildFuse,
    StartFuse,
    Probing(ProbeStep),
    StopFuse,
    DropMountpoint,
    DropUpper,
    DropCl,
    Resaving(SaveStepView),
    Finished,
}

impl View for MountPhase {
    type V = MountPhaseView;

    open spec fn view(&self) -> MountPhaseView {
        match self {
            MountPhase::MakeUpper => MountPhaseView::MakeUpper,
            MountPhase::MakeCl => MountPhaseView::MakeCl,
            MountPhase::MakeMountpoint => MountPhaseView::MakeMountpoint,
            MountPhase::Saving(step) => MountPhaseView::Saving(step@),
            MountPhase::AwaitStore => MountPhaseView::AwaitStore,
            MountPhase::BuildFuse => MountPhaseView::BuildFuse,
            MountPhase::StartFuse => MountPhaseView::StartFuse,
            MountPhase::Probing(step) => MountPhaseView::Probing(*step),
            MountPhase::StopFuse => MountPhaseView::StopFuse,
            MountPhase::DropMountpoint => MountPhaseView::DropMountpoint,
            MountPhase::DropUpper => MountPhaseView::DropUpper,
            MountPhase::DropCl => MountPhaseView::DropCl,
            MountPhase::Resaving(step) => MountPhaseView::Resaving(step@),
            MountPhase::Finished => MountPhaseView::Finished,
        }
    }
}

/// The mounting of one job, from the request to its result.
#[derive(Debug)]
pub struct MountRun<F, E> {
    config: AntaresConfig,
    ready_path: Option<String>,
    phase: MountPhase,
    fuse: Option<F>,
    failure: Option<AntaresError<E>>,
}

/// The model of `MountRun`.
#[verifier::ext_equal]
pub struct MountView<F, E> {
    /// The instance to mount.
    pub config: ConfigView,
    /// The path that has to be ready, if any.
    pub ready_path: Option<Seq<char>>,
    /// What the run waits for.
    pub phase: MountPhaseView,
    /// The overlay, from the time it is built until a session of the manager's.
    pub fuse: Option<F>,
    /// Why the mount failed, if it did.
    pub failure: Option<ErrorView<E>>,
}

impl<F, E> MountView<F, E> {
    /// Waiting for `phase`.
    pub open spec fn at(self, phase: MountPhaseView) -> MountView<F, E> {
        MountView { phase, ..self }
    }

    /// Over, with an error.
    pub open spec fn failed(self, error: ErrorView<E>) -> MountView<F, E> {
        MountView { phase: MountPhaseView::Finished, failure: Some(error), ..self }
    }

    /// Failed, with everything that was made still to be taken back.
    pub open spec fn rolling_back(self, error: ErrorView<E>) -> MountView<F, E> {
        MountView { phase: MountPhaseView::StopFuse, failure: Some(error), ..self }
    }

    /// After a step that has to be done: at `next` where it was, and over with the error where
    /// it failed.
    pub open spec fn required(self, reply: ReplyView<F, E>, next: MountPhaseView) -> MountView<
        F,
        E,
    > {
        match reply {
            ReplyView::Done => self.at(next),
            ReplyView::Failed(fault) => self.failed(ErrorView::Io(fault)),
            _ => self,
        }
    }

    /// After a step that may fail: at `next`, whatever came of it.
    pub open spec fn attempted(self, reply: ReplyView<F, E>, next: MountPhaseView) -> MountView<
        F,
        E,
    > {
        match reply {
            ReplyView::Done => self.at(next),
            ReplyView::Failed(_) => self.at(next),
            _ => self,
        }
    }

    /// What the probe looks for below the mountpoint, if anything.
    pub open spec fn target(self) -> Option<Seq<u8>> {
        kept_target(self.config.mountpoint, self.ready_path)
    }

    /// The result, once the run is over.
    pub open spec fn result(self) -> Option<Result<ConfigView, ErrorView<E>>> {
        if self.phase == MountPhaseView::Finished {
            Some(
                match self.failure {
                    Some(error) => Err(error),
                    None => Ok(self.config),
                },
            )
        } else {
            None
        }
    }
}

impl<F, E> View for MountRun<F, E> {
    type V = MountView<F, E>;

    closed spec fn view(&self) -> MountView<F, E> {
        MountView {
            config: self.config@,
            ready_path: string_view(self.ready_path),
            phase: self.phase@,
            fuse: self.fuse,
            failure: error_view(self.failure),
        }
    }
}

/// The instance that a request asks for, with layers under these identifiers.
pub open spec fn planned_config(
    paths: PathsView,
    job_id: Seq<char>,
    mountpoint: Seq<u8>,
    source_path: Seq<char>,
    upper_id: Seq<char>,
    cl_id: Option<Seq<char>>,
) -> ConfigView {
    ConfigView {
        job_id,
        source_path: normalized_path(source_path),
        mountpoint,
        upper_id,
        upper_dir: joined(paths.upper_root, encode_utf8(upper_id)),
        cl_dir: match cl_id {
            Some(id) => Some(joined(paths.cl_root, encode_utf8(id))),
            None => None,
        },
        cl_id,
    }
}

/// A run that has done nothing yet.
pub open spec fn fresh_run<F, E>(config: ConfigView, ready_path: Option<Seq<char>>) -> MountView<
    F,
    E,
> {
    MountView {
        config,
        ready_path,
        phase: MountPhaseView::MakeUpper,
        fuse: None,
        failure: None,
    }
}

/// Whether `run` is the start of the mount that a request asks for. The identifiers of its
/// layers are random; there is one for a CL layer exactly where a changelist is named.
pub open spec fn starts_mount<F, E>(
    run: MountView<F, E>,
    paths: PathsView,
    job_id: Seq<char>,
    mountpoint: Seq<u8>,
    source_path: Seq<char>,
    cl_name: Option<Seq<char>>,
    ready_path: Option<Seq<char>>,
) -> bool {
    &&& run == fresh_run::<F, E>(
        planned_config(
            paths,
            job_id,
            mountpoint,
            source_path,
            run.config.upper_id,
            run.config.cl_id,
        ),
        normalized_ready(ready_path),
    )
    &&& is_random_uuid(run.config.upper_id)
    &&& run.config.cl_id is Some <==> cl_name is Some
    &&& run.config.cl_id matches Some(id) ==> is_random_uuid(id)
}

/// The path that the Dicfuse has to have ready: that of the request, or the root.
pub open spec fn store_ready_path(ready_path: Option<Seq<char>>) -> Seq<char> {
    match ready_path {
        Some(path) => path,
        None => seq!['/'],
    }
}

/// The message that a mount failed its probe.
pub open spec fn probe_failed(mountpoint: Seq<u8>, cause: Seq<char>) -> Seq<char> {
    "mount probe failed on "@ + lossy_text(mountpoint) + ": "@ + cause
}

/// Whether `action` is what `run` asks for.
pub open spec fn mount_asks<F, E>(
    manager: ManagerView<F>,
    run: MountView<F, E>,
    action: ActionView,
) -> bool {
    match run.phase {
        MountPhaseView::MakeUpper => action == ActionView::CreateDirAll(run.config.upper_dir),
        MountPhaseView::MakeCl => match run.config.cl_dir {
            Some(cl_dir) => action == ActionView::CreateDirAll(cl_dir),
            None => action == ActionView::Finish,
        },
        MountPhaseView::MakeMountpoint => action == ActionView::CreateDirAll(run.config.mountpoint),
        MountPhaseView::Saving(step) => save_asks(
            step,
            manager.paths.state_file,
            manager.instances,
            action,
        ),
        MountPhaseView::AwaitStore => action == ActionView::AwaitStore {
            source_path: run.config.source_path,
            ready_path: store_ready_path(run.ready_path),
            timeout_millis: DICFUSE_READY_TIMEOUT_MILLIS,
            poll_millis: DICFUSE_READY_POLL_MILLIS,
        },
        MountPhaseView::BuildFuse => action == ActionView::BuildFuse {
            source_path: run.config.source_path,
            mountpoint: run.config.mountpoint,
            upper_dir: run.config.upper_dir,
            cl_dir: run.config.cl_dir,
        },
        MountPhaseView::StartFuse => action == ActionView::MountFuse,
        MountPhaseView::Probing(step) => action == probe_asks(
            step,
            run.config.mountpoint,
            run.target(),
        ),
        MountPhaseView::StopFuse => action == ActionView::UnmountFuse,
        MountPhaseView::DropMountpoint => action == ActionView::RemoveDirAll(run.config.mountpoint),
        MountPhaseView::DropUpper => action == ActionView::RemoveDirAll(run.config.upper_dir),
        MountPhaseView::DropCl => match run.config.cl_dir {
            Some(cl_dir) => action == ActionView::RemoveDirAll(cl_dir),
            None => action == ActionView::Finish,
        },
        MountPhaseView::Resaving(step) => save_asks(
            step,
            manager.paths.state_file,
            manager.instances,
            action,
        ),
        MountPhaseView::Finished => action == ActionView::Finish,
    }
}

/// After the last step of a rollback but saving the state: the job of `run` is neither
/// tracked nor served by a session any more.
pub open spec fn forgotten<F, E>(
    manager: ManagerView<F>,
    run: MountView<F, E>,
    reply: ReplyView<F, E>,
) -> (ManagerView<F>, MountView<F, E>) {
    (
        if reply is Done || reply is Failed {
            manager.detaching(run.config.job_id).untracking(run.config.job_id)
        } else {
            manager
        },
        run.attempted(reply, MountPhaseView::Resaving(SaveStepView::Encode)),
    )
}

/// Where `reply` takes the manager and `run`. The instance is tracked once its directories
/// are there. A mount whose session does not start, or whose probe fails, is rolled back,
/// whatever the steps of that come to; an earlier failure ends the run as things stand. A
/// reply that is no answer changes nothing.
pub open spec fn mount_after<F, E>(
    manager: ManagerView<F>,
    run: MountView<F, E>,
    reply: ReplyView<F, E>,
) -> (ManagerView<F>, MountView<F, E>) {
    match run.phase {
        MountPhaseView::MakeUpper => (
            manager,
            run.required(
                reply,
                if run.config.cl_dir is Some {
                    MountPhaseView::MakeCl
                } else {
                    MountPhaseView::MakeMountpoint
                },
            ),
        ),
        MountPhaseView::MakeCl => (manager, run.required(reply, MountPhaseView::MakeMountpoint)),
        MountPhaseView::MakeMountpoint => (
            if reply is Done {
                manager.tracking(run.config)
            } else {
                manager
            },
            run.required(reply, MountPhaseView::Saving(SaveStepView::Encode)),
        ),
        MountPhaseView::Saving(step) => match save_after(
            step,
            manager.paths.state_file,
            reply,
        ) {
            SaveNextView::Wait(step) => (manager, run.at(MountPhaseView::Saving(step))),
            SaveNextView::Saved => (manager, run.at(MountPhaseView::AwaitStore)),
            SaveNextView::Failed(error) => (manager, run.failed(error)),
        },
        MountPhaseView::AwaitStore => (manager, run.required(reply, MountPhaseView::BuildFuse)),
        MountPhaseView::BuildFuse => match reply {
            ReplyView::Built(fuse) => (
                manager,
                MountView { fuse: Some(fuse), phase: MountPhaseView::StartFuse, ..run },
            ),
            ReplyView::Failed(fault) => (manager, run.failed(ErrorView::Io(fault))),
            _ => (manager, run),
        },
        MountPhaseView::StartFuse => match reply {
            ReplyView::Done => (manager, run.at(MountPhaseView::Probing(ProbeStep::StatRoot))),
            ReplyView::Failed(fault) => (manager, run.rolling_back(ErrorView::Io(fault))),
            _ => (manager, run),
        },
        MountPhaseView::Probing(step) => match probe_after(
            step,
            run.config.mountpoint,
            run.target(),
            reply,
        ) {
            ProbeNextView::Wait(step) => (manager, run.at(MountPhaseView::Probing(step))),
            ProbeNextView::Passed => (
                manager.attaching(run.config.job_id, run.fuse),
                MountView { fuse: None, phase: MountPhaseView::Finished, ..run },
            ),
            ProbeNextView::Refused(error) => (
                manager,
                run.rolling_back(
                    ErrorView::Raised {
                        kind: ErrorKind::Other,
                        message: probe_failed(run.config.mountpoint, error.text()),
                    },
                ),
            ),
        },
        MountPhaseView::StopFuse => (
            manager,
            run.attempted(reply, MountPhaseView::DropMountpoint),
        ),
        MountPhaseView::DropMountpoint => (manager, run.attempted(reply, MountPhaseView::DropUpper)),
        MountPhaseView::DropUpper => if run.config.cl_dir is Some {
            (manager, run.attempted(reply, MountPhaseView::DropCl))
        } else {
            forgotten(manager, run, reply)
        },
        MountPhaseView::DropCl => forgotten(manager, run, reply),
        MountPhaseView::Resaving(step) => match save_after(
            step,
            manager.paths.state_file,
            reply,
        ) {
            SaveNextView::Wait(step) => (manager, run.at(MountPhaseView::Resaving(step))),
            SaveNextView::Saved => (manager, run.at(MountPhaseView::Finished)),
            SaveNextView::Failed(_) => (manager, run.at(MountPhaseView::Finished)),
        },
        MountPhaseView::Finished => (manager, run),
    }
}

/// The slice of an optional string.
fn as_str(text: &Option<String>) -> (res: Option<&str>)
    ensures
        str_view(res) == string_view(*text),
{
    match text {
        Some(t) => Some(t.as_str()),
        None => None,
    }
}

impl<F, E> MountRun<F, E> {
    /// The instance that is being mounted.
    pub fn config(&self) -> (res: &AntaresConfig)
        ensures
            res@ == self@.config,
    {
        &self.config
    }

    /// The path that has to be ready, if any.
    pub fn ready_path(&self) -> (res: Option<&str>)
        ensures
            str_view(res) == self@.ready_path,
    {
        as_str(&self.ready_path)
    }

    /// The overlay that the run holds, to mount or unmount it.
    pub fn fuse_mut(&mut self) -> (res: Option<&mut F>)
        ensures
            match res {
                Some(fuse) => old(self)@.fuse == Some(*fuse) && final(self)@ == (MountView {
                    fuse: Some(*final(fuse)),
                    ..old(self)@
                }),
                None => old(self)@.fuse is None && final(self)@ == old(self)@,
            },
    {
        self.fuse.as_mut()
    }

    /// What the probe looks for below the mountpoint, if anything.
    fn target(&self) -> (res: Option<FsPath>)
        ensures
            path_view(res) == self@.target(),
    {
        kept_fs_path(&self.config.mountpoint, as_str(&self.ready_path))
    }

    /// Goes on to `phase`.
    fn at(self, phase: MountPhase) -> (res: MountRun<F, E>)
        ensures
            res@ == self@.at(phase@),
    {
        MountRun { phase, ..self }
    }

    /// Ends with an error.
    fn failed(self, error: AntaresError<E>) -> (res: MountRun<F, E>)
        ensures
            res@ == self@.failed(error@),
    {
        MountRun { phase: MountPhase::Finished, failure: Some(error), ..self }
    }

    /// Starts to take back what was made.
    fn rolling_back(self, error: AntaresError<E>) -> (res: MountRun<F, E>)
        ensures
            res@ == self@.rolling_back(error@),
    {
        MountRun { phase: MountPhase::StopFuse, failure: Some(error), ..self }
    }

    /// Goes on to `next` where a step was done, and ends where it failed.
    fn required(self, reply: Reply<F, E>, next: MountPhase) -> (res: MountRun<F, E>)
        ensures
            res@ == self@.required(reply@, next@),
    {
        match reply {
            Reply::Done => self.at(next),
            Reply::Failed(fault) => self.failed(AntaresError::Io(fault)),
            _ => self,
        }
    }

    /// Goes on to `next` where a step was done, and where it failed.
    fn attempted(self, reply: Reply<F, E>, next: MountPhase) -> (res: MountRun<F, E>)
        ensures
            res@ == self@.attempted(reply@, next@),
    {
        match reply {
            Reply::Done | Reply::Failed(_) => self.at(next),
            _ => self,
        }
    }

    /// The result of the run, once it is over.
    pub fn into_result(self) -> (res: Option<Result<AntaresConfig, AntaresError<E>>>)
        ensures
            match res {
                Some(Ok(config)) => self@.result() == Some(Ok::<_, ErrorView<E>>(config@)),
                Some(Err(error)) => self@.result() == Some(Err::<ConfigView, _>(error@)),
                None => self@.result() is None,
            },
    {
        match self.phase {
            MountPhase::Finished => match self.failure {
                Some(error) => Some(Err(error)),
                None => Some(Ok(self.config)),
            },
            _ => None,
        }
    }
}

impl<D, F> AntaresManager<D, F> {
    /// Starts the mount that a request asks for, with layers under these identifiers.
    pub fn plan_mount<E>(
        &self,
        job_id: &str,
        mountpoint: FsPath,
        source_path: &str,
        ready_path: Option<&str>,
        upper_id: String,
        cl_id: Option<String>,
    ) -> (res: MountRun<F, E>)
        ensures
            res@ == fresh_run::<F, E>(
                planned_config(
                    self@.paths,
                    job_id@,
                    mountpoint@,
                    source_path@,
                    upper_id@,
                    string_view(cl_id),
                ),
                normalized_ready(str_view(ready_path)),
            ),
    {
        let upper_dir = self.paths().upper_root.join(upper_id.as_str());
        let cl_dir = match &cl_id {
            Some(id) => Some(self.paths().cl_root.join(id.as_str())),
            None => None,
        };
        MountRun {
            config: AntaresConfig {
                job_id: job_id.to_string(),
                source_path: normalize_source_path(source_path),
                mountpoint,
                upper_id,
                upper_dir,
                cl_dir,
                cl_id,
            },
            ready_path: normalize_ready_path(ready_path),
            phase: MountPhase::MakeUpper,
            fuse: None,
            failure: None,
        }
    }

    /// Starts mounting the monorepo root at a mountpoint of the manager's choice.
    pub fn mount_job<E>(&self, job_id: &str, cl_name: Option<&str>) -> (res: MountRun<F, E>)
        ensures
            starts_mount(
                res@,
                self@.paths,
                job_id@,
                joined(self@.paths.mount_root, encode_utf8(job_id@)),
                seq!['/'],
                str_view(cl_name),
                None,
            ),
    {
        proof {
            reveal_strlit("/");
            assert(DEFAULT_SOURCE_PATH@ =~= seq!['/']);
        }
        self.mount_job_for_path(job_id, DEFAULT_SOURCE_PATH, cl_name)
    }

    /// Starts mounting a repository path at a mountpoint of the manager's choice.
    pub fn mount_job_for_path<E>(
        &self,
        job_id: &str,
        source_path: &str,
        cl_name: Option<&str>,
    ) -> (res: MountRun<F, E>)
        ensures
            starts_mount(
                res@,
                self@.paths,
                job_id@,
                joined(self@.paths.mount_root, encode_utf8(job_id@)),
                source_path@,
                str_view(cl_name),
                None,
            ),
    {
        self.mount_job_for_path_with_ready_path(job_id, source_path, cl_name, None)
    }

    /// Starts mounting a repository path at a mountpoint of the manager's choice, with a path
    /// in it that has to be ready.
    pub fn mount_job_for_path_with_ready_path<E>(
        &self,
        job_id: &str,
        source_path: &str,
        cl_name: Option<&str>,
        ready_path: Option<&str>,
    ) -> (res: MountRun<F, E>)
        ensures
            starts_mount(
                res@,
                self@.paths,
                job_id@,
                joined(self@.paths.mount_root, encode_utf8(job_id@)),
                source_path@,
                str_view(cl_name),
                str_view(ready_path),
            ),
    {
        let mountpoint = self.paths().mount_root.join(job_id);
        self.mount_job_at_for_path_with_ready_path(
            job_id,
            mountpoint,
            source_path,
            cl_name,
            ready_path,
        )
    }

    /// Starts mounting the monorepo root at a mountpoint of the caller's choice.
    pub fn mount_job_at<E>(&self, job_id: &str, mountpoint: FsPath, cl_name: Option<&str>) -> (res:
        MountRun<F, E>)
        ensures
            starts_mount(
                res@,
                self@.paths,
                job_id@,
                mountpoint@,
                seq!['/'],
                str_view(cl_name),
                None,
            ),
    {
        proof {
            reveal_strlit("/");
            assert(DEFAULT_SOURCE_PATH@ =~= seq!['/']);
        }
        self.mount_job_at_for_path_with_ready_path(
            job_id,
            mountpoint,
            DEFAULT_SOURCE_PATH,
            cl_name,
            None,
        )
    }

    /// Starts mounting a repository path at a mountpoint of the caller's choice.
    pub fn mount_job_at_for_path<E>(
        &self,
        job_id: &str,
        mountpoint: FsPath,
        source_path: &str,
        cl_name: Option<&str>,
    ) -> (res: MountRun<F, E>)
        ensures
            starts_mount(
                res@,
                self@.paths,
                job_id@,
                mountpoint@,
                source_path@,
                str_view(cl_name),
                None,
            ),
    {
        self.mount_job_at_for_path_with_ready_path(job_id, mountpoint, source_path, cl_name, None)
    }

    /// Starts mounting a repository path at a mountpoint of the caller's choice, with a path
    /// in it that has to be ready. Each layer gets a random identifier.
    pub fn mount_job_at_for_path_with_ready_path<E>(
        &self,
        job_id: &str,
        mountpoint: FsPath,
        source_path: &str,
        cl_name: Option<&str>,
        ready_path: Option<&str>,
    ) -> (res: MountRun<F, E>)
        ensures
            starts_mount(
                res@,
                self@.paths,
                job_id@,
                mountpoint@,
                source_path@,
                str_view(cl_name),
                str_view(ready_path),
            ),
    {
        let upper_id = fresh_layer_id();
        let cl_id = match cl_name {
            Some(_) => Some(fresh_layer_id()),
            None => None,
        };
        self.plan_mount(job_id, mountpoint, source_path, ready_path, upper_id, cl_id)
    }

    /// What saving the state asks for at `step`.
    pub(crate) fn save_action(&self, step: &SaveStep) -> (res: Action)
        ensures
            save_asks(step@, self@.paths.state_file, self@.instances, res@),
    {
        match step {
            SaveStep::Encode => Action::EncodeState(AntaresState { mounts: self.list() }),
            SaveStep::MakeParent { parent, data: _ } => Action::CreateDirAll(parent.clone()),
            SaveStep::Write { data } => Action::WriteFile {
                path: self.paths().state_file.clone(),
                data: data.clone(),
            },
        }
    }

    /// What a run asks for. To save the state, it asks for the instances tracked by now.
    pub fn mount_action<E>(&self, run: &MountRun<F, E>) -> (res: Action)
        ensures
            mount_asks(self@, run@, res@),
    {
        match &run.phase {
            MountPhase::MakeUpper => Action::CreateDirAll(run.config.upper_dir.clone()),
            MountPhase::MakeCl => match &run.config.cl_dir {
                Some(cl_dir) => Action::CreateDirAll(cl_dir.clone()),
                None => Action::Finish,
            },
            MountPhase::MakeMountpoint => Action::CreateDirAll(run.config.mountpoint.clone()),
            MountPhase::Saving(step) => self.save_action(step),
            MountPhase::AwaitStore => Action::AwaitStore {
                source_path: run.config.source_path.clone(),
                ready_path: match &run.ready_path {
                    Some(path) => path.clone(),
                    None => default_source_path(),
                },
                timeout_millis: DICFUSE_READY_TIMEOUT_MILLIS,
                poll_millis: DICFUSE_READY_POLL_MILLIS,
            },
            MountPhase::BuildFuse => Action::BuildFuse {
                source_path: run.config.source_path.clone(),
                mountpoint: run.config.mountpoint.clone(),
                upper_dir: run.config.upper_dir.clone(),
                cl_dir: run.config.cl_dir.clone(),
            },
            MountPhase::StartFuse => Action::MountFuse,
            MountPhase::Probing(step) => probe_action(
                *step,
                &run.config.mountpoint,
                &run.target(),
            ),
            MountPhase::StopFuse => Action::UnmountFuse,
            MountPhase::DropMountpoint => Action::RemoveDirAll(run.config.mountpoint.clone()),
            MountPhase::DropUpper => Action::RemoveDirAll(run.config.upper_dir.clone()),
            MountPhase::DropCl => match &run.config.cl_dir {
                Some(cl_dir) => Action::RemoveDirAll(cl_dir.clone()),
                None => Action::Finish,
            },
            MountPhase::Resaving(step) => self.save_action(step),
            MountPhase::Finished => Action::Finish,
        }
    }

    /// Forgets the job of a run that is rolled back, once its directories are dealt with.
    fn rollback_failed_mount<E>(&mut self, run: MountRun<F, E>, reply: Reply<F, E>) -> (res:
        MountRun<F, E>)
        ensures
            (final(self)@, res@) == forgotten(old(self)@, run@, reply@),
            final(self).dic() == old(self).dic(),
    {
        match reply {
            Reply::Done | Reply::Failed(_) => {
                let _ = self.detach(run.config.job_id.as_str());
                let _ = self.untrack(run.config.job_id.as_str());
                run.at(MountPhase::Resaving(SaveStep::Encode))
            },
            _ => run,
        }
    }

    /// Takes a run on by one reply.
    pub fn advance_mount<E>(&mut self, run: MountRun<F, E>, reply: Reply<F, E>) -> (res: MountRun<
        F,
        E,
    >)
        ensures
            (final(self)@, res@) == mount_after(old(self)@, run@, reply@),
            final(self).dic() == old(self).dic(),
    {
        match run.phase {
            MountPhase::MakeUpper => {
                let next = if run.config.cl_dir.is_some() {
                    MountPhase::MakeCl
                } else {
                    MountPhase::MakeMountpoint
                };
                run.required(reply, next)
            },
            MountPhase::MakeCl => run.required(reply, MountPhase::MakeMountpoint),
            MountPhase::MakeMountpoint => {
                if let Reply::Done = &reply {
                    self.track(run.config.clone());
                }
                run.required(reply, MountPhase::Saving(SaveStep::Encode))
            },
            MountPhase::Saving(step) => match save_next(step, &self.paths().state_file, reply) {
                SaveNext::Wait(step) => MountRun { phase: MountPhase::Saving(step), ..run },
                SaveNext::Saved => MountRun { phase: MountPhase::AwaitStore, ..run },
                SaveNext::Failed(error) => MountRun {
                    phase: MountPhase::Finished,
                    failure: Some(error),
                    ..run
                },
            },
            MountPhase::AwaitStore => run.required(reply, MountPhase::BuildFuse),
            MountPhase::BuildFuse => match reply {
                Reply::Built(fuse) => MountRun {
                    fuse: Some(fuse),
                    phase: MountPhase::StartFuse,
                    ..run
                },
                Reply::Failed(fault) => run.failed(AntaresError::Io(fault)),
                _ => run,
            },
            MountPhase::StartFuse => match reply {
                Reply::Done => run.at(MountPhase::Probing(ProbeStep::StatRoot)),
                Reply::Failed(fault) => run.rolling_back(AntaresError::Io(fault)),
                _ => run,
            },
            MountPhase::Probing(step) => match probe_next(
                step,
                &run.config.mountpoint,
                &run.target(),
                reply,
            ) {
                ProbeNext::Wait(step) => run.at(MountPhase::Probing(step)),
                ProbeNext::Passed => {
                    let MountRun { config, ready_path, phase: _, fuse, failure } = run;
                    if let Some(session) = fuse {
                        self.attach(config.job_id.clone(), session);
                    }
                    MountRun {
                        config,
                        ready_path,
                        phase: MountPhase::Finished,
                        fuse: None,
                        failure,
                    }
                },
                ProbeNext::Refused(error) => {
                    let message = "mount probe failed on ".to_string().concat(
                        run.config.mountpoint.display().as_str(),
                    ).concat(": ").concat(error.text());
                    run.rolling_back(AntaresError::Raised { kind: ErrorKind::Other, message })
                },
            },
            MountPhase::StopFuse => run.attempted(reply, MountPhase::DropMountpoint),
            MountPhase::DropMountpoint => run.attempted(reply, MountPhase::DropUpper),
            MountPhase::DropUpper => {
                if run.config.cl_dir.is_some() {
                    run.attempted(reply, MountPhase::DropCl)
                } else {
                    self.rollback_failed_mount(run, reply)
                }
            },
            MountPhase::DropCl => self.rollback_failed_mount(run, reply),
            MountPhase::Resaving(step) => match save_next(step, &self.paths().state_file, reply) {
                SaveNext::Wait(step) => MountRun { phase: MountPhase::Resaving(step), ..run },
                SaveNext::Saved => MountRun { phase: MountPhase::Finished, ..run },
                SaveNext::Failed(_) => MountRun { phase: MountPhase::Finished, ..run },
            },
            MountPhase::Finished => run,
        }
    }
}

} // verus!
