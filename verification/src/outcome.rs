//! What is asked of the outside world, what it answers, and how things go wrong.

use vstd::prelude::*;
use vstd::string::*;

use crate::config::{AntaresState, ConfigView};
use crate::fs_path::{path_view, FsPath};

verus! {

/// An error that the outside world reported, with its text.
#[derive(Debug)]
pub struct Fault<E> {
    pub source: E,
    pub text: String,
}

/// The model of `Fault`.
#[verifier::ext_equal]
pub struct FaultView<E> {
    pub source: E,
    pub text: Seq<char>,
}

impl<E> View for Fault<E> {
    type V = FaultView<E>;

    open spec fn view(&self) -> FaultView<E> {
        FaultView { source: self.source, text: self.text@ }
    }
}

/// The kinds of error that are raised here.
#[derive(Debug, Clone, Copy, PartialEq, Eq, Structural)]
pub enum ErrorKind {
    NotADirectory,
    InvalidData,
    Other,
}

/// Why an operation failed.
#[derive(Debug)]
pub enum AntaresError<E> {
    /// An error of the outside world, handed on as it came.
    Io(Fault<E>),
    /// An error that is raised here.
    Raised { kind: ErrorKind, message: String },
}

/// The model of `AntaresError`.
#[verifier::ext_equal]
pub enum ErrorView<E> {
    Io(FaultView<E>),
    Raised { kind: ErrorKind, message: Seq<char> },
}

impl<E> View for AntaresError<E> {
    type V = ErrorView<E>;

    open spec fn view(&self) -> ErrorView<E> {
        match self {
            AntaresError::Io(fault) => ErrorView::Io(fault@),
            AntaresError::Raised { kind, message } => ErrorView::Raised {
                kind: *kind,
                message: message@,
            },
        }
    }
}

impl<E> ErrorView<E> {
    /// The text of the error.
    pub open spec fn text(self) -> Seq<char> {
        match self {
            ErrorView::Io(fault) => fault.text,
            ErrorView::Raised { kind, message } => message,
        }
    }
}

impl<E> AntaresError<E> {
    /// The text of the error.
    pub fn text(&self) -> (res: &str)
        ensures
            res@ == self@.text(),
    {
        match self {
            AntaresError::Io(fault) => fault.text.as_str(),
            AntaresError::Raised { kind: _, message } => message.as_str(),
        }
    }
}

/// The view of an optional error.
pub open spec fn error_view<E>(error: Option<AntaresError<E>>) -> Option<ErrorView<E>> {
    match error {
        Some(e) => Some(e@),
        None => None,
    }
}

/// Something for the outside world to do.
#[derive(Debug)]
pub enum Action {
    /// Create a directory and what is missing above it.
    CreateDirAll(FsPath),
    /// Remove a directory and what it holds.
    RemoveDirAll(FsPath),
    /// Write the state out as TOML.
    EncodeState(AntaresState),
    /// Create a file, or empty the one that is there, and write `data` to it.
    WriteFile { path: FsPath, data: String },
    /// Take the Dicfuse of a repository path and wait until it has a path ready.
    AwaitStore { source_path: String, ready_path: String, timeout_millis: u64, poll_millis: u64 },
    /// Build the overlay of the layers on the Dicfuse of a repository path.
    BuildFuse {
        source_path: String,
        mountpoint: FsPath,
        upper_dir: FsPath,
        cl_dir: Option<FsPath>,
    },
    /// Mount the overlay that the run holds.
    MountFuse,
    /// Unmount the overlay that the run holds.
    UnmountFuse,
    /// Ask what a path is.
    Stat(FsPath),
    /// Open a directory and read its first entry.
    ReadFirstEntry(FsPath),
    /// Ask what the entry is that was read last.
    EntryType,
    /// Open a file.
    OpenFile(FsPath),
    /// Run `FUSERMOUNT` with `FUSERMOUNT_UNMOUNT` and a mountpoint.
    RunFusermount(FsPath),
    /// Nothing: the run is over.
    Finish,
}

/// The program that unmounts where no live session can.
pub const FUSERMOUNT: &'static str = "fusermount";

/// The argument that has the program unmount.
pub const FUSERMOUNT_UNMOUNT: &'static str = "-u";

/// The model of `Action`.
#[verifier::ext_equal]
pub enum ActionView {
    CreateDirAll(Seq<u8>),
    RemoveDirAll(Seq<u8>),
    EncodeState(Seq<ConfigView>),
    WriteFile { path: Seq<u8>, data: Seq<char> },
    AwaitStore {
        source_path: Seq<char>,
        ready_path: Seq<char>,
        timeout_millis: u64,
        poll_millis: u64,
    },
    BuildFuse {
        source_path: Seq<char>,
        mountpoint: Seq<u8>,
        upper_dir: Seq<u8>,
        cl_dir: Option<Seq<u8>>,
    },
    MountFuse,
    UnmountFuse,
    Stat(Seq<u8>),
    ReadFirstEntry(Seq<u8>),
    EntryType,
    OpenFile(Seq<u8>),
    RunFusermount(Seq<u8>),
    Finish,
}

impl View for Action {
    type V = ActionView;

    open spec fn view(&self) -> ActionView {
        match self {
            Action::CreateDirAll(path) => ActionView::CreateDirAll(path@),
            Action::RemoveDirAll(path) => ActionView::RemoveDirAll(path@),
            Action::EncodeState(state) => ActionView::EncodeState(state@),
            Action::WriteFile { path, data } => ActionView::WriteFile {
                path: path@,
                data: data@,
            },
            Action::AwaitStore { source_path, ready_path, timeout_millis, poll_millis } =>
                ActionView::AwaitStore {
                source_path: source_path@,
                ready_path: ready_path@,
                timeout_millis: *timeout_millis,
                poll_millis: *poll_millis,
            },
            Action::BuildFuse { source_path, mountpoint, upper_dir, cl_dir } =>
                ActionView::BuildFuse {
                source_path: source_path@,
                mountpoint: mountpoint@,
                upper_dir: upper_dir@,
                cl_dir: path_view(*cl_dir),
            },
            Action::MountFuse => ActionView::MountFuse,
            Action::UnmountFuse => ActionView::UnmountFuse,
            Action::Stat(path) => ActionView::Stat(path@),
            Action::ReadFirstEntry(path) => ActionView::ReadFirstEntry(path@),
            Action::EntryType => ActionView::EntryType,
            Action::OpenFile(path) => ActionView::OpenFile(path@),
            Action::RunFusermount(path) => ActionView::RunFusermount(path@),
            Action::Finish => ActionView::Finish,
        }
    }
}

/// How an action went.
#[derive(Debug)]
pub enum Reply<F, E> {
    /// It was done, and there is nothing to tell.
    Done,
    /// It failed.
    Failed(Fault<E>),
    /// The state was written out as this text.
    Encoded(String),
    /// This overlay was built.
    Built(F),
    /// The path is there.
    Stat { is_dir: bool },
    /// The directory could be read.
    FirstEntry { present: bool },
    /// The program ran and ended.
    Exited { success: bool, stderr: Vec<u8> },
}

/// The model of `Reply`.
#[verifier::ext_equal]
pub enum ReplyView<F, E> {
    Done,
    Failed(FaultView<E>),
    Encoded(Seq<char>),
    Built(F),
    Stat { is_dir: bool },
    FirstEntry { present: bool },
    Exited { success: bool, stderr: Seq<u8> },
}

impl<F, E> View for Reply<F, E> {
    type V = ReplyView<F, E>;

    open spec fn view(&self) -> ReplyView<F, E> {
        match self {
            Reply::Done => ReplyView::Done,
            Reply::Failed(fault) => ReplyView::Failed(fault@),
            Reply::Encoded(data) => ReplyView::Encoded(data@),
            Reply::Built(fuse) => ReplyView::Built(*fuse),
            Reply::Stat { is_dir } => ReplyView::Stat { is_dir: *is_dir },
            Reply::FirstEntry { present } => ReplyView::FirstEntry { present: *present },
            Reply::Exited { success, stderr } => ReplyView::Exited {
                success: *success,
                stderr: stderr@,
            },
        }
    }
}

/// Whether `reply` is of the kind that tells how `action` went. Every action can fail, but
/// for the one that ends a run.
pub open spec fn answers<F, E>(action: ActionView, reply: ReplyView<F, E>) -> bool {
    match reply {
        ReplyView::Failed(_) => action != ActionView::Finish,
        ReplyView::Encoded(_) => action is EncodeState,
        ReplyView::Built(_) => action is BuildFuse,
        ReplyView::Stat { .. } => action is Stat,
        ReplyView::FirstEntry { .. } => action is ReadFirstEntry,
        ReplyView::Exited { .. } => action is RunFusermount,
        ReplyView::Done => match action {
            ActionView::CreateDirAll(_) => true,
            ActionView::RemoveDirAll(_) => true,
            ActionView::WriteFile { .. } => true,
            ActionView::AwaitStore { .. } => true,
            ActionView::MountFuse => true,
            ActionView::UnmountFuse => true,
            ActionView::EntryType => true,
            ActionView::OpenFile(_) => true,
            _ => false,
        },
    }
}

} // verus!
