//! The check that a fresh mount can be used.

use vstd::prelude::*;
use vstd::string::*;
use vstd::utf8::*;

use crate::fs_path::{joined, lossy_text, path_view, FsPath};
use crate::outcome::{
    Action, ActionView, AntaresError, ErrorKind, ErrorView, Reply, ReplyView,
};
use crate::text::{
    is_slash, normalize_ready_path, normalized_ready, str_view, trim_front, trim_start, CharClass,
};

verus! {

/// What the probe of a mountpoint waits for.
#[derive(Debug, Clone, Copy, PartialEq, Eq, Structural)]
pub enum ProbeStep {
    /// What the mountpoint is.
    StatRoot,
    /// The first entry of the mountpoint.
    ListRoot,
    /// What that entry is.
    TypeRoot,
    /// What the target is.
    StatReady,
    /// The first entry of the target.
    ListReady,
    /// What that entry is.
    TypeReady,
    /// The target, opened as a file.
    OpenReady,
}

/// Where a reply leaves the probe.
#[derive(Debug)]
pub enum ProbeNext<E> {
    /// It waits for this step.
    Wait(ProbeStep),
    /// The mountpoint can be used.
    Passed,
    /// The mountpoint cannot be used.
    Refused(AntaresError<E>),
}

/// The model of `ProbeNext`.
#[verifier::ext_equal]
pub enum ProbeNextView<E> {
    Wait(ProbeStep),
    Passed,
    Refused(ErrorView<E>),
}

impl<E> View for ProbeNext<E> {
    type V = ProbeNextView<E>;

    open spec fn view(&self) -> ProbeNextView<E> {
        match self {
            ProbeNext::Wait(step) => ProbeNextView::Wait(*step),
            ProbeNext::Passed => ProbeNextView::Passed,
            ProbeNext::Refused(error) => ProbeNextView::Refused(error@),
        }
    }
}

/// Where a repository path lies below the mountpoint.
pub open spec fn below(mountpoint: Seq<u8>, path: Seq<char>) -> Seq<u8> {
    joined(mountpoint, encode_utf8(trim_front(path, CharClass::Slash)))
}

/// Where to look for a ready path in the form in which a run keeps it. Where there is none,
/// or where it is the root, the mountpoint itself is enough.
pub open spec fn kept_target(mountpoint: Seq<u8>, kept: Option<Seq<char>>) -> Option<Seq<u8>> {
    match kept {
        Some(path) => if path == seq!['/'] {
            None
        } else {
            Some(below(mountpoint, path))
        },
        None => None,
    }
}

/// Where to look for a ready path as a request writes it.
pub open spec fn ready_target(mountpoint: Seq<u8>, ready_path: Option<Seq<char>>) -> Option<
    Seq<u8>,
> {
    match normalized_ready(ready_path) {
        Some(path) => Some(below(mountpoint, path)),
        None => None,
    }
}

/// What the probe asks for at `step`. What it asks of a target, it asks only where there is
/// one.
pub open spec fn probe_asks(
    step: ProbeStep,
    mountpoint: Seq<u8>,
    target: Option<Seq<u8>>,
) -> ActionView {
    match (step, target) {
        (ProbeStep::StatRoot, _) => ActionView::Stat(mountpoint),
        (ProbeStep::ListRoot, _) => ActionView::ReadFirstEntry(mountpoint),
        (ProbeStep::TypeRoot, _) => ActionView::EntryType,
        (ProbeStep::StatReady, Some(target)) => ActionView::Stat(target),
        (ProbeStep::ListReady, Some(target)) => ActionView::ReadFirstEntry(target),
        (ProbeStep::TypeReady, Some(_)) => ActionView::EntryType,
        (ProbeStep::OpenReady, Some(target)) => ActionView::OpenFile(target),
        (_, None) => ActionView::Finish,
    }
}

/// The message that a mountpoint is no directory.
pub open spec fn not_a_directory(mountpoint: Seq<u8>) -> Seq<char> {
    lossy_text(mountpoint) + " is not a directory"@
}

/// Where the probe goes once the mountpoint itself was found usable.
pub open spec fn root_usable<E>(target: Option<Seq<u8>>) -> ProbeNextView<E> {
    if target is Some {
        ProbeNextView::Wait(ProbeStep::StatReady)
    } else {
        ProbeNextView::Passed
    }
}

/// Where `reply` takes the probe from `step`. A reply that is no answer changes nothing.
pub open spec fn probe_after<F, E>(
    step: ProbeStep,
    mountpoint: Seq<u8>,
    target: Option<Seq<u8>>,
    reply: ReplyView<F, E>,
) -> ProbeNextView<E> {
    match (step, reply) {
        (_, ReplyView::Failed(fault)) => ProbeNextView::Refused(ErrorView::Io(fault)),
        (ProbeStep::StatRoot, ReplyView::Stat { is_dir }) => if is_dir {
            ProbeNextView::Wait(ProbeStep::ListRoot)
        } else {
            ProbeNextView::Refused(
                ErrorView::Raised {
                    kind: ErrorKind::NotADirectory,
                    message: not_a_directory(mountpoint),
                },
            )
        },
        (ProbeStep::ListRoot, ReplyView::FirstEntry { present }) => if present {
            ProbeNextView::Wait(ProbeStep::TypeRoot)
        } else {
            root_usable(target)
        },
        (ProbeStep::TypeRoot, ReplyView::Done) => root_usable(target),
        (ProbeStep::StatReady, ReplyView::Stat { is_dir }) => ProbeNextView::Wait(
            if is_dir {
                ProbeStep::ListReady
            } else {
                ProbeStep::OpenReady
            },
        ),
        (ProbeStep::ListReady, ReplyView::FirstEntry { present }) => if present {
            ProbeNextView::Wait(ProbeStep::TypeReady)
        } else {
            ProbeNextView::Passed
        },
        (ProbeStep::TypeReady, ReplyView::Done) => ProbeNextView::Passed,
        (ProbeStep::OpenReady, ReplyView::Done) => ProbeNextView::Passed,
        _ => ProbeNextView::Wait(step),
    }
}

/// Where to look for a ready path in the form in which a run keeps it.
pub fn kept_fs_path(mountpoint: &FsPath, kept: Option<&str>) -> (res: Option<FsPath>)
    ensures
        path_view(res) == kept_target(mountpoint@, str_view(kept)),
{
    match kept {
        Some(path) => if is_slash(path) {
            None
        } else {
            Some(mountpoint.join(trim_start(path, CharClass::Slash)))
        },
        None => None,
    }
}

/// Where to look for a ready path as a request writes it.
pub fn ready_fs_path(mountpoint: &FsPath, ready_path: Option<&str>) -> (res: Option<FsPath>)
    ensures
        path_view(res) == ready_target(mountpoint@, str_view(ready_path)),
{
    match normalize_ready_path(ready_path) {
        Some(path) => Some(mountpoint.join(trim_start(path.as_str(), CharClass::Slash))),
        None => None,
    }
}

/// What the probe of a mountpoint, and of a target in it, asks for at `step`.
pub fn probe_action(step: ProbeStep, mountpoint: &FsPath, target: &Option<FsPath>) -> (res: Action)
    ensures
        res@ == probe_asks(step, mountpoint@, path_view(*target)),
{
    match (step, target) {
        (ProbeStep::StatRoot, _) => Action::Stat(mountpoint.clone()),
        (ProbeStep::ListRoot, _) => Action::ReadFirstEntry(mountpoint.clone()),
        (ProbeStep::TypeRoot, _) => Action::EntryType,
        (ProbeStep::StatReady, Some(target)) => Action::Stat(target.clone()),
        (ProbeStep::ListReady, Some(target)) => Action::ReadFirstEntry(target.clone()),
        (ProbeStep::TypeReady, Some(_)) => Action::EntryType,
        (ProbeStep::OpenReady, Some(target)) => Action::OpenFile(target.clone()),
        (_, None) => Action::Finish,
    }
}

/// Goes on to the target, if there is one.
fn after_root<E>(target: &Option<FsPath>) -> (res: ProbeNext<E>)
    ensures
        res@ == root_usable::<E>(path_view(*target)),
{
    match target {
        Some(_) => ProbeNext::Wait(ProbeStep::StatReady),
        None => ProbeNext::Passed,
    }
}

/// Takes the probe of a mountpoint, and of a target in it, on by one reply.
pub fn probe_next<F, E>(
    step: ProbeStep,
    mountpoint: &FsPath,
    target: &Option<FsPath>,
    reply: Reply<F, E>,
) -> (res: ProbeNext<E>)
    ensures
        res@ == probe_after(step, mountpoint@, path_view(*target), reply@),
{
    match (step, reply) {
        (_, Reply::Failed(fault)) => ProbeNext::Refused(AntaresError::Io(fault)),
        (ProbeStep::StatRoot, Reply::Stat { is_dir }) => {
            if is_dir {
                ProbeNext::Wait(ProbeStep::ListRoot)
            } else {
                ProbeNext::Refused(
                    AntaresError::Raised {
                        kind: ErrorKind::NotADirectory,
                        message: mountpoint.display().concat(" is not a directory"),
                    },
                )
            }
        },
        (ProbeStep::ListRoot, Reply::FirstEntry { present }) => {
            if present {
                ProbeNext::Wait(ProbeStep::TypeRoot)
            } else {
                after_root(target)
            }
        },
        (ProbeStep::TypeRoot, Reply::Done) => after_root(target),
        (ProbeStep::StatReady, Reply::Stat { is_dir }) => ProbeNext::Wait(
            if is_dir {
                ProbeStep::ListReady
            } else {
                ProbeStep::OpenReady
            },
        ),
        (ProbeStep::ListReady, Reply::FirstEntry { present }) => {
            if present {
                ProbeNext::Wait(ProbeStep::TypeReady)
            } else {
                ProbeNext::Passed
            }
        },
        (ProbeStep::TypeReady, Reply::Done) => ProbeNext::Passed,
        (ProbeStep::OpenReady, Reply::Done) => ProbeNext::Passed,
        (step, _) => ProbeNext::Wait(step),
    }
}

} // verus!
