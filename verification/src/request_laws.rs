//! What becomes of a request to mount a job, and of what is asked and answered on its way.

use vstd::prelude::*;
use vstd::utf8::*;

use crate::config::PathsView;
use crate::fs_path::SEPARATOR;
use crate::ids::is_random_uuid;
use crate::mount::{fresh_run, planned_config, starts_mount, MountView};
use crate::outcome::{answers, ActionView, ErrorKind, ErrorView, FaultView, ReplyView};
use crate::path_laws::{
    law_body_of_a_path_is_kept, law_joined_name_lies_in_the_directory, law_layer_is_below_its_root,
    lies_in, PathParts,
};

verus! {

/// The instance that is planned is the one that was asked for: its job and its mountpoint are
/// those of the request, its source path is the body of the one that was given, and each of its
/// layers lies in a directory of its own: the upper layer under its identifier right below the
/// root of the upper layers, and the CL layer, which is there exactly where it has an
/// identifier, under that one right below the root of the CL layers. Neither depends on what
/// else is asked for.
pub proof fn law_planned_instance_is_the_one_asked_for(
    paths: PathsView,
    job_id: Seq<char>,
    mountpoint: Seq<u8>,
    source: PathParts,
    upper_id: Seq<char>,
    cl_id: Option<Seq<char>>,
)
    requires
        source.proper(),
    ensures
        ({
            let config = planned_config(
                paths,
                job_id,
                mountpoint,
                source.whole(),
                upper_id,
                cl_id,
            );
            let upper_name = encode_utf8(upper_id);
            &&& config.job_id == job_id
            &&& config.mountpoint == mountpoint
            &&& config.source_path == seq!['/'] + source.body
            &&& config.upper_id == upper_id
            &&& config.cl_id == cl_id
            &&& (upper_name.len() > 0 ==> upper_name[0] != SEPARATOR) ==> lies_in(
                config.upper_dir,
                paths.upper_root,
                upper_name,
            )
            &&& config.cl_dir is Some <==> cl_id is Some
            &&& cl_id matches Some(id) ==> (encode_utf8(id).len() > 0 ==> encode_utf8(id)[0]
                != SEPARATOR) ==> lies_in(config.cl_dir->0, paths.cl_root, encode_utf8(id))
        }),
{
    law_body_of_a_path_is_kept(source);
    let upper_name = encode_utf8(upper_id);
    if upper_name.len() > 0 ==> upper_name[0] != SEPARATOR {
        law_joined_name_lies_in_the_directory(paths.upper_root, upper_name);
    }
    if let Some(id) = cl_id {
        if encode_utf8(id).len() > 0 ==> encode_utf8(id)[0] != SEPARATOR {
            law_joined_name_lies_in_the_directory(paths.cl_root, encode_utf8(id));
        }
    }
}

/// A mount that was started is for what was asked for, whatever that is: the job, the mountpoint,
/// the body of the source path and that of the ready path. It has an upper layer, and a CL layer
/// exactly where a changelist is named; each has an identifier, and a directory of that name
/// right below the root of its kind of layer. Nothing is done yet.
pub proof fn law_started_mount_is_for_the_request<F, E>(
    run: MountView<F, E>,
    paths: PathsView,
    job_id: Seq<char>,
    mountpoint: Seq<u8>,
    source: PathParts,
    cl_name: Option<Seq<char>>,
    ready: Option<PathParts>,
)
    requires
        source.proper(),
        ready matches Some(parts) ==> parts.proper(),
        starts_mount(
            run,
            paths,
            job_id,
            mountpoint,
            source.whole(),
            cl_name,
            match ready {
                Some(parts) => Some(parts.whole()),
                None => None,
            },
        ),
    ensures
        run == fresh_run::<F, E>(run.config, run.ready_path),
        run.config.job_id == job_id,
        run.config.mountpoint == mountpoint,
        run.config.source_path == seq!['/'] + source.body,
        run.ready_path == (match ready {
            Some(parts) => if parts.body.len() == 0 && parts.slashes_before.len()
                + parts.slashes_after.len() <= 1 {
                None
            } else {
                Some(seq!['/'] + parts.body)
            },
            None => None,
        }),
        is_random_uuid(run.config.upper_id),
        lies_in(run.config.upper_dir, paths.upper_root, encode_utf8(run.config.upper_id)),
        run.config.cl_id is Some <==> cl_name is Some,
        run.config.cl_dir is Some <==> cl_name is Some,
        cl_name is Some ==> is_random_uuid(run.config.cl_id->0) && lies_in(
            run.config.cl_dir->0,
            paths.cl_root,
            encode_utf8(run.config.cl_id->0),
        ),
{
    law_body_of_a_path_is_kept(source);
    if let Some(parts) = ready {
        law_body_of_a_path_is_kept(parts);
    }
    lemma_id_is_a_name(run.config.upper_id);
    law_joined_name_lies_in_the_directory(paths.upper_root, encode_utf8(run.config.upper_id));
    if let Some(id) = run.config.cl_id {
        lemma_id_is_a_name(id);
        law_joined_name_lies_in_the_directory(paths.cl_root, encode_utf8(id));
    }
}

/// The identifier of a layer is not absolute.
proof fn lemma_id_is_a_name(id: Seq<char>)
    requires
        is_random_uuid(id),
    ensures
        encode_utf8(id).len() > 0 ==> encode_utf8(id)[0] != SEPARATOR,
{
    law_layer_is_below_its_root(Seq::empty(), id);
    if encode_utf8(id).len() > 0 {
        assert(encode_utf8(id).contains(encode_utf8(id)[0]));
    }
}

/// Whatever is asked for, that it failed is an answer, and of the other answers there is one
/// kind for each kind of action. Only the end of a run has no answer.
pub proof fn law_every_action_has_its_answers<F, E>(action: ActionView, reply: ReplyView<F, E>)
    ensures
        answers(action, reply) <==> match action {
            ActionView::Finish => false,
            ActionView::EncodeState(_) => reply is Encoded || reply is Failed,
            ActionView::BuildFuse { .. } => reply is Built || reply is Failed,
            ActionView::Stat(_) => reply is Stat || reply is Failed,
            ActionView::ReadFirstEntry(_) => reply is FirstEntry || reply is Failed,
            ActionView::RunFusermount(_) => reply is Exited || reply is Failed,
            _ => reply is Done || reply is Failed,
        },
{
}

/// The text of an error is the one it came with.
pub proof fn law_errors_keep_their_text<E>(
    fault: FaultView<E>,
    kind: ErrorKind,
    message: Seq<char>,
)
    ensures
        ErrorView::Io(fault).text() == fault.text,
        (ErrorView::<E>::Raised { kind, message }).text() == message,
{
}

} // verus!
