//! What lies behind a mount that succeeded.

use vstd::prelude::*;

use crate::config::ConfigView;
use crate::manager::ManagerView;
use crate::mount::{fresh_run, mount_asks, MountPhaseView, MountView};
use crate::mount_laws::{
    law_mount_keeps_stage, law_saved_state_tells_of_the_job, mount_happens, mount_sound,
    mount_through, Happening,
};
use crate::outcome::{answers, ActionView, ReplyView};
use crate::probe::{probe_after, ProbeNextView, ProbeStep};
use crate::save::{lists, SaveStepView};

verus! {

/// The manager and the run just before `what[at]` happened.
pub open spec fn before<F, E>(
    manager: ManagerView<F>,
    run: MountView<F, E>,
    what: Seq<Happening<F, E>>,
    at: int,
) -> (ManagerView<F>, MountView<F, E>) {
    mount_through(manager, run, what.take(at))
}

/// Whether the run asked for `action` at `at`, and `reply` was the answer.
pub open spec fn answered<F, E>(
    manager: ManagerView<F>,
    run: MountView<F, E>,
    what: Seq<Happening<F, E>>,
    at: int,
    action: ActionView,
    reply: ReplyView<F, E>,
) -> bool {
    &&& 0 <= at < what.len()
    &&& what[at] == Happening::Reply(reply)
    &&& mount_asks(
        before(manager, run, what, at).0,
        before(manager, run, what, at).1,
        action,
    )
    &&& answers(action, reply)
}

/// Whether the run is over from the time `at` on, because its probe passed then.
pub open spec fn passed_at<F, E>(
    manager: ManagerView<F>,
    run: MountView<F, E>,
    what: Seq<Happening<F, E>>,
    at: int,
) -> bool {
    let r = before(manager, run, what, at).1;
    &&& 0 <= at < what.len()
    &&& r.phase is Probing
    &&& what[at] matches Happening::Reply(reply) && probe_after(
        r.phase->Probing_0,
        run.config.mountpoint,
        run.target(),
        reply,
    ) == ProbeNextView::<E>::Passed
    &&& before(manager, run, what, at + 1).1.phase == MountPhaseView::Finished
}

/// Whether every directory that the probe found not to be empty had the type of its first
/// entry told by the time `end`.
pub open spec fn entries_told<F, E>(
    manager: ManagerView<F>,
    run: MountView<F, E>,
    what: Seq<Happening<F, E>>,
    end: int,
) -> bool {
    forall|at: int, dir: Seq<u8>| #[trigger]
        answered(
            manager,
            run,
            what,
            at,
            ActionView::ReadFirstEntry(dir),
            ReplyView::FirstEntry { present: true },
        ) ==> entry_told(manager, run, what, at, end)
}

/// Whether the type of an entry that was read at `at` was told later, by the time `end`.
pub open spec fn entry_told<F, E>(
    manager: ManagerView<F>,
    run: MountView<F, E>,
    what: Seq<Happening<F, E>>,
    at: int,
    end: int,
) -> bool {
    exists|later: int|
        at < later <= end && #[trigger] answered(
            manager,
            run,
            what,
            later,
            ActionView::EntryType,
            ReplyView::Done,
        )
}

/// Whether the state was written out at `at` as `data`: the run, whose instance is tracked by
/// then, asked for a list of all the instances that are, and `data` was the answer.
pub open spec fn encoded_at<F, E>(
    manager: ManagerView<F>,
    run: MountView<F, E>,
    what: Seq<Happening<F, E>>,
    at: int,
    data: Seq<char>,
) -> bool {
    let (m, r) = before(manager, run, what, at);
    &&& 0 <= at < what.len()
    &&& what[at] == Happening::Reply(ReplyView::<F, E>::Encoded(data))
    &&& r.phase == MountPhaseView::Saving(SaveStepView::Encode)
    &&& m.instance(run.config.job_id) == Some(run.config)
    &&& forall|action: ActionView| #[trigger]
        mount_asks(m, r, action) ==> (action matches ActionView::EncodeState(list) && lists(
            list,
            m.instances,
        ) && list.contains(run.config))
}

/// Whether the text that the state was written out as at `encoded` went to the state file at
/// `written`.
pub open spec fn saved_at<F, E>(
    manager: ManagerView<F>,
    run: MountView<F, E>,
    what: Seq<Happening<F, E>>,
    encoded: int,
    written: int,
    data: Seq<char>,
) -> bool {
    &&& encoded < written
    &&& encoded_at(manager, run, what, encoded, data)
    &&& answered(
        manager,
        run,
        what,
        written,
        ActionView::WriteFile { path: manager.paths.state_file, data },
        ReplyView::Done,
    )
}

/// What lies before `at` is the same, whether or not more happens afterwards.
proof fn lemma_before_stays<F, E>(
    manager: ManagerView<F>,
    run: MountView<F, E>,
    what: Seq<Happening<F, E>>,
)
    requires
        what.len() > 0,
    ensures
        forall|at: int|
            0 <= at < what.len() ==> before(manager, run, what.drop_last(), at) == #[trigger]
            before(manager, run, what, at),
        before(manager, run, what, what.len() - 1) == mount_through(
            manager,
            run,
            what.drop_last(),
        ),
        before(manager, run, what, what.len() as int) == mount_through(manager, run, what),
{
    assert forall|at: int| 0 <= at < what.len() implies before(
        manager,
        run,
        what.drop_last(),
        at,
    ) == #[trigger] before(manager, run, what, at) by {
        assert(what.drop_last().take(at) =~= what.take(at));
    }
    assert(what.take(what.len() - 1) =~= what.drop_last());
    assert(what.take(what.len() as int) =~= what);
}

/// An error that a run has, it keeps; and once it is over, it stays over.
proof fn lemma_end_stays<F, E>(
    manager: ManagerView<F>,
    run: MountView<F, E>,
    what: Seq<Happening<F, E>>,
    at: int,
)
    requires
        0 <= at <= what.len(),
    ensures
        before(manager, run, what, at).1.failure is Some ==> mount_through(
            manager,
            run,
            what,
        ).1.failure is Some,
        before(manager, run, what, at).1.phase == MountPhaseView::Finished ==> mount_through(
            manager,
            run,
            what,
        ).1.phase == MountPhaseView::Finished,
    decreases what.len(),
{
    if at == what.len() {
        assert(what.take(at) =~= what);
    } else {
        lemma_before_stays(manager, run, what);
        lemma_end_stays(manager, run, what.drop_last(), at);
    }
}

/// A mount succeeds only where nothing that it asked for failed.
pub proof fn law_nothing_failed_behind_success<F, E>(
    manager: ManagerView<F>,
    config: ConfigView,
    ready_path: Option<Seq<char>>,
    what: Seq<Happening<F, E>>,
    at: int,
    action: ActionView,
    reply: ReplyView<F, E>,
)
    requires
        mount_through(manager, fresh_run::<F, E>(config, ready_path), what).1.result()
            matches Some(Ok(_)),
        answered(manager, fresh_run::<F, E>(config, ready_path), what, at, action, reply),
    ensures
        !(reply is Failed),
        action == ActionView::EntryType ==> reply is Done,
{
    let run = fresh_run::<F, E>(config, ready_path);
    law_mount_keeps_stage(manager, config, ready_path, what.take(at));
    assert(what.take(at + 1).drop_last() =~= what.take(at));
    assert(what.take(at + 1).last() == what[at]);
    lemma_end_stays(manager, run, what, at + 1);
}

/// The types of the entries that the probe of a run has read were told, unless the run waits
/// for one now or has failed.
proof fn lemma_entries_told<F, E>(
    manager: ManagerView<F>,
    config: ConfigView,
    ready_path: Option<Seq<char>>,
    what: Seq<Happening<F, E>>,
)
    ensures
        ({
            let run = fresh_run::<F, E>(config, ready_path);
            let r = mount_through(manager, run, what).1;
            ||| entries_told(manager, run, what, what.len() - 1)
            ||| r.phase == MountPhaseView::Probing(ProbeStep::TypeRoot)
            ||| r.phase == MountPhaseView::Probing(ProbeStep::TypeReady)
            ||| r.failure is Some
        }),
    decreases what.len(),
{
    if what.len() > 0 {
        let run = fresh_run::<F, E>(config, ready_path);
        let end = what.len() - 1;
        let r = mount_through(manager, run, what).1;
        let r0 = mount_through(manager, run, what.drop_last()).1;
        lemma_before_stays(manager, run, what);
        law_mount_keeps_stage(manager, config, ready_path, what.drop_last());
        lemma_entries_told(manager, config, ready_path, what.drop_last());
        if !(r.phase == MountPhaseView::Probing(ProbeStep::TypeRoot)) && !(r.phase
            == MountPhaseView::Probing(ProbeStep::TypeReady)) && r.failure is None {
            assert forall|at: int, dir: Seq<u8>| #[trigger]
                answered(
                    manager,
                    run,
                    what,
                    at,
                    ActionView::ReadFirstEntry(dir),
                    ReplyView::FirstEntry { present: true },
                ) implies entry_told(manager, run, what, at, end) by {
                assert(at < end);
                if r0.phase == MountPhaseView::Probing(ProbeStep::TypeRoot) || r0.phase
                    == MountPhaseView::Probing(ProbeStep::TypeReady) {
                    assert(answered(
                        manager,
                        run,
                        what,
                        end,
                        ActionView::EntryType,
                        ReplyView::Done,
                    ));
                } else {
                    assert(answered(
                        manager,
                        run,
                        what.drop_last(),
                        at,
                        ActionView::ReadFirstEntry(dir),
                        ReplyView::FirstEntry { present: true },
                    ));
                    assert(entry_told(manager, run, what.drop_last(), at, end - 1));
                    let later = choose|later: int|
                        at < later <= end - 1 && #[trigger] answered(
                            manager,
                            run,
                            what.drop_last(),
                            later,
                            ActionView::EntryType,
                            ReplyView::Done,
                        );
                    assert(answered(
                        manager,
                        run,
                        what,
                        later,
                        ActionView::EntryType,
                        ReplyView::Done,
                    ));
                }
            }
        }
    }
}

/// A run that is over without an error passed its probe.
proof fn lemma_probe_passed<F, E>(
    manager: ManagerView<F>,
    config: ConfigView,
    ready_path: Option<Seq<char>>,
    what: Seq<Happening<F, E>>,
) -> (at: int)
    requires
        mount_through(manager, fresh_run::<F, E>(config, ready_path), what).1.result()
            matches Some(Ok(_)),
    ensures
        passed_at(manager, fresh_run::<F, E>(config, ready_path), what, at),
    decreases what.len(),
{
    let run = fresh_run::<F, E>(config, ready_path);
    let r0 = mount_through(manager, run, what.drop_last()).1;
    law_mount_keeps_stage(manager, config, ready_path, what.drop_last());
    lemma_before_stays(manager, run, what);
    if r0.phase == MountPhaseView::Finished {
        let at = lemma_probe_passed(manager, config, ready_path, what.drop_last());
        assert(before(manager, run, what, at) == before(manager, run, what.drop_last(), at));
        assert(before(manager, run, what, at + 1) == before(
            manager,
            run,
            what.drop_last(),
            at + 1,
        ));
        at
    } else {
        what.len() - 1
    }
}

/// A mount succeeds only by a reply that has its probe passed; and by then, of each directory
/// that the probe read and found not to be empty, the type of the first entry was told.
pub proof fn law_probe_passed_behind_success<F, E>(
    manager: ManagerView<F>,
    config: ConfigView,
    ready_path: Option<Seq<char>>,
    what: Seq<Happening<F, E>>,
)
    requires
        mount_through(manager, fresh_run::<F, E>(config, ready_path), what).1.result()
            matches Some(Ok(_)),
    ensures
        exists|at: int| #[trigger]
            passed_at(manager, fresh_run::<F, E>(config, ready_path), what, at) && entries_told(
                manager,
                fresh_run::<F, E>(config, ready_path),
                what,
                at,
            ),
{
    let run = fresh_run::<F, E>(config, ready_path);
    let end = lemma_probe_passed(manager, config, ready_path, what);
    lemma_entries_told(manager, config, ready_path, what);
    assert forall|at: int, dir: Seq<u8>| #[trigger]
        answered(
            manager,
            run,
            what,
            at,
            ActionView::ReadFirstEntry(dir),
            ReplyView::FirstEntry { present: true },
        ) implies entry_told(manager, run, what, at, end) by {
        assert(entry_told(manager, run, what, at, what.len() - 1));
        let later = choose|later: int|
            at < later <= what.len() - 1 && #[trigger] answered(
                manager,
                run,
                what,
                later,
                ActionView::EntryType,
                ReplyView::Done,
            );
        if later > end {
            assert(what.take(later).take(end + 1) =~= what.take(end + 1));
            lemma_end_stays(manager, run, what.take(later), end + 1);
        }
    }
}

/// Whether a run has the saving of its state behind it.
spec fn past_saving<F, E>(run: MountView<F, E>) -> bool {
    match run.phase {
        MountPhaseView::AwaitStore => true,
        MountPhaseView::BuildFuse => true,
        MountPhaseView::StartFuse => true,
        MountPhaseView::Probing(_) => true,
        MountPhaseView::Finished => run.failure is None,
        _ => false,
    }
}

/// The text that a run is about to write to the state file.
spec fn text_to_write<F, E>(run: MountView<F, E>) -> Option<Seq<char>> {
    match run.phase {
        MountPhaseView::Saving(SaveStepView::MakeParent { parent, data }) => Some(data),
        MountPhaseView::Saving(SaveStepView::Write { data }) => Some(data),
        _ => None,
    }
}

/// A run writes the text that it was given, and is past saving once that is done.
proof fn lemma_saving_goes_on<F, E>(
    manager: ManagerView<F>,
    run: MountView<F, E>,
    what: Happening<F, E>,
)
    requires
        mount_sound(run),
    ensures
        ({
            let next = mount_happens(manager, run, what).1;
            &&& text_to_write(next) matches Some(data) ==> text_to_write(run) == Some(data) || (
            run.phase == MountPhaseView::Saving(SaveStepView::Encode) && what
                == Happening::Reply(ReplyView::<F, E>::Encoded(data)))
            &&& past_saving(next) ==> past_saving(run) || (run.phase matches MountPhaseView::Saving(
                SaveStepView::Write { .. },
            ) && what == Happening::Reply(ReplyView::<F, E>::Done))
        }),
{
}

/// The state that was written out stays so when more happens.
proof fn lemma_encoded_stays<F, E>(
    manager: ManagerView<F>,
    run: MountView<F, E>,
    what: Seq<Happening<F, E>>,
    at: int,
    data: Seq<char>,
)
    requires
        what.len() > 0,
        encoded_at(manager, run, what.drop_last(), at, data),
    ensures
        encoded_at(manager, run, what, at, data),
{
    lemma_before_stays(manager, run, what);
    assert(before(manager, run, what, at) == before(manager, run, what.drop_last(), at));
}

/// A run that is given the text of the state now is given that of the instances tracked now.
proof fn lemma_encoded_now<F, E>(
    manager: ManagerView<F>,
    config: ConfigView,
    ready_path: Option<Seq<char>>,
    what: Seq<Happening<F, E>>,
    data: Seq<char>,
)
    requires
        what.len() > 0,
        what.last() == Happening::Reply(ReplyView::<F, E>::Encoded(data)),
        mount_through(
            manager,
            fresh_run::<F, E>(config, ready_path),
            what.drop_last(),
        ).1.phase == MountPhaseView::Saving(SaveStepView::Encode),
    ensures
        encoded_at(manager, fresh_run::<F, E>(config, ready_path), what, what.len() - 1, data),
{
    let run = fresh_run::<F, E>(config, ready_path);
    let (m, r) = mount_through(manager, run, what.drop_last());
    law_mount_keeps_stage(manager, config, ready_path, what.drop_last());
    lemma_before_stays(manager, run, what);
    assert forall|action: ActionView| #[trigger] mount_asks(m, r, action) implies (
    action matches ActionView::EncodeState(list) && lists(list, m.instances) && list.contains(
        config,
    )) by {
        law_saved_state_tells_of_the_job(
            manager,
            config,
            ready_path,
            what.drop_last(),
            action->EncodeState_0,
        );
    }
}

/// The text that a run is about to write is that of the state, and past that it is written.
proof fn lemma_state_saved<F, E>(
    manager: ManagerView<F>,
    config: ConfigView,
    ready_path: Option<Seq<char>>,
    what: Seq<Happening<F, E>>,
) -> (when: (int, int, Seq<char>))
    ensures
        ({
            let run = fresh_run::<F, E>(config, ready_path);
            let r = mount_through(manager, run, what).1;
            &&& text_to_write(r) matches Some(data) ==> encoded_at(
                manager,
                run,
                what,
                when.0,
                data,
            )
            &&& past_saving(r) ==> saved_at(manager, run, what, when.0, when.1, when.2)
        }),
    decreases what.len(),
{
    let run = fresh_run::<F, E>(config, ready_path);
    if what.len() == 0 {
        (0, 0, Seq::empty())
    } else {
        let end = what.len() - 1;
        let (m0, r0) = mount_through(manager, run, what.drop_last());
        let r = mount_through(manager, run, what).1;
        let when = lemma_state_saved(manager, config, ready_path, what.drop_last());
        law_mount_keeps_stage(manager, config, ready_path, what.drop_last());
        lemma_saving_goes_on(m0, r0, what.last());
        lemma_before_stays(manager, run, what);
        if let Some(data) = text_to_write(r) {
            if text_to_write(r0) == Some(data) {
                lemma_encoded_stays(manager, run, what, when.0, data);
                when
            } else {
                lemma_encoded_now(manager, config, ready_path, what, data);
                (end, end, data)
            }
        } else if !past_saving(r) {
            when
        } else if past_saving(r0) {
            lemma_encoded_stays(manager, run, what, when.0, when.2);
            assert(before(manager, run, what, when.1) == before(
                manager,
                run,
                what.drop_last(),
                when.1,
            ));
            when
        } else {
            let data = text_to_write(r0)->0;
            lemma_encoded_stays(manager, run, what, when.0, data);
            (when.0, end, data)
        }
    }
}

/// A mount succeeds only after the state was saved: all the instances tracked by then, its own
/// among them, were written out as a text, and it was that text that went to the state file.
pub proof fn law_state_saved_behind_success<F, E>(
    manager: ManagerView<F>,
    config: ConfigView,
    ready_path: Option<Seq<char>>,
    what: Seq<Happening<F, E>>,
)
    requires
        mount_through(manager, fresh_run::<F, E>(config, ready_path), what).1.result()
            matches Some(Ok(_)),
    ensures
        exists|encoded: int, written: int, data: Seq<char>| #[trigger]
            saved_at(
                manager,
                fresh_run::<F, E>(config, ready_path),
                what,
                encoded,
                written,
                data,
            ),
{
    let when = lemma_state_saved(manager, config, ready_path, what);
    assert(saved_at(
        manager,
        fresh_run::<F, E>(config, ready_path),
        what,
        when.0,
        when.1,
        when.2,
    ));
}

} // verus!
