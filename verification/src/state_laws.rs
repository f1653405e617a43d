//! What holds of the state file and of the instances that it keeps.

use vstd::prelude::*;

use crate::config::ConfigView;
use crate::outcome::{ErrorKind, ErrorView, FaultView};
use crate::save::{
    by_job, holds_last_of_each, is_last_of_its_job, lemma_by_job_holds_last, lists, loaded,
    StateReadView,
};

verus! {

/// Of several instances with the same job, the last one of the list counts.
pub proof fn law_last_instance_of_a_job_counts(list: Seq<ConfigView>, at: int)
    requires
        0 <= at < list.len(),
        forall|i: int| at < i < list.len() ==> (#[trigger] list[i]).job_id != list[at].job_id,
    ensures
        by_job(list).contains_key(list[at].job_id),
        by_job(list)[list[at].job_id] == list[at],
    decreases list.len(),
{
    if at < list.len() - 1 {
        law_last_instance_of_a_job_counts(list.drop_last(), at);
        assert(list[list.len() - 1].job_id != list[at].job_id);
    }
}

/// A list gives back no job that it does not hold.
pub proof fn law_no_other_jobs_are_loaded(list: Seq<ConfigView>, job: Seq<char>)
    requires
        by_job(list).contains_key(job),
    ensures
        exists|i: int| 0 <= i < list.len() && (#[trigger] list[i]).job_id == job,
    decreases list.len(),
{
    if list.last().job_id == job {
        assert(list[list.len() - 1].job_id == job);
    } else {
        law_no_other_jobs_are_loaded(list.drop_last(), job);
        let i = choose|i: int|
            0 <= i < list.drop_last().len() && (#[trigger] list.drop_last()[i]).job_id == job;
        assert(list[i].job_id == job);
    }
}

/// What is saved is what is loaded: a list of the tracked instances, in whatever order, gives
/// those instances back.
pub proof fn law_saved_instances_are_loaded(
    list: Seq<ConfigView>,
    instances: Map<Seq<char>, ConfigView>,
)
    requires
        lists(list, instances),
    ensures
        by_job(list) == instances,
{
    assert forall|job: Seq<char>|
        by_job(list).contains_key(job) <==> #[trigger] instances.contains_key(job) by {
        if by_job(list).contains_key(job) {
            law_no_other_jobs_are_loaded(list, job);
        }
        if instances.contains_key(job) {
            let i = choose|i: int| 0 <= i < list.len() && (#[trigger] list[i]).job_id == job;
            law_last_instance_of_a_job_counts(list, i);
        }
    }
    assert forall|job: Seq<char>| by_job(list).contains_key(job) implies #[trigger] by_job(list)[job]
        == instances[job] by {
        assert(instances.contains_key(job));
        let i = choose|i: int| 0 <= i < list.len() && (#[trigger] list[i]).job_id == job;
        law_last_instance_of_a_job_counts(list, i);
    }
    assert(by_job(list) =~= instances);
}

/// A list says of every job what is kept of it: two tables that hold the last instance of each
/// are the same.
pub proof fn law_one_table_holds_the_last_of_each(
    list: Seq<ConfigView>,
    a: Map<Seq<char>, ConfigView>,
    b: Map<Seq<char>, ConfigView>,
)
    requires
        holds_last_of_each(a, list),
        holds_last_of_each(b, list),
    ensures
        a == b,
{
    assert forall|job: Seq<char>| a.contains_key(job) <==> #[trigger] b.contains_key(job) by {
        if a.contains_key(job) {
            let at = choose|at: int| #[trigger]
                is_last_of_its_job(list, at) && list[at].job_id == job;
            assert(b.contains_key(list[at].job_id));
        }
        if b.contains_key(job) {
            let at = choose|at: int| #[trigger]
                is_last_of_its_job(list, at) && list[at].job_id == job;
            assert(a.contains_key(list[at].job_id));
        }
    }
    assert forall|job: Seq<char>| a.contains_key(job) implies #[trigger] a[job] == b[job] by {
        let at = choose|at: int| #[trigger] is_last_of_its_job(list, at) && list[at].job_id == job;
        assert(a[list[at].job_id] == list[at]);
        assert(b[list[at].job_id] == list[at]);
    }
    assert(a =~= b);
}

/// A state file that holds a list is loaded as that list: every job of it with the last
/// instance that it has of the job, whatever that says, and no other.
pub proof fn law_whole_list_is_loaded<E>(list: Seq<ConfigView>)
    ensures
        loaded(StateReadView::<E>::Parsed(list)) matches Ok(instances) && holds_last_of_each(
            instances,
            list,
        ),
{
    lemma_by_job_holds_last(list);
}

/// A state file that is not there is loaded as no instances, and one that cannot be had as the
/// error that tells why.
pub proof fn law_what_else_is_loaded<E>(fault: FaultView<E>, reason: Seq<char>)
    ensures
        loaded(StateReadView::<E>::Missing) == Ok::<_, ErrorView<E>>(
            Map::<Seq<char>, ConfigView>::empty(),
        ),
        loaded(StateReadView::Unreadable(fault)) == Err::<Map<Seq<char>, ConfigView>, _>(
            ErrorView::Io(fault),
        ),
        loaded(StateReadView::<E>::Malformed(reason)) == Err::<Map<Seq<char>, ConfigView>, _>(
            ErrorView::<E>::Raised {
                kind: ErrorKind::InvalidData,
                message: "parse state: "@ + reason,
            },
        ),
{
}

/// A manager is restarted with what it tracked: the list that it gives of its instances, read
/// back, is loaded as those instances, and a table that holds the last of each holds them.
pub proof fn law_restarted_manager_tracks_the_same<E>(
    list: Seq<ConfigView>,
    tracked_before: Map<Seq<char>, ConfigView>,
    tracked_after: Map<Seq<char>, ConfigView>,
)
    requires
        lists(list, tracked_before),
        holds_last_of_each(tracked_after, list),
    ensures
        tracked_after == tracked_before,
        loaded(StateReadView::<E>::Parsed(list)) == Ok::<_, ErrorView<E>>(tracked_before),
{
    law_saved_instances_are_loaded(list, tracked_before);
    lemma_by_job_holds_last(list);
    law_one_table_holds_the_last_of_each(list, tracked_after, tracked_before);
}

/// A list of the tracked instances holds each of them, once, and nothing else.
pub proof fn law_list_holds_each_instance_once(
    list: Seq<ConfigView>,
    instances: Map<Seq<char>, ConfigView>,
    config: ConfigView,
)
    requires
        lists(list, instances),
    ensures
        list.contains(config) <==> instances.contains_key(config.job_id)
            && instances[config.job_id] == config,
        list.no_duplicates(),
{
    if instances.contains_key(config.job_id) && instances[config.job_id] == config {
        let i = choose|i: int|
            0 <= i < list.len() && (#[trigger] list[i]).job_id == config.job_id;
        assert(list[i] == config);
    }
    assert forall|i: int, j: int|
        0 <= i < list.len() && 0 <= j < list.len() && i != j implies list[i] != list[j] by {
        if i < j {
            assert(list[i].job_id != list[j].job_id);
        } else {
            assert(list[j].job_id != list[i].job_id);
        }
    }
}

} // verus!
