//! The manager of overlay instances: which jobs are mounted, and through which session.

use std::sync::Arc;

use vstd::prelude::*;
use vstd::string::*;

use crate::config::{AntaresConfig, AntaresPaths, ConfigView, PathsView};
use crate::jobs::JobTable;
use crate::save::{
    holds_last_of_each, lemma_by_job_holds_last, lemma_loaded_keyed, lists, load_state, loaded,
    table_view, StateRead, StateReadView,
};

verus! {

/// Tracks overlay instances. `D` is the Dicfuse that the layers lie on, `F` a FUSE session.
pub struct AntaresManager<D, F> {
    dic: Arc<D>,
    paths: AntaresPaths,
    instances: JobTable<AntaresConfig>,
    fuse_handles: JobTable<F>,
}

/// The model of `AntaresManager`.
#[verifier::ext_equal]
pub struct ManagerView<F> {
    /// Where layers and state are placed.
    pub paths: PathsView,
    /// The tracked instance of each job.
    pub instances: Map<Seq<char>, ConfigView>,
    /// The live session of each job.
    pub sessions: Map<Seq<char>, F>,
}

impl<F> ManagerView<F> {
    /// With `config` as the instance of its job.
    pub open spec fn tracking(self, config: ConfigView) -> ManagerView<F> {
        ManagerView { instances: self.instances.insert(config.job_id, config), ..self }
    }

    /// Without the instance of `job`.
    pub open spec fn untracking(self, job: Seq<char>) -> ManagerView<F> {
        ManagerView { instances: self.instances.remove(job), ..self }
    }

    /// With `fuse` as the session of `job`, where there is one to take.
    pub open spec fn attaching(self, job: Seq<char>, fuse: Option<F>) -> ManagerView<F> {
        match fuse {
            Some(f) => ManagerView { sessions: self.sessions.insert(job, f), ..self },
            None => self,
        }
    }

    /// Without the session of `job`.
    pub open spec fn detaching(self, job: Seq<char>) -> ManagerView<F> {
        ManagerView { sessions: self.sessions.remove(job), ..self }
    }

    /// The tracked instance of `job`.
    pub open spec fn instance(self, job: Seq<char>) -> Option<ConfigView> {
        if self.instances.contains_key(job) {
            Some(self.instances[job])
        } else {
            None
        }
    }

    /// The live session of `job`.
    pub open spec fn session(self, job: Seq<char>) -> Option<F> {
        if self.sessions.contains_key(job) {
            Some(self.sessions[job])
        } else {
            None
        }
    }

    /// Each instance is kept under its own job.
    pub open spec fn keyed(self) -> bool {
        forall|job: Seq<char>| #[trigger]
            self.instances.contains_key(job) ==> self.instances[job].job_id == job
    }
}

impl<D, F> View for AntaresManager<D, F> {
    type V = ManagerView<F>;

    closed spec fn view(&self) -> ManagerView<F> {
        ManagerView {
            paths: self.paths@,
            instances: table_view(self.instances),
            sessions: self.fuse_handles@,
        }
    }
}

/// The view of an optional instance.
pub open spec fn config_view(config: Option<AntaresConfig>) -> Option<ConfigView> {
    match config {
        Some(c) => Some(c@),
        None => None,
    }
}

/// Calls `Arc::clone`, which gives a second pointer to the same value.
#[verifier::external_body]
fn share<D>(shared: &Arc<D>) -> (res: Arc<D>)
    ensures
        res == *shared,
{
    Arc::clone(shared)
}

impl<D, F> AntaresManager<D, F> {
    #[verifier::type_invariant]
    spec fn well_formed(self) -> bool {
        self@.keyed()
    }

    /// The Dicfuse of the monorepo root.
    pub closed spec fn dic(self) -> Arc<D> {
        self.dic
    }

    /// A manager on `dic` that tracks what the state file gave back, or nothing where that
    /// could not be had.
    pub fn with_dicfuse<E>(paths: AntaresPaths, dic: Arc<D>, read: StateRead<E>) -> (res:
        AntaresManager<D, F>)
        ensures
            res.dic() == dic,
            res@ == (ManagerView {
                paths: paths@,
                instances: match loaded(read@) {
                    Ok(instances) => instances,
                    Err(_) => Map::empty(),
                },
                sessions: Map::<Seq<char>, F>::empty(),
            }),
            match read@ {
                StateReadView::Parsed(list) => holds_last_of_each(res@.instances, list),
                _ => res@.instances == Map::<Seq<char>, ConfigView>::empty(),
            },
    {
        let ghost before = read@;
        let instances = match load_state(read) {
            Ok(instances) => instances,
            Err(_) => {
                let instances = JobTable::new();
                assert(table_view(instances) =~= Map::empty());
                instances
            },
        };
        proof {
            lemma_loaded_keyed(before);
            if let StateReadView::Parsed(list) = before {
                lemma_by_job_holds_last(list);
            }
        }
        AntaresManager { dic, paths, instances, fuse_handles: JobTable::new() }
    }

    /// A manager on a Dicfuse that the caller provides.
    pub fn new_with_dicfuse<E>(paths: AntaresPaths, dic: Arc<D>, read: StateRead<E>) -> (res:
        AntaresManager<D, F>)
        ensures
            res.dic() == dic,
            res@ == (ManagerView {
                paths: paths@,
                instances: match loaded(read@) {
                    Ok(instances) => instances,
                    Err(_) => Map::empty(),
                },
                sessions: Map::<Seq<char>, F>::empty(),
            }),
            match read@ {
                StateReadView::Parsed(list) => holds_last_of_each(res@.instances, list),
                _ => res@.instances == Map::<Seq<char>, ConfigView>::empty(),
            },
    {
        Self::with_dicfuse(paths, dic, read)
    }

    /// Lists the tracked instances, each once, in no particular order.
    pub fn list(&self) -> (res: Vec<AntaresConfig>)
        ensures
            lists(res@.map_values(|config: AntaresConfig| config@), self@.instances),
    {
        proof {
            use_type_invariant(self);
        }
        let values = self.instances.values();
        let mut res: Vec<AntaresConfig> = Vec::new();
        let mut at: usize = 0;
        while at < values.len()
            invariant
                at <= values@.len(),
                res@.len() == at,
                forall|i: int| 0 <= i < at ==> (#[trigger] res@[i])@ == values@[i]@,
            decreases values@.len() - at,
        {
            res.push(values[at].clone());
            at = at + 1;
        }
        proof {
            let list = res@.map_values(|config: AntaresConfig| config@);
            let jobs = self.instances.jobs();
            assert forall|i: int| 0 <= i < list.len() implies (#[trigger] list[i]).job_id == jobs[i]
                && self@.instances.contains_key(jobs[i]) && self@.instances[jobs[i]] == list[i] by {
                assert(jobs.contains(jobs[i]));
                assert(self@.instances.contains_key(jobs[i]));
            }
            assert forall|job: Seq<char>| #[trigger]
                self@.instances.contains_key(job) implies exists|i: int|
                0 <= i < list.len() && (#[trigger] list[i]).job_id == job by {
                assert(jobs.contains(job));
                let i = choose|i: int| 0 <= i < jobs.len() && jobs[i] == job;
                assert(list[i].job_id == job);
            }
        }
        res
    }

    /// The Dicfuse of the monorepo root.
    pub fn dicfuse(&self) -> (res: Arc<D>)
        ensures
            res == self.dic(),
    {
        share(&self.dic)
    }

    /// Tells whether the session of a job is still alive: `is_session_alive` is asked of the
    /// session, and a job without one is not alive.
    pub fn is_job_alive<A: Fn(&F) -> bool>(&self, job_id: &str, is_session_alive: A) -> (res: bool)
        requires
            self@.sessions.contains_key(job_id@) ==> call_requires(
                is_session_alive,
                (&self@.sessions[job_id@],),
            ),
        ensures
            self@.sessions.contains_key(job_id@) ==> call_ensures(
                is_session_alive,
                (&self@.sessions[job_id@],),
                res,
            ),
            !self@.sessions.contains_key(job_id@) ==> !res,
    {
        match self.fuse_handles.get(job_id) {
            Some(fuse) => is_session_alive(fuse),
            None => false,
        }
    }

    /// The paths of the manager.
    pub(crate) fn paths(&self) -> (res: &AntaresPaths)
        ensures
            res@ == self@.paths,
    {
        &self.paths
    }

    /// The tracked instance of a job.
    pub(crate) fn instance(&self, job_id: &str) -> (res: Option<AntaresConfig>)
        ensures
            config_view(res) == self@.instance(job_id@),
            res matches Some(config) ==> config.job_id@ == job_id@,
    {
        proof {
            use_type_invariant(self);
        }
        match self.instances.get(job_id) {
            Some(config) => {
                assert(self@.instances.contains_key(job_id@));
                Some(config.clone())
            },
            None => None,
        }
    }

    /// Takes `config` as the instance of its job.
    pub(crate) fn track(&mut self, config: AntaresConfig)
        ensures
            final(self)@ == old(self)@.tracking(config@),
            final(self).dic() == old(self).dic(),
    {
        proof {
            use_type_invariant(&*self);
        }
        let mut instances = JobTable::new();
        assert(table_view(instances) =~= Map::empty());
        std::mem::swap(&mut instances, &mut self.instances);
        let ghost before = instances;
        let ghost whole = config;
        instances.insert(config.job_id.clone(), config);
        assert(table_view(instances) =~= table_view(before).insert(whole.job_id@, whole@));
        self.instances = instances;
    }

    /// Gives the instance of a job up.
    pub(crate) fn untrack(&mut self, job_id: &str) -> (res: Option<AntaresConfig>)
        ensures
            final(self)@ == old(self)@.untracking(job_id@),
            final(self).dic() == old(self).dic(),
            config_view(res) == old(self)@.instance(job_id@),
    {
        proof {
            use_type_invariant(&*self);
        }
        let mut instances = JobTable::new();
        assert(table_view(instances) =~= Map::empty());
        std::mem::swap(&mut instances, &mut self.instances);
        let ghost before = instances;
        let res = instances.remove(job_id);
        assert(table_view(instances) =~= table_view(before).remove(job_id@));
        self.instances = instances;
        res
    }

    /// Takes `fuse` as the session of a job.
    pub(crate) fn attach(&mut self, job_id: String, fuse: F)
        ensures
            final(self)@ == old(self)@.attaching(job_id@, Some(fuse)),
            final(self).dic() == old(self).dic(),
    {
        proof {
            use_type_invariant(&*self);
        }
        let mut handles = JobTable::new();
        std::mem::swap(&mut handles, &mut self.fuse_handles);
        handles.insert(job_id, fuse);
        self.fuse_handles = handles;
    }

    /// Gives the session of a job up.
    pub(crate) fn detach(&mut self, job_id: &str) -> (res: Option<F>)
        ensures
            final(self)@ == old(self)@.detaching(job_id@),
            final(self).dic() == old(self).dic(),
            res == old(self)@.session(job_id@),
    {
        proof {
            use_type_invariant(&*self);
        }
        let mut handles = JobTable::new();
        std::mem::swap(&mut handles, &mut self.fuse_handles);
        let res = handles.remove(job_id);
        self.fuse_handles = handles;
        res
    }
}

} // verus!
