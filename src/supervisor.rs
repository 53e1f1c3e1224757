use vstd::prelude::*;
use crate::idmap::IdMap;

verus! {

/// Failures of the process supervisor.
#[derive(Debug, Clone, Copy, PartialEq, Eq, Structural)]
pub enum ProcessError {
    /// The stored edition name is neither of the known ones.
    InvalidServerType,
    /// The resolved server binary does not exist.
    ExecutableNotFound,
    /// A process is already registered for the server.
    AlreadyRunning,
    /// The operating system refused to start the process.
    SpawnError,
    /// No process is registered for the server.
    NotRunning,
    /// The process could not be ended or waited for.
    KillFailed,
    /// No launch configuration is stored for the server.
    NotConfigured,
}

/// The registry of live server processes: at most one handle per server id.
///
/// `H` is whatever the embedding application uses to reach an OS process.
/// Besides the live handles it remembers the servers it was told to stop by
/// force, so that the next reap reports them as exits without a clean code.
pub struct ProcessManager<H> {
    handles: IdMap<H>,
    forced: Vec<i64>,
}

impl<H> View for ProcessManager<H> {
    type V = Map<i64, H>;

    closed spec fn view(&self) -> Map<i64, H> {
        self.handles@
    }
}

/// Ids of servers that appear in a list of exit observations.
pub open spec fn polled_ids(polled: Seq<(i64, Option<i32>)>) -> Set<i64> {
    Set::new(|k: i64| exists|j: int| 0 <= j < polled.len() && (#[trigger] polled[j]).0 == k)
}

/// The exits a reap reports for polled observations: each observation whose
/// server is still live, in order, the server counted once.
pub open spec fn reap_spec(polled: Seq<(i64, Option<i32>)>, live: Set<i64>) -> Seq<(i64, Option<i32>)>
    decreases polled.len(),
{
    if polled.len() == 0 {
        Seq::empty()
    } else if live.contains(polled[0].0) {
        seq![polled[0]] + reap_spec(polled.drop_first(), live.remove(polled[0].0))
    } else {
        reap_spec(polled.drop_first(), live)
    }
}

/// Forced stops reported as exits without an exit code.
pub open spec fn forced_exits(ids: Seq<i64>) -> Seq<(i64, Option<i32>)> {
    ids.map_values(|id: i64| (id, None::<i32>))
}

/// A reap reports only servers that it observed and that were live.
pub proof fn lemma_reap_spec_live(polled: Seq<(i64, Option<i32>)>, live: Set<i64>)
    ensures
        forall|i: int| 0 <= i < reap_spec(polled, live).len() ==> {
            &&& live.contains(#[trigger] reap_spec(polled, live)[i].0)
            &&& polled_ids(polled).contains(reap_spec(polled, live)[i].0)
        },
    decreases polled.len(),
{
    if polled.len() > 0 {
        let rest = polled.drop_first();
        assert forall|k: i64| polled_ids(rest).contains(k) implies polled_ids(polled).contains(k) by {
            let j = choose|j: int| 0 <= j < rest.len() && (#[trigger] rest[j]).0 == k;
            assert(polled[j + 1].0 == k);
        }
        assert(polled_ids(polled).contains(polled[0].0)) by {
            assert(polled[0].0 == polled[0].0);
        }
        if live.contains(polled[0].0) {
            let live2 = live.remove(polled[0].0);
            lemma_reap_spec_live(rest, live2);
            assert(reap_spec(polled, live) == seq![polled[0]] + reap_spec(rest, live2));
            assert forall|i: int| 0 <= i < reap_spec(polled, live).len() implies {
                &&& live.contains(#[trigger] reap_spec(polled, live)[i].0)
                &&& polled_ids(polled).contains(reap_spec(polled, live)[i].0)
            } by {
                if i > 0 {
                    assert(reap_spec(polled, live)[i] == reap_spec(rest, live2)[i - 1]);
                } else {
                    assert(reap_spec(polled, live)[i] == polled[0]);
                }
            }
        } else {
            lemma_reap_spec_live(rest, live);
            assert(reap_spec(polled, live) == reap_spec(rest, live));
        }
    }
}

fn position_of(v: &Vec<i64>, x: i64) -> (r: Option<usize>)
    ensures
        match r {
            Some(j) => j < v@.len() && v@[j as int] == x,
            None => !v@.contains(x),
        },
{
    let mut j: usize = 0;
    while j < v.len()
        invariant
            j <= v@.len(),
            forall|k: int| 0 <= k < j ==> v@[k] != x,
        decreases v@.len() - j,
    {
        if v[j] == x {
            return Some(j);
        }
        j = j + 1;
    }
    None
}

impl<H> ProcessManager<H> {
    pub closed spec fn wf(&self) -> bool {
        &&& self.handles.wf()
        &&& forall|i: int, j: int|
            0 <= i < self.forced@.len() && 0 <= j < self.forced@.len() && i != j
                ==> self.forced@[i] != self.forced@[j]
        &&& forall|i: int| 0 <= i < self.forced@.len() ==> !self.handles@.contains_key(#[trigger] self.forced@[i])
    }

    /// Servers stopped by force since the last reap, in order.
    pub closed spec fn pending(&self) -> Seq<i64> {
        self.forced@
    }

    /// Registered pairs in storage order.
    pub closed spec fn pairs(&self) -> Seq<(i64, H)> {
        self.handles.pairs()
    }

    /// No server id is registered twice; the pending forced stops are not
    /// registered.
    pub proof fn lemma_wf_facts(&self)
        requires
            self.wf(),
        ensures
            forall|i: int, j: int|
                0 <= i < self.pairs().len() && 0 <= j < self.pairs().len()
                    && (#[trigger] self.pairs()[i]).0 == (#[trigger] self.pairs()[j]).0 ==> i == j,
            forall|i: int| 0 <= i < self.pending().len() ==> !self@.contains_key(#[trigger] self.pending()[i]),
    {
        self.handles.lemma_pairs_match();
    }

    pub fn new() -> (r: Self)
        ensures
            r.wf(),
            r@ == Map::<i64, H>::empty(),
            r.pending() == Seq::<i64>::empty(),
    {
        ProcessManager { handles: IdMap::new(), forced: Vec::new() }
    }

    /// Whether a process is registered for the server.
    pub fn is_running(&self, server_id: i64) -> (r: bool)
        requires
            self.wf(),
        ensures
            r == self@.contains_key(server_id),
    {
        self.handles.contains_key(server_id)
    }

    /// The registered pairs, for the application to poll its processes.
    pub fn entries(&self) -> (r: &Vec<(i64, H)>)
        requires
            self.wf(),
        ensures
            r@ == self.pairs(),
            forall|i: int| 0 <= i < r@.len() ==> self@.contains_key(#[trigger] r@[i].0),
    {
        self.handles.entries()
    }

    /// Registers the handle of a freshly started process. A server that
    /// already has one is refused and the new handle handed back. A forced
    /// stop of the server still waiting to be reaped is superseded.
    pub fn register(&mut self, server_id: i64, handle: H) -> (r: Result<(), H>)
        requires
            old(self).wf(),
        ensures
            final(self).wf(),
            match r {
                Ok(()) => !old(self)@.contains_key(server_id)
                    && final(self)@ == old(self)@.insert(server_id, handle)
                    && final(self).pending().to_set() == old(self).pending().to_set().remove(server_id)
                    && (!old(self).pending().contains(server_id) ==> final(self).pending() == old(self).pending()),
                Err(h) => old(self)@.contains_key(server_id) && h == handle
                    && final(self)@ == old(self)@ && final(self).pending() == old(self).pending(),
            },
    {
        match self.handles.insert_new(server_id, handle) {
            Err(h) => Err(h),
            Ok(()) => {
                let ghost old_forced = self.forced@;
                let found = position_of(&self.forced, server_id);
                if let Some(j) = found {
                    let ghost last = old_forced.len() - 1;
                    self.forced.swap_remove(j);
                    proof {
                        assert forall|a: int| 0 <= a < self.forced@.len() implies
                            (#[trigger] self.forced@[a]) == old_forced[a] || (a == j && self.forced@[a] == old_forced[last]) by {}
                        assert(self.forced@.to_set() =~= old_forced.to_set().remove(server_id)) by {
                            assert forall|x: i64| old_forced.to_set().remove(server_id).contains(x)
                                implies self.forced@.to_set().contains(x) by {
                                let a = choose|a: int| 0 <= a < old_forced.len() && old_forced[a] == x;
                                if a == last {
                                    assert(self.forced@[j as int] == x);
                                } else {
                                    assert(self.forced@[a] == x);
                                }
                            }
                            assert forall|x: i64| self.forced@.to_set().contains(x)
                                implies old_forced.to_set().remove(server_id).contains(x) by {
                                let a = choose|a: int| 0 <= a < self.forced@.len() && self.forced@[a] == x;
                                if a == j {
                                    assert(old_forced[last] == x);
                                } else {
                                    assert(old_forced[a] == x);
                                }
                            }
                        }
                    }
                } else {
                    assert(self.forced@.to_set() =~= old_forced.to_set().remove(server_id));
                }
                Ok(())
            },
        }
    }

    /// A deliberate stop: removes the server's handle and hands it to the
    /// caller, which ends the process. Nothing is left for the next reap.
    /// Fails when nothing is registered for the server.
    pub fn stop_server(&mut self, server_id: i64) -> (r: Result<H, ProcessError>)
        requires
            old(self).wf(),
        ensures
            final(self).wf(),
            final(self)@ == old(self)@.remove(server_id),
            final(self).pending() == old(self).pending(),
            match r {
                Ok(h) => old(self)@.contains_key(server_id) && h == old(self)@[server_id],
                Err(e) => !old(self)@.contains_key(server_id) && e == ProcessError::NotRunning,
            },
    {
        match self.handles.remove(server_id) {
            Some(h) => Ok(h),
            None => Err(ProcessError::NotRunning),
        }
    }

    /// A stop by force, for a process that no longer answers: like
    /// `stop_server`, but the next reap reports the server as an exit
    /// without an exit code, so that crash handling takes over.
    pub fn force_stop(&mut self, server_id: i64) -> (r: Result<H, ProcessError>)
        requires
            old(self).wf(),
        ensures
            final(self).wf(),
            final(self)@ == old(self)@.remove(server_id),
            match r {
                Ok(h) => old(self)@.contains_key(server_id) && h == old(self)@[server_id]
                    && final(self).pending() == old(self).pending().push(server_id),
                Err(e) => !old(self)@.contains_key(server_id) && e == ProcessError::NotRunning
                    && final(self).pending() == old(self).pending(),
            },
    {
        match self.handles.remove(server_id) {
            Some(h) => {
                self.forced.push(server_id);
                Ok(h)
            },
            None => Err(ProcessError::NotRunning),
        }
    }

    /// Reports every process that exited since the previous reap and
    /// deregisters it: first the forced stops, then, from the observations
    /// the application made while polling its processes, each server that
    /// was registered, once, with its exit code.
    pub fn check_dead_processes(&mut self, polled: &Vec<(i64, Option<i32>)>) -> (r: Vec<(i64, Option<i32>)>)
        requires
            old(self).wf(),
        ensures
            final(self).wf(),
            final(self)@ == old(self)@.remove_keys(polled_ids(polled@)),
            final(self).pending() == Seq::<i64>::empty(),
            r@ == forced_exits(old(self).pending()) + reap_spec(polled@, old(self)@.dom()),
    {
        let ghost old_map = self@;
        let mut reported: Vec<(i64, Option<i32>)> = Vec::new();
        let mut f: usize = 0;
        while f < self.forced.len()
            invariant
                self.wf(),
                self@ == old_map,
                f <= self.forced@.len(),
                reported@ == forced_exits(self.forced@.subrange(0, f as int)),
            decreases self.forced@.len() - f,
        {
            reported.push((self.forced[f], None));
            proof {
                assert(forced_exits(self.forced@.subrange(0, f + 1)) =~= forced_exits(
                    self.forced@.subrange(0, f as int),
                ).push((self.forced@[f as int], None)));
            }
            f = f + 1;
        }
        proof {
            assert(self.forced@.subrange(0, self.forced@.len() as int) =~= self.forced@);
        }
        self.forced = Vec::new();
        let ghost head = reported@;
        let mut i: usize = 0;
        proof {
            assert(polled@.subrange(0, polled@.len() as int) =~= polled@);
            assert(old_map.remove_keys(polled_ids(polled@.subrange(0, 0))) =~= old_map);
        }
        while i < polled.len()
            invariant
                self.wf(),
                self.forced@ == Seq::<i64>::empty(),
                i <= polled@.len(),
                self@ == old_map.remove_keys(polled_ids(polled@.subrange(0, i as int))),
                reported@.subrange(0, head.len() as int) == head,
                head.len() <= reported@.len(),
                reported@.subrange(head.len() as int, reported@.len() as int)
                    + reap_spec(polled@.subrange(i as int, polled@.len() as int), self@.dom())
                    == reap_spec(polled@, old_map.dom()),
            decreases polled@.len() - i,
        {
            let ghost before = self@;
            let ghost tail_before = reported@.subrange(head.len() as int, reported@.len() as int);
            let ghost rest = polled@.subrange(i as int, polled@.len() as int);
            assert(rest.drop_first() =~= polled@.subrange(i + 1, polled@.len() as int));
            let (id, code) = polled[i];
            proof {
                assert(polled_ids(polled@.subrange(0, i + 1)) =~= polled_ids(polled@.subrange(0, i as int)).insert(id)) by {
                    assert forall|k: i64| polled_ids(polled@.subrange(0, i + 1)).contains(k) implies
                        polled_ids(polled@.subrange(0, i as int)).insert(id).contains(k) by {
                        let j = choose|j: int| 0 <= j < i + 1 && (#[trigger] polled@.subrange(0, i + 1)[j]).0 == k;
                        if j < i {
                            assert(polled@.subrange(0, i as int)[j].0 == k);
                        }
                    }
                    assert forall|k: i64| polled_ids(polled@.subrange(0, i as int)).insert(id).contains(k) implies
                        polled_ids(polled@.subrange(0, i + 1)).contains(k) by {
                        if k == id {
                            assert(polled@.subrange(0, i + 1)[i as int].0 == k);
                        } else {
                            let j = choose|j: int| 0 <= j < i && (#[trigger] polled@.subrange(0, i as int)[j]).0 == k;
                            assert(polled@.subrange(0, i + 1)[j].0 == k);
                        }
                    }
                }
            }
            match self.handles.remove(id) {
                Some(_) => {
                    reported.push((id, code));
                    proof {
                        assert(self@.dom() =~= before.dom().remove(id));
                        assert(reported@.subrange(0, head.len() as int) =~= head);
                        assert(reported@.subrange(head.len() as int, reported@.len() as int)
                            =~= tail_before.push((id, code)));
                        assert(tail_before.push((id, code)) + reap_spec(rest.drop_first(), self@.dom())
                            =~= tail_before + reap_spec(rest, before.dom()));
                    }
                },
                None => {
                    assert(self@ =~= before);
                },
            }
            proof {
                assert(self@ =~= old_map.remove_keys(polled_ids(polled@.subrange(0, i + 1))));
            }
            i = i + 1;
        }
        proof {
            assert(reported@ =~= head + reported@.subrange(head.len() as int, reported@.len() as int));
        }
        reported
    }
}

/// Once a reap reports a server, the server is no longer registered.
pub proof fn lemma_reaped_not_registered<H>(
    before: ProcessManager<H>,
    after: ProcessManager<H>,
    polled: Seq<(i64, Option<i32>)>,
    reported: Seq<(i64, Option<i32>)>,
)
    requires
        before.wf(),
        after@ == before@.remove_keys(polled_ids(polled)),
        reported == forced_exits(before.pending()) + reap_spec(polled, before@.dom()),
    ensures
        forall|i: int| 0 <= i < reported.len() ==> !after@.contains_key(#[trigger] reported[i].0),
{
    before.lemma_wf_facts();
    lemma_reap_spec_live(polled, before@.dom());
    let head = forced_exits(before.pending());
    assert forall|i: int| 0 <= i < reported.len() implies !after@.contains_key(#[trigger] reported[i].0) by {
        if i < head.len() {
            assert(reported[i].0 == before.pending()[i]);
        } else {
            assert(reported[i] == reap_spec(polled, before@.dom())[i - head.len()]);
        }
    }
}

/// The registry never holds two handles for one server.
pub proof fn lemma_one_handle_per_server<H>(pm: ProcessManager<H>, server_id: i64)
    requires
        pm.wf(),
    ensures
        forall|i: int, j: int|
            0 <= i < pm.pairs().len() && 0 <= j < pm.pairs().len()
                && (#[trigger] pm.pairs()[i]).0 == server_id && (#[trigger] pm.pairs()[j]).0 == server_id
                ==> i == j,
{
    pm.lemma_wf_facts();
}

} // verus!
