//! Prompts queued behind a session's running turn: each session's queue,
//! from which a prompt the user typed is adopted before a queued goal
//! continuation, and which an abort drops.

use vstd::prelude::*;
use crate::text::{owned, str_eq};
use crate::prompt_request::SessionPromptRequest;
use crate::text_map::{pairs_map, distinct_keys, lemma_pairs_map_lookup, lemma_pairs_map_set, lemma_pairs_map_remove};

verus! {

/// A prompt queued behind a running turn: the request, whether plugin
/// configuration hooks apply to it, and the goal generation it continues
/// when it is a goal continuation.
pub struct QueuedFollowup<P> {
    pub request: P,
    pub apply_plugin_config_hooks: bool,
    pub auto_continuation_goal_generation: Option<u64>,
}

/// The queue of a session in the queues, none where it has none.
pub open spec fn queue_of<P>(m: Map<Seq<char>, Seq<QueuedFollowup<P>>>, s: Seq<char>) -> Seq<QueuedFollowup<P>> {
    if m.dom().contains(s) {
        m[s]
    } else {
        Seq::empty()
    }
}

/// The position of the first prompt the user typed, if any.
pub open spec fn first_human<P>(q: Seq<QueuedFollowup<P>>) -> Option<int>
    decreases q.len(),
{
    if q.len() == 0 {
        None
    } else if q[0].auto_continuation_goal_generation is None {
        Some(0)
    } else {
        match first_human(q.drop_first()) {
            Some(i) => Some(i + 1),
            None => None,
        }
    }
}

/// The position of the prompt adopted next: the first the user typed, else
/// the oldest.
pub open spec fn pick_spec<P>(q: Seq<QueuedFollowup<P>>) -> Option<int> {
    match first_human(q) {
        Some(i) => Some(i),
        None => if q.len() > 0 {
            Some(0)
        } else {
            None
        },
    }
}

proof fn lemma_first_human_range<P>(q: Seq<QueuedFollowup<P>>)
    ensures
        first_human(q) matches Some(i) ==> 0 <= i < q.len() && q[i].auto_continuation_goal_generation is None
            && forall|j: int| 0 <= j < i ==> q[j].auto_continuation_goal_generation is Some,
        first_human(q) is None ==> forall|j: int| 0 <= j < q.len() ==> q[j].auto_continuation_goal_generation is Some,
    decreases q.len(),
{
    if q.len() > 0 {
        lemma_first_human_range(q.drop_first());
        if q[0].auto_continuation_goal_generation is Some {
            assert forall|j: int| 1 <= j < q.len() implies q[j] == q.drop_first()[j - 1] by {}
        }
    }
}

/// The queued prompts of every session.
pub struct FollowupQueues<P> {
    entries: Vec<(String, Vec<QueuedFollowup<P>>)>,
}

impl<P> FollowupQueues<P> {
    /// The sessions and their queues, as a list.
    pub closed spec fn pairs(&self) -> Seq<(Seq<char>, Seq<QueuedFollowup<P>>)> {
        self.entries@.map_values(|e: (String, Vec<QueuedFollowup<P>>)| (e.0@, e.1@))
    }

    /// The queue of each session that has one.
    pub closed spec fn view(&self) -> Map<Seq<char>, Seq<QueuedFollowup<P>>> {
        pairs_map(self.pairs())
    }

    /// Each session is held once.
    pub closed spec fn wf(&self) -> bool {
        distinct_keys(self.pairs())
    }

    /// No queued prompts.
    pub fn new() -> (q: Self)
        ensures
            q.wf(),
            q.view() == Map::<Seq<char>, Seq<QueuedFollowup<P>>>::empty(),
    {
        let q = FollowupQueues { entries: Vec::new() };
        assert(q.pairs() =~= Seq::<(Seq<char>, Seq<QueuedFollowup<P>>)>::empty());
        q
    }

    fn find(&self, session_id: &str) -> (r: Option<usize>)
        requires
            self.wf(),
        ensures
            r is None ==> !self.view().dom().contains(session_id@),
            r matches Some(i) ==> i < self.entries@.len() && self.pairs()[i as int].0 == session_id@
                && self.view().dom().contains(session_id@) && self.view()[session_id@] == self.pairs()[i as int].1,
    {
        let mut i: usize = 0;
        while i < self.entries.len()
            invariant
                self.wf(),
                i <= self.entries@.len(),
                forall|j: int| 0 <= j < i ==> self.pairs()[j].0 != session_id@,
            decreases self.entries@.len() - i,
        {
            if str_eq(self.entries[i].0.as_str(), session_id) {
                proof {
                    lemma_pairs_map_lookup(self.pairs(), session_id@);
                }
                return Some(i);
            }
            i = i + 1;
        }
        proof {
            lemma_pairs_map_lookup(self.pairs(), session_id@);
        }
        None
    }

    /// Queues a prompt behind the session's running turn; the number of
    /// prompts now queued for it.
    pub fn enqueue(&mut self, session_id: &str, queued: QueuedFollowup<P>) -> (r: usize)
        requires
            old(self).wf(),
        ensures
            final(self).wf(),
            final(self).view() == old(self).view().insert(
                session_id@,
                queue_of(old(self).view(), session_id@).push(queued),
            ),
            r == queue_of(old(self).view(), session_id@).len() + 1,
    {
        let ghost before = self.pairs();
        let ghost item = queued;
        match self.find(session_id) {
            Some(i) => {
                let (key, mut q) = self.entries.remove(i);
                let ghost qv = q@;
                proof {
                    assert(qv == before[i as int].1);
                }
                q.push(queued);
                let n = q.len();
                self.entries.insert(i, (key, q));
                proof {
                    assert(self.pairs() =~= before.update(i as int, (before[i as int].0, qv.push(item))));
                    lemma_pairs_map_set(before, i as int, qv.push(item));
                }
                n
            },
            None => {
                let mut q: Vec<QueuedFollowup<P>> = Vec::new();
                q.push(queued);
                let ghost qv = q@;
                self.entries.push((owned(session_id), q));
                proof {
                    assert(qv =~= Seq::<QueuedFollowup<P>>::empty().push(item));
                    assert(self.pairs() =~= before.push((session_id@, qv)));
                    lemma_pairs_map_lookup(before, session_id@);
                    assert(self.pairs().drop_last() =~= before);
                }
                1
            },
        }
    }

    /// Adopts the next queued prompt of a session, as `pick_spec` chooses it,
    /// taking it out of the queue.
    pub fn take(&mut self, session_id: &str) -> (r: Option<QueuedFollowup<P>>)
        requires
            old(self).wf(),
        ensures
            final(self).wf(),
            ({
                let q = queue_of(old(self).view(), session_id@);
                match pick_spec(q) {
                    None => r is None && final(self).view() == old(self).view(),
                    Some(i) => r == Some(q[i]) && final(self).view() == old(self).view().insert(session_id@, q.remove(i)),
                }
            }),
    {
        let ghost before = self.pairs();
        let i = match self.find(session_id) {
            Some(i) => i,
            None => return None,
        };
        let (key, mut q) = self.entries.remove(i);
        let ghost qv = q@;
        proof {
            assert(qv == before[i as int].1);
            lemma_first_human_range(qv);
        }
        let mut k: usize = 0;
        while k < q.len() && q[k].auto_continuation_goal_generation.is_some()
            invariant
                k <= q@.len(),
                q@ == qv,
                forall|j: int| 0 <= j < k ==> qv[j].auto_continuation_goal_generation is Some,
            decreases q@.len() - k,
        {
            k = k + 1;
        }
        if q.len() == 0 {
            self.entries.insert(i, (key, q));
            proof {
                assert(self.pairs() =~= before);
            }
            return None;
        }
        let pick = if k < q.len() {
            proof {
                if first_human(qv) is Some {
                    let h = first_human(qv)->0;
                    if h < k {
                        assert(qv[h].auto_continuation_goal_generation is Some);
                    }
                    if h > k {
                        assert(qv[k as int].auto_continuation_goal_generation is Some);
                    }
                }
            }
            k
        } else {
            0
        };
        let item = q.remove(pick);
        let ghost rest = q@;
        self.entries.insert(i, (key, q));
        proof {
            assert(self.pairs() =~= before.update(i as int, (before[i as int].0, rest)));
            lemma_pairs_map_set(before, i as int, rest);
        }
        Some(item)
    }

    /// Drops every queued prompt of a session; how many there were.
    pub fn drain(&mut self, session_id: &str) -> (r: usize)
        requires
            old(self).wf(),
        ensures
            final(self).wf(),
            final(self).view() == old(self).view().remove(session_id@),
            r == queue_of(old(self).view(), session_id@).len(),
    {
        let ghost before = self.pairs();
        match self.find(session_id) {
            Some(i) => {
                let (_key, q) = self.entries.remove(i);
                proof {
                    assert(self.pairs() =~= before.remove(i as int));
                    lemma_pairs_map_remove(before, i as int);
                }
                q.len()
            },
            None => {
                proof {
                    assert(old(self).view().remove(session_id@) =~= old(self).view());
                }
                0
            },
        }
    }
}

/// A prompt the user typed is adopted before every queued goal
/// continuation, and prompts of one kind are adopted oldest first.
pub proof fn lemma_human_prompts_first<P>(q: Seq<QueuedFollowup<P>>)
    ensures
        pick_spec(q) matches Some(i) ==> 0 <= i < q.len() && (q[i].auto_continuation_goal_generation is None || forall|
            j: int,
        | 0 <= j < q.len() ==> q[j].auto_continuation_goal_generation is Some) && forall|j: int|
            0 <= j < i ==> q[j].auto_continuation_goal_generation is Some,
        q.len() > 0 ==> pick_spec(q) is Some,
{
    lemma_first_human_range(q);
}

/// A queued prompt as adopted: its request marked with the goal generation
/// it was queued for (none for a prompt the user typed), so that a goal
/// continuation is checked against its generation when it runs.
pub open spec fn adopted_spec<Q>(f: QueuedFollowup<SessionPromptRequest<Q>>) -> QueuedFollowup<
    SessionPromptRequest<Q>,
> {
    QueuedFollowup {
        request: SessionPromptRequest {
            auto_continuation_goal_generation: f.auto_continuation_goal_generation,
            ..f.request
        },
        ..f
    }
}

/// Adopts a queued prompt, as `adopted_spec` says.
pub fn adopt_followup<Q>(queued: QueuedFollowup<SessionPromptRequest<Q>>) -> (r: QueuedFollowup<
    SessionPromptRequest<Q>,
>)
    ensures
        r == adopted_spec(queued),
{
    let mut q = queued;
    q.request.auto_continuation_goal_generation = q.auto_continuation_goal_generation;
    q
}

/// Takes the next queued prompt of a session, as `FollowupQueues::take`
/// picks it (a prompt the user typed before any goal continuation, each kind
/// oldest first), and adopts it: its request carries the goal generation it
/// was queued for. A session with no queued prompt gives none and leaves the
/// queues as they are.
pub fn take_followup_prompt<Q>(queues: &mut FollowupQueues<SessionPromptRequest<Q>>, session_id: &str) -> (r:
    Option<QueuedFollowup<SessionPromptRequest<Q>>>)
    requires
        old(queues).wf(),
    ensures
        final(queues).wf(),
        ({
            let q = queue_of(old(queues).view(), session_id@);
            match pick_spec(q) {
                None => r is None && final(queues).view() == old(queues).view(),
                Some(i) => r == Some(adopted_spec(q[i])) && final(queues).view() == old(queues).view().insert(
                    session_id@,
                    q.remove(i),
                ),
            }
        }),
{
    match queues.take(session_id) {
        Some(item) => Some(adopt_followup(item)),
        None => None,
    }
}

} // verus!
