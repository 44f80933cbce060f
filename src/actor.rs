use vstd::prelude::*;

verus! {

/// The application's transition function for one connection's state.
///
/// A transition that leaves the state unchanged says so by returning `None`
/// as the next state; only a changed state is rendered and published.
pub trait Reducer<A>: Sized {
    /// The state after `action`, or `None` where the action changes nothing.
    spec fn next(&self, action: A) -> Option<Self>;

    /// Whether `follow_up` is what the transition on `action` schedules for
    /// later delivery into the same action queue.
    spec fn schedules(&self, action: A, follow_up: Option<A>) -> bool;

    /// Applies one action: the changed state, if any, and a deferred action,
    /// if the transition schedules one.
    fn reduce(&self, action: &A) -> (r: (Option<Self>, Option<A>))
        ensures
            r.0 == self.next(*action),
            self.schedules(*action, r.1),
    ;
}

/// The state after one action: the next state, or the same one.
pub open spec fn after<S: Reducer<A>, A>(s: S, action: A) -> S {
    match s.next(action) {
        Some(t) => t,
        None => s,
    }
}

/// The state after a sequence of actions, applied in order.
pub open spec fn run_state<S: Reducer<A>, A>(s: S, actions: Seq<A>) -> S
    decreases actions.len(),
{
    if actions.len() == 0 {
        s
    } else {
        after(run_state(s, actions.drop_last()), actions.last())
    }
}

/// Whether the action at position `i` changes the state it meets.
pub open spec fn changes_at<S: Reducer<A>, A>(s: S, actions: Seq<A>, i: int) -> bool {
    run_state(s, actions.take(i)).next(actions[i]).is_some()
}

/// The positions of the actions whose step publishes a snapshot, in order.
pub open spec fn published_steps<S: Reducer<A>, A>(s: S, actions: Seq<A>) -> Seq<int>
    decreases actions.len(),
{
    if actions.len() == 0 {
        Seq::empty()
    } else {
        let p = published_steps(s, actions.drop_last());
        if run_state(s, actions.drop_last()).next(actions.last()).is_some() {
            p.push(actions.len() - 1)
        } else {
            p
        }
    }
}

/// Over a sequence of actions, at most one snapshot is published per action;
/// a snapshot is published exactly for the steps that change the state, and
/// the snapshots follow the order of the actions.
pub proof fn lemma_published_steps<S: Reducer<A>, A>(s: S, actions: Seq<A>)
    ensures
        published_steps(s, actions).len() <= actions.len(),
        forall|k: int|
            0 <= k < published_steps(s, actions).len() ==> 0 <= #[trigger] published_steps(
                s,
                actions,
            )[k] < actions.len(),
        forall|k: int, l: int|
            0 <= k < l < published_steps(s, actions).len() ==> published_steps(s, actions)[k]
                < published_steps(s, actions)[l],
        forall|i: int|
            0 <= i < actions.len() ==> (published_steps(s, actions).contains(i) <==> changes_at(
                s,
                actions,
                i,
            )),
    decreases actions.len(),
{
    if actions.len() > 0 {
        let d = actions.drop_last();
        lemma_published_steps(s, d);
        let p = published_steps(s, d);
        let n = actions.len() - 1;
        assert(actions.take(n) =~= d);
        let q = published_steps(s, actions);
        let changed = run_state(s, d).next(actions.last()).is_some();
        assert(changed ==> q == p.push(n));
        assert(!changed ==> q == p);
        assert forall|i: int| 0 <= i < actions.len() implies (#[trigger] q.contains(i)
            <==> changes_at(s, actions, i)) by {
            if i < n {
                assert(actions.take(i) =~= d.take(i));
                assert(actions[i] == d[i]);
                assert(changes_at(s, actions, i) == changes_at(s, d, i));
                if q.contains(i) {
                    let k = choose|k: int| 0 <= k < q.len() && q[k] == i;
                    if k < p.len() {
                        assert(q[k] == p[k]);
                    }
                    assert(p.contains(i));
                }
                if p.contains(i) {
                    let k = choose|k: int| 0 <= k < p.len() && p[k] == i;
                    assert(q[k] == i);
                }
            } else {
                assert(actions[i] == actions.last());
                assert(changes_at(s, actions, i) == changed);
                if changed {
                    assert(q[p.len() as int] == i);
                } else if q.contains(i) {
                    let k = choose|k: int| 0 <= k < q.len() && q[k] == i;
                    assert(p[k] < n);
                }
            }
        }
    }
}

/// What one step of the actor asks of its surroundings.
pub struct Effect<A> {
    /// The state changed: render it and publish the snapshot.
    pub publish: bool,
    /// An action to deliver back into this actor's queue after a delay.
    pub deferred: Option<A>,
}

/// Owns one connection's state and applies its actions one at a time.
pub struct StateActor<S> {
    pub state: S,
}

impl<S> StateActor<S> {
    pub fn new(initial: S) -> (r: StateActor<S>)
        ensures
            r.state == initial,
    {
        StateActor { state: initial }
    }

    /// Applies one action. The state is replaced only where the transition
    /// changed it, and only then is a snapshot to be published.
    pub fn process<A>(&mut self, action: &A) -> (r: Effect<A>)
        where
            S: Reducer<A>,
        ensures
            r.publish == old(self).state.next(*action).is_some(),
            final(self).state == after(old(self).state, *action),
            old(self).state.schedules(*action, r.deferred),
    {
        let (next, deferred) = self.state.reduce(action);
        match next {
            Some(t) => {
                self.state = t;
                Effect { publish: true, deferred }
            },
            None => Effect { publish: false, deferred },
        }
    }

    /// Applies a sequence of actions in order and returns the positions of
    /// those whose step publishes a snapshot. Deferred actions that the
    /// transitions schedule are not delivered here.
    pub fn process_all<A>(&mut self, actions: &Vec<A>) -> (published: Vec<usize>)
        where
            S: Reducer<A>,
        ensures
            published@.map_values(|i: usize| i as int) == published_steps(
                old(self).state,
                actions@,
            ),
            final(self).state == run_state(old(self).state, actions@),
    {
        let ghost s0 = self.state;
        let mut published: Vec<usize> = Vec::new();
        let mut i: usize = 0;
        while i < actions.len()
            invariant
                0 <= i <= actions@.len(),
                self.state == run_state(s0, actions@.take(i as int)),
                published@.map_values(|k: usize| k as int) == published_steps(
                    s0,
                    actions@.take(i as int),
                ),
            decreases actions@.len() - i,
        {
            let ghost before = self.state;
            let ghost prefix = actions@.take(i as int + 1);
            assert(prefix.drop_last() =~= actions@.take(i as int));
            let effect = self.process(&actions[i]);
            if effect.publish {
                published.push(i);
            }
            assert(published@.map_values(|k: usize| k as int) =~= published_steps(s0, prefix));
            i = i + 1;
        }
        assert(actions@.take(i as int) =~= actions@);
        published
    }
}

} // verus!
