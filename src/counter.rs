use vstd::prelude::*;

use crate::action::Action;
use crate::actor::Reducer;

verus! {

/// The actions of the counter application.
#[derive(PartialEq, Eq, Structural, Clone, Copy, Debug)]
pub enum CounterTag {
    Increment,
    Decrement,
}

pub open spec fn opposite(t: CounterTag) -> CounterTag {
    match t {
        CounterTag::Increment => CounterTag::Decrement,
        CounterTag::Decrement => CounterTag::Increment,
    }
}

/// The counter's state. A step that would leave the range of `u64`
/// (decrementing zero, incrementing the largest value) is rejected and
/// leaves the state unchanged.
#[derive(PartialEq, Eq, Structural, Clone, Copy, Debug)]
pub struct Counter {
    pub count: u64,
}

/// The count after one step, where the step is in range.
pub open spec fn stepped(count: u64, t: CounterTag) -> Option<u64> {
    match t {
        CounterTag::Increment => if count < u64::MAX {
            Some((count + 1) as u64)
        } else {
            None
        },
        CounterTag::Decrement => if count > 0 {
            Some((count - 1) as u64)
        } else {
            None
        },
    }
}

impl Counter {
    pub fn new() -> (r: Counter)
        ensures
            r.count == 0,
    {
        Counter { count: 0 }
    }
}

impl Reducer<Action<CounterTag>> for Counter {
    open spec fn next(&self, action: Action<CounterTag>) -> Option<Counter> {
        match stepped(self.count, action.tag) {
            Some(c) => Some(Counter { count: c }),
            None => None,
        }
    }

    /// A step that lands on an even count schedules the opposite action,
    /// with no auxiliary data; no other step schedules anything.
    open spec fn schedules(&self, action: Action<CounterTag>, follow_up: Option<Action<CounterTag>>) -> bool {
        match stepped(self.count, action.tag) {
            Some(c) if c % 2 == 0 => match follow_up {
                Some(f) => f.tag == opposite(action.tag) && f.associated@.len() == 0,
                None => false,
            },
            _ => follow_up is None,
        }
    }

    fn reduce(&self, action: &Action<CounterTag>) -> (r: (Option<Counter>, Option<Action<CounterTag>>)) {
        let count = match action.tag {
            CounterTag::Increment => {
                if self.count == u64::MAX {
                    return (None, None);
                }
                self.count + 1
            },
            CounterTag::Decrement => {
                if self.count == 0 {
                    return (None, None);
                }
                self.count - 1
            },
        };
        let follow_up = if count % 2 == 0 {
            let reaction = match action.tag {
                CounterTag::Increment => CounterTag::Decrement,
                CounterTag::Decrement => CounterTag::Increment,
            };
            Some(Action::new(reaction))
        } else {
            None
        };
        (Some(Counter { count }), follow_up)
    }
}

} // verus!
