//! Observers: what is recorded around the runs of a target.

use vstd::prelude::*;
use crate::error::Error;
use crate::executor::ExitKind;

verus! {

/// The moment at which observers are notified.
pub enum Moment {
    /// Before a run.
    PreExec,
    /// After a run that ended in this way.
    PostExec(ExitKind),
    /// Before a run, in the child process.
    PreExecChild,
    /// After a run that ended in this way, in the child process.
    PostExecChild(ExitKind),
}

/// A collection of observers that are notified around each run.
///
/// An implementation chooses `may_notify`, the relation that its four notifications
/// keep to. One that chooses none promises nothing.
pub trait ObserversTuple<I, S>: Sized {
    /// Whether a notification at `moment` may turn `before` and `state` into `after` and
    /// `state_after`, and return `result`.
    open spec fn may_notify(
        before: Self,
        moment: Moment,
        state: S,
        input: I,
        after: Self,
        state_after: S,
        result: Result<(), Error>,
    ) -> bool {
        true
    }

    /// Notifies all observers before a run.
    fn pre_exec_all(&mut self, state: &mut S, input: &I) -> (result: Result<(), Error>)
        ensures
            Self::may_notify(
                *old(self),
                Moment::PreExec,
                *old(state),
                *input,
                *final(self),
                *final(state),
                result,
            ),
    ;

    /// Notifies all observers after a run.
    fn post_exec_all(&mut self, state: &mut S, input: &I, exit_kind: &ExitKind) -> (result: Result<
        (),
        Error,
    >)
        ensures
            Self::may_notify(
                *old(self),
                Moment::PostExec(*exit_kind),
                *old(state),
                *input,
                *final(self),
                *final(state),
                result,
            ),
    ;

    /// Notifies all observers before a run, in the child process.
    fn pre_exec_child_all(&mut self, state: &mut S, input: &I) -> (result: Result<(), Error>)
        ensures
            Self::may_notify(
                *old(self),
                Moment::PreExecChild,
                *old(state),
                *input,
                *final(self),
                *final(state),
                result,
            ),
    ;

    /// Notifies all observers after a run, in the child process.
    fn post_exec_child_all(&mut self, state: &mut S, input: &I, exit_kind: &ExitKind) -> (result:
        Result<(), Error>)
        ensures
            Self::may_notify(
                *old(self),
                Moment::PostExecChild(*exit_kind),
                *old(state),
                *input,
                *final(self),
                *final(state),
                result,
            ),
    ;
}

/// Lookup of an observer of type `T` by its name.
///
/// An implementation gives `named`, what a lookup finds. It may choose `bears`, for which
/// observers it promises that one left in a place of that name is found there later, and
/// `may_lend`, what else a mutable lookup may do. One that chooses none promises nothing
/// beyond `named`.
pub trait MatchName<T>: Sized {
    /// The observer of that name, if there is one.
    open spec fn named(&self, name: Seq<char>) -> Option<T> {
        arbitrary()
    }

    /// Whether an observer bears that name, so that it is found under it.
    open spec fn bears(observer: T, name: Seq<char>) -> bool {
        false
    }

    /// Whether a mutable lookup may turn `before` into `after` when it lends out nothing,
    /// or a value that is the first of `lent` at first and the second in the end.
    open spec fn may_lend(
        before: Self,
        name: Seq<char>,
        lent: Option<(T, T)>,
        after: Self,
    ) -> bool {
        true
    }

    /// Finds the observer of that name.
    fn match_name(&self, name: &str) -> (found: Option<&T>)
        ensures
            match found {
                Some(t) => self.named(name@) == Some(*t),
                None => self.named(name@) is None,
            },
    ;

    /// Finds the observer of that name and lends it out for changes. If it bears the name
    /// still when it comes back, it is found as it was left.
    fn match_name_mut(&mut self, name: &str) -> (found: Option<&mut T>)
        ensures
            match found {
                Some(t) => {
                    &&& old(self).named(name@) == Some(*t)
                    &&& Self::bears(*final(t), name@) ==> final(self).named(name@) == Some(
                        *final(t),
                    )
                    &&& Self::may_lend(
                        *old(self),
                        name@,
                        Some((*t, *final(t))),
                        *final(self),
                    )
                },
                None => {
                    &&& old(self).named(name@) is None
                    &&& final(self).named(name@) is None
                    &&& Self::may_lend(*old(self), name@, None, *final(self))
                },
            },
    ;
}

/// Access to the observers of an executor.
///
/// An implementation gives `shown`, its current observers. It may choose `may_replace`,
/// what lending them out for changes may do besides.
pub trait HasObservers<OT>: Sized {
    /// The current observers.
    open spec fn shown(&self) -> OT {
        arbitrary()
    }

    /// Whether lending out the observers may turn `before` into `after` when they end as
    /// `observers`.
    open spec fn may_replace(before: Self, observers: OT, after: Self) -> bool {
        true
    }

    /// The current observers.
    fn observers(&self) -> (observers: &OT)
        ensures
            *observers == self.shown(),
    ;

    /// The current observers, lent out for changes. As they were left, they are the current
    /// ones afterwards.
    fn observers_mut(&mut self) -> (observers: &mut OT)
        ensures
            *observers == old(self).shown(),
            final(self).shown() == *final(observers),
            Self::may_replace(*old(self), *final(observers), *final(self)),
    ;
}

/// The observer of what a target writes to its standard output.
#[derive(Debug, Clone)]
pub struct StdOutObserver {
    /// The name of the observer.
    pub name: String,
    /// What the target wrote, once it ran.
    pub stdout: Option<String>,
}

impl StdOutObserver {
    /// An observer of that name that has observed nothing yet.
    pub fn new(name: &str) -> (observer: StdOutObserver)
        ensures
            observer.name@ == name@,
            observer.stdout is None,
    {
        StdOutObserver { name: name.to_owned(), stdout: None }
    }

    /// The name of the observer.
    pub fn name(&self) -> (name: &str)
        ensures
            name@ == self.name@,
    {
        self.name.as_str()
    }
}

/// An observer keeps its name and has observed nothing at first.
pub proof fn law_new_observer(name: &str, observer: StdOutObserver)
    requires
        call_ensures(StdOutObserver::new, (name,), observer),
    ensures
        observer.name@ == name@,
        observer.stdout is None,
{
}

} // verus!
