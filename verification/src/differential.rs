//! Differential execution: two executors that run after each other on the same input.

use vstd::prelude::*;
use core::marker::PhantomData;
use crate::error::Error;
use crate::executor::{Executor, ExitKind, DiffExitKind};
use crate::observer::{HasObservers, MatchName, Moment, ObserversTuple};

verus! {

/// An executor that runs a primary executor and then a secondary one.
#[derive(Debug)]
pub struct DiffExecutor<A, B, OTA, OTB> {
    pub primary: A,
    pub secondary: B,
    pub observers: PhantomData<(OTA, OTB)>,
}

/// How a differential run ends when its sides end in `first` and `second`: as both did
/// if they agree, else in a difference that keeps a summary of each.
pub open spec fn merged_exit_kind(first: ExitKind, second: ExitKind) -> ExitKind {
    if first == second {
        first
    } else {
        ExitKind::Diff {
            primary: crate::executor::diff_exit_kind(first),
            secondary: crate::executor::diff_exit_kind(second),
        }
    }
}

/// The exit kind of a differential run from those of its sides.
pub fn merge_exit_kinds(first: ExitKind, second: ExitKind) -> (merged: ExitKind)
    ensures
        merged == merged_exit_kind(first, second),
{
    if first == second {
        first
    } else {
        // The sides ended differently.
        ExitKind::Diff {
            primary: DiffExitKind::from(first),
            secondary: DiffExitKind::from(second),
        }
    }
}

impl<A, B, OTA, OTB> DiffExecutor<A, B, OTA, OTB> {
    /// Wraps the two executors.
    pub fn new(primary: A, secondary: B) -> (executor: Self)
        ensures
            executor.primary == primary,
            executor.secondary == secondary,
    {
        DiffExecutor { primary, secondary, observers: PhantomData }
    }

    /// The primary executor, lent out for changes.
    pub fn primary(&mut self) -> (primary: &mut A)
        ensures
            *primary == old(self).primary,
            final(self).primary == *final(primary),
            final(self).secondary == old(self).secondary,
    {
        &mut self.primary
    }

    /// The secondary executor, lent out for changes.
    pub fn secondary(&mut self) -> (secondary: &mut B)
        ensures
            *secondary == old(self).secondary,
            final(self).secondary == *final(secondary),
            final(self).primary == old(self).primary,
    {
        &mut self.secondary
    }
}

impl<A, B, EM, I, OTA, OTB, S, Z> Executor<EM, I, S, Z> for DiffExecutor<A, B, OTA, OTB> where
    A: Executor<EM, I, S, Z>,
    B: Executor<EM, I, S, Z>,
 {
    /// The primary executor runs first. If it fails, its error is the result and nothing
    /// else happens. Else it is reset, and the secondary executor runs on the same input,
    /// from where the primary left the fuzzer, the state and the event manager. If that
    /// fails, its error is the result; else it is reset, and the result merges both exit
    /// kinds.
    open spec fn may_run(
        before: Self,
        fuzzer: Z,
        state: S,
        mgr: EM,
        input: I,
        after: Self,
        fuzzer_after: Z,
        state_after: S,
        mgr_after: EM,
        result: Result<ExitKind, Error>,
    ) -> bool {
        exists|ran: A, fuzzer_mid: Z, state_mid: S, mgr_mid: EM, first: Result<ExitKind, Error>|
            {
                &&& #[trigger] A::may_run(
                    before.primary,
                    fuzzer,
                    state,
                    mgr,
                    input,
                    ran,
                    fuzzer_mid,
                    state_mid,
                    mgr_mid,
                    first,
                )
                &&& match first {
                    Err(_) => {
                        &&& result == first
                        &&& after.primary == ran
                        &&& after.secondary == before.secondary
                        &&& fuzzer_after == fuzzer_mid
                        &&& state_after == state_mid
                        &&& mgr_after == mgr_mid
                    },
                    Ok(first_kind) => {
                        &&& A::may_reset(ran, after.primary)
                        &&& exists|ran_second: B, second: Result<ExitKind, Error>|
                            {
                                &&& #[trigger] B::may_run(
                                    before.secondary,
                                    fuzzer_mid,
                                    state_mid,
                                    mgr_mid,
                                    input,
                                    ran_second,
                                    fuzzer_after,
                                    state_after,
                                    mgr_after,
                                    second,
                                )
                                &&& match second {
                                    Err(_) => result == second && after.secondary == ran_second,
                                    Ok(second_kind) => {
                                        &&& B::may_reset(ran_second, after.secondary)
                                        &&& result == Ok::<ExitKind, Error>(
                                            merged_exit_kind(first_kind, second_kind),
                                        )
                                    },
                                }
                            }
                    },
                }
            }
    }

    /// Its sides are reset within each run: a reset of the whole changes nothing.
    open spec fn may_reset(before: Self, after: Self) -> bool {
        before == after
    }

    fn run_target(&mut self, fuzzer: &mut Z, state: &mut S, mgr: &mut EM, input: &I) -> (result:
        Result<ExitKind, Error>) {
        let first = self.primary.run_target(fuzzer, state, mgr, input);
        let ghost ran = self.primary;
        let ghost fuzzer_mid = *fuzzer;
        let ghost state_mid = *state;
        let ghost mgr_mid = *mgr;
        assert(A::may_run(
            old(self).primary,
            *old(fuzzer),
            *old(state),
            *old(mgr),
            *input,
            ran,
            fuzzer_mid,
            state_mid,
            mgr_mid,
            first,
        ));
        let first_kind = match first {
            Ok(kind) => kind,
            Err(e) => {
                return Err(e);
            },
        };
        self.primary.post_run_reset();
        let second = self.secondary.run_target(fuzzer, state, mgr, input);
        assert(B::may_run(
            old(self).secondary,
            fuzzer_mid,
            state_mid,
            mgr_mid,
            *input,
            self.secondary,
            *fuzzer,
            *state,
            *mgr,
            second,
        ));
        let second_kind = match second {
            Ok(kind) => kind,
            Err(e) => {
                return Err(e);
            },
        };
        self.secondary.post_run_reset();
        Ok(merge_exit_kinds(first_kind, second_kind))
    }

    fn post_run_reset(&mut self) {
    }
}

/// The observers of both sides of a [`DiffExecutor`], for reading.
pub struct ProxyObserversRef<'a, A, B> {
    pub primary: &'a A,
    pub secondary: &'a B,
}

/// The observers of both sides of a [`DiffExecutor`], for changes.
pub struct ProxyObserversTuple<'a, A, B> {
    pub primary: &'a mut A,
    pub secondary: &'a mut B,
}

/// Whether a notification of primary and secondary observers may turn `before` and `state`
/// into `after` and `state_after`, and return `result`. The primary observers are notified
/// first. If that fails, its error is the result and nothing else happens; else the secondary
/// observers are notified.
pub open spec fn may_notify_both<A: ObserversTuple<I, S>, B: ObserversTuple<I, S>, I, S>(
    before: (A, B),
    moment: Moment,
    state: S,
    input: I,
    after: (A, B),
    state_after: S,
    result: Result<(), Error>,
) -> bool {
    exists|state_mid: S, first: Result<(), Error>|
        {
            &&& #[trigger] A::may_notify(
                before.0,
                moment,
                state,
                input,
                after.0,
                state_mid,
                first,
            )
            &&& match first {
                Err(_) => {
                    &&& result == first
                    &&& after.1 == before.1
                    &&& state_after == state_mid
                },
                Ok(()) => B::may_notify(
                    before.1,
                    moment,
                    state_mid,
                    input,
                    after.1,
                    state_after,
                    result,
                ),
            }
        }
}

/// A notification of the primary observers, followed by one of the secondary observers if
/// it did not fail, notifies both.
proof fn lemma_notified<A: ObserversTuple<I, S>, B: ObserversTuple<I, S>, I, S>(
    before: (A, B),
    moment: Moment,
    state: S,
    input: I,
    after: (A, B),
    state_mid: S,
    first: Result<(), Error>,
    state_after: S,
    result: Result<(), Error>,
)
    requires
        A::may_notify(before.0, moment, state, input, after.0, state_mid, first),
        first is Err ==> result == first && after.1 == before.1 && state_after == state_mid,
        first is Ok ==> B::may_notify(
            before.1,
            moment,
            state_mid,
            input,
            after.1,
            state_after,
            result,
        ),
    ensures
        may_notify_both(before, moment, state, input, after, state_after, result),
{
}

impl<'a, A, B, I, S> ObserversTuple<I, S> for ProxyObserversTuple<'a, A, B> where
    A: ObserversTuple<I, S>,
    B: ObserversTuple<I, S>,
 {
    /// Both sides are notified, the primary one first.
    open spec fn may_notify(
        before: Self,
        moment: Moment,
        state: S,
        input: I,
        after: Self,
        state_after: S,
        result: Result<(), Error>,
    ) -> bool {
        may_notify_both(
            (*before.primary, *before.secondary),
            moment,
            state,
            input,
            (*after.primary, *after.secondary),
            state_after,
            result,
        )
    }

    fn pre_exec_all(&mut self, state: &mut S, input: &I) -> (result: Result<
        (),
        Error,
    >)
        ensures
            *final(final(self).primary) == *final(old(self).primary),
            *final(final(self).secondary) == *final(old(self).secondary),
    {
        let first = self.primary.pre_exec_all(state, input);
        let ghost first_result = first;
        let ghost state_mid = *state;
        let result = if first.is_err() {
            first
        } else {
            self.secondary.pre_exec_all(state, input)
        };
        proof {
            lemma_notified::<A, B, I, S>(
                (*old(self).primary, *old(self).secondary),
                Moment::PreExec,
                *old(state),
                *input,
                (*self.primary, *self.secondary),
                state_mid,
                first_result,
                *state,
                result,
            );
        }
        result
    }

    fn post_exec_all(&mut self, state: &mut S, input: &I, exit_kind: &ExitKind) -> (result: Result<
        (),
        Error,
    >)
        ensures
            *final(final(self).primary) == *final(old(self).primary),
            *final(final(self).secondary) == *final(old(self).secondary),
    {
        let first = self.primary.post_exec_all(state, input, exit_kind);
        let ghost first_result = first;
        let ghost state_mid = *state;
        let result = if first.is_err() {
            first
        } else {
            self.secondary.post_exec_all(state, input, exit_kind)
        };
        proof {
            lemma_notified::<A, B, I, S>(
                (*old(self).primary, *old(self).secondary),
                Moment::PostExec(*exit_kind),
                *old(state),
                *input,
                (*self.primary, *self.secondary),
                state_mid,
                first_result,
                *state,
                result,
            );
        }
        result
    }

    fn pre_exec_child_all(&mut self, state: &mut S, input: &I) -> (result: Result<
        (),
        Error,
    >)
        ensures
            *final(final(self).primary) == *final(old(self).primary),
            *final(final(self).secondary) == *final(old(self).secondary),
    {
        let first = self.primary.pre_exec_child_all(state, input);
        let ghost first_result = first;
        let ghost state_mid = *state;
        let result = if first.is_err() {
            first
        } else {
            self.secondary.pre_exec_child_all(state, input)
        };
        proof {
            lemma_notified::<A, B, I, S>(
                (*old(self).primary, *old(self).secondary),
                Moment::PreExecChild,
                *old(state),
                *input,
                (*self.primary, *self.secondary),
                state_mid,
                first_result,
                *state,
                result,
            );
        }
        result
    }

    fn post_exec_child_all(&mut self, state: &mut S, input: &I, exit_kind: &ExitKind) -> (result: Result<
        (),
        Error,
    >)
        ensures
            *final(final(self).primary) == *final(old(self).primary),
            *final(final(self).secondary) == *final(old(self).secondary),
    {
        let first = self.primary.post_exec_child_all(state, input, exit_kind);
        let ghost first_result = first;
        let ghost state_mid = *state;
        let result = if first.is_err() {
            first
        } else {
            self.secondary.post_exec_child_all(state, input, exit_kind)
        };
        proof {
            lemma_notified::<A, B, I, S>(
                (*old(self).primary, *old(self).secondary),
                Moment::PostExecChild(*exit_kind),
                *old(state),
                *input,
                (*self.primary, *self.secondary),
                state_mid,
                first_result,
                *state,
                result,
            );
        }
        result
    }
}

/// The observer of that name among `primary`, else among `secondary`.
pub open spec fn named_either<T, A: MatchName<T>, B: MatchName<T>>(
    primary: A,
    secondary: B,
    name: Seq<char>,
) -> Option<T> {
    match primary.named(name) {
        Some(t) => Some(t),
        None => secondary.named(name),
    }
}

/// Whether a mutable lookup among observers may turn `before` into `after` when it lends out
/// `lent`, by all that [`MatchName::match_name_mut`] promises.
pub open spec fn is_lent<T, OT: MatchName<T>>(
    before: OT,
    name: Seq<char>,
    lent: Option<(T, T)>,
    after: OT,
) -> bool {
    &&& OT::may_lend(before, name, lent, after)
    &&& match lent {
        Some((found, left)) => {
            &&& before.named(name) == Some(found)
            &&& OT::bears(left, name) ==> after.named(name) == Some(left)
        },
        None => {
            &&& MatchName::<T>::named(&before, name) is None
            &&& MatchName::<T>::named(&after, name) is None
        },
    }
}

/// Whether a mutable lookup among the primary observers and then, if nothing was found
/// there, among the secondary ones may turn both into those after it when it lends out
/// `lent`.
pub open spec fn is_lent_by_either<T, A: MatchName<T>, B: MatchName<T>>(
    primary: A,
    secondary: B,
    name: Seq<char>,
    lent: Option<(T, T)>,
    primary_after: A,
    secondary_after: B,
) -> bool {
    exists|first: Option<(T, T)>|
        {
            &&& #[trigger] is_lent(primary, name, first, primary_after)
            &&& match first {
                Some(_) => lent == first && secondary_after == secondary,
                None => is_lent(secondary, name, lent, secondary_after),
            }
        }
}

impl<'a, T, A: MatchName<T>, B: MatchName<T>> MatchName<T> for ProxyObserversTuple<'a, A, B> {
    /// A primary observer hides a secondary one of the same name.
    open spec fn named(&self, name: Seq<char>) -> Option<T> {
        named_either(*self.primary, *self.secondary, name)
    }

    /// An observer bears a name if it does so for both sides.
    open spec fn bears(observer: T, name: Seq<char>) -> bool {
        A::bears(observer, name) && B::bears(observer, name)
    }

    /// The primary observers are asked first; the secondary ones only if nothing was
    /// found there.
    open spec fn may_lend(
        before: Self,
        name: Seq<char>,
        lent: Option<(T, T)>,
        after: Self,
    ) -> bool {
        is_lent_by_either(
            *before.primary,
            *before.secondary,
            name,
            lent,
            *after.primary,
            *after.secondary,
        )
    }

    fn match_name(&self, name: &str) -> (found: Option<&T>) {
        if let Some(t) = self.primary.match_name(name) {
            return Some(t);
        }
        self.secondary.match_name(name)
    }

    fn match_name_mut(&mut self, name: &str) -> (found: Option<&mut T>)
        ensures
            *final(final(self).primary) == *final(old(self).primary),
            *final(final(self).secondary) == *final(old(self).secondary),
    {
        if let Some(t) = self.primary.match_name_mut(name) {
            assert(is_lent(
                *old(self).primary,
                name@,
                Some((*t, *final(t))),
                *after_borrow(self).primary,
            ));
            return Some(t);
        }
        let found = self.secondary.match_name_mut(name);
        assert(is_lent::<T, A>(*old(self).primary, name@, None, *after_borrow(self).primary));
        found
    }
}

impl<'a, A, B> ProxyObserversRef<'a, A, B> {
    /// Finds the observer of that name, first among the primary ones.
    pub fn match_name<T>(&self, name: &str) -> (found: Option<&T>) where
        A: MatchName<T>,
        B: MatchName<T>,

        ensures
            match found {
                Some(t) => named_either(*self.primary, *self.secondary, name@) == Some(*t),
                None => named_either::<T, A, B>(*self.primary, *self.secondary, name@) is None,
            },
    {
        if let Some(t) = self.primary.match_name(name) {
            return Some(t);
        }
        self.secondary.match_name(name)
    }
}

impl<'a, A, B> ProxyObserversTuple<'a, A, B> {
    /// Points the proxy to other observers.
    pub fn set(&mut self, primary: &'a mut A, secondary: &'a mut B)
        ensures
            *final(self).primary == *old(primary),
            *final(final(self).primary) == *final(primary),
            *final(self).secondary == *old(secondary),
            *final(final(self).secondary) == *final(secondary),
            *final(old(self).primary) == *old(self).primary,
            *final(old(self).secondary) == *old(self).secondary,
    {
        self.primary = primary;
        self.secondary = secondary;
    }
}

impl<A, B, OTA, OTB> DiffExecutor<A, B, OTA, OTB> where
    A: HasObservers<OTA>,
    B: HasObservers<OTB>,
 {
    /// The current observers of both sides.
    pub open spec fn observed(&self) -> (OTA, OTB) {
        (self.primary.shown(), self.secondary.shown())
    }

    /// The observers of both sides.
    pub fn observers(&self) -> (proxy: ProxyObserversRef<'_, OTA, OTB>)
        ensures
            (*proxy.primary, *proxy.secondary) == self.observed(),
    {
        ProxyObserversRef {
            primary: self.primary.observers(),
            secondary: self.secondary.observers(),
        }
    }

    /// The same observers of both sides, lent out for changes. As they were left, they are
    /// the current ones afterwards.
    pub fn observers_mut(&mut self) -> (proxy: ProxyObserversTuple<'_, OTA, OTB>)
        ensures
            (*proxy.primary, *proxy.secondary) == old(self).observed(),
            final(self).observed() == (*final(proxy.primary), *final(proxy.secondary)),
            A::may_replace(old(self).primary, *final(proxy.primary), final(self).primary),
            B::may_replace(old(self).secondary, *final(proxy.secondary), final(self).secondary),
    {
        ProxyObserversTuple {
            primary: self.primary.observers_mut(),
            secondary: self.secondary.observers_mut(),
        }
    }
}

/// Sides that end alike end the whole alike; the whole ends in a difference exactly if the
/// sides disagree or are themselves differences.
pub proof fn law_merged_exit_kind(first: ExitKind, second: ExitKind)
    ensures
        merged_exit_kind(first, first) == first,
        merged_exit_kind(first, second) is Diff <==> first != second || first is Diff,
{
}

/// Where the primary executor can only fail, a run fails, and the secondary executor does
/// not run.
pub proof fn law_primary_failure_ends_run<A, B, EM, I, OTA, OTB, S, Z>(
    before: DiffExecutor<A, B, OTA, OTB>,
    fuzzer: Z,
    state: S,
    mgr: EM,
    input: I,
    after: DiffExecutor<A, B, OTA, OTB>,
    fuzzer_after: Z,
    state_after: S,
    mgr_after: EM,
    result: Result<ExitKind, Error>,
) where A: Executor<EM, I, S, Z>, B: Executor<EM, I, S, Z>
    requires
        DiffExecutor::<A, B, OTA, OTB>::may_run(
            before,
            fuzzer,
            state,
            mgr,
            input,
            after,
            fuzzer_after,
            state_after,
            mgr_after,
            result,
        ),
        forall|a: A, z: Z, s: S, m: EM, r: Result<ExitKind, Error>| #[trigger]
            A::may_run(before.primary, fuzzer, state, mgr, input, a, z, s, m, r) ==> r is Err,
    ensures
        result is Err,
        after.secondary == before.secondary,
        A::may_run(
            before.primary,
            fuzzer,
            state,
            mgr,
            input,
            after.primary,
            fuzzer_after,
            state_after,
            mgr_after,
            result,
        ),
{
}

/// Where both executors can only end in `kind`, a run ends in `kind`.
pub proof fn law_agreeing_sides_agree<A, B, EM, I, OTA, OTB, S, Z>(
    before: DiffExecutor<A, B, OTA, OTB>,
    fuzzer: Z,
    state: S,
    mgr: EM,
    input: I,
    after: DiffExecutor<A, B, OTA, OTB>,
    fuzzer_after: Z,
    state_after: S,
    mgr_after: EM,
    result: Result<ExitKind, Error>,
    kind: ExitKind,
) where A: Executor<EM, I, S, Z>, B: Executor<EM, I, S, Z>
    requires
        DiffExecutor::<A, B, OTA, OTB>::may_run(
            before,
            fuzzer,
            state,
            mgr,
            input,
            after,
            fuzzer_after,
            state_after,
            mgr_after,
            result,
        ),
        forall|a: A, z: Z, s: S, m: EM, r: Result<ExitKind, Error>| #[trigger]
            A::may_run(before.primary, fuzzer, state, mgr, input, a, z, s, m, r) ==> r == Ok::<
                ExitKind,
                Error,
            >(kind),
        forall|
            z0: Z,
            s0: S,
            m0: EM,
            b: B,
            z: Z,
            s: S,
            m: EM,
            r: Result<ExitKind, Error>,
        | #[trigger]
            B::may_run(before.secondary, z0, s0, m0, input, b, z, s, m, r) ==> r == Ok::<
                ExitKind,
                Error,
            >(kind),
    ensures
        result == Ok::<ExitKind, Error>(kind),
{
}

/// Where notifying the primary observers can only fail, the notification fails, and the
/// secondary observers are not notified.
pub proof fn law_primary_failure_ends_notification<A, B, I, S>(
    before: (A, B),
    moment: Moment,
    state: S,
    input: I,
    after: (A, B),
    state_after: S,
    result: Result<(), Error>,
) where A: ObserversTuple<I, S>, B: ObserversTuple<I, S>
    requires
        may_notify_both(before, moment, state, input, after, state_after, result),
        forall|a: A, s: S, r: Result<(), Error>| #[trigger]
            A::may_notify(before.0, moment, state, input, a, s, r) ==> r is Err,
    ensures
        result is Err,
        after.1 == before.1,
        A::may_notify(before.0, moment, state, input, after.0, state_after, result),
{
}

/// A primary observer hides a secondary one of the same name, and a name that no primary
/// observer has is looked up among the secondary ones.
pub proof fn law_primary_name_hides<T, A: MatchName<T>, B: MatchName<T>>(
    primary: A,
    secondary: B,
    name: Seq<char>,
    t: T,
)
    ensures
        primary.named(name) == Some(t) ==> named_either(primary, secondary, name) == Some(t),
        MatchName::<T>::named(&primary, name) is None ==> named_either::<T, A, B>(
            primary,
            secondary,
            name,
        ) == secondary.named(name),
{
}

/// What is written through the observers for changes is found later. A mutable lookup among
/// the observers of an executor lends out what a lookup among them finds. When the observers
/// come back, a lookup finds what was left there, provided that it still bears the name, and
/// nothing if nothing was lent out.
pub proof fn law_written_is_found<T, A, B, OTA, OTB>(
    before: DiffExecutor<A, B, OTA, OTB>,
    name: Seq<char>,
    lent: Option<(T, T)>,
    after: DiffExecutor<A, B, OTA, OTB>,
) where A: HasObservers<OTA>, B: HasObservers<OTB>, OTA: MatchName<T>, OTB: MatchName<T>
    requires
        is_lent_by_either(
            before.observed().0,
            before.observed().1,
            name,
            lent,
            after.observed().0,
            after.observed().1,
        ),
        lent matches Some((_, left)) ==> OTA::bears(left, name) && OTB::bears(left, name),
    ensures
        named_either(before.observed().0, before.observed().1, name) == match lent {
            Some((found, _)) => Some(found),
            None => None,
        },
        named_either(after.observed().0, after.observed().1, name) == match lent {
            Some((_, left)) => Some(left),
            None => None,
        },
{
}

/// Sides that end alike make the whole end alike. Where they end differently, the whole ends in
/// a difference whose primary side is the summary of the first kind and whose secondary side is
/// the summary of the second.
pub proof fn law_merged_by_sides(
    first: ExitKind,
    first_side: DiffExitKind,
    second: ExitKind,
    second_side: DiffExitKind,
    merged: ExitKind,
)
    requires
        call_ensures(<DiffExitKind as From<ExitKind>>::from, (first,), first_side),
        call_ensures(<DiffExitKind as From<ExitKind>>::from, (second,), second_side),
        call_ensures(merge_exit_kinds, (first, second), merged),
    ensures
        merged == merged_exit_kind(first, second),
        first == second ==> merged == first,
        first != second ==> merged == (ExitKind::Diff {
            primary: first_side,
            secondary: second_side,
        }),
{
}

/// Swapping the sides swaps the two summaries, and each summary depends on its own side alone.
pub proof fn law_merged_of_swapped_sides(
    first: ExitKind,
    second: ExitKind,
    third: ExitKind,
    merged: ExitKind,
    swapped: ExitKind,
    other: ExitKind,
)
    requires
        call_ensures(merge_exit_kinds, (first, second), merged),
        call_ensures(merge_exit_kinds, (second, first), swapped),
        call_ensures(merge_exit_kinds, (first, third), other),
        first != second,
        first != third,
    ensures
        merged is Diff && swapped is Diff && other is Diff,
        merged->primary == swapped->secondary,
        merged->secondary == swapped->primary,
        merged->primary == other->primary,
        first !is Diff && second !is Diff ==> merged->primary != merged->secondary,
        first == ExitKind::Normal <==> merged->primary == DiffExitKind::Normal,
        first == ExitKind::Crash <==> merged->primary == DiffExitKind::Crash,
        first == ExitKind::Oom <==> merged->primary == DiffExitKind::Oom,
        first == ExitKind::Timeout <==> merged->primary == DiffExitKind::Timeout,
        first is Diff <==> merged->primary == DiffExitKind::Diff,
        second == ExitKind::Normal <==> merged->secondary == DiffExitKind::Normal,
        second == ExitKind::Crash <==> merged->secondary == DiffExitKind::Crash,
        second == ExitKind::Oom <==> merged->secondary == DiffExitKind::Oom,
        second == ExitKind::Timeout <==> merged->secondary == DiffExitKind::Timeout,
        second is Diff <==> merged->secondary == DiffExitKind::Diff,
{
}

/// Every run goes through the primary executor first. If that fails, the run ends there. Else
/// the primary executor is reset, the secondary one runs on the same input from what the
/// primary left, and is reset unless it fails; its failure is that of the run, and two ends
/// that are alike are the end of the run, while others make a difference with a summary of
/// each.
pub proof fn law_run_by_parts<A, B, EM, I, OTA, OTB, S, Z>(
    before: DiffExecutor<A, B, OTA, OTB>,
    fuzzer: Z,
    state: S,
    mgr: EM,
    input: I,
    after: DiffExecutor<A, B, OTA, OTB>,
    fuzzer_after: Z,
    state_after: S,
    mgr_after: EM,
    result: Result<ExitKind, Error>,
) where A: Executor<EM, I, S, Z>, B: Executor<EM, I, S, Z>
    requires
        DiffExecutor::<A, B, OTA, OTB>::may_run(
            before,
            fuzzer,
            state,
            mgr,
            input,
            after,
            fuzzer_after,
            state_after,
            mgr_after,
            result,
        ),
    ensures
        exists|a: A, z: Z, s: S, m: EM, first: Result<ExitKind, Error>|
            {
                &&& #[trigger] A::may_run(
                    before.primary,
                    fuzzer,
                    state,
                    mgr,
                    input,
                    a,
                    z,
                    s,
                    m,
                    first,
                )
                &&& first is Err ==> {
                    &&& result == first
                    &&& after.primary == a
                    &&& after.secondary == before.secondary
                    &&& fuzzer_after == z
                    &&& state_after == s
                    &&& mgr_after == m
                }
                &&& first is Ok ==> A::may_reset(a, after.primary)
                &&& first is Ok ==> exists|b: B, second: Result<ExitKind, Error>|
                    {
                        &&& #[trigger] B::may_run(
                            before.secondary,
                            z,
                            s,
                            m,
                            input,
                            b,
                            fuzzer_after,
                            state_after,
                            mgr_after,
                            second,
                        )
                        &&& second is Err ==> result == second && after.secondary == b
                        &&& second is Ok ==> B::may_reset(b, after.secondary)
                        &&& second is Ok && first == second ==> result == first
                        &&& second is Ok && first != second ==> result == Ok::<ExitKind, Error>(
                            ExitKind::Diff {
                                primary: crate::executor::diff_exit_kind(first->Ok_0),
                                secondary: crate::executor::diff_exit_kind(second->Ok_0),
                            },
                        )
                    }
            },
{
    let (a, z, s, m, first): (A, Z, S, EM, Result<ExitKind, Error>) = choose|
        a: A,
        z: Z,
        s: S,
        m: EM,
        first: Result<ExitKind, Error>,
    |
        {
            &&& #[trigger] A::may_run(before.primary, fuzzer, state, mgr, input, a, z, s, m, first)
            &&& match first {
                Err(_) => {
                    &&& result == first
                    &&& after.primary == a
                    &&& after.secondary == before.secondary
                    &&& fuzzer_after == z
                    &&& state_after == s
                    &&& mgr_after == m
                },
                Ok(first_kind) => {
                    &&& A::may_reset(a, after.primary)
                    &&& exists|b: B, second: Result<ExitKind, Error>|
                        {
                            &&& #[trigger] B::may_run(
                                before.secondary,
                                z,
                                s,
                                m,
                                input,
                                b,
                                fuzzer_after,
                                state_after,
                                mgr_after,
                                second,
                            )
                            &&& match second {
                                Err(_) => result == second && after.secondary == b,
                                Ok(second_kind) => {
                                    &&& B::may_reset(b, after.secondary)
                                    &&& result == Ok::<ExitKind, Error>(
                                        merged_exit_kind(first_kind, second_kind),
                                    )
                                },
                            }
                        }
                },
            }
        };
    assert(A::may_run(before.primary, fuzzer, state, mgr, input, a, z, s, m, first));
}

/// A reset of the whole changes nothing.
pub proof fn law_reset_changes_nothing<A, B, EM, I, OTA, OTB, S, Z>(
    before: DiffExecutor<A, B, OTA, OTB>,
    after: DiffExecutor<A, B, OTA, OTB>,
) where A: Executor<EM, I, S, Z>, B: Executor<EM, I, S, Z>
    requires
        <DiffExecutor::<A, B, OTA, OTB> as Executor<EM, I, S, Z>>::may_reset(before, after),
    ensures
        after == before,
{
}

/// Every notification of a proxy reaches the primary observers first. If they fail, their error
/// is the result and the secondary observers stay as they were. Else the secondary observers
/// are notified at the same moment, from the state that the primary ones left, and their result
/// is the result.
pub proof fn law_notification_by_parts<'a, A, B, I, S>(
    before: ProxyObserversTuple<'a, A, B>,
    moment: Moment,
    state: S,
    input: I,
    after: ProxyObserversTuple<'a, A, B>,
    state_after: S,
    result: Result<(), Error>,
) where A: ObserversTuple<I, S>, B: ObserversTuple<I, S>
    requires
        ProxyObserversTuple::<'a, A, B>::may_notify(
            before,
            moment,
            state,
            input,
            after,
            state_after,
            result,
        ),
    ensures
        exists|s: S, first: Result<(), Error>|
            {
                &&& #[trigger] A::may_notify(
                    *old(before.primary),
                    moment,
                    state,
                    input,
                    *old(after.primary),
                    s,
                    first,
                )
                &&& first is Err ==> {
                    &&& result == first
                    &&& *old(after.secondary) == *old(before.secondary)
                    &&& state_after == s
                }
                &&& first is Ok ==> B::may_notify(
                    *old(before.secondary),
                    moment,
                    s,
                    input,
                    *old(after.secondary),
                    state_after,
                    result,
                )
            },
{
    let (s, first): (S, Result<(), Error>) = choose|s: S, first: Result<(), Error>|
        {
            &&& #[trigger] A::may_notify(
                *old(before.primary),
                moment,
                state,
                input,
                *old(after.primary),
                s,
                first,
            )
            &&& match first {
                Err(_) => {
                    &&& result == first
                    &&& *old(after.secondary) == *old(before.secondary)
                    &&& state_after == s
                },
                Ok(()) => B::may_notify(
                    *old(before.secondary),
                    moment,
                    s,
                    input,
                    *old(after.secondary),
                    state_after,
                    result,
                ),
            }
        };
    assert(A::may_notify(
        *old(before.primary),
        moment,
        state,
        input,
        *old(after.primary),
        s,
        first,
    ));
}

/// A proxy finds what its primary observers find, and what its secondary observers find only if
/// the primary ones find nothing. A name is borne if it is borne on both sides.
pub proof fn law_proxy_lookup<'a, T, A: MatchName<T>, B: MatchName<T>>(
    proxy: ProxyObserversTuple<'a, A, B>,
    name: Seq<char>,
    t: T,
)
    ensures
        old(proxy.primary).named(name) == Some(t) ==> MatchName::<T>::named(&proxy, name) == Some(
            t,
        ),
        MatchName::<T>::named(&*old(proxy.primary), name) is None ==> MatchName::<T>::named(
            &proxy,
            name,
        ) == MatchName::<T>::named(&*old(proxy.secondary), name),
        <ProxyObserversTuple::<'a, A, B> as MatchName<T>>::bears(t, name) <==> A::bears(t, name)
            && B::bears(t, name),
{
}

/// A mutable lookup of a proxy goes to the primary observers. If they lend something out, that
/// is lent out and the secondary observers stay as they were; else the secondary observers are
/// asked.
pub proof fn law_proxy_lends<'a, T, A: MatchName<T>, B: MatchName<T>>(
    before: ProxyObserversTuple<'a, A, B>,
    name: Seq<char>,
    lent: Option<(T, T)>,
    after: ProxyObserversTuple<'a, A, B>,
)
    requires
        <ProxyObserversTuple::<'a, A, B> as MatchName<T>>::may_lend(before, name, lent, after),
    ensures
        MatchName::<T>::named(&*old(before.primary), name) is Some ==> {
            &&& A::may_lend(*old(before.primary), name, lent, *old(after.primary))
            &&& *old(after.secondary) == *old(before.secondary)
            &&& lent is Some
            &&& lent matches Some((found, left)) ==> {
                &&& old(before.primary).named(name) == Some(found)
                &&& A::bears(left, name) ==> old(after.primary).named(name) == Some(left)
            }
        },
        MatchName::<T>::named(&*old(before.primary), name) is None ==> {
            &&& A::may_lend(*old(before.primary), name, None::<(T, T)>, *old(after.primary))
            &&& MatchName::<T>::named(&*old(after.primary), name) is None
            &&& B::may_lend(*old(before.secondary), name, lent, *old(after.secondary))
            &&& lent is None <==> MatchName::<T>::named(&*old(before.secondary), name) is None
            &&& lent matches Some((found, left)) ==> {
                &&& old(before.secondary).named(name) == Some(found)
                &&& B::bears(left, name) ==> old(after.secondary).named(name) == Some(left)
            }
        },
{
}

/// The observers of an executor are those that its sides show, each in its place.
pub proof fn law_observed<A, B, OTA, OTB>(executor: DiffExecutor<A, B, OTA, OTB>) where
    A: HasObservers<OTA>,
    B: HasObservers<OTB>,

    ensures
        executor.observed().0 == executor.primary.shown(),
        executor.observed().1 == executor.secondary.shown(),
{
}

/// A new executor runs what it is given, each in its place.
pub proof fn law_new_executor<A, B, OTA, OTB>(
    primary: A,
    secondary: B,
    executor: DiffExecutor<A, B, OTA, OTB>,
)
    requires
        call_ensures(DiffExecutor::<A, B, OTA, OTB>::new, (primary, secondary), executor),
    ensures
        executor.primary == primary,
        executor.secondary == secondary,
{
}

/// A run of an executor keeps to what [`law_run_by_parts`] says of its parts.
pub proof fn law_run_target<A, B, EM, I, OTA, OTB, S, Z>(
    executor: &mut DiffExecutor<A, B, OTA, OTB>,
    fuzzer: &mut Z,
    state: &mut S,
    mgr: &mut EM,
    input: I,
    result: Result<ExitKind, Error>,
) where A: Executor<EM, I, S, Z>, B: Executor<EM, I, S, Z>
    requires
        call_ensures(
            <DiffExecutor::<A, B, OTA, OTB> as Executor<EM, I, S, Z>>::run_target,
            (executor, fuzzer, state, mgr, &input),
            result,
        ),
    ensures
        DiffExecutor::<A, B, OTA, OTB>::may_run(
            *old(executor),
            *old(fuzzer),
            *old(state),
            *old(mgr),
            input,
            *final(executor),
            *final(fuzzer),
            *final(state),
            *final(mgr),
            result,
        ),
{
}

/// The sides that an executor lends out are its own, and each stays apart from the other.
pub proof fn law_sides_are_lent<A, B, OTA, OTB>(
    executor: &mut DiffExecutor<A, B, OTA, OTB>,
    primary: &mut A,
)
    requires
        call_ensures(DiffExecutor::<A, B, OTA, OTB>::primary, (executor,), primary),
    ensures
        *old(primary) == old(executor).primary,
        final(executor).primary == *final(primary),
        final(executor).secondary == old(executor).secondary,
{
}

/// The same of the secondary side.
pub proof fn law_secondary_is_lent<A, B, OTA, OTB>(
    executor: &mut DiffExecutor<A, B, OTA, OTB>,
    secondary: &mut B,
)
    requires
        call_ensures(DiffExecutor::<A, B, OTA, OTB>::secondary, (executor,), secondary),
    ensures
        *old(secondary) == old(executor).secondary,
        final(executor).secondary == *final(secondary),
        final(executor).primary == old(executor).primary,
{
}

/// Each of the four notifications of a proxy is one of its moment, and keeps to what
/// [`law_notification_by_parts`] says of its parts.
pub proof fn law_notifications<'a, A, B, I, S>(
    proxy: &mut ProxyObserversTuple<'a, A, B>,
    state: &mut S,
    input: I,
    exit_kind: ExitKind,
    result: Result<(), Error>,
) where A: ObserversTuple<I, S>, B: ObserversTuple<I, S>
    ensures
        call_ensures(
            <ProxyObserversTuple::<'a, A, B> as ObserversTuple<I, S>>::pre_exec_all,
            (proxy, state, &input),
            result,
        ) ==> ProxyObserversTuple::<'a, A, B>::may_notify(
            *old(proxy),
            Moment::PreExec,
            *old(state),
            input,
            *final(proxy),
            *final(state),
            result,
        ),
        call_ensures(
            <ProxyObserversTuple::<'a, A, B> as ObserversTuple<I, S>>::post_exec_all,
            (proxy, state, &input, &exit_kind),
            result,
        ) ==> ProxyObserversTuple::<'a, A, B>::may_notify(
            *old(proxy),
            Moment::PostExec(exit_kind),
            *old(state),
            input,
            *final(proxy),
            *final(state),
            result,
        ),
        call_ensures(
            <ProxyObserversTuple::<'a, A, B> as ObserversTuple<I, S>>::pre_exec_child_all,
            (proxy, state, &input),
            result,
        ) ==> ProxyObserversTuple::<'a, A, B>::may_notify(
            *old(proxy),
            Moment::PreExecChild,
            *old(state),
            input,
            *final(proxy),
            *final(state),
            result,
        ),
        call_ensures(
            <ProxyObserversTuple::<'a, A, B> as ObserversTuple<I, S>>::post_exec_child_all,
            (proxy, state, &input, &exit_kind),
            result,
        ) ==> ProxyObserversTuple::<'a, A, B>::may_notify(
            *old(proxy),
            Moment::PostExecChild(exit_kind),
            *old(state),
            input,
            *final(proxy),
            *final(state),
            result,
        ),
{
}

/// The observers that an executor shows for reading are those that its sides show, and a lookup
/// among them finds what the primary side has under that name, else what the secondary side has.
pub proof fn law_read_observers<T, A, B, OTA, OTB>(
    executor: DiffExecutor<A, B, OTA, OTB>,
    proxy: ProxyObserversRef<'_, OTA, OTB>,
    name: &str,
    found: Option<&T>,
) where A: HasObservers<OTA>, B: HasObservers<OTB>, OTA: MatchName<T>, OTB: MatchName<T>
    requires
        call_ensures(DiffExecutor::<A, B, OTA, OTB>::observers, (&executor,), proxy),
        call_ensures(ProxyObserversRef::<'_, OTA, OTB>::match_name::<T>, (&proxy, name), found),
    ensures
        *proxy.primary == executor.primary.shown(),
        *proxy.secondary == executor.secondary.shown(),
        MatchName::<T>::named(&executor.primary.shown(), name@) is Some ==> found is Some && Some(
            *found->0,
        ) == MatchName::<T>::named(&executor.primary.shown(), name@),
        MatchName::<T>::named(&executor.primary.shown(), name@) is None ==> {
            &&& found is Some <==> MatchName::<T>::named(
                &executor.secondary.shown(),
                name@,
            ) is Some
            &&& found is Some ==> Some(*found->0) == MatchName::<T>::named(
                &executor.secondary.shown(),
                name@,
            )
        },
{
}

} // verus!
