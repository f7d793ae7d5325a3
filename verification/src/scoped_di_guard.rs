use vstd::pervasive::unreached;
use vstd::prelude::*;

use crate::di_guard::DiGuard;
use crate::error::Error;
use crate::factory::Factory;
use crate::message;
use crate::model::viewed;
use crate::scoped_di::ScopedDi;
use crate::model;
use crate::pending::{OriginView, OwnerView};
use crate::search::{
    direct_search, judge_outcome, nested_search, nested_traced, scoped_key, Ended, Held, Leg,
};
use crate::value::{Erased, ErasedView, Kind, TypeTag, Value};

verus! {

/// The guard that a factory of a scope is handed: the guard of the
/// resolution, with the name of the scope and the scopes that it searches,
/// its own first.
pub struct ScopedDiGuard<F> {
    name: String,
    guard: DiGuard<F>,
    search_seq: Vec<String>,
}

impl<F> ScopedDiGuard<F> {
    /// The name of the scope.
    pub closed spec fn name(&self) -> Seq<char> {
        self.name@
    }

    /// The guard of the resolution.
    pub closed spec fn guard(&self) -> DiGuard<F> {
        self.guard
    }

    /// The scopes that are searched, in order.
    pub closed spec fn search_seq(&self) -> Seq<Seq<char>> {
        self.search_seq.deep_view()
    }

    /// Puts a guard under the scope `name` with the search sequence
    /// `search_seq`.
    pub fn new(name: String, guard: DiGuard<F>, search_seq: Vec<String>) -> (scoped: Self)
        ensures
            scoped.name() == name@,
            scoped.guard() == guard,
            scoped.search_seq() == search_seq.deep_view(),
    {
        ScopedDiGuard { name, guard, search_seq }
    }

    /// Gives the guard of the resolution back.
    pub fn into_guard(self) -> (guard: DiGuard<F>)
        ensures
            guard == self.guard(),
    {
        self.guard
    }

    /// Searches the values for `name`, through the scopes in order and
    /// without regard to factories or to the session. The first scope that
    /// holds the name with a value that this scope may see decides; a value
    /// that it may not see is passed over.
    pub fn inject_value(&self, name: &str, kind: Kind) -> (r: Result<Value, Error>)
        ensures
            viewed(r) == direct_search(
                self.guard().values(),
                self.name(),
                self.search_seq(),
                name@,
                kind,
                false,
                0,
            ),
    {
        let mut i: usize = 0;
        while i < self.search_seq.len()
            invariant
                i <= self.search_seq@.len(),
                direct_search(
                    self.guard.values(),
                    self.name@,
                    self.search_seq.deep_view(),
                    name@,
                    kind,
                    false,
                    0,
                ) == direct_search(
                    self.guard.values(),
                    self.name@,
                    self.search_seq.deep_view(),
                    name@,
                    kind,
                    false,
                    i as int,
                ),
            decreases self.search_seq@.len() - i,
        {
            let key = ScopedDi::<F>::scoped_name(self.search_seq[i].as_str(), name);
            let outcome = match self.guard.inject_value(key.as_str(), TypeTag::Scoped(kind)) {
                Ok(Erased::Scoped(found)) => Ok(found),
                Ok(Erased::Plain(_)) => unreached(),
                Err(e) => Err(e),
            };
            match judge_outcome(&self.name, name, false, outcome) {
                Some(r) => {
                    return r;
                },
                None => {},
            }
            i = i + 1;
        }
        Err(Error::KeyNotFound(message::direct_scope_exhausted_text(name, &self.search_seq)))
    }
}

impl<F: Factory> ScopedDiGuard<F> {
    /// Searches for `name` through the scopes in order, within the session,
    /// and runs the factory of a scope that has one waiting under the name.
    ///
    /// Each scope's key enters the session as it is tried; a key that the
    /// session holds already is a circular dependency and ends the search.
    /// The first scope whose resolution gives a value that this scope may
    /// see decides. A value that it may not see and a key that is not found
    /// are passed over; any other failure is passed on. Where every scope
    /// is passed over, the search ends in key-not-found, with the scopes in
    /// the message.
    ///
    /// Where the search ends before a factory has to be run, the result,
    /// the registry and the session are those of [`nested_search`]. In
    /// general they are those of [`nested_traced`] for the runs of
    /// factories that the search has made: each run is one call of the
    /// factory's `build_scoped`, which is handed what the leg says, and the
    /// leg's outcome, registry and session are what that call has returned
    /// and left, settled and recorded as [`model::settle`],
    /// [`model::retire`] and [`model::record`] say.
    pub fn inject(&mut self, name: &str, kind: Kind) -> (r: Result<Value, Error>)
        ensures
            viewed(r) matches Ok(v) ==> v.kind() == kind && exists|i: int|
                {
                    &&& 0 <= i < old(self).search_seq().len()
                    &&& final(self).guard().values().contains_key(
                        scoped_key(#[trigger] old(self).search_seq()[i], name@),
                    )
                    &&& final(self).guard().values()[scoped_key(old(self).search_seq()[i], name@)]
                        matches ErasedView::Scoped(found)
                    &&& found.v == v
                    &&& found.visible_to(old(self).name())
                },
            final(self).name() == old(self).name(),
            final(self).search_seq() == old(self).search_seq(),
            nested_search(
                old(self).guard().factories(),
                old(self).guard().values(),
                old(self).guard().chain(),
                old(self).guard().active(),
                old(self).name(),
                old(self).search_seq(),
                name@,
                kind,
                0,
            ) matches Some(end) ==> {
                &&& viewed(r) == end.result
                &&& final(self).guard().factories() == end.factories
                &&& final(self).guard().values() == old(self).guard().values()
                &&& final(self).guard().chain() == end.chain
                &&& final(self).guard().active() == end.active
            },
            exists|legs: Seq<Leg<F>>|
                {
                    &&& #[trigger] nested_traced(
                        Held {
                            factories: old(self).guard().factories(),
                            values: old(self).guard().values(),
                            chain: old(self).guard().chain(),
                            active: old(self).guard().active(),
                        },
                        old(self).name(),
                        old(self).search_seq(),
                        name@,
                        kind,
                        0,
                        legs,
                    ) == Some(
                        Ended {
                            result: viewed(r),
                            held: Held {
                                factories: final(self).guard().factories(),
                                values: final(self).guard().values(),
                                chain: final(self).guard().chain(),
                                active: final(self).guard().active(),
                            },
                        },
                    )
                    &&& forall|j: int|
                        0 <= j < legs.len() ==> match (#[trigger] legs[j]).pending.origin {
                            OriginView::Plain => false,
                            OriginView::Scoped { scope, search_seq, export } => exists|
                                handed: &mut ScopedDiGuard<F>,
                                built: Result<Value, Error>,
                            |
                                {
                                    &&& mut_ref_current(handed).name() == scope
                                    &&& mut_ref_current(handed).search_seq() == search_seq
                                    &&& mut_ref_current(handed).guard().chain() == legs[j].handed.chain
                                    &&& mut_ref_current(handed).guard().active() == legs[j].handed.active
                                    &&& mut_ref_current(handed).guard().factories() == legs[j].handed.factories
                                    &&& mut_ref_current(handed).guard().values() == legs[j].handed.values
                                    &&& #[trigger] call_ensures(
                                        F::build_scoped,
                                        (legs[j].pending.factory, handed),
                                        built,
                                    )
                                    &&& legs[j].outcome == model::settle(
                                        legs[j].key,
                                        legs[j].pending.kind,
                                        Some(OwnerView { scope, export }),
                                        viewed(built),
                                    )
                                    &&& legs[j].left.factories == model::retire(
                                        mut_ref_future(handed).guard().factories(),
                                        legs[j].key,
                                        legs[j].outcome,
                                    )
                                    &&& legs[j].left.values == model::record(
                                        mut_ref_future(handed).guard().values(),
                                        legs[j].key,
                                        legs[j].outcome,
                                    )
                                    &&& legs[j].left.chain == mut_ref_future(handed).guard().chain()
                                    &&& legs[j].left.active == mut_ref_future(handed).guard().active()
                                },
                        }
                },
    {
        let found = self.search_from(name, kind, 0);
        found.0
    }

    /// The search of [`ScopedDiGuard::inject`] from the scope at position
    /// `from` on, with the runs of factories that it has made.
    fn search_from(&mut self, name: &str, kind: Kind, from: usize) -> (r: (
        Result<Value, Error>,
        Ghost<Seq<Leg<F>>>,
    ))
        ensures
            viewed(r.0) matches Ok(v) ==> v.kind() == kind && exists|i: int|
                {
                    &&& 0 <= i < old(self).search_seq().len()
                    &&& final(self).guard().values().contains_key(
                        scoped_key(#[trigger] old(self).search_seq()[i], name@),
                    )
                    &&& final(self).guard().values()[scoped_key(old(self).search_seq()[i], name@)]
                        matches ErasedView::Scoped(found)
                    &&& found.v == v
                    &&& found.visible_to(old(self).name())
                },
            final(self).name() == old(self).name(),
            final(self).search_seq() == old(self).search_seq(),
            nested_search(
                old(self).guard().factories(),
                old(self).guard().values(),
                old(self).guard().chain(),
                old(self).guard().active(),
                old(self).name(),
                old(self).search_seq(),
                name@,
                kind,
                from as int,
            ) matches Some(end) ==> {
                &&& viewed(r.0) == end.result
                &&& final(self).guard().factories() == end.factories
                &&& final(self).guard().values() == old(self).guard().values()
                &&& final(self).guard().chain() == end.chain
                &&& final(self).guard().active() == end.active
            },
            nested_traced(
                Held {
                    factories: old(self).guard().factories(),
                    values: old(self).guard().values(),
                    chain: old(self).guard().chain(),
                    active: old(self).guard().active(),
                },
                old(self).name(),
                old(self).search_seq(),
                name@,
                kind,
                from as int,
                r.1@,
            ) == Some(
                Ended {
                    result: viewed(r.0),
                    held: Held {
                        factories: final(self).guard().factories(),
                        values: final(self).guard().values(),
                        chain: final(self).guard().chain(),
                        active: final(self).guard().active(),
                    },
                },
            ),
            forall|j: int|
                0 <= j < r.1@.len() ==> match (#[trigger] r.1@[j]).pending.origin {
                    OriginView::Plain => false,
                    OriginView::Scoped { scope, search_seq, export } => exists|
                        handed: &mut ScopedDiGuard<F>,
                        built: Result<Value, Error>,
                    |
                        {
                            &&& mut_ref_current(handed).name() == scope
                            &&& mut_ref_current(handed).search_seq() == search_seq
                            &&& mut_ref_current(handed).guard().chain() == r.1@[j].handed.chain
                            &&& mut_ref_current(handed).guard().active() == r.1@[j].handed.active
                            &&& mut_ref_current(handed).guard().factories() == r.1@[j].handed.factories
                            &&& mut_ref_current(handed).guard().values() == r.1@[j].handed.values
                            &&& #[trigger] call_ensures(
                                F::build_scoped,
                                (r.1@[j].pending.factory, handed),
                                built,
                            )
                            &&& r.1@[j].outcome == model::settle(
                                r.1@[j].key,
                                r.1@[j].pending.kind,
                                Some(OwnerView { scope, export }),
                                viewed(built),
                            )
                            &&& r.1@[j].left.factories == model::retire(
                                mut_ref_future(handed).guard().factories(),
                                r.1@[j].key,
                                r.1@[j].outcome,
                            )
                            &&& r.1@[j].left.values == model::record(
                                mut_ref_future(handed).guard().values(),
                                r.1@[j].key,
                                r.1@[j].outcome,
                            )
                            &&& r.1@[j].left.chain == mut_ref_future(handed).guard().chain()
                            &&& r.1@[j].left.active == mut_ref_future(handed).guard().active()
                        },
                },
        decreases old(self).search_seq@.len() - from,
    {
        if from >= self.search_seq.len() {
            return (
                Err(Error::KeyNotFound(message::scope_exhausted_text(name, &self.search_seq))),
                Ghost(Seq::empty()),
            );
        }
        let key = ScopedDi::<F>::scoped_name(self.search_seq[from].as_str(), name);
        let ghost before = Held {
            factories: self.guard.factories(),
            values: self.guard.values(),
            chain: self.guard.chain(),
            active: self.guard.active(),
        };
        let raw = self.guard.inject(key.as_str(), TypeTag::Scoped(kind));
        let ghost leg = Leg {
            key: key@,
            pending: before.factories[key@],
            handed: Held {
                factories: before.factories.remove(key@),
                values: before.values,
                chain: before.chain.push(key@),
                active: before.active.insert(key@),
            },
            outcome: viewed(raw),
            left: Held {
                factories: self.guard.factories(),
                values: self.guard.values(),
                chain: self.guard.chain(),
                active: self.guard.active(),
            },
        };
        let ghost ran = !before.active.contains(key@) && model::resolved(
            before.factories,
            before.values,
            key@,
            TypeTag::Scoped(kind),
            before.chain.push(key@),
        ) is None;
        let outcome = match raw {
            Ok(Erased::Scoped(found)) => Ok(found),
            Ok(Erased::Plain(_)) => unreached(),
            Err(e) => Err(e),
        };
        assert(old(self).search_seq()[from as int] == self.search_seq@[from as int]@);
        match judge_outcome(&self.name, name, false, outcome) {
            Some(r) => {
                let ghost legs = if ran {
                    seq![leg]
                } else {
                    Seq::empty()
                };
                (r, Ghost(legs))
            },
            None => {
                let rest = self.search_from(name, kind, from + 1);
                let ghost legs = if ran {
                    seq![leg] + rest.1@
                } else {
                    rest.1@
                };
                proof {
                    if ran {
                        assert(legs.drop_first() =~= rest.1@);
                        assert forall|j: int| 0 < j < legs.len() implies legs[j] == rest.1@[j - 1] by {}
                    }
                }
                (rest.0, Ghost(legs))
            },
        }
    }
}

} // verus!
