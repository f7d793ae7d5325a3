use vstd::pervasive::unreached;
use vstd::prelude::*;
use vstd::string::{StrSliceExecFns, StringExecFns};

use crate::di::Di;
use crate::model;
use crate::scoped_di_guard::ScopedDiGuard;
use crate::error::Error;
use crate::factory::Factory;
use crate::message;
use crate::model::viewed;
use crate::pending::{Origin, OriginView, OwnerView, Pending, PendingView};
use crate::search::{
    direct_search, escaped, judge_outcome, lemma_escaped_push, scoped_key, top_search,
    top_traced, Ended, Held, Leg,
};
use crate::value::{Erased, ErasedView, Kind, ScopedValue, ScopedValueView, TypeTag, Value};

verus! {

/// The names that a list of string slices holds.
pub open spec fn names_of(deps: Seq<&str>) -> Seq<Seq<char>> {
    deps.map_values(|d: &str| d@)
}

/// A scope on a registry: a name, and the scopes that a search for a
/// binding goes through, the scope itself first and then the scopes that it
/// imports, in the order in which they were given. The sequence is fixed
/// when the scope is made.
pub struct ScopedDi<F> {
    di: Di<F>,
    name: String,
    search_seq: Vec<String>,
}

impl<F> ScopedDi<F> {
    /// The registry that the scope works on.
    pub closed spec fn di(&self) -> Di<F> {
        self.di
    }

    /// The name of the scope.
    pub closed spec fn name(&self) -> Seq<char> {
        self.name@
    }

    /// The scopes that are searched, in order.
    pub closed spec fn search_seq(&self) -> Seq<Seq<char>> {
        self.search_seq.deep_view()
    }

    /// The scope `name` on `di`, which imports the scopes `deps`.
    pub fn new(di: Di<F>, name: &str, deps: &[&str]) -> (scope: Self)
        ensures
            scope.di() == di,
            scope.name() == name@,
            scope.search_seq() == seq![name@] + names_of(deps@),
    {
        let mut search_seq: Vec<String> = Vec::new();
        search_seq.push(String::from_str(name));
        let mut i: usize = 0;
        while i < deps.len()
            invariant
                i <= deps@.len(),
                search_seq@.len() == i + 1,
                search_seq@[0]@ == name@,
                forall|j: int| 0 <= j < i ==> (#[trigger] search_seq@[j + 1])@ == deps@[j]@,
            decreases deps@.len() - i,
        {
            search_seq.push(String::from_str(deps[i]));
            i = i + 1;
        }
        let scope = ScopedDi { di, name: String::from_str(name), search_seq };
        proof {
            let expected = seq![name@] + names_of(deps@);
            assert(scope.search_seq().len() == expected.len());
            assert forall|j: int| 0 <= j < expected.len() implies scope.search_seq()[j]
                == expected[j] by {
                if j > 0 {
                    assert(search_seq@[(j - 1) + 1]@ == deps@[j - 1]@);
                }
            }
            assert(scope.search_seq() =~= expected);
        }
        scope
    }

    /// Gives the registry back.
    pub fn into_di(self) -> (di: Di<F>)
        ensures
            di == self.di(),
    {
        self.di
    }

    /// The key under which the registry holds the binding `name` of the
    /// scope `scope`: the scope's name, `#`, and the binding's name. A `#`
    /// in the scope's name is written `%23` and a `%` is written `%25`, so
    /// that the first `#` of a key ends the scope's name and no two
    /// bindings share a key.
    pub fn scoped_name(scope: &str, name: &str) -> (key: String)
        ensures
            key@ == scoped_key(scope@, name@),
    {
        let mut key = String::new();
        let len = scope.unicode_len();
        let mut i: usize = 0;
        while i < len
            invariant
                len == scope@.len(),
                i <= len,
                key@ == escaped(scope@.subrange(0, i as int)),
            decreases len - i,
        {
            let c = scope.get_char(i);
            proof {
                reveal_strlit("%23");
                reveal_strlit("%25");
                lemma_escaped_push(scope@.subrange(0, i as int), c);
                assert(scope@.subrange(0, i as int).push(c) == scope@.subrange(0, i + 1));
                assert("%23"@ =~= seq!['%', '2', '3']);
                assert("%25"@ =~= seq!['%', '2', '5']);
                assert(scope@.subrange(i as int, i + 1) =~= seq![c]);
            }
            if c == '#' {
                key.append("%23");
            } else if c == '%' {
                key.append("%25");
            } else {
                key.append(scope.substring_char(i, i + 1));
            }
            i = i + 1;
        }
        key.append("#");
        key.append(name);
        proof {
            reveal_strlit("#");
            assert("#"@ =~= seq!['#']);
            assert(scope@.subrange(0, len as int) == scope@);
        }
        key
    }

    /// Binds `name` in this scope to `value`, in place of whatever the
    /// scope had bound it to. The value is stored with the scope as its
    /// owner, and is visible to other scopes if and only if `export` is
    /// set.
    pub fn register_value(&mut self, name: &str, value: Value, export: bool) -> (r: Result<
        (),
        Error,
    >)
        ensures
            r is Ok,
            final(self).name() == old(self).name(),
            final(self).search_seq() == old(self).search_seq(),
            final(self).di().values() == old(self).di().values().insert(
                scoped_key(old(self).name(), name@),
                ErasedView::Scoped(
                    ScopedValueView { scope: old(self).name(), v: value@, export },
                ),
            ),
            final(self).di().factories() == old(self).di().factories().remove(
                scoped_key(old(self).name(), name@),
            ),
            old(self).di().exclusive() ==> final(self).di().exclusive(),
    {
        let key = Self::scoped_name(self.name.as_str(), name);
        let scoped = ScopedValue { scope: self.name.clone(), v: value, export };
        self.di.register_value(key.as_str(), Erased::Scoped(scoped))
    }

    /// Binds `name` in this scope to a factory that has promised a value of
    /// kind `kind`, in place of whatever the scope had bound it to. The
    /// factory will be handed a guard under this scope's
    /// name and search sequence, and its product will be stored with the
    /// scope as its owner and with `export`.
    pub fn register_factory(&mut self, name: &str, kind: Kind, factory: F, export: bool) -> (r:
        Result<(), Error>)
        ensures
            r is Ok,
            final(self).name() == old(self).name(),
            final(self).search_seq() == old(self).search_seq(),
            final(self).di().factories() == old(self).di().factories().insert(
                scoped_key(old(self).name(), name@),
                PendingView {
                    kind,
                    origin: OriginView::Scoped {
                        scope: old(self).name(),
                        search_seq: old(self).search_seq(),
                        export,
                    },
                    factory,
                },
            ),
            final(self).di().values() == old(self).di().values().remove(
                scoped_key(old(self).name(), name@),
            ),
            old(self).di().exclusive() ==> final(self).di().exclusive(),
    {
        let key = Self::scoped_name(self.name.as_str(), name);
        let search_seq = clone_names(&self.search_seq);
        let origin = Origin::Scoped { scope: self.name.clone(), search_seq, export };
        self.di.register_pending(key.as_str(), Pending { kind, origin, factory })
    }

    /// Searches the values for `name`, through the scopes in order and
    /// without regard to factories. The first scope that holds the name
    /// decides: its value is returned if this scope may see it, and is a
    /// private-access failure if not.
    pub fn inject_value(&self, name: &str, kind: Kind) -> (r: Result<Value, Error>)
        ensures
            viewed(r) == direct_search(
                self.di().values(),
                self.name(),
                self.search_seq(),
                name@,
                kind,
                true,
                0,
            ),
    {
        let mut i: usize = 0;
        while i < self.search_seq.len()
            invariant
                i <= self.search_seq@.len(),
                direct_search(
                    self.di.values(),
                    self.name@,
                    self.search_seq.deep_view(),
                    name@,
                    kind,
                    true,
                    0,
                ) == direct_search(
                    self.di.values(),
                    self.name@,
                    self.search_seq.deep_view(),
                    name@,
                    kind,
                    true,
                    i as int,
                ),
            decreases self.search_seq@.len() - i,
        {
            let key = Self::scoped_name(self.search_seq[i].as_str(), name);
            let outcome = match self.di.inject_value(key.as_str(), TypeTag::Scoped(kind)) {
                Ok(Erased::Scoped(found)) => Ok(found),
                Ok(Erased::Plain(_)) => unreached(),
                Err(e) => Err(e),
            };
            match judge_outcome(&self.name, name, true, outcome) {
                Some(r) => {
                    return r;
                },
                None => {},
            }
            i = i + 1;
        }
        Err(Error::KeyNotFound(message::direct_scope_exhausted_text(name, &self.search_seq)))
    }
}

impl<F: Factory> ScopedDi<F> {
    /// Searches for `name` through the scopes in order, each in a
    /// resolution session of its own, and runs the factory of a scope that
    /// has one waiting under the name.
    ///
    /// The first scope whose resolution does not end in key-not-found
    /// decides: its value is returned if this scope may see it, a value
    /// that it may not see is a private-access failure, and any other
    /// failure is passed on. Where every scope ends in key-not-found, so
    /// does the search, with the scopes in the message.
    ///
    /// Where the search ends before a factory has to be run, the result and
    /// the registry are those of [`top_search`]. In general they are those
    /// of [`top_traced`] for the runs of factories that the search has
    /// made: each run is one call of the factory's `build_scoped`, which is
    /// handed what the leg says, and the leg's outcome and registry are
    /// what that call has returned and left, settled and recorded as
    /// [`model::settle`], [`model::retire`] and [`model::record`] say.
    pub fn inject(&mut self, name: &str, kind: Kind) -> (r: Result<Value, Error>)
        ensures
            viewed(r) matches Ok(v) ==> v.kind() == kind && exists|i: int|
                {
                    &&& 0 <= i < old(self).search_seq().len()
                    &&& final(self).di().values().contains_key(
                        scoped_key(#[trigger] old(self).search_seq()[i], name@),
                    )
                    &&& final(self).di().values()[scoped_key(old(self).search_seq()[i], name@)]
                        matches ErasedView::Scoped(found)
                    &&& found.v == v
                    &&& found.visible_to(old(self).name())
                },
            final(self).name() == old(self).name(),
            final(self).search_seq() == old(self).search_seq(),
            top_search(
                old(self).di().factories(),
                old(self).di().values(),
                old(self).name(),
                old(self).search_seq(),
                name@,
                kind,
                0,
            ) matches Some(end) ==> {
                &&& viewed(r) == end.result
                &&& final(self).di().factories() == end.factories
                &&& final(self).di().values() == old(self).di().values()
            },
            exists|legs: Seq<Leg<F>>|
                {
                    &&& #[trigger] top_traced(
                    old(self).di().factories(),
                    old(self).di().values(),
                    old(self).name(),
                    old(self).search_seq(),
                    name@,
                    kind,
                    0,
                    legs,
                ) == Some(
                    Ended {
                        result: viewed(r),
                        held: Held {
                            factories: final(self).di().factories(),
                            values: final(self).di().values(),
                            chain: Seq::empty(),
                            active: Set::empty(),
                        },
                    },
                )
                    &&& forall|j: int|
                        0 <= j < legs.len() ==> match (#[trigger] legs[j]).pending.origin {
                            OriginView::Plain => false,
                            OriginView::Scoped { scope, search_seq, export } => exists|
                                handed: &mut ScopedDiGuard<F>,
                                built: Result<Value, Error>,
                            |
                                {
                                    &&& mut_ref_current(handed).name() == scope
                                    &&& mut_ref_current(handed).search_seq() == search_seq
                                    &&& mut_ref_current(handed).guard().chain() == legs[j].handed.chain
                                    &&& mut_ref_current(handed).guard().active() == legs[j].handed.active
                                    &&& mut_ref_current(handed).guard().factories() == legs[j].handed.factories
                                    &&& mut_ref_current(handed).guard().values() == legs[j].handed.values
                                    &&& #[trigger] call_ensures(
                                        F::build_scoped,
                                        (legs[j].pending.factory, handed),
                                        built,
                                    )
                                    &&& legs[j].outcome == model::settle(
                                        legs[j].key,
                                        legs[j].pending.kind,
                                        Some(OwnerView { scope, export }),
                                        viewed(built),
                                    )
                                    &&& legs[j].left.factories == model::retire(
                                        mut_ref_future(handed).guard().factories(),
                                        legs[j].key,
                                        legs[j].outcome,
                                    )
                                    &&& legs[j].left.values == model::record(
                                        mut_ref_future(handed).guard().values(),
                                        legs[j].key,
                                        legs[j].outcome,
                                    )
                                },
                        }
                },
    {
        let found = self.search_from(name, kind, 0);
        found.0
    }

    /// The search of [`ScopedDi::inject`] from the scope at position `from`
    /// on, with the runs of factories that it has made.
    fn search_from(&mut self, name: &str, kind: Kind, from: usize) -> (r: (
        Result<Value, Error>,
        Ghost<Seq<Leg<F>>>,
    ))
        ensures
            viewed(r.0) matches Ok(v) ==> v.kind() == kind && exists|i: int|
                {
                    &&& 0 <= i < old(self).search_seq().len()
                    &&& final(self).di().values().contains_key(
                        scoped_key(#[trigger] old(self).search_seq()[i], name@),
                    )
                    &&& final(self).di().values()[scoped_key(old(self).search_seq()[i], name@)]
                        matches ErasedView::Scoped(found)
                    &&& found.v == v
                    &&& found.visible_to(old(self).name())
                },
            final(self).name() == old(self).name(),
            final(self).search_seq() == old(self).search_seq(),
            top_search(
                old(self).di().factories(),
                old(self).di().values(),
                old(self).name(),
                old(self).search_seq(),
                name@,
                kind,
                from as int,
            ) matches Some(end) ==> {
                &&& viewed(r.0) == end.result
                &&& final(self).di().factories() == end.factories
                &&& final(self).di().values() == old(self).di().values()
            },
            top_traced(
                    old(self).di().factories(),
                    old(self).di().values(),
                    old(self).name(),
                    old(self).search_seq(),
                    name@,
                    kind,
                    from as int,
                    r.1@,
                ) == Some(
                    Ended {
                        result: viewed(r.0),
                        held: Held {
                            factories: final(self).di().factories(),
                            values: final(self).di().values(),
                            chain: Seq::empty(),
                            active: Set::empty(),
                        },
                    },
                ),
            forall|j: int|
                0 <= j < r.1@.len() ==> match (#[trigger] r.1@[j]).pending.origin {
                    OriginView::Plain => false,
                    OriginView::Scoped { scope, search_seq, export } => exists|
                        handed: &mut ScopedDiGuard<F>,
                        built: Result<Value, Error>,
                    |
                        {
                            &&& mut_ref_current(handed).name() == scope
                            &&& mut_ref_current(handed).search_seq() == search_seq
                            &&& mut_ref_current(handed).guard().chain() == r.1@[j].handed.chain
                            &&& mut_ref_current(handed).guard().active() == r.1@[j].handed.active
                            &&& mut_ref_current(handed).guard().factories() == r.1@[j].handed.factories
                            &&& mut_ref_current(handed).guard().values() == r.1@[j].handed.values
                            &&& #[trigger] call_ensures(
                                F::build_scoped,
                                (r.1@[j].pending.factory, handed),
                                built,
                            )
                            &&& r.1@[j].outcome == model::settle(
                                r.1@[j].key,
                                r.1@[j].pending.kind,
                                Some(OwnerView { scope, export }),
                                viewed(built),
                            )
                            &&& r.1@[j].left.factories == model::retire(
                                mut_ref_future(handed).guard().factories(),
                                r.1@[j].key,
                                r.1@[j].outcome,
                            )
                            &&& r.1@[j].left.values == model::record(
                                mut_ref_future(handed).guard().values(),
                                r.1@[j].key,
                                r.1@[j].outcome,
                            )
                        },
                },
        decreases old(self).search_seq@.len() - from,
    {
        if from >= self.search_seq.len() {
            return (
                Err(Error::KeyNotFound(message::scope_exhausted_text(name, &self.search_seq))),
                Ghost(Seq::empty()),
            );
        }
        let key = Self::scoped_name(self.search_seq[from].as_str(), name);
        let ghost before = Held {
            factories: self.di.factories(),
            values: self.di.values(),
            chain: Seq::empty(),
            active: Set::empty(),
        };
        let raw = self.di.inject(key.as_str(), TypeTag::Scoped(kind));
        let ghost leg = Leg {
            key: key@,
            pending: before.factories[key@],
            handed: Held {
                factories: before.factories.remove(key@),
                values: before.values,
                chain: seq![key@],
                active: set![key@],
            },
            outcome: viewed(raw),
            left: Held {
                factories: self.di.factories(),
                values: self.di.values(),
                chain: Seq::empty(),
                active: Set::empty(),
            },
        };
        let ghost ran = model::resolved(
            before.factories,
            before.values,
            key@,
            TypeTag::Scoped(kind),
            seq![key@],
        ) is None;
        let outcome = match raw {
            Ok(Erased::Scoped(found)) => Ok(found),
            Ok(Erased::Plain(_)) => unreached(),
            Err(e) => Err(e),
        };
        assert(old(self).search_seq()[from as int] == self.search_seq@[from as int]@);
        match judge_outcome(&self.name, name, true, outcome) {
            Some(r) => {
                let ghost legs = if ran {
                    seq![leg]
                } else {
                    Seq::empty()
                };
                (r, Ghost(legs))
            },
            None => {
                let rest = self.search_from(name, kind, from + 1);
                let ghost legs = if ran {
                    seq![leg] + rest.1@
                } else {
                    rest.1@
                };
                proof {
                    if ran {
                        assert(legs.drop_first() =~= rest.1@);
                        assert forall|j: int| 0 < j < legs.len() implies legs[j] == rest.1@[j - 1] by {}
                    }
                }
                (rest.0, Ghost(legs))
            },
        }
    }
}

/// A copy of a list of names.
fn clone_names(names: &Vec<String>) -> (copy: Vec<String>)
    ensures
        copy.deep_view() == names.deep_view(),
{
    let mut copy: Vec<String> = Vec::new();
    let mut i: usize = 0;
    while i < names.len()
        invariant
            i <= names@.len(),
            copy@.len() == i,
            forall|j: int| 0 <= j < i ==> (#[trigger] copy@[j])@ == names@[j]@,
        decreases names@.len() - i,
    {
        copy.push(names[i].clone());
        i = i + 1;
    }
    assert(copy.deep_view() =~= names.deep_view());
    copy
}

} // verus!
