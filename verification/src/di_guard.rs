use vstd::hash_set::StringHashSet;
use vstd::prelude::*;
use vstd::string::StringExecFns;

use crate::di::{Di, Resolution};
use crate::error::{Error, ErrorView};
use crate::factory::Factory;
use crate::message;
use crate::model;
use crate::model::viewed;
use crate::pending::{Origin, OriginView, OwnerView, Pending, PendingView};
use crate::scoped_di_guard::ScopedDiGuard;
use crate::value::{Erased, ErasedView, TypeTag, Value};

verus! {

/// One resolution session: the registry, with the chain of keys that the
/// session has asked for so far and the set of those keys. A key stays in
/// both once it is in, also after it has resolved.
pub struct DiGuard<F> {
    di: Di<F>,
    inject_stack: Vec<String>,
    inject_set: StringHashSet,
}

impl<F> DiGuard<F> {
    /// The registry that the session works on.
    pub closed spec fn di(&self) -> Di<F> {
        self.di
    }

    /// The keys that the session has asked for, in order.
    pub closed spec fn chain(&self) -> Seq<Seq<char>> {
        self.inject_stack.deep_view()
    }

    /// The keys that the session has asked for, as a set. It decides
    /// whether a key comes back.
    pub closed spec fn active(&self) -> Set<Seq<char>> {
        self.inject_set@
    }

    /// The values that are bound in the registry.
    pub open spec fn values(&self) -> Map<Seq<char>, ErasedView> {
        self.di().values()
    }

    /// The factories that wait in the registry.
    pub open spec fn factories(&self) -> Map<Seq<char>, PendingView<F>> {
        self.di().factories()
    }

    /// Whether chain and set hold the same keys, each once.
    pub open spec fn consistent(&self) -> bool {
        &&& self.chain().no_duplicates()
        &&& forall|k: Seq<char>| self.active().contains(k) <==> self.chain().contains(k)
    }

    /// A new session on `di`, which has asked for nothing yet.
    pub fn new(di: Di<F>) -> (guard: Self)
        ensures
            guard.di() == di,
            guard.chain() == Seq::<Seq<char>>::empty(),
            guard.active() == Set::<Seq<char>>::empty(),
            guard.consistent(),
    {
        let guard = DiGuard { di, inject_stack: Vec::new(), inject_set: StringHashSet::new() };
        assert(guard.chain() =~= Seq::<Seq<char>>::empty());
        guard
    }

    /// The keys that the session has asked for, in order.
    pub fn stack(&self) -> (stack: &Vec<String>)
        ensures
            stack.deep_view() == self.chain(),
    {
        &self.inject_stack
    }

    /// Ends the session and gives the registry back.
    pub fn into_di(self) -> (di: Di<F>)
        ensures
            di == self.di(),
    {
        self.di
    }

    /// Takes `name` into the session. A key that the session holds already
    /// is refused as a circular dependency, with the chain in the message,
    /// and the session stays as it is.
    pub fn enter(&mut self, name: &str) -> (r: Result<(), Error>)
        ensures
            old(self).active().contains(name@) ==> {
                &&& viewed(r) == Err::<(), ErrorView>(
                    ErrorView::CircularDependency(
                        message::circular_dependency(name@, old(self).chain()),
                    ),
                )
                &&& *final(self) == *old(self)
            },
            !old(self).active().contains(name@) ==> {
                &&& r is Ok
                &&& final(self).chain() == old(self).chain().push(name@)
                &&& final(self).active() == old(self).active().insert(name@)
                &&& final(self).di() == old(self).di()
                &&& old(self).consistent() ==> final(self).consistent()
            },
    {
        if self.inject_set.contains(name) {
            return Err(
                Error::CircularDependency(
                    message::circular_dependency_text(name, &self.inject_stack),
                ),
            );
        }
        self.inject_stack.push(String::from_str(name));
        self.inject_set.insert(String::from_str(name));
        proof {
            assert(self.chain() =~= old(self).chain().push(name@));
            if old(self).consistent() {
                let before = old(self).chain();
                let after = self.chain();
                assert(!before.contains(name@));
                assert forall|i: int, j: int|
                    0 <= i < after.len() && 0 <= j < after.len() && i != j implies after[i]
                    != after[j] by {
                    if i < before.len() && j < before.len() {
                        assert(before[i] != before[j]);
                    } else if i < before.len() {
                        assert(before.contains(before[i]));
                    } else {
                        assert(before.contains(before[j]));
                    }
                }
                assert forall|k: Seq<char>| self.active().contains(k) <==> after.contains(k) by {
                    if before.contains(k) {
                        let i = choose|i: int| 0 <= i < before.len() && before[i] == k;
                        assert(after[i] == k);
                    }
                    if k == name@ {
                        assert(after[after.len() - 1] == k);
                    }
                    if after.contains(k) {
                        let i = choose|i: int| 0 <= i < after.len() && after[i] == k;
                        if i < before.len() {
                            assert(before[i] == k);
                        }
                    }
                }
            }
        }
        Ok(())
    }

    /// Looks `name` up among the values of the registry, outside the
    /// session: the chain is neither asked nor changed.
    pub fn inject_value(&self, name: &str, tag: TypeTag) -> (r: Result<Erased, Error>)
        ensures
            viewed(r) == model::direct_lookup(self.values(), name@, tag),
    {
        self.di.inject_value(name, tag)
    }
}

impl<F: Factory> DiGuard<F> {
    /// Runs a factory that has left the registry, with this session as its
    /// guard.
    ///
    /// A factory that was registered on the registry itself is run by one
    /// call of its `build`, which is handed the session as it is. A factory
    /// of a scope is run by one call of its `build_scoped`, which is handed
    /// a guard that holds the session under that scope's name and search
    /// sequence. Either way the result is what the call has returned, and
    /// the session is left as the call has left it.
    fn run(&mut self, pending: Pending<F>) -> (built: Result<Value, Error>)
        ensures
            match pending@.origin {
                OriginView::Plain => exists|handed: &mut DiGuard<F>|
                    {
                        &&& mut_ref_current(handed) == *old(self)
                        &&& mut_ref_future(handed) == *final(self)
                        &&& #[trigger] call_ensures(F::build, (pending.factory, handed), built)
                    },
                OriginView::Scoped { scope, search_seq, .. } => exists|
                    handed: &mut ScopedDiGuard<F>,
                |
                    {
                        &&& mut_ref_current(handed).name() == scope
                        &&& mut_ref_current(handed).search_seq() == search_seq
                        &&& mut_ref_current(handed).guard() == *old(self)
                        &&& mut_ref_future(handed).guard() == *final(self)
                        &&& #[trigger] call_ensures(
                            F::build_scoped,
                            (pending.factory, handed),
                            built,
                        )
                    },
            },
    {
        let Pending { origin, factory, .. } = pending;
        match origin {
            Origin::Plain => factory.build(self),
            Origin::Scoped { scope, search_seq, .. } => {
                let mut session = DiGuard::new(Di::new());
                core::mem::swap(self, &mut session);
                let mut scoped = ScopedDiGuard::new(scope, session, search_seq);
                let built = factory.build_scoped(&mut scoped);
                let mut session = scoped.into_guard();
                core::mem::swap(self, &mut session);
                built
            },
        }
    }

    /// Resolves `name` with type `tag` within the session.
    ///
    /// A key that the session holds already is a circular dependency.
    /// Otherwise the key enters the session, and a factory that waits under
    /// it leaves the registry. Where no factory has to be run, the result
    /// is that of [`model::resolved`] and the values stay as they are.
    ///
    /// Where a factory has to be run, it is run by one call of its own
    /// method, which is handed the session with the key entered and the
    /// factory gone, for a factory of a scope under that scope's name and
    /// search sequence. What the call returns is settled as
    /// [`model::settle`] says: a product of the promised kind is bound to
    /// the key, with the owner that the factory's origin names, and
    /// returned. Chain, set and registry are otherwise as the call has left
    /// them.
    pub fn inject(&mut self, name: &str, tag: TypeTag) -> (r: Result<Erased, Error>)
        ensures
            viewed(r) matches Ok(e) ==> {
                &&& e.tag() == tag
                &&& final(self).values().contains_key(name@)
                &&& final(self).values()[name@] == e
                &&& !final(self).factories().contains_key(name@)
            },
            old(self).active().contains(name@) ==> {
                &&& viewed(r) == Err::<ErasedView, ErrorView>(
                    ErrorView::CircularDependency(
                        message::circular_dependency(name@, old(self).chain()),
                    ),
                )
                &&& *final(self) == *old(self)
            },
            !old(self).active().contains(name@) ==> match model::resolved(
                old(self).factories(),
                old(self).values(),
                name@,
                tag,
                old(self).chain().push(name@),
            ) {
                Some(outcome) => {
                    &&& viewed(r) == outcome
                    &&& final(self).chain() == old(self).chain().push(name@)
                    &&& final(self).active() == old(self).active().insert(name@)
                    &&& final(self).factories() == old(self).factories().remove(name@)
                    &&& final(self).values() == old(self).values()
                    &&& old(self).consistent() ==> final(self).consistent()
                    &&& old(self).di().exclusive() ==> final(self).di().exclusive()
                },
                None => ({
                    let pending = old(self).factories()[name@];
                    match pending.origin {
                        OriginView::Plain => exists|handed: &mut DiGuard<F>, built: Result<Value, Error>|
                            {
                                &&& mut_ref_current(handed).chain() == old(self).chain().push(name@)
                                &&& mut_ref_current(handed).active() == old(self).active().insert(name@)
                                &&& mut_ref_current(handed).factories() == old(
                                    self,
                                ).factories().remove(name@)
                                &&& mut_ref_current(handed).values() == old(self).values()
                                &&& #[trigger] call_ensures(
                                    F::build,
                                    (pending.factory, handed),
                                    built,
                                )
                                &&& viewed(r) == model::settle(
                                    name@,
                                    pending.kind,
                                    None,
                                    viewed(built),
                                )
                                &&& final(self).chain() == mut_ref_future(handed).chain()
                                &&& final(self).active() == mut_ref_future(handed).active()
                                &&& final(self).factories() == model::retire(
                                    mut_ref_future(handed).factories(),
                                    name@,
                                    viewed(r),
                                )
                                &&& final(self).values() == model::record(
                                    mut_ref_future(handed).values(),
                                    name@,
                                    viewed(r),
                                )
                            },
                        OriginView::Scoped { scope, search_seq, export } => exists|handed: &mut ScopedDiGuard<F>, built: Result<Value, Error>|
                            {
                                &&& mut_ref_current(handed).name() == scope
                                &&& mut_ref_current(handed).search_seq() == search_seq
                                &&& mut_ref_current(handed).guard().chain() == old(self).chain().push(name@)
                                &&& mut_ref_current(handed).guard().active() == old(self).active().insert(name@)
                                &&& mut_ref_current(handed).guard().factories() == old(
                                    self,
                                ).factories().remove(name@)
                                &&& mut_ref_current(handed).guard().values() == old(self).values()
                                &&& #[trigger] call_ensures(
                                    F::build_scoped,
                                    (pending.factory, handed),
                                    built,
                                )
                                &&& viewed(r) == model::settle(
                                    name@,
                                    pending.kind,
                                    Some(OwnerView { scope, export }),
                                    viewed(built),
                                )
                                &&& final(self).chain() == mut_ref_future(handed).guard().chain()
                                &&& final(self).active() == mut_ref_future(handed).guard().active()
                                &&& final(self).factories() == model::retire(
                                    mut_ref_future(handed).guard().factories(),
                                    name@,
                                    viewed(r),
                                )
                                &&& final(self).values() == model::record(
                                    mut_ref_future(handed).guard().values(),
                                    name@,
                                    viewed(r),
                                )
                            },
                    }
                }),
            },
    {
        match self.enter(name) {
            Err(e) => {
                return Err(e);
            },
            Ok(_) => {},
        }
        match self.di.begin_inject(name, tag, &self.inject_stack) {
            Err(e) => Err(e),
            Ok(Resolution::Ready(e)) => Ok(e),
            Ok(Resolution::Build(pending)) => {
                let kind = pending.kind;
                let owner = pending.owner();
                let ghost waiting = pending@;
                let ghost entered = *self;
                let built = self.run(pending);
                let ghost made = built;
                let ghost left = *self;
                let r = self.di.finish_inject(name, kind, owner, built);
                proof {
                    assert(waiting == old(self).factories()[name@]);
                    match waiting.origin {
                        OriginView::Plain => {
                            let handed = choose|handed: &mut DiGuard<F>|
                                {
                                    &&& mut_ref_current(handed) == entered
                                    &&& mut_ref_future(handed) == left
                                    &&& #[trigger] call_ensures(
                                        F::build,
                                        (waiting.factory, handed),
                                        made,
                                    )
                                };
                            assert(call_ensures(F::build, (waiting.factory, handed), made));
                        },
                        OriginView::Scoped { scope, search_seq, export } => {
                            let handed = choose|handed: &mut ScopedDiGuard<F>|
                                {
                                    &&& mut_ref_current(handed).name() == scope
                                    &&& mut_ref_current(handed).search_seq() == search_seq
                                    &&& mut_ref_current(handed).guard() == entered
                                    &&& mut_ref_future(handed).guard() == left
                                    &&& #[trigger] call_ensures(
                                        F::build_scoped,
                                        (waiting.factory, handed),
                                        made,
                                    )
                                };
                            assert(call_ensures(F::build_scoped, (waiting.factory, handed), made));
                        },
                    }
                }
                r
            },
        }
    }
}

} // verus!
