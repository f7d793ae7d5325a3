use vstd::prelude::*;
use vstd::string::StringExecFns;

use crate::value::{Kind, TypeTag};

verus! {

/// The scope that owns a scoped binding, and whether the binding is
/// exported.
pub struct Owner {
    pub scope: String,
    pub export: bool,
}

/// What an [`Owner`] is.
pub struct OwnerView {
    pub scope: Seq<char>,
    pub export: bool,
}

impl View for Owner {
    type V = OwnerView;

    open spec fn view(&self) -> OwnerView {
        OwnerView { scope: self.scope@, export: self.export }
    }
}

/// Where a factory was registered: on the registry itself, or through a
/// scope, which then hands its own name and search sequence to the factory.
pub enum Origin {
    Plain,
    Scoped { scope: String, search_seq: Vec<String>, export: bool },
}

/// What an [`Origin`] is.
pub enum OriginView {
    Plain,
    Scoped { scope: Seq<char>, search_seq: Seq<Seq<char>>, export: bool },
}

impl OriginView {
    /// The owner that a product of this origin is stored with, if any.
    pub open spec fn owner(self) -> Option<OwnerView> {
        match self {
            OriginView::Plain => None,
            OriginView::Scoped { scope, export, .. } => Some(OwnerView { scope, export }),
        }
    }
}

impl View for Origin {
    type V = OriginView;

    open spec fn view(&self) -> OriginView {
        match self {
            Origin::Plain => OriginView::Plain,
            Origin::Scoped { scope, search_seq, export } => OriginView::Scoped {
                scope: scope@,
                search_seq: search_seq.deep_view(),
                export: *export,
            },
        }
    }
}

/// A factory that waits to be run, with the kind of value it has promised
/// and the place where it was registered.
pub struct Pending<F> {
    pub kind: Kind,
    pub origin: Origin,
    pub factory: F,
}

/// What a [`Pending`] factory is. The factory itself is carried as it is.
pub struct PendingView<F> {
    pub kind: Kind,
    pub origin: OriginView,
    pub factory: F,
}

impl<F> PendingView<F> {
    /// The type of the binding that the factory's product will be stored as.
    pub open spec fn tag(self) -> TypeTag {
        match self.origin {
            OriginView::Plain => TypeTag::Plain(self.kind),
            OriginView::Scoped { .. } => TypeTag::Scoped(self.kind),
        }
    }
}

impl<F> View for Pending<F> {
    type V = PendingView<F>;

    open spec fn view(&self) -> PendingView<F> {
        PendingView { kind: self.kind, origin: self.origin@, factory: self.factory }
    }
}

impl<F> Pending<F> {
    /// The type of the binding that the factory's product will be stored as.
    pub fn tag(&self) -> (t: TypeTag)
        ensures
            t == self@.tag(),
    {
        match &self.origin {
            Origin::Plain => TypeTag::Plain(self.kind),
            Origin::Scoped { .. } => TypeTag::Scoped(self.kind),
        }
    }

    /// The owner that the factory's product will be stored with, if any.
    pub fn owner(&self) -> (o: Option<Owner>)
        ensures
            o.is_some() == self@.origin.owner().is_some(),
            o matches Some(owner) ==> Some(owner@) == self@.origin.owner(),
    {
        match &self.origin {
            Origin::Plain => None,
            Origin::Scoped { scope, export, .. } => Some(
                Owner { scope: scope.clone(), export: *export },
            ),
        }
    }
}

/// One entry of a [`PendingTable`].
struct Slot<F> {
    name: String,
    pending: Pending<F>,
}

/// The map that a list of slots stands for. Where a name occurs more than
/// once, the slot nearest the end of the list counts.
spec fn table_of<F>(slots: Seq<Slot<F>>) -> Map<Seq<char>, PendingView<F>>
    decreases slots.len(),
{
    if slots.len() == 0 {
        Map::empty()
    } else {
        table_of(slots.drop_last()).insert(slots.last().name@, slots.last().pending@)
    }
}

/// Whether `name` is the name of one of the slots.
spec fn occurs<F>(slots: Seq<Slot<F>>, name: Seq<char>) -> bool {
    exists|i: int| 0 <= i < slots.len() && (#[trigger] slots[i]).name@ == name
}

/// A name is bound in the map exactly if it is the name of a slot.
proof fn lemma_table_dom<F>(slots: Seq<Slot<F>>, name: Seq<char>)
    ensures
        table_of(slots).contains_key(name) <==> occurs(slots, name),
    decreases slots.len(),
{
    if slots.len() > 0 {
        let front = slots.drop_last();
        lemma_table_dom(front, name);
        if occurs(front, name) {
            let i = choose|i: int| 0 <= i < front.len() && (#[trigger] front[i]).name@ == name;
            assert(slots[i].name@ == name);
        }
        if occurs(slots, name) && slots.last().name@ != name {
            let i = choose|i: int| 0 <= i < slots.len() && (#[trigger] slots[i]).name@ == name;
            assert(front[i].name@ == name);
        }
    }
}

/// Taking one slot named `name` out of the list changes nothing for the
/// other names.
proof fn lemma_table_remove<F>(slots: Seq<Slot<F>>, at: int, name: Seq<char>)
    requires
        0 <= at < slots.len(),
        slots[at].name@ == name,
    ensures
        table_of(slots.remove(at)).remove(name) == table_of(slots).remove(name),
    decreases slots.len(),
{
    let rest = slots.remove(at);
    if at == slots.len() - 1 {
        assert(rest == slots.drop_last());
        assert(table_of(slots.drop_last()).insert(name, slots.last().pending@).remove(name)
            == table_of(slots.drop_last()).remove(name));
    } else {
        let front = slots.drop_last();
        assert(rest.drop_last() == front.remove(at));
        assert(rest.last() == slots.last());
        lemma_table_remove(front, at, name);
        let last = slots.last();
        assert(table_of(rest.drop_last()).insert(last.name@, last.pending@).remove(name)
            == table_of(front).insert(last.name@, last.pending@).remove(name)) by {
            if last.name@ == name {
                assert(table_of(rest.drop_last()).insert(name, last.pending@).remove(name)
                    == table_of(rest.drop_last()).remove(name));
                assert(table_of(front).insert(name, last.pending@).remove(name) == table_of(
                    front,
                ).remove(name));
            } else {
                assert(table_of(rest.drop_last()).insert(last.name@, last.pending@).remove(name)
                    == table_of(rest.drop_last()).remove(name).insert(last.name@, last.pending@));
                assert(table_of(front).insert(last.name@, last.pending@).remove(name)
                    == table_of(front).remove(name).insert(last.name@, last.pending@));
            }
        }
    }
}

/// Where the slot at `at` is the last one named `name`, it is the one that
/// counts.
proof fn lemma_table_last<F>(slots: Seq<Slot<F>>, at: int, name: Seq<char>)
    requires
        0 <= at < slots.len(),
        slots[at].name@ == name,
        forall|j: int| at < j < slots.len() ==> (#[trigger] slots[j]).name@ != name,
    ensures
        table_of(slots).contains_key(name),
        table_of(slots)[name] == slots[at].pending@,
    decreases slots.len(),
{
    if at < slots.len() - 1 {
        let front = slots.drop_last();
        assert(slots[slots.len() - 1].name@ != name);
        assert forall|j: int| at < j < front.len() implies (#[trigger] front[j]).name@ != name by {
            assert(slots[j].name@ != name);
        }
        lemma_table_last(front, at, name);
    }
}

/// The factories that wait, by name. A factory leaves the table by value,
/// once, when its key is first resolved.
pub struct PendingTable<F> {
    slots: Vec<Slot<F>>,
}

impl<F> View for PendingTable<F> {
    type V = Map<Seq<char>, PendingView<F>>;

    closed spec fn view(&self) -> Map<Seq<char>, PendingView<F>> {
        table_of(self.slots@)
    }
}

impl<F> PendingTable<F> {
    /// A table without factories.
    pub fn new() -> (table: Self)
        ensures
            table@ == Map::<Seq<char>, PendingView<F>>::empty(),
    {
        PendingTable { slots: Vec::new() }
    }

    /// The position of the last slot named `name`, if there is one.
    fn find(&self, name: &String) -> (at: Option<usize>)
        ensures
            match at {
                Some(i) => i < self.slots@.len() && self.slots@[i as int].name@ == name@
                    && forall|j: int|
                    i < j < self.slots@.len() ==> (#[trigger] self.slots@[j]).name@ != name@,
                None => !occurs(self.slots@, name@),
            },
    {
        let mut i: usize = self.slots.len();
        while i > 0
            invariant
                i <= self.slots@.len(),
                forall|j: int| i <= j < self.slots@.len() ==> (#[trigger] self.slots@[j]).name@ != name@,
            decreases i,
        {
            i = i - 1;
            if self.slots[i].name == *name {
                return Some(i);
            }
        }
        None
    }

    /// Whether a factory waits under `name`.
    pub fn contains(&self, name: &str) -> (found: bool)
        ensures
            found == self@.contains_key(name@),
    {
        proof {
            lemma_table_dom(self.slots@, name@);
        }
        let key = String::from_str(name);
        self.find(&key).is_some()
    }

    /// Takes the factory that waits under `name` out of the table.
    pub fn take(&mut self, name: &str) -> (taken: Option<Pending<F>>)
        ensures
            final(self)@ == old(self)@.remove(name@),
            match taken {
                Some(pending) => old(self)@.contains_key(name@) && pending@ == old(self)@[name@],
                None => !old(self)@.contains_key(name@),
            },
    {
        proof {
            lemma_table_dom(self.slots@, name@);
        }
        let key = String::from_str(name);
        let mut taken: Option<Pending<F>> = None;
        loop
            invariant
                key@ == name@,
                table_of(self.slots@).remove(name@) == old(self)@.remove(name@),
                match taken {
                    Some(pending) => old(self)@.contains_key(name@) && pending@ == old(self)@[name@],
                    None => old(self)@.contains_key(name@) == occurs(self.slots@, name@)
                        && (occurs(self.slots@, name@) ==> table_of(self.slots@)[name@] == old(
                        self,
                    )@[name@]),
                },
            ensures
                !occurs(self.slots@, name@),
            decreases self.slots@.len(),
        {
            match self.find(&key) {
                None => {
                    break ;
                },
                Some(at) => {
                    proof {
                        lemma_table_remove(self.slots@, at as int, name@);
                        lemma_table_last(self.slots@, at as int, name@);
                        lemma_table_dom(self.slots@, name@);
                    }
                    let slot = self.slots.remove(at);
                    if taken.is_none() {
                        taken = Some(slot.pending);
                    }
                },
            }
        }
        proof {
            lemma_table_dom(self.slots@, name@);
            assert(table_of(self.slots@).remove(name@) == table_of(self.slots@));
        }
        taken
    }

    /// Binds `name` to `pending`, in place of what it was bound to.
    pub fn insert(&mut self, name: String, pending: Pending<F>)
        ensures
            final(self)@ == old(self)@.insert(name@, pending@),
    {
        let _ = self.take(name.as_str());
        let ghost before = self.slots@;
        self.slots.push(Slot { name, pending });
        proof {
            assert(self.slots@.drop_last() == before);
            assert(old(self)@.remove(name@).insert(name@, pending@) == old(self)@.insert(
                name@,
                pending@,
            ));
        }
    }
}

} // verus!
