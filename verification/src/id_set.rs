//! Sets of identifiers, kept in the order of the identifiers.

use crate::ids::{GlobalId, RoleId};
use vstd::prelude::*;

verus! {

/// An identifier with a place in the order of its kind.
pub trait Ranked: Copy {
    /// The place in the order.
    spec fn rank(self) -> int;

    /// No two identifiers have the same place.
    proof fn rank_identifies(a: Self, b: Self)
        requires
            a.rank() == b.rank(),
        ensures
            a == b,
    ;

    /// Whether `self` comes before `other`.
    fn is_below(&self, other: &Self) -> (b: bool)
        ensures
            b == (self.rank() < other.rank()),
    ;
}

/// The number of places that one kind of numbered identifier takes.
pub open spec fn block() -> int {
    u64::MAX + 1
}

impl Ranked for GlobalId {
    open spec fn rank(self) -> int {
        match self {
            GlobalId::System(n) => n as int,
            GlobalId::User(n) => block() + n,
            GlobalId::Transient(n) => 2 * block() + n,
            GlobalId::Explain => 3 * block(),
        }
    }

    proof fn rank_identifies(a: GlobalId, b: GlobalId) {
    }

    fn is_below(&self, other: &GlobalId) -> (b: bool) {
        match (self, other) {
            (GlobalId::System(m), GlobalId::System(n)) => *m < *n,
            (GlobalId::System(_), _) => true,
            (GlobalId::User(_), GlobalId::System(_)) => false,
            (GlobalId::User(m), GlobalId::User(n)) => *m < *n,
            (GlobalId::User(_), _) => true,
            (GlobalId::Transient(m), GlobalId::Transient(n)) => *m < *n,
            (GlobalId::Transient(_), GlobalId::Explain) => true,
            (GlobalId::Transient(_), _) => false,
            (GlobalId::Explain, _) => false,
        }
    }
}

impl Ranked for RoleId {
    open spec fn rank(self) -> int {
        match self {
            RoleId::System(n) => n as int,
            RoleId::User(n) => block() + n,
            RoleId::Public => 2 * block(),
        }
    }

    proof fn rank_identifies(a: RoleId, b: RoleId) {
    }

    fn is_below(&self, other: &RoleId) -> (b: bool) {
        match (self, other) {
            (RoleId::System(m), RoleId::System(n)) => *m < *n,
            (RoleId::System(_), _) => true,
            (RoleId::User(m), RoleId::User(n)) => *m < *n,
            (RoleId::User(_), RoleId::Public) => true,
            (RoleId::User(_), RoleId::System(_)) => false,
            (RoleId::Public, _) => false,
        }
    }
}

/// Whether each identifier of `ids` comes before all that follow it.
pub open spec fn ascending<T: Ranked>(ids: Seq<T>) -> bool {
    forall|i: int, j: int|
        0 <= i < j < ids.len() ==> (#[trigger] ids[i]).rank() < (#[trigger] ids[j]).rank()
}

/// The identifiers of a finite set, one after the other in their order.
pub open spec fn in_order<T: Ranked>(ids: Set<T>) -> Seq<T> {
    choose|s: Seq<T>| #[trigger] ascending(s) && s.to_set() == ids
}

/// There is only one ascending sequence of the same identifiers.
pub proof fn lemma_ascending_unique<T: Ranked>(a: Seq<T>, b: Seq<T>)
    requires
        ascending(a),
        ascending(b),
        a.to_set() == b.to_set(),
    ensures
        a == b,
    decreases a.len(),
{
    if a.len() == 0 {
        if b.len() > 0 {
            assert(b.to_set().contains(b[0]));
            assert(a.contains(b[0]));
        }
    } else {
        assert(a.to_set().contains(a.last()));
        assert(b.contains(a.last()));
        assert(b.to_set().contains(b.last()));
        assert(a.contains(b.last()));
        assert(a.last() == b.last()) by {
            let i = b.index_of(a.last());
            let j = a.index_of(b.last());
            T::rank_identifies(a.last(), b.last());
        };
        let a1 = a.drop_last();
        let b1 = b.drop_last();
        assert forall|x: T| a1.contains(x) == b1.contains(x) by {
            if a1.contains(x) {
                let i = a1.index_of(x);
                assert(a[i] == x);
                assert(a.to_set().contains(x));
                assert(b.contains(x));
                let j = b.index_of(x);
                assert(b1[j] == x);
            }
            if b1.contains(x) {
                let i = b1.index_of(x);
                assert(b[i] == x);
                assert(b.to_set().contains(x));
                assert(a.contains(x));
                let j = a.index_of(x);
                assert(a1[j] == x);
            }
        };
        assert(a1.to_set() =~= b1.to_set());
        lemma_ascending_unique(a1, b1);
        assert(a =~= a1.push(a.last()));
        assert(b =~= b1.push(b.last()));
    }
}

/// An ascending sequence lists the set of its identifiers in order.
pub proof fn lemma_in_order_is<T: Ranked>(s: Seq<T>)
    requires
        ascending(s),
    ensures
        in_order(s.to_set()) == s,
{
    assert(ascending(s) && s.to_set() == s.to_set());
    lemma_ascending_unique(in_order(s.to_set()), s);
}

/// An identifier can be put in its place in an ascending sequence.
proof fn lemma_place<T: Ranked>(s: Seq<T>, id: T) -> (t: Seq<T>)
    requires
        ascending(s),
    ensures
        ascending(t),
        t.to_set() == s.to_set().insert(id),
    decreases s.len(),
{
    if s.contains(id) {
        assert(s.to_set() =~= s.to_set().insert(id));
        s
    } else if s.len() == 0 || s.last().rank() < id.rank() {
        let t = s.push(id);
        assert(t.to_set() =~= s.to_set().insert(id)) by {
            assert(t[s.len() as int] == id);
            assert forall|x: T| s.contains(x) implies t.contains(x) by {
                assert(t[s.index_of(x)] == x);
            };
        };
        t
    } else {
        assert(s[s.len() - 1] != id);
        if s.last().rank() == id.rank() {
            T::rank_identifies(s.last(), id);
        }
        let s1 = s.drop_last();
        let t1 = lemma_place(s1, id);
        let t = t1.push(s.last());
        assert forall|i: int| 0 <= i < t1.len() implies (#[trigger] t1[i]).rank()
            < s.last().rank() by {
            assert(t1.to_set().contains(t1[i]));
            if t1[i] != id {
                assert(s1.contains(t1[i]));
                let j = s1.index_of(t1[i]);
                assert(s[j] == t1[i]);
            }
        };
        assert forall|x: T| t.contains(x) == s.to_set().insert(id).contains(x) by {
            if t.contains(x) {
                let i = t.index_of(x);
                if i < t1.len() {
                    assert(t1.to_set().contains(t1[i]));
                    if x != id {
                        let j = s1.index_of(x);
                        assert(s[j] == x);
                    }
                }
            }
            if s.contains(x) || x == id {
                if x == s.last() {
                    assert(t[t1.len() as int] == x);
                } else {
                    if x != id {
                        let j = s.index_of(x);
                        assert(s1[j] == x);
                        assert(s1.to_set().contains(x));
                    }
                    assert(t1.to_set().contains(x));
                    let i = t1.index_of(x);
                    assert(t[i] == x);
                }
            }
        };
        assert(t.to_set() =~= s.to_set().insert(id));
        t
    }
}

/// Every finite set can be listed in order.
pub proof fn lemma_in_order<T: Ranked>(ids: Set<T>)
    requires
        ids.finite(),
    ensures
        ascending(in_order(ids)),
        in_order(ids).to_set() == ids,
    decreases ids.len(),
{
    if ids.len() == 0 {
        let s = Seq::<T>::empty();
        assert(s.to_set() =~= ids);
        assert(ascending(s));
    } else {
        let id = ids.choose();
        lemma_in_order(ids.remove(id));
        let t = lemma_place(in_order(ids.remove(id)), id);
        assert(t.to_set() =~= ids);
    }
}

/// A set of identifiers.
///
/// The identifiers are held in ascending order, so no one occurs twice.
#[derive(Debug)]
pub struct IdSet<T: Ranked> {
    ids: Vec<T>,
}

impl<T: Ranked> View for IdSet<T> {
    type V = Set<T>;

    closed spec fn view(&self) -> Set<T> {
        self.ids@.to_set()
    }
}

impl<T: Ranked> IdSet<T> {
    #[verifier::type_invariant]
    spec fn wf(self) -> bool {
        ascending(self.ids@)
    }

    /// The empty set.
    pub fn new() -> (s: IdSet<T>)
        ensures
            s@ == Set::<T>::empty(),
    {
        let s = IdSet { ids: Vec::new() };
        assert(s@ =~= Set::<T>::empty());
        s
    }

    /// The identifiers in ascending order.
    pub fn ids(&self) -> (ids: &Vec<T>)
        ensures
            ids@ == in_order(self@),
            ascending(ids@),
            ids@.to_set() == self@,
    {
        proof {
            use_type_invariant(self);
            lemma_in_order_is(self.ids@);
        }
        &self.ids
    }

    /// The number of identifiers that come before `id`.
    fn place(&self, id: &T) -> (n: usize)
        ensures
            n <= self.ids@.len(),
            forall|i: int| 0 <= i < n ==> (#[trigger] self.ids@[i]).rank() < id.rank(),
            forall|i: int| n <= i < self.ids@.len() ==> (#[trigger] self.ids@[i]).rank()
                >= id.rank(),
    {
        proof {
            use_type_invariant(self);
        }
        let mut low: usize = 0;
        let mut high: usize = self.ids.len();
        while low < high
            invariant
                ascending(self.ids@),
                low <= high <= self.ids@.len(),
                forall|i: int| 0 <= i < low ==> (#[trigger] self.ids@[i]).rank() < id.rank(),
                forall|i: int| high <= i < self.ids@.len() ==> (#[trigger] self.ids@[i]).rank()
                    >= id.rank(),
            decreases high - low,
        {
            let middle: usize = low + (high - low) / 2;
            if self.ids[middle].is_below(id) {
                low = middle + 1;
            } else {
                high = middle;
            }
        }
        low
    }

    /// Whether `id` is in the set.
    pub fn contains(&self, id: &T) -> (b: bool)
        ensures
            b == self@.contains(*id),
    {
        let n: usize = self.place(id);
        let b = n < self.ids.len() && !id.is_below(&self.ids[n]);
        proof {
            if b {
                T::rank_identifies(self.ids@[n as int], *id);
                assert(self.ids@.contains(*id));
            } else if self.ids@.contains(*id) {
                let i = self.ids@.index_of(*id);
                assert(self.ids@[i] == *id);
                use_type_invariant(self);
            }
        }
        b
    }

    /// The set with `id` in it.
    pub fn insert(self, id: T) -> (s: IdSet<T>)
        ensures
            s@ == self@.insert(id),
    {
        let known = self.contains(&id);
        if known {
            assert(self@ =~= self@.insert(id));
            self
        } else {
            let n: usize = self.place(&id);
            proof {
                use_type_invariant(&self);
            }
            let ghost before = self.ids@;
            let mut ids = self.ids;
            ids.insert(n, id);
            proof {
                assert forall|i: int| n <= i < before.len() implies (#[trigger] before[i]).rank()
                    > id.rank() by {
                    if before[i].rank() == id.rank() {
                        T::rank_identifies(before[i], id);
                        assert(before.contains(id));
                    }
                };
                assert(ids@ =~= before.insert(n as int, id));
                assert forall|x: T| ids@.contains(x) == before.to_set().insert(id).contains(x) by {
                    if ids@.contains(x) {
                        let i = ids@.index_of(x);
                        if i < n {
                            assert(before[i] == x);
                        } else if i > n {
                            assert(before[i - 1] == x);
                        }
                    }
                    if before.contains(x) {
                        let i = before.index_of(x);
                        if i < n {
                            assert(ids@[i] == x);
                        } else {
                            assert(ids@[i + 1] == x);
                        }
                    }
                    if x == id {
                        assert(ids@[n as int] == x);
                    }
                };
                assert(ids@.to_set() =~= before.to_set().insert(id));
            }
            IdSet { ids }
        }
    }

    /// The set of the identifiers that occur in `ids`.
    pub fn from_ids(ids: &Vec<T>) -> (s: IdSet<T>)
        ensures
            s@ == ids@.to_set(),
    {
        let mut s: IdSet<T> = IdSet::new();
        assert(ids@.take(0).to_set() =~= Set::<T>::empty());
        for i in 0..ids.len()
            invariant
                s@ == ids@.take(i as int).to_set(),
        {
            proof {
                lemma_to_set_take(ids@, i as int);
            }
            s = s.insert(ids[i]);
        }
        assert(ids@.take(ids@.len() as int) =~= ids@);
        s
    }

    /// The identifiers that are not in `other`, in ascending order.
    pub fn difference(&self, other: &IdSet<T>) -> (ids: Vec<T>)
        ensures
            ids@ == in_order(self@.difference(other@)),
            ascending(ids@),
            ids@.to_set() == self@.difference(other@),
    {
        proof {
            use_type_invariant(self);
        }
        let mut ids: Vec<T> = Vec::new();
        for i in 0..self.ids.len()
            invariant
                ascending(self.ids@),
                ascending(ids@),
                forall|j: int|
                    0 <= j < ids@.len() ==> self.ids@.take(i as int).contains(#[trigger] ids@[j])
                        && !other@.contains(ids@[j]),
                forall|j: int|
                    0 <= j < i && !other@.contains(#[trigger] self.ids@[j]) ==> ids@.contains(
                        self.ids@[j],
                    ),
        {
            let id = self.ids[i];
            let ghost before = ids@;
            let ghost seen = self.ids@.take(i as int);
            assert(self.ids@.take(i + 1) =~= seen.push(id));
            assert forall|x: T| seen.contains(x) implies self.ids@.take(i + 1).contains(x) by {
                let k = seen.index_of(x);
                assert(self.ids@.take(i + 1)[k] == x);
            };
            if !other.contains(&id) {
                ids.push(id);
                assert forall|j: int| 0 <= j < before.len() implies (#[trigger] before[j]).rank()
                    < id.rank() by {
                    let k = seen.index_of(before[j]);
                    assert(self.ids@[k] == before[j]);
                };
                assert forall|x: T| before.contains(x) implies ids@.contains(x) by {
                    assert(ids@[before.index_of(x)] == x);
                };
                assert(ids@[before.len() as int] == id);
                assert(self.ids@.take(i + 1)[i as int] == id);
            }
        }
        proof {
            assert forall|x: T| ids@.contains(x) == self@.difference(other@).contains(x) by {
                if ids@.contains(x) {
                    let j = ids@.index_of(x);
                    assert(self.ids@.take(self.ids@.len() as int) =~= self.ids@);
                    assert(self.ids@.contains(ids@[j]));
                }
                if self@.difference(other@).contains(x) {
                    let j = self.ids@.index_of(x);
                    assert(self.ids@[j] == x);
                }
            };
            assert(ids@.to_set() =~= self@.difference(other@));
            lemma_in_order_is(ids@);
        }
        ids
    }

    /// A copy of the set.
    pub fn copy(&self) -> (s: IdSet<T>)
        ensures
            s@ == self@,
    {
        IdSet::from_ids(self.ids())
    }
}

/// One more element of a sequence is one more element of its set.
pub proof fn lemma_to_set_take<T>(s: Seq<T>, i: int)
    requires
        0 <= i < s.len(),
    ensures
        s.take(i + 1).to_set() == s.take(i).to_set().insert(s[i]),
{
    let a = s.take(i);
    let b = s.take(i + 1);
    assert forall|x: T| b.contains(x) == a.to_set().insert(s[i]).contains(x) by {
        if b.contains(x) {
            let k = b.index_of(x);
            if k < i {
                assert(a[k] == x);
            }
        }
        if a.contains(x) {
            let k = a.index_of(x);
            assert(b[k] == x);
        }
        if x == s[i] {
            assert(b[i] == x);
        }
    };
    assert(b.to_set() =~= a.to_set().insert(s[i]));
}

} // verus!
