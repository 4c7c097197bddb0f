use vstd::prelude::*;
use vstd::std_specs::cmp::PartialEqSpec;

verus! {

/// The place of an object in a `Storage`.
#[derive(Debug, Clone, Copy, PartialEq, Eq, Hash, Structural)]
pub struct Handle(usize);

impl Handle {
    pub closed spec fn index(&self) -> nat {
        self.0 as nat
    }
}

impl From<Handle> for usize {
    fn from(handle: Handle) -> (r: usize) {
        handle.0
    }
}

impl vstd::std_specs::convert::FromSpecImpl<Handle> for usize {
    open spec fn obeys_from_spec() -> bool {
        true
    }

    closed spec fn from_spec(handle: Handle) -> usize {
        handle.0
    }
}

/// Objects kept once each, in the order they were first added, and found
/// again by handle.
#[derive(Debug)]
pub struct Storage<T> {
    objects: Vec<T>,
}

/// The first place in `s` of an object equal to `item`, if any.
pub open spec fn first_equal<T: PartialEq>(s: Seq<T>, item: T, i: int) -> bool {
    &&& 0 <= i < s.len()
    &&& s[i].eq_spec(&item)
    &&& forall|j: int| 0 <= j < i ==> !(#[trigger] s[j]).eq_spec(&item)
}

impl<T: PartialEq + Clone> Storage<T> {
    /// The objects, in the order of their handles.
    pub closed spec fn objects(&self) -> Seq<T> {
        self.objects@
    }

    pub fn new() -> (r: Self)
        ensures
            r.objects() == Seq::<T>::empty(),
    {
        Storage { objects: Vec::new() }
    }

    /// The handle of the first object equal to `item`; where there is none,
    /// a copy of `item` is added at the end and its handle returned.
    pub fn get_handle(&mut self, item: &T) -> (r: Handle)
        requires
            old(self).objects().len() < usize::MAX,
        ensures
            r.index() <= old(self).objects().len(),
            r.index() < final(self).objects().len(),
            r.index() < old(self).objects().len() ==> final(self).objects() == old(self).objects(),
            r.index() == old(self).objects().len() ==> {
                &&& final(self).objects() == old(self).objects().push(
                    final(self).objects()[r.index() as int],
                )
                &&& cloned(*item, final(self).objects()[r.index() as int])
            },
            T::obeys_eq_spec() ==> (r.index() < old(self).objects().len() <==> exists|i: int|
                first_equal(old(self).objects(), *item, i)),
            T::obeys_eq_spec() && r.index() < old(self).objects().len() ==> first_equal(
                old(self).objects(),
                *item,
                r.index() as int,
            ),
    {
        let mut i: usize = 0;
        while i < self.objects.len()
            invariant
                0 <= i <= self.objects.len(),
                T::obeys_eq_spec() ==> forall|j: int|
                    0 <= j < i ==> !(#[trigger] self.objects@[j]).eq_spec(item),
            decreases self.objects.len() - i,
        {
            if self.objects[i] == *item {
                proof {
                    if T::obeys_eq_spec() {
                        assert(first_equal(self.objects@, *item, i as int));
                    }
                }
                return Handle(i);
            }
            i = i + 1;
        }
        let copy = item.clone();
        self.objects.push(copy);
        Handle(self.objects.len() - 1)
    }

    /// The object that `handle` names, where there is one.
    pub fn get(&self, handle: Handle) -> (r: Option<&T>)
        ensures
            r == if handle.index() < self.objects().len() {
                Some(&self.objects()[handle.index() as int])
            } else {
                None
            },
    {
        let index: usize = usize::from(handle);
        if index < self.objects.len() {
            Some(&self.objects[index])
        } else {
            None
        }
    }
}

} // verus!
