//! The functor interface: applying a function under a container.

use vstd::prelude::*;

verus! {

/// Containers that a function can be mapped over.  `fmap` applies `f` to
/// every element, keeping the container's shape; what that means for the
/// container at hand is pinned down by the two specification functions.
pub trait Functor<A, B, F> {
    /// The container the mapping produces.
    type Output;

    /// When the mapping may be applied: `f` must accept every element.
    spec fn fmap_req(&self, f: F) -> bool;

    /// What the mapping returns: the shape is kept and every element of the
    /// result is an output of `f` on the corresponding element of `self`.
    spec fn fmap_ens(&self, f: F, o: Self::Output) -> bool;

    /// Applies `f` under the container.
    fn fmap(&self, f: &F) -> (o: Self::Output)
        requires
            self.fmap_req(*f),
        ensures
            self.fmap_ens(*f, o),
    ;
}

impl<A, B, F: Fn(&A) -> B> Functor<A, B, F> for Vec<A> {
    type Output = Vec<B>;

    open spec fn fmap_req(&self, f: F) -> bool {
        forall|i: int| 0 <= i < self@.len() ==> call_requires(f, (&self@[i],))
    }

    open spec fn fmap_ens(&self, f: F, o: Vec<B>) -> bool {
        &&& o@.len() == self@.len()
        &&& forall|i: int| 0 <= i < self@.len() ==> call_ensures(f, (&self@[i],), #[trigger] o@[i])
    }

    fn fmap(&self, f: &F) -> (o: Vec<B>) {
        let mut o: Vec<B> = Vec::new();
        let mut j: usize = 0;
        while j < self.len()
            invariant
                forall|i: int| 0 <= i < self@.len() ==> call_requires(*f, (&self@[i],)),
                0 <= j <= self.len(),
                o@.len() == j,
                forall|i: int|
                    0 <= i < j ==> call_ensures(*f, (&self@[i],), #[trigger] o@[i]),
            decreases self.len() - j,
        {
            o.push(f(&self[j]));
            j = j + 1;
        }
        o
    }
}

impl<T: Copy, B, E: Copy, F: Fn(T) -> B> Functor<T, B, F> for Result<T, E> {
    type Output = Result<B, E>;

    open spec fn fmap_req(&self, f: F) -> bool {
        *self matches Ok(v) ==> call_requires(f, (v,))
    }

    open spec fn fmap_ens(&self, f: F, o: Result<B, E>) -> bool {
        match *self {
            Ok(v) => o matches Ok(w) && call_ensures(f, (v,), w),
            Err(e) => o == Err::<B, E>(e),
        }
    }

    fn fmap(&self, f: &F) -> (o: Result<B, E>) {
        match self {
            Ok(v) => Ok(f(*v)),
            Err(e) => Err(*e),
        }
    }
}

impl<T: Copy, B, F: Fn(T) -> B> Functor<T, B, F> for Option<T> {
    type Output = Option<B>;

    open spec fn fmap_req(&self, f: F) -> bool {
        *self matches Some(v) ==> call_requires(f, (v,))
    }

    open spec fn fmap_ens(&self, f: F, o: Option<B>) -> bool {
        match *self {
            Some(v) => o matches Some(w) && call_ensures(f, (v,), w),
            None => o is None,
        }
    }

    fn fmap(&self, f: &F) -> (o: Option<B>) {
        match self {
            Some(v) => Some(f(*v)),
            None => None,
        }
    }
}

} // verus!
