//! Sequential application: mapping a container of functions over a functor.

use vstd::prelude::*;

use crate::functional::functor::Functor;

verus! {

/// Containers of functions that can be applied across another functor:
/// `seq` maps each held function over `y`, collecting the mapped
/// containers.
pub trait Sequential<Ax, Bx, Fx, Ay, By, Y: Functor<Ay, By, Box<Ax>>>: Functor<Box<Ax>, Bx, Fx> {
    /// The container of mapped containers that `seq` produces.
    type Seq;

    /// When the application may be made: `y` must accept every held
    /// function.
    spec fn seq_req(&self, y: Y) -> bool;

    /// What the application returns.
    spec fn seq_ens(&self, y: Y, o: Self::Seq) -> bool;

    /// Maps each function held in `self` over `y`.
    fn seq(&self, y: &Y) -> (o: Self::Seq)
        requires
            self.seq_req(*y),
        ensures
            self.seq_ens(*y, o),
    ;
}

impl<Ax, Fx, Ay, By, Y> Sequential<Ax, Y::Output, Fx, Ay, By, Y> for Vec<Box<Ax>> where
    Y: Functor<Ay, By, Box<Ax>>,
    Fx: Fn(&Box<Ax>) -> Y::Output,
    Ax: Fn(&Ay) -> By,
 {
    type Seq = Vec<Y::Output>;

    open spec fn seq_req(&self, y: Y) -> bool {
        forall|i: int| 0 <= i < self@.len() ==> y.fmap_req(self@[i])
    }

    open spec fn seq_ens(&self, y: Y, o: Vec<Y::Output>) -> bool {
        &&& o@.len() == self@.len()
        &&& forall|i: int| 0 <= i < self@.len() ==> y.fmap_ens(self@[i], #[trigger] o@[i])
    }

    fn seq(&self, y: &Y) -> (o: Vec<Y::Output>) {
        let mut o: Vec<Y::Output> = Vec::new();
        let mut j: usize = 0;
        while j < self.len()
            invariant
                forall|i: int| 0 <= i < self@.len() ==> y.fmap_req(self@[i]),
                0 <= j <= self.len(),
                o@.len() == j,
                forall|i: int| 0 <= i < j ==> y.fmap_ens(self@[i], #[trigger] o@[i]),
            decreases self.len() - j,
        {
            o.push(y.fmap(&self[j]));
            j = j + 1;
        }
        o
    }
}

} // verus!
