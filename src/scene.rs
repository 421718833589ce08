use vstd::prelude::*;

use crate::entity::{draw_of, DrawCall, Entity};
use crate::layout::LayoutError;

verus! {

/// The draw calls of `entities`, in order, or the error of the first entity
/// that cannot be drawn.
pub open spec fn draws_of<T>(entities: Seq<Entity<T>>) -> Result<Seq<DrawCall>, LayoutError>
    decreases entities.len(),
{
    if entities.len() == 0 {
        Ok(Seq::empty())
    } else {
        match draws_of(entities.drop_last()) {
            Err(e) => Err(e),
            Ok(calls) => match draw_of(entities.last()) {
                Ok(c) => Ok(calls.push(c)),
                Err(e) => Err(e),
            },
        }
    }
}

/// Something that is drawn as a sequence of draw calls.
pub trait Drawable {
    spec fn draw_calls(&self) -> Result<Seq<DrawCall>, LayoutError>;

    fn draw(&self) -> (r: Result<Vec<DrawCall>, LayoutError>)
        ensures
            match r {
                Ok(v) => self.draw_calls() == Ok::<Seq<DrawCall>, LayoutError>(v@),
                Err(e) => self.draw_calls() == Err::<Seq<DrawCall>, LayoutError>(e),
            },
    ;
}

impl<T> Drawable for Vec<Entity<T>> {
    open spec fn draw_calls(&self) -> Result<Seq<DrawCall>, LayoutError> {
        draws_of(self@)
    }

    /// One draw call per entity, in insertion order.
    fn draw(&self) -> (r: Result<Vec<DrawCall>, LayoutError>) {
        let mut calls: Vec<DrawCall> = Vec::new();
        let mut i: usize = 0;
        while i < self.len()
            invariant
                i <= self@.len(),
                draws_of(self@.take(i as int)) == Ok::<Seq<DrawCall>, LayoutError>(calls@),
            decreases self@.len() - i,
        {
            assert(self@.take(i + 1).drop_last() =~= self@.take(i as int));
            match self[i].draw() {
                Ok(c) => calls.push(c),
                Err(e) => {
                    proof {
                        lemma_draws_error_persists(self@, i as int + 1);
                    }
                    return Err(e);
                },
            }
            i = i + 1;
        }
        assert(self@.take(i as int) =~= self@);
        Ok(calls)
    }
}

/// Once a prefix of the entities fails to draw, the whole list fails with the
/// same error.
proof fn lemma_draws_error_persists<T>(entities: Seq<Entity<T>>, i: int)
    requires
        0 <= i <= entities.len(),
        draws_of(entities.take(i)) is Err,
    ensures
        draws_of(entities) == draws_of(entities.take(i)),
    decreases entities.len() - i,
{
    if i < entities.len() {
        assert(entities.take(i + 1).drop_last() =~= entities.take(i));
        lemma_draws_error_persists(entities, i + 1);
    } else {
        assert(entities.take(i) =~= entities);
    }
}

/// An ordered list of entities, drawn in insertion order.
#[derive(Debug)]
pub struct Scene<T> {
    pub entities: Vec<Entity<T>>,
}

impl<T> Scene<T> {
    pub fn new(entities: Vec<Entity<T>>) -> (r: Scene<T>)
        ensures
            r.entities == entities,
    {
        Scene { entities }
    }

    /// The draw calls of the scene's entities, one each, in insertion order.
    pub fn draw(&self) -> (r: Result<Vec<DrawCall>, LayoutError>)
        ensures
            match r {
                Ok(v) => draws_of(self.entities@) == Ok::<Seq<DrawCall>, LayoutError>(v@),
                Err(e) => draws_of(self.entities@) == Err::<Seq<DrawCall>, LayoutError>(e),
            },
    {
        self.entities.draw()
    }
}

} // verus!
