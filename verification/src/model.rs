//! The mathematical value that a piece of data stands for.

use vstd::prelude::*;

verus! {

/// A type whose values stand for mathematical values: a text for the
/// sequence of its characters, a list for the sequence of what its items
/// stand for. Contracts compare these rather than the data itself.
pub trait Model {
    type M;

    spec fn model(&self) -> Self::M;
}

impl Model for bool {
    type M = bool;

    open spec fn model(&self) -> bool {
        *self
    }
}

impl Model for () {
    type M = ();

    open spec fn model(&self) -> () {
        ()
    }
}

impl Model for String {
    type M = Seq<char>;

    open spec fn model(&self) -> Seq<char> {
        self@
    }
}

impl<T: Model> Model for &T {
    type M = T::M;

    open spec fn model(&self) -> T::M {
        (**self).model()
    }
}

impl<T: Model> Model for Option<T> {
    type M = Option<T::M>;

    open spec fn model(&self) -> Option<T::M> {
        match self {
            Some(t) => Some(t.model()),
            None => None,
        }
    }
}

impl<T: Model, E: Model> Model for Result<T, E> {
    type M = Result<T::M, E::M>;

    open spec fn model(&self) -> Result<T::M, E::M> {
        match self {
            Ok(t) => Ok(t.model()),
            Err(e) => Err(e.model()),
        }
    }
}

impl<T: Model> Model for Vec<T> {
    type M = Seq<T::M>;

    open spec fn model(&self) -> Seq<T::M> {
        Seq::new(self@.len(), |i: int| self@[i].model())
    }
}

} // verus!
