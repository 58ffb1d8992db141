//! Utility traits.

use vstd::prelude::*;

verus! {

/// Taking the value out of a container that has been checked to hold one.
pub trait OrPanic<T>: Sized {
    /// Whether the container holds a value.
    spec fn holds_value(&self) -> bool;

    /// The value the container holds.
    spec fn held_value(&self) -> T;

    /// The value held; callers have made sure that there is one.
    fn or_panic(self) -> (res: T)
        requires
            self.holds_value(),
        ensures
            res == self.held_value(),
    ;
}

impl<T> OrPanic<T> for Option<T> {
    open spec fn holds_value(&self) -> bool {
        *self is Some
    }

    open spec fn held_value(&self) -> T {
        self->0
    }

    fn or_panic(self) -> (res: T) {
        match self {
            Some(v) => v,
            None => vstd::pervasive::unreached(),
        }
    }
}

impl<T, E> OrPanic<T> for Result<T, E> {
    open spec fn holds_value(&self) -> bool {
        *self is Ok
    }

    open spec fn held_value(&self) -> T {
        self->Ok_0
    }

    fn or_panic(self) -> (res: T) {
        match self {
            Ok(v) => v,
            Err(_) => vstd::pervasive::unreached(),
        }
    }
}

} // verus!
