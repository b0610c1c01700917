//! Values that are either a success or an error.

use vstd::prelude::*;

verus! {

/// A value that stands for either a success carrying a [`Fallible::Value`]
/// or a failure carrying a [`Fallible::Error`].
///
/// `as_result` is the mathematical reading of such a value; the three
/// executable methods build a value from either side and take it apart again,
/// each in agreement with that reading.
pub trait Fallible: Sized {
    /// What a success carries.
    type Value;

    /// What a failure carries.
    type Error;

    /// The success or failure that `self` stands for.
    spec fn as_result(self) -> Result<Self::Value, Self::Error>;

    /// The success that carries `value`.
    fn from_value(value: Self::Value) -> (made: Self)
        ensures
            made.as_result() == Ok::<Self::Value, Self::Error>(value),
    ;

    /// The failure that carries `error`.
    fn from_error(error: Self::Error) -> (made: Self)
        ensures
            made.as_result() == Err::<Self::Value, Self::Error>(error),
    ;

    /// Takes `self` apart into the success or failure it stands for.
    fn into_result(self) -> (result: Result<Self::Value, Self::Error>)
        ensures
            result == self.as_result(),
    ;
}

/// A `Result` stands for itself.
impl<T, E> Fallible for Result<T, E> {
    type Value = T;

    type Error = E;

    open spec fn as_result(self) -> Result<T, E> {
        self
    }

    fn from_value(value: T) -> (made: Self)
        ensures
            made == Ok::<T, E>(value),
    {
        Ok(value)
    }

    fn from_error(error: E) -> (made: Self)
        ensures
            made == Err::<T, E>(error),
    {
        Err(error)
    }

    fn into_result(self) -> (result: Result<T, E>)
        ensures
            result == self,
    {
        self
    }
}

} // verus!
