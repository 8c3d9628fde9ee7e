//! Conversions to `Option` and `Result`.
use vstd::prelude::*;

verus! {

/// Types that turn into an `Option`.
pub trait IntoOption<T>: Sized {
    /// The value, if there is one.
    fn into_option(t: Self) -> Option<T>;
}

impl<T> IntoOption<T> for Option<T> {
    /// The option itself.
    fn into_option(t: Option<T>) -> (r: Option<T>)
        ensures
            r == t,
    {
        t
    }
}

impl<T, R> IntoOption<T> for Result<T, R> {
    /// The value of a success; an error is dropped.
    fn into_option(t: Result<T, R>) -> (r: Option<T>)
        ensures
            r == (match t {
                Ok(v) => Some(v),
                Err(_) => None,
            }),
    {
        match t {
            Ok(v) => Some(v),
            Err(_) => None,
        }
    }
}

/// Types that turn into a `Result`.
pub trait IntoResult<T, E>: Sized {
    /// The value, or the error in its place.
    fn into(t: Self) -> Result<T, E>;
}

} // verus!
