//! A small extension for `Result`: keep an `Ok` value only if it satisfies a
//! condition, otherwise replace it with an error built from the value.

use vstd::prelude::*;

verus! {

/// Adds `ensure` to result-like values: an `Ok` value is kept only when
/// `condition` accepts it; otherwise `error_fn` turns it into an error.
/// Errors pass through untouched.
pub trait ResultEnsure<T, E>: Sized {
    /// The result this value stands for.
    spec fn res(self) -> Result<T, E>;

    fn ensure<FCont: FnOnce(&T) -> bool, FErr: FnOnce(&T) -> E>(
        self,
        condition: FCont,
        error_fn: FErr,
    ) -> (r: Result<T, E>)
        requires
            (forall|v: &T|
                self.res() == Result::<T, E>::Ok(*v) ==> call_requires(condition, (v,))),
            (forall|v: &T|
                self.res() == Result::<T, E>::Ok(*v) && call_ensures(condition, (v,), false)
                    ==> call_requires(error_fn, (v,))),
        ensures
            self.res() is Err ==> r == self.res(),
            self.res() is Ok ==> ({
                let v = self.res()->Ok_0;
                ||| (r == self.res() && call_ensures(condition, (&v,), true))
                ||| (r is Err && call_ensures(condition, (&v,), false) && call_ensures(
                    error_fn,
                    (&v,),
                    r->Err_0,
                ))
            }),
    ;
}

impl<T, E> ResultEnsure<T, E> for Result<T, E> {
    open spec fn res(self) -> Result<T, E> {
        self
    }

    fn ensure<FCont: FnOnce(&T) -> bool, FErr: FnOnce(&T) -> E>(
        self,
        condition: FCont,
        error_fn: FErr,
    ) -> (r: Result<T, E>) {
        match self {
            Ok(value) => {
                if condition(&value) {
                    Ok(value)
                } else {
                    Err(error_fn(&value))
                }
            },
            Err(err) => Err(err),
        }
    }
}

} // verus!
