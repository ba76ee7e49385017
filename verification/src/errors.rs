//! The list of diagnostics of a run.

use vstd::prelude::*;

verus! {

/// One diagnostic.
#[derive(Debug)]
pub struct Error(());

impl Clone for Error {
    fn clone(&self) -> (r: Error)
        ensures
            r == *self,
    {
        Error(())
    }
}

/// The diagnostics of a run, in the order in which they were raised.
#[derive(Debug)]
pub struct Errors(Vec<Error>);

impl View for Errors {
    type V = Seq<Error>;

    closed spec fn view(&self) -> Seq<Error> {
        self.0@
    }
}

impl Clone for Errors {
    fn clone(&self) -> (r: Errors)
        ensures
            r@.len() == self@.len(),
    {
        Errors(self.0.clone())
    }
}

impl Errors {
    /// The list without any diagnostic.
    pub fn empty() -> (r: Errors)
        ensures
            r@ == Seq::<Error>::empty(),
    {
        Errors(Vec::new())
    }

    pub fn len(&self) -> (n: usize)
        ensures
            n == self@.len(),
    {
        self.0.len()
    }

    pub fn is_empty(&self) -> (b: bool)
        ensures
            b == (self@.len() == 0),
    {
        self.0.len() == 0
    }
}

} // verus!
