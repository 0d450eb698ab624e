//! A collection of errors gathered during one operation, each optionally
//! tagged with the identifier of the value it concerns.

use vstd::prelude::*;

verus! {

/// Errors collected while an operation runs to completion instead of
/// aborting on the first failure.
pub struct Errors<E> {
    errors: Vec<(E, Option<String>)>,
}

/// Tags the next reported error with the identifier it concerns.
pub struct ErrorWithId {
    name: String,
}

impl<E> Errors<E> {
    /// The collected errors, each beside the identifier it was tagged with.
    pub closed spec fn entries(&self) -> Seq<(E, Option<String>)> {
        self.errors@
    }

    /// An empty collection.
    pub fn new() -> (r: Self)
        ensures
            r.entries() == Seq::<(E, Option<String>)>::empty(),
    {
        Errors { errors: Vec::new() }
    }

    /// Whether anything was reported.
    pub fn any_errors(&self) -> (r: bool)
        ensures
            r == (self.entries().len() != 0),
    {
        self.errors.len() != 0
    }

    /// Records an error that concerns the operation as a whole.
    pub fn report(&mut self, error: E)
        ensures
            final(self).entries() == old(self).entries().push((error, None)),
    {
        self.errors.push((error, None));
    }

    /// Prepares to record an error tagged with `name`.
    pub fn with_id(&self, name: String) -> (r: ErrorWithId)
        ensures
            r.id() == name@,
    {
        ErrorWithId { name }
    }
}

impl ErrorWithId {
    /// The identifier the next reported error will carry.
    pub closed spec fn id(&self) -> Seq<char> {
        self.name@
    }

    /// Records `error` in `errors`, tagged with this identifier.
    pub fn report<E>(self, errors: &mut Errors<E>, error: E)
        ensures
            final(errors).entries().len() == old(errors).entries().len() + 1,
            final(errors).entries().last().0 == error,
            final(errors).entries().last().1 matches Some(n) && n@ == self.id(),
            final(errors).entries().take(old(errors).entries().len() as int) == old(
                errors,
            ).entries(),
    {
        errors.errors.push((error, Some(self.name)));
    }
}

impl<E> Default for Errors<E> {
    fn default() -> (r: Self)
        ensures
            r.entries() == Seq::<(E, Option<String>)>::empty(),
    {
        Errors::new()
    }
}

} // verus!
