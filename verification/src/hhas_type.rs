//! What is known of the type of a parameter, a property or a return value:
//! the type as the user wrote it and the constraint that is enforced.

use vstd::prelude::*;

pub mod constraint;

verus! {

/// A constraint together with the type as the user wrote it, if any.
#[derive(Debug)]
pub struct Info {
    pub user_type: Option<String>,
    pub type_constraint: constraint::Type,
}

impl Clone for Info {
    fn clone(&self) -> (r: Info)
        ensures
            r == *self,
    {
        Info { user_type: self.user_type.clone(), type_constraint: self.type_constraint.clone() }
    }
}

impl Info {
    pub fn make(user_type: Option<String>, type_constraint: constraint::Type) -> (r: Info)
        ensures
            r.user_type == user_type,
            r.type_constraint == type_constraint,
    {
        Info { user_type, type_constraint }
    }
}

} // verus!
