use vstd::prelude::*;

verus! {

/// One person's contact information.
///
/// A record has no identity of its own: the store that holds it gives it
/// an identifier. The phone number is kept as text so that its formatting
/// (leading zeros, symbols) survives.
#[derive(Debug)]
pub struct User {
    /// The user's first name.
    pub first_name: String,
    /// The user's surname (last name).
    pub last_name: String,
    /// The user's email address.
    pub email: String,
    /// The user's telephone number.
    pub phone_number: String,
}

impl User {
    /// Two records are equal when all four fields hold the same text.
    pub open spec fn same_as(&self, o: &User) -> bool {
        &&& self.first_name@ == o.first_name@
        &&& self.last_name@ == o.last_name@
        &&& self.email@ == o.email@
        &&& self.phone_number@ == o.phone_number@
    }
}

impl Clone for User {
    fn clone(&self) -> (r: Self)
        ensures
            r == *self,
    {
        User {
            first_name: self.first_name.clone(),
            last_name: self.last_name.clone(),
            email: self.email.clone(),
            phone_number: self.phone_number.clone(),
        }
    }
}

impl PartialEq for User {
    fn eq(&self, o: &User) -> (r: bool)
        ensures
            r == self.same_as(o),
    {
        self.first_name == o.first_name && self.last_name == o.last_name && self.email == o.email
            && self.phone_number == o.phone_number
    }
}

impl vstd::std_specs::cmp::PartialEqSpecImpl for User {
    open spec fn obeys_eq_spec() -> bool {
        true
    }

    open spec fn eq_spec(&self, o: &User) -> bool {
        self.same_as(o)
    }
}

impl Eq for User {

}

} // verus!
