use vstd::prelude::*;

verus! {

/// Identifies a user of the approval workflow.
#[derive(Clone, Copy, PartialEq, Eq, Structural, Debug)]
pub struct UserId(pub u64);

impl UserId {
    pub fn new(id: u64) -> (user: UserId)
        ensures
            user.0 == id,
    {
        UserId(id)
    }

    /// The text `User(<id>)` by which the user is shown.
    pub fn to_string(&self) -> (text: String)
        ensures
            text@ == "User("@ + crate::text::decimal(self.0 as nat) + ")"@,
    {
        let mut text = String::from_str("User(");
        crate::text::push_decimal(&mut text, self.0);
        text.append(")");
        text
    }
}

} // verus!
