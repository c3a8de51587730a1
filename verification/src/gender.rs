use vstd::prelude::*;

verus! {

/// Gender targeting attribute. Persisted as a small integer code.
#[derive(Clone, Copy, Debug, PartialEq, Eq, Structural)]
pub enum Gender {
    Unspecified,
    Male,
    Female,
}

impl Gender {
    /// The integer code this variant is persisted under.
    pub open spec fn code_spec(self) -> int {
        match self {
            Gender::Unspecified => 0,
            Gender::Male => 1,
            Gender::Female => 2,
        }
    }

    /// Integer code bound as a statement parameter.
    pub fn code(self) -> (r: i32)
        ensures
            r == self.code_spec(),
    {
        match self {
            Gender::Unspecified => 0,
            Gender::Male => 1,
            Gender::Female => 2,
        }
    }
}

impl Default for Gender {
    /// An absent gender decodes to `Unspecified`.
    fn default() -> (r: Self)
        ensures
            r == Gender::Unspecified,
    {
        Gender::Unspecified
    }
}

} // verus!
