use vstd::prelude::*;

verus! {

/// Platform targeting attribute. Persisted as a small integer code,
/// starting at 1 so that 0 never names a platform.
#[derive(Clone, Copy, Debug, PartialEq, Eq, Structural)]
pub enum Platform {
    Android,
    Ios,
    Web,
    Desktop,
    Mobile,
    Tablet,
    Console,
    SmartTv,
    Other,
}

impl Platform {
    /// The integer code this variant is persisted under.
    pub open spec fn code_spec(self) -> int {
        match self {
            Platform::Android => 1,
            Platform::Ios => 2,
            Platform::Web => 3,
            Platform::Desktop => 4,
            Platform::Mobile => 5,
            Platform::Tablet => 6,
            Platform::Console => 7,
            Platform::SmartTv => 8,
            Platform::Other => 9,
        }
    }

    /// Integer code bound as a statement parameter.
    pub fn code(self) -> (r: i32)
        ensures
            r == self.code_spec(),
    {
        match self {
            Platform::Android => 1,
            Platform::Ios => 2,
            Platform::Web => 3,
            Platform::Desktop => 4,
            Platform::Mobile => 5,
            Platform::Tablet => 6,
            Platform::Console => 7,
            Platform::SmartTv => 8,
            Platform::Other => 9,
        }
    }
}

} // verus!
