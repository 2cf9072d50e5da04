//! The effort level handed to the image encoder.

use vstd::prelude::*;

verus! {

/// How thoroughly the encoder searches for a small output, from the
/// quickest setting to the most thorough one.
#[derive(Clone, Copy, Debug, PartialEq, Eq, Structural)]
pub enum ConversionMethod {
    Fastest,
    Faster,
    Fast,
    Normal,
    Slow,
    Slower,
    Slowest,
}

impl ConversionMethod {
    /// The number the encoder knows this level by: 0 for the quickest,
    /// 6 for the most thorough.
    pub open spec fn spec_level(self) -> nat {
        match self {
            ConversionMethod::Fastest => 0,
            ConversionMethod::Faster => 1,
            ConversionMethod::Fast => 2,
            ConversionMethod::Normal => 3,
            ConversionMethod::Slow => 4,
            ConversionMethod::Slower => 5,
            ConversionMethod::Slowest => 6,
        }
    }

    /// The lower-case word for this level.
    pub open spec fn spec_name(self) -> Seq<char> {
        match self {
            ConversionMethod::Fastest => "fastest"@,
            ConversionMethod::Faster => "faster"@,
            ConversionMethod::Fast => "fast"@,
            ConversionMethod::Normal => "normal"@,
            ConversionMethod::Slow => "slow"@,
            ConversionMethod::Slower => "slower"@,
            ConversionMethod::Slowest => "slowest"@,
        }
    }

    /// Returns the number the encoder knows this level by.
    pub fn level(&self) -> (n: u8)
        ensures
            n == self.spec_level(),
            n <= 6,
    {
        match self {
            ConversionMethod::Fastest => 0,
            ConversionMethod::Faster => 1,
            ConversionMethod::Fast => 2,
            ConversionMethod::Normal => 3,
            ConversionMethod::Slow => 4,
            ConversionMethod::Slower => 5,
            ConversionMethod::Slowest => 6,
        }
    }

    /// Returns the level with the given number, if there is one.
    pub fn from_level(n: u8) -> (m: Option<ConversionMethod>)
        ensures
            n <= 6 <==> m is Some,
            m matches Some(method) ==> method.spec_level() == n,
    {
        match n {
            0 => Some(ConversionMethod::Fastest),
            1 => Some(ConversionMethod::Faster),
            2 => Some(ConversionMethod::Fast),
            3 => Some(ConversionMethod::Normal),
            4 => Some(ConversionMethod::Slow),
            5 => Some(ConversionMethod::Slower),
            6 => Some(ConversionMethod::Slowest),
            _ => None,
        }
    }

    /// Returns the lower-case word for this level.
    pub fn name(&self) -> (s: &'static str)
        ensures
            s@ == self.spec_name(),
    {
        match self {
            ConversionMethod::Fastest => "fastest",
            ConversionMethod::Faster => "faster",
            ConversionMethod::Fast => "fast",
            ConversionMethod::Normal => "normal",
            ConversionMethod::Slow => "slow",
            ConversionMethod::Slower => "slower",
            ConversionMethod::Slowest => "slowest",
        }
    }
}

} // verus!
