//! Small capability traits that the containers build on.
use vstd::prelude::*;

verus! {

/// A fallible cloning capability: a type that can try to duplicate itself
/// and report failure instead of aborting.
pub trait TryClone where Self: Sized {
    type Error;

    fn try_clone(&self) -> Result<Self, Self::Error>;
}

/// A default value that contracts can name: `default_value` returns exactly
/// `spec_default`, which a plain `Default` implementation cannot promise.
pub trait DefaultValue: Sized {
    spec fn spec_default() -> Self;

    fn default_value() -> (r: Self)
        ensures
            r == Self::spec_default(),
    ;
}

impl DefaultValue for u8 {
    open spec fn spec_default() -> Self {
        0
    }

    fn default_value() -> (r: Self) {
        0
    }
}

impl DefaultValue for u16 {
    open spec fn spec_default() -> Self {
        0
    }

    fn default_value() -> (r: Self) {
        0
    }
}

impl DefaultValue for u32 {
    open spec fn spec_default() -> Self {
        0
    }

    fn default_value() -> (r: Self) {
        0
    }
}

impl DefaultValue for u64 {
    open spec fn spec_default() -> Self {
        0
    }

    fn default_value() -> (r: Self) {
        0
    }
}

impl DefaultValue for i8 {
    open spec fn spec_default() -> Self {
        0
    }

    fn default_value() -> (r: Self) {
        0
    }
}

impl DefaultValue for i16 {
    open spec fn spec_default() -> Self {
        0
    }

    fn default_value() -> (r: Self) {
        0
    }
}

impl DefaultValue for i32 {
    open spec fn spec_default() -> Self {
        0
    }

    fn default_value() -> (r: Self) {
        0
    }
}

impl DefaultValue for i64 {
    open spec fn spec_default() -> Self {
        0
    }

    fn default_value() -> (r: Self) {
        0
    }
}

impl DefaultValue for bool {
    open spec fn spec_default() -> Self {
        false
    }

    fn default_value() -> (r: Self) {
        false
    }
}

} // verus!
