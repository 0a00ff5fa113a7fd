//! The two build-script language variants a generated project may use.

use vstd::prelude::*;

verus! {

#[derive(Clone, Copy, Debug, PartialEq, Eq, Structural)]
pub enum GradleDsl {
    Groovy,
    Kotlin,
}

/// The name of a build-script variant.
pub open spec fn dsl_name(d: GradleDsl) -> Seq<char> {
    match d {
        GradleDsl::Groovy => "groovy"@,
        GradleDsl::Kotlin => "kotlin"@,
    }
}

impl GradleDsl {
    pub fn as_str(self) -> (r: &'static str)
        ensures
            r@ == dsl_name(self),
    {
        match self {
            GradleDsl::Groovy => "groovy",
            GradleDsl::Kotlin => "kotlin",
        }
    }
}

} // verus!
