//! Small computations of the build orchestrator: the frame sleep interval
//! and the compiler lookup order.

use vstd::prelude::*;

verus! {

/// The compiler name used when neither environment variable is set.
pub open spec fn default_compiler() -> Seq<char> {
    seq!['c', 'c']
}

/// Microseconds to sleep between frames for a frame rate of
/// `numerator / denominator` frames per second: the length of one frame,
/// floored to whole microseconds.
pub fn sleep_interval_micros(numerator: u32, denominator: u32) -> (r: u64)
    requires
        numerator > 0,
    ensures
        r == denominator as int * 1_000_000 / numerator as int,
{
    (denominator as u64) * 1_000_000 / (numerator as u64)
}

/// Picks the compiler: the dedicated override variable wins over the generic
/// one, and `cc` stands in when neither is set.
pub fn choose_compiler(override_cc: Option<String>, generic_cc: Option<String>) -> (r: String)
    ensures
        match (override_cc, generic_cc) {
            (Some(o), _) => r@ == o@,
            (None, Some(g)) => r@ == g@,
            (None, None) => r@ == default_compiler(),
        },
{
    match override_cc {
        Some(o) => o,
        None => match generic_cc {
            Some(g) => g,
            None => {
                let r = "cc".to_owned();
                proof {
                    reveal_strlit("cc");
                    assert(r@ =~= default_compiler());
                }
                r
            },
        },
    }
}

} // verus!
