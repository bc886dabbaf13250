use vstd::prelude::*;
use vstd::string::StringExecFns;

use crate::objects::Rgba;

verus! {

/// A named scene with its background colour.
#[derive(Debug)]
pub struct MathScene {
    pub name: String,
    pub active: bool,
    pub background_color: Rgba,
}

impl Default for MathScene {
    /// The active scene `Default Scene` on black.
    fn default() -> (r: MathScene)
        ensures
            r.name@ == "Default Scene"@,
            r.active,
            r.background_color == (Rgba { red: 0, green: 0, blue: 0, alpha: crate::fixed::UNIT }),
    {
        MathScene {
            name: String::from_str("Default Scene"),
            active: true,
            background_color: Rgba { red: 0, green: 0, blue: 0, alpha: crate::fixed::UNIT },
        }
    }
}

} // verus!
