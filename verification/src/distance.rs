use vstd::prelude::*;

use crate::text::{int_text, push_int};

verus! {

/// A distance in whole centimeters, the unit the game keeps Home-Run Contest
/// results in.
#[derive(Clone, Copy, Debug, Default, PartialEq, Eq, PartialOrd, Ord, Hash, Structural)]
pub struct Centimeters(pub i32);

/// The distance in tenths of a foot, rounded down.
pub open spec fn tenths_of_foot(cm: int) -> int {
    (cm * 1000) / 3048
}

/// Truncating division by ten, as the game's integer printout does it.
pub open spec fn trunc_div10(t: int) -> int {
    if t >= 0 { t / 10 } else { -((-t) / 10) }
}

/// The feet shown for `cm`: whole feet, a dot, then the tenth, both parts
/// truncated toward zero.
pub open spec fn feet_text(cm: int) -> Seq<char> {
    let t = tenths_of_foot(cm);
    let whole = trunc_div10(t);
    int_text(whole) + seq!['.'] + int_text(t - 10 * whole)
}

impl Centimeters {
    /// The distance in feet to one decimal, truncated the way the game shows it.
    pub fn feet_as_displayed(self) -> (s: String)
        ensures
            s@ == feet_text(self.0 as int),
    {
        let numerator: i64 = (self.0 as i64) * 1000;
        let tenths: i64 = if numerator >= 0 {
            numerator / 3048
        } else {
            -((-numerator + 3047) / 3048)
        };
        proof {
            if numerator < 0 {
                let n = -numerator;
                assert(((-n) / 3048) == -((n + 3047) / 3048)) by (nonlinear_arith)
                    requires n > 0;
            }
        }
        let whole: i64 = if tenths >= 0 { tenths / 10 } else { -((-tenths) / 10) };
        let tenth: i64 = tenths - 10 * whole;
        let mut s = String::new();
        push_int(&mut s, whole);
        s.push('.');
        push_int(&mut s, tenth);
        s
    }
}

} // verus!
