//! The editor window's text fields.
use vstd::prelude::*;

verus! {

/// What the editor window's text fields hold: grid size, eye distance and
/// nudge amount, as typed.
pub struct Window {
    pub grid: String,
    pub eye_distance: String,
    pub nudge: String,
}

impl Window {
    /// The fields as the window opens: grid `16`, eye distance `1000`, nudge `1`.
    pub fn new() -> (r: Self)
        ensures
            r.grid@ == "16"@,
            r.eye_distance@ == "1000"@,
            r.nudge@ == "1"@,
    {
        Self { grid: "16".to_owned(), eye_distance: "1000".to_owned(), nudge: "1".to_owned() }
    }
}

} // verus!
