//! The options panel's messages and how they update the scene.
//!
//! The widgets themselves (sliders and labels) belong to the embedding; it
//! keeps their state, clamps them to its ranges, and hands each adjustment
//! here as a plain fixed-point value (thousandths of the slider unit).

use vstd::prelude::*;
use crate::application::Application;
use crate::march::SOLVENT_LIMIT;

verus! {

/// Events the options panel fires.
#[derive(Clone, Copy, Debug, PartialEq, Eq, Structural)]
pub enum Message {
    /// The solvent radius slider moved, in ticks.
    SolventRadiusChanged(i64),
    /// The maximum-neighbours slider moved, in thousandths of a count.
    MaxNeighboursChanged(i64),
    /// The maximum-steps slider moved, in thousandths of a count.
    MaxStepsChanged(i64),
}

/// A slider value in thousandths, rounded half away from zero to a whole
/// count.
pub open spec fn rounded_count(v: int) -> int {
    (v + 500) / 1000
}

/// The scene-side half of the options panel. The widget state lives in the
/// embedding; this half only applies the fired messages.
pub struct UserInterface {
}

impl UserInterface {
    pub fn new() -> (u: UserInterface)
        ensures
            u == (UserInterface {  }),
    {
        UserInterface {  }
    }

    /// Apply a fired message to the scene: the solvent radius is adopted
    /// as given, the two count sliders are rounded to whole counts.
    pub fn update(&self, message: Message, application: &mut Application)
        requires
            match message {
                Message::SolventRadiusChanged(v) => -SOLVENT_LIMIT <= v <= SOLVENT_LIMIT,
                Message::MaxNeighboursChanged(v) => 0 <= v <= 100_000_000,
                Message::MaxStepsChanged(v) => 0 <= v <= 100_000_000,
            },
        ensures
            match message {
                Message::SolventRadiusChanged(v) => *final(application) == (Application {
                    solvent_radius: v,
                    camera_changed: true,
                    ..*old(application)
                }),
                Message::MaxNeighboursChanged(v) => *final(application) == (Application {
                    max_neighbours: rounded_count(v as int) as u32,
                    camera_changed: true,
                    ..*old(application)
                }),
                Message::MaxStepsChanged(v) => *final(application) == (Application {
                    max_steps: rounded_count(v as int) as u32,
                    camera_changed: true,
                    ..*old(application)
                }),
            },
    {
        match message {
            Message::SolventRadiusChanged(v) => {
                application.set_solvent_radius(v);
            },
            Message::MaxNeighboursChanged(v) => {
                application.set_max_neighbours(((v + 500) / 1000) as u32);
            },
            Message::MaxStepsChanged(v) => {
                application.set_max_steps(((v + 500) / 1000) as u32);
            },
        }
    }
}

} // verus!
