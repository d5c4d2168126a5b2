//! Progress of the start-up sequence.

use vstd::prelude::*;

verus! {

/// The number of steps that the start-up sequence counts.
pub const TOTAL_STEPS: usize = 6;

/// The number of frames of the spinner.
pub const SPINNER_FRAMES: usize = 4;

/// Where the start-up sequence stands.
#[derive(Debug)]
pub struct SplashState {
    pub current_step: usize,
    pub total_steps: usize,
    pub current_message: String,
    pub spinner_frame: usize,
}

impl SplashState {
    /// The state before the first step.
    pub fn new() -> (r: Self)
        ensures
            r.current_step == 0,
            r.total_steps == TOTAL_STEPS,
            r.current_message@ == "Initializing..."@,
            r.spinner_frame == 0,
    {
        SplashState {
            current_step: 0,
            total_steps: TOTAL_STEPS,
            current_message: "Initializing...".to_owned(),
            spinner_frame: 0,
        }
    }

    /// Shows `message` and moves the spinner on by one frame.
    pub fn set_message(&mut self, message: &str)
        ensures
            final(self).current_message@ == message@,
            final(self).spinner_frame == (old(self).spinner_frame + 1) % (SPINNER_FRAMES as int),
            final(self).current_step == old(self).current_step,
            final(self).total_steps == old(self).total_steps,
    {
        self.current_message = message.to_owned();
        self.spinner_frame = (self.spinner_frame % SPINNER_FRAMES + 1) % SPINNER_FRAMES;
    }

    /// Counts one more step as done.
    pub fn complete_step(&mut self)
        requires
            old(self).current_step < usize::MAX,
        ensures
            final(self).current_step == old(self).current_step + 1,
            final(self).total_steps == old(self).total_steps,
            final(self).current_message == old(self).current_message,
            final(self).spinner_frame == old(self).spinner_frame,
    {
        self.current_step = self.current_step + 1;
    }
}

} // verus!
