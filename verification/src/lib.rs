//! Decision core of a hand-gesture and voice controller.
//!
//! Every rule that turns tracked hands, elapsed time and recognised speech into
//! clicks, scrolling, workspace switches, volume steps or a power-off is decided
//! here and proved against its contract. Arithmetic on measured numbers, the
//! clock, the camera and the input device belong to the caller: a step function
//! says what it needs next, and the caller hands the answer back.
//!
//! Measured numbers are compared here, exactly, on their bit patterns (`scalar`);
//! times are nanoseconds on the caller's clock.

// Numbers, thresholds and hands.
pub mod scalar;

pub mod settings;

pub mod hand;

// One rule each: what it remembers, how it changes, what it guarantees.
pub mod mode;

pub mod fingers;

pub mod fist;

pub mod pinch;

pub mod motion;

pub mod scroll;

pub mod cursor;

pub mod palm;

pub mod easing;

pub mod shutdown;

pub mod confirmation;

pub mod letters;

pub mod voice;

// The rules together.
pub mod controller;

pub mod guarantees;

pub mod behaviour;

// What the actions amount to.
pub mod input;

pub mod commands;

pub mod report;

pub mod options;
