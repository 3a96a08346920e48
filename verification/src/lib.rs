//! Event handling core of a tiling window manager: the menu and wake-up
//! handling of the reactor, the mission-control overlay state machine and the
//! bookkeeping of stack-line group indicators.

pub mod ids;
mod keys;
pub mod system;
pub mod mission_control;
pub mod stack_line;
