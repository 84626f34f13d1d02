//! Data structures that the backends share.

pub mod bipbuf;
pub mod clock;
pub mod deadline;
pub mod queue;
pub mod timer;

pub use bipbuf::{BipBuffer, BipModel, BipSlice, BipSliceMut, Commit, Reservation};
pub use clock::Time;
pub use deadline::{DeadlineKey, Deadlines, Scheduled};
pub use queue::ActiveQueue;
pub use timer::{TimerKey, TimerWheel};
