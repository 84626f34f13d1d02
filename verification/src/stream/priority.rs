use vstd::prelude::*;

verus! {

/// A stream's priority that determines the order in which stream data is sent on the wire.
///
/// **Note** different QUIC backends implement prioritization differently,
/// or don't implement at all.
#[derive(Debug, Clone, Copy, PartialEq, Eq, Structural)]
pub struct Priority {
    /// Urgency: higher values indicate higher priority.
    ///
    /// The default stream priority is `0`.
    pub urgency: i8,
    /// Controls how bandwidth is shared among streams with the same urgency.
    ///
    /// - `false`: **Sequential**. The scheduler attempts to send this stream's data
    ///   back-to-back until completion before moving to the next stream.
    ///   Use this for data that requires the whole payload to be useful (e.g., scripts, CSS).
    ///
    /// - `true`: **Incremental**. The scheduler interleaves data from this stream
    ///   with other incremental streams of the same urgency.
    ///   Use this for data that can be processed as it arrives (e.g., progressive images, video).
    pub incremental: bool,
}

impl Priority {
    /// The urgency on a scale on which lower values indicate higher priority.
    pub open spec fn spec_descending_urgency(self) -> u8 {
        (127 - self.urgency) as u8
    }

    /// Returns the urgency on a scale on which lower values indicate higher priority.
    pub fn descending_urgency(&self) -> (r: u8)
        ensures
            r == self.spec_descending_urgency(),
            r == 127 - self.urgency,
    {
        (127i16 - self.urgency as i16) as u8
    }
}

/// What is more urgent comes first on both scales.
pub proof fn law_urgency_keeps_its_order(a: Priority, b: Priority)
    ensures
        a.urgency > b.urgency <==> a.spec_descending_urgency() < b.spec_descending_urgency(),
{
}

/// The two scales are the same one, turned round: what is most urgent on one is zero on the other.
pub proof fn law_scales_are_turned_round(priority: Priority)
    ensures
        priority.urgency + priority.spec_descending_urgency() == 127,
{
}

} // verus!
