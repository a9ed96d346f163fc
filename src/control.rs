use vstd::prelude::*;
use crate::params::PainterParams;

verus! {

/// Largest parameter submission, in bytes, that the control endpoint reads.
pub const PAYLOAD_LIMIT: usize = 1024;

/// Whether a submission of `len` bytes is small enough to be read.
pub fn payload_fits(len: usize) -> (r: bool)
    ensures
        r == (len <= PAYLOAD_LIMIT),
{
    len <= PAYLOAD_LIMIT
}

/// What the control endpoint keeps: the parameter set last submitted, as the
/// user wrote it, undimmed.
pub struct ControlState {
    pub cached: PainterParams,
}

impl ControlState {
    pub fn new(params: PainterParams) -> (s: ControlState)
        ensures
            s.cached@ == params@,
    {
        ControlState { cached: params }
    }

    /// The parameters to report to a reader.
    pub fn get(&self) -> (p: PainterParams)
        ensures
            p@ == self.cached@,
    {
        self.cached.duplicate()
    }

    /// Takes a validated submission: keeps it undimmed for readers and
    /// returns the dimmed copy that goes to the render loop.
    pub fn post(&mut self, params: PainterParams) -> (dimmed: PainterParams)
        requires
            params.wf(),
        ensures
            final(self).cached@ == params@,
            dimmed@ == params@.dimmed_by(params.global_brightness as int),
    {
        let mut dimmed = params.duplicate();
        self.cached = params;
        dimmed.apply_dimming();
        dimmed
    }
}

} // verus!
