//! The choice of a recording format.
use vstd::prelude::*;

verus! {

/// The rate that recordings have where the device can do it.
pub const PREFERRED_RATE: u32 = 44100;

/// A range of formats that a device offers.
#[derive(Clone, Copy, Debug, PartialEq, Eq, Structural)]
pub struct OfferedFormat {
    pub channels: u16,
    pub min_rate: u32,
    pub max_rate: u32,
    pub floats: bool,
}

/// Whether a range covers what is preferred: two channels of single-precision samples
/// at the preferred rate.
pub open spec fn is_preferred(f: OfferedFormat) -> bool {
    f.channels == 2 && f.min_rate <= PREFERRED_RATE <= f.max_rate && f.floats
}

/// The first range that covers what is preferred. Where there is none, the device's own
/// choice is taken as it is.
pub fn preferred_format(offered: &[OfferedFormat]) -> (r: Option<usize>)
    ensures
        match r {
            Some(i) => {
                &&& i < offered@.len()
                &&& is_preferred(offered@[i as int])
                &&& forall|j: int| 0 <= j < i ==> !is_preferred(#[trigger] offered@[j])
            },
            None => forall|j: int|
                0 <= j < offered@.len() ==> !is_preferred(#[trigger] offered@[j]),
        },
{
    let mut i: usize = 0;
    while i < offered.len()
        invariant
            i <= offered@.len(),
            forall|j: int| 0 <= j < i ==> !is_preferred(#[trigger] offered@[j]),
        decreases offered@.len() - i,
    {
        let f = offered[i];
        if f.channels == 2 && f.min_rate <= PREFERRED_RATE && PREFERRED_RATE <= f.max_rate
            && f.floats {
            return Some(i);
        }
        i = i + 1;
    }
    None
}

} // verus!
