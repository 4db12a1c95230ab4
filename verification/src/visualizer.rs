//! The recent audio peaks drawn while recording: as many as fit the
//! drawing area, the oldest dropped first.
use std::collections::VecDeque;
use vstd::prelude::*;

verus! {

/// The horizontal space, in pixels, between two drawn peaks.
pub const GUTTER: i32 = 6;

/// The largest number of peaks the history ever holds: one more than fits
/// the widest drawing area.
pub const MAX_PEAKS: usize = 178_956_972;

/// The recent peaks, oldest first.
#[derive(Debug)]
pub struct PeakHistory<T> {
    peaks: VecDeque<T>,
}

impl<T> View for PeakHistory<T> {
    type V = Seq<T>;

    /// The peaks, oldest first.
    closed spec fn view(&self) -> Seq<T> {
        self.peaks@
    }
}

impl<T> PeakHistory<T> {
    /// The invariant: the history never holds more than `MAX_PEAKS` peaks.
    #[verifier::type_invariant]
    pub open spec fn wf(&self) -> bool {
        self@.len() <= MAX_PEAKS
    }

    /// An empty history.
    pub fn new() -> (history: PeakHistory<T>)
        ensures
            history@ == Seq::<T>::empty(),
    {
        PeakHistory { peaks: VecDeque::new() }
    }

    /// Records `peak` for a drawing area `allocated_width` pixels wide: when
    /// the history holds more peaks than fit, the oldest is dropped first.
    pub fn push_peak(&mut self, peak: T, allocated_width: i32)
        requires
            allocated_width >= 0,
        ensures
            old(self)@.len() > allocated_width as int / (2 * GUTTER as int) ==> final(self)@ == old(
                self,
            )@.drop_first().push(peak),
            old(self)@.len() <= allocated_width as int / (2 * GUTTER as int) ==> final(self)@ == old(
                self,
            )@.push(peak),
    {
        proof {
            use_type_invariant(&*self);
        }
        let mut peaks = VecDeque::new();
        std::mem::swap(&mut peaks, &mut self.peaks);
        let peaks_len = peaks.len() as i32;
        if peaks_len > allocated_width / (2 * GUTTER) {
            let _ = peaks.pop_front();
        }
        peaks.push_back(peak);
        self.peaks = peaks;
    }

    /// Forgets all peaks.
    pub fn clear_peaks(&mut self)
        ensures
            final(self)@ == Seq::<T>::empty(),
    {
        self.peaks = VecDeque::new();
    }

    /// The number of peaks held.
    pub fn len(&self) -> (n: usize)
        ensures
            n == self@.len(),
    {
        self.peaks.len()
    }

    /// The peak at `index`, oldest first.
    pub fn get(&self, index: usize) -> (peak: &T)
        requires
            index < self@.len(),
        ensures
            *peak == self@[index as int],
    {
        &self.peaks[index]
    }
}

} // verus!
