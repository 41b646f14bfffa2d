//! The system-audio live buffer: the drainable store the capture backend
//! fills and the live scheduler empties, one per process.

use vstd::prelude::*;

verus! {

/// The live buffer of 16 kHz mono system-audio samples.
pub struct SystemAudioBuffer {
    samples: Vec<i16>,
}

impl SystemAudioBuffer {
    /// An empty buffer.
    pub fn new() -> (r: Self)
        ensures
            r.view_samples() =~= Seq::<i16>::empty(),
    {
        SystemAudioBuffer { samples: Vec::new() }
    }

    /// The buffered samples, oldest first.
    pub closed spec fn view_samples(self) -> Seq<i16> {
        self.samples@
    }

    /// Append one callback's samples, in arrival order.
    pub fn push_samples(&mut self, data: &Vec<i16>)
        ensures
            final(self).view_samples() =~= old(self).view_samples() + data@,
    {
        let mut i: usize = 0;
        let n = data.len();
        while i < n
            invariant
                n == data@.len(),
                i <= n,
                self.view_samples() =~= old(self).view_samples() + data@.take(i as int),
            decreases n - i,
        {
            self.samples.push(data[i]);
            proof {
                assert(data@.take(i + 1) =~= data@.take(i as int).push(data@[i as int]));
            }
            i = i + 1;
        }
        proof {
            assert(data@.take(n as int) =~= data@);
        }
    }

    /// Drain the buffer: everything out, atomically, leaving it empty.
    pub fn take_system_audio_samples(&mut self) -> (r: Vec<i16>)
        ensures
            r@ == old(self).view_samples(),
            final(self).view_samples() =~= Seq::<i16>::empty(),
    {
        let mut taken: Vec<i16> = Vec::new();
        core::mem::swap(&mut taken, &mut self.samples);
        taken
    }

    /// Empty the buffer.
    pub fn clear_system_audio_buffer(&mut self)
        ensures
            final(self).view_samples() =~= Seq::<i16>::empty(),
    {
        self.samples = Vec::new();
    }

    /// Number of buffered samples.
    pub fn len(&self) -> (r: usize)
        ensures
            r == self.view_samples().len(),
    {
        self.samples.len()
    }
}

} // verus!
