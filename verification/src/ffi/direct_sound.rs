use vstd::prelude::*;

verus! {

/// The wave format tag of plain PCM samples.
pub const WAVE_FORMAT_PCM: u16 = 1;

/// The format of a sound buffer's samples.
#[derive(Clone, Copy, PartialEq, Eq, Structural)]
pub struct WAVEFORMATEX {
    pub wFormatTag: u16,
    pub nChannels: u16,
    pub nSamplesPerSec: u32,
    pub nAvgBytesPerSec: u32,
    pub nBlockAlign: u16,
    pub wBitsPerSample: u16,
    pub cbSize: u16,
}

} // verus!
