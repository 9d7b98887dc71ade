//! What a writer of 16-bit sound files needs: the samples as integers and the file's name.

use vstd::prelude::*;
use vstd::string::StringExecFns;
use crate::fixed::{ONE, quotient, divide};

verus! {

/// The 16-bit value of a sample: the sample times 32767, cut toward zero, and held to
/// the range of an `i16`, so that `ONE` becomes 32767.
pub open spec fn quantized(sample: i64) -> i16 {
    let exact = quotient(sample * 32767, ONE as int);
    if exact > i16::MAX {
        i16::MAX
    } else if exact < i16::MIN {
        i16::MIN
    } else {
        exact as i16
    }
}

/// The 16-bit values of a whole signal.
pub open spec fn quantized_all(signal: Seq<i64>) -> Seq<i16> {
    Seq::new(signal.len(), |i: int| quantized(signal[i]))
}

/// Turns one sample into its 16-bit value.
pub fn quantize(sample: i64) -> (r: i16)
    ensures
        r == quantized(sample),
{
    let exact: i128 = divide((sample as i128) * 32767, 1_000_000_000);
    if exact > i16::MAX as i128 {
        i16::MAX
    } else if exact < i16::MIN as i128 {
        i16::MIN
    } else {
        exact as i16
    }
}

/// Turns a signal into its 16-bit values.
pub fn quantize_all(waveform: &Vec<i64>) -> (samples: Vec<i16>)
    ensures
        samples@ == quantized_all(waveform@),
{
    let n: usize = waveform.len();
    let mut samples: Vec<i16> = Vec::new();
    let mut i: usize = 0;
    while i < n
        invariant
            i <= n,
            n == waveform@.len(),
            samples@.len() == i,
            forall|k: int| 0 <= k < i ==> samples@[k] == quantized(waveform@[k]),
        decreases n - i,
    {
        samples.push(quantize(waveform[i]));
        i += 1;
    }
    samples
}

/// The name of the output file: the base name, the descriptor, and `.wav`.
pub fn wav_file_name(base: &str, descriptor: &str) -> (name: String)
    ensures
        name@ == base@ + descriptor@ + ".wav"@,
{
    let mut name: String = String::from_str(base);
    name.append(descriptor);
    name.append(".wav");
    name
}

} // verus!
