//! The description of one synthesis run.

use vstd::prelude::*;
use vstd::string::StringExecFns;
use crate::fixed::ONE;

verus! {

/// The shape of the oscillator's wave.
#[derive(Clone, Copy, Debug, PartialEq, Eq, Structural)]
pub enum Waveform {
    Sine,
    Square,
    Triangle,
    Sawtooth,
}

/// The colour of the noise that is mixed in.
#[derive(Clone, Copy, Debug, PartialEq, Eq, Structural)]
pub enum NoiseColor {
    White,
    Pink,
    /// A noise type was named, but not one that is known: it adds silence.
    Silent,
}

/// Everything that determines one generated signal.
///
/// Quantities are raw fixed-point values, `ONE` standing for 1.0: seconds for `duration`,
/// `fade_in` and `fade_out`, cycles per second for frequencies and cutoffs, radians for
/// `phase_shift`, plain factors for amplitudes, volumes and `reverb_amount`.
#[derive(Debug)]
pub struct WavGenerator {
    /// `"sine"`, `"square"`, `"triangle"` or `"sawtooth"`; anything else is taken as a sine.
    pub waveform_type: Option<String>,
    /// Samples per second.
    pub sample_rate: u32,
    /// Bits per stored sample; only named in the descriptor and handed to the file writer.
    pub bit_depth: u16,
    pub duration: i64,
    pub frequency: i64,
    pub amplitude: i64,
    pub dc_offset: i64,
    pub phase_shift: i64,
    /// Additional sine partials as (frequency, amplitude) pairs.
    pub harmonics: Option<Vec<(i64, i64)>>,
    /// `"white"` or `"pink"`; any other name adds no noise.
    pub noise_type: Option<String>,
    pub noise_volume: i64,
    pub low_pass_filter: Option<i64>,
    pub high_pass_filter: Option<i64>,
    pub fade_in: i64,
    pub fade_out: i64,
    pub reverb_amount: i64,
    /// The number of channels declared to the file writer; the signal itself is mono.
    pub num_channels: u16,
    /// One gain per declared channel; checked for its length, not applied to the signal.
    pub channel_volumes: Vec<i64>,
}

/// What is wrong with a description that cannot be rendered.
#[derive(Clone, Copy, Debug, PartialEq, Eq, Structural)]
pub enum ConfigError {
    /// The sample rate is zero.
    ZeroSampleRate,
    /// The duration is zero or negative.
    DurationNotPositive,
    /// A filter cutoff is present but not positive.
    CutoffNotPositive,
    /// A fade time is negative.
    NegativeFade,
    /// The reverb amount is negative.
    NegativeReverb,
    /// There is not exactly one volume per channel.
    ChannelVolumeCount,
}

/// The waveform that a name selects.
pub open spec fn waveform_named(name: Option<Seq<char>>) -> Waveform {
    match name {
        Some(n) => if n == "square"@ {
            Waveform::Square
        } else if n == "triangle"@ {
            Waveform::Triangle
        } else if n == "sawtooth"@ {
            Waveform::Sawtooth
        } else {
            Waveform::Sine
        },
        None => Waveform::Sine,
    }
}

/// The noise that a name selects, if a name is given.
pub open spec fn noise_named(name: Option<Seq<char>>) -> Option<NoiseColor> {
    match name {
        Some(n) => if n == "white"@ {
            Some(NoiseColor::White)
        } else if n == "pink"@ {
            Some(NoiseColor::Pink)
        } else {
            Some(NoiseColor::Silent)
        },
        None => None,
    }
}

/// Whether a cutoff is set to a frequency that is not positive.
pub open spec fn cutoff_unusable(cutoff: Option<i64>) -> bool {
    cutoff matches Some(c) && c <= 0
}

/// The number of samples that span `seconds` (raw) at `rate` samples per second, rounded to
/// the nearest whole sample; none for a time that is not positive, and never more than a
/// buffer can index.
pub open spec fn frame_count(rate: u32, seconds: i64) -> nat {
    if seconds <= 0 {
        0
    } else {
        let exact = (rate * seconds + ONE / 2) / (ONE as int);
        if exact > usize::MAX {
            usize::MAX as nat
        } else {
            exact as nat
        }
    }
}

/// Computes `frame_count`.
pub fn frames(rate: u32, seconds: i64) -> (n: usize)
    ensures
        n == frame_count(rate, seconds),
{
    if seconds <= 0 {
        0
    } else {
        assert(0 <= rate * seconds <= 0x1_0000_0000 * 0x8000_0000_0000_0000) by (nonlinear_arith)
            requires
                0 <= rate < 0x1_0000_0000,
                0 < seconds < 0x8000_0000_0000_0000,
        ;
        let exact: u128 = ((rate as u128) * (seconds as u128) + (ONE as u128) / 2) / (ONE as u128);
        if exact > usize::MAX as u128 {
            usize::MAX
        } else {
            exact as usize
        }
    }
}

impl WavGenerator {
    /// The name of the waveform, as a sequence of characters.
    pub open spec fn waveform_name(&self) -> Option<Seq<char>> {
        match self.waveform_type {
            Some(name) => Some(name@),
            None => None,
        }
    }

    /// The name of the noise, as a sequence of characters.
    pub open spec fn noise_name(&self) -> Option<Seq<char>> {
        match self.noise_type {
            Some(name) => Some(name@),
            None => None,
        }
    }

    /// The oscillator's waveform.
    pub open spec fn waveform(&self) -> Waveform {
        waveform_named(self.waveform_name())
    }

    /// The noise to mix in, if any.
    pub open spec fn noise(&self) -> Option<NoiseColor> {
        noise_named(self.noise_name())
    }

    /// The harmonics as a sequence; empty when there are none.
    pub open spec fn partials(&self) -> Seq<(i64, i64)> {
        match self.harmonics {
            Some(list) => list@,
            None => Seq::empty(),
        }
    }

    /// The length of the generated signal in samples.
    pub open spec fn length(&self) -> nat {
        frame_count(self.sample_rate, self.duration)
    }

    /// The first thing wrong with this description, if anything is.
    pub open spec fn defect(&self) -> Option<ConfigError> {
        if self.sample_rate == 0 {
            Some(ConfigError::ZeroSampleRate)
        } else if self.duration <= 0 {
            Some(ConfigError::DurationNotPositive)
        } else if cutoff_unusable(self.low_pass_filter) || cutoff_unusable(self.high_pass_filter) {
            Some(ConfigError::CutoffNotPositive)
        } else if self.fade_in < 0 || self.fade_out < 0 {
            Some(ConfigError::NegativeFade)
        } else if self.reverb_amount < 0 {
            Some(ConfigError::NegativeReverb)
        } else if self.channel_volumes@.len() != self.num_channels {
            Some(ConfigError::ChannelVolumeCount)
        } else {
            None
        }
    }

    /// Whether nothing is wrong with this description.
    pub open spec fn valid(&self) -> bool {
        self.defect() is None
    }

    /// What rendering needs of a description: a sample rate, and cutoffs that are positive.
    /// Every valid description has it; so has one whose only defect is a duration that
    /// is not positive, which renders to an empty signal, or a negative fade time or reverb
    /// amount, which switch the fade or the reverb off.
    pub open spec fn renderable(&self) -> bool {
        &&& self.sample_rate > 0
        &&& !cutoff_unusable(self.low_pass_filter)
        &&& !cutoff_unusable(self.high_pass_filter)
    }

    /// Checks the description, naming the first defect.
    pub fn validate(&self) -> (r: Result<(), ConfigError>)
        ensures
            r == match self.defect() {
                Some(e) => Err::<(), ConfigError>(e),
                None => Ok(()),
            },
            r is Ok ==> self.valid() && self.renderable(),
    {
        if self.sample_rate == 0 {
            return Err(ConfigError::ZeroSampleRate);
        }
        if self.duration <= 0 {
            return Err(ConfigError::DurationNotPositive);
        }
        let low_bad: bool = match self.low_pass_filter {
            Some(c) => c <= 0,
            None => false,
        };
        let high_bad: bool = match self.high_pass_filter {
            Some(c) => c <= 0,
            None => false,
        };
        if low_bad || high_bad {
            return Err(ConfigError::CutoffNotPositive);
        }
        if self.fade_in < 0 || self.fade_out < 0 {
            return Err(ConfigError::NegativeFade);
        }
        if self.reverb_amount < 0 {
            return Err(ConfigError::NegativeReverb);
        }
        if self.channel_volumes.len() != self.num_channels as usize {
            return Err(ConfigError::ChannelVolumeCount);
        }
        Ok(())
    }

    /// Classifies the waveform name.
    pub fn waveform_kind(&self) -> (kind: Waveform)
        ensures
            kind == self.waveform(),
    {
        match &self.waveform_type {
            Some(name) => {
                if *name == String::from_str("square") {
                    Waveform::Square
                } else if *name == String::from_str("triangle") {
                    Waveform::Triangle
                } else if *name == String::from_str("sawtooth") {
                    Waveform::Sawtooth
                } else {
                    Waveform::Sine
                }
            },
            None => Waveform::Sine,
        }
    }

    /// Classifies the noise name.
    pub fn noise_kind(&self) -> (kind: Option<NoiseColor>)
        ensures
            kind == self.noise(),
    {
        match &self.noise_type {
            Some(name) => {
                if *name == String::from_str("white") {
                    Some(NoiseColor::White)
                } else if *name == String::from_str("pink") {
                    Some(NoiseColor::Pink)
                } else {
                    Some(NoiseColor::Silent)
                }
            },
            None => None,
        }
    }

    /// The length of the generated signal in samples.
    pub fn sample_count(&self) -> (n: usize)
        ensures
            n == self.length(),
    {
        frames(self.sample_rate, self.duration)
    }
}

} // verus!
