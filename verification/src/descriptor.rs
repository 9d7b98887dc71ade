//! The descriptor: a text that names the waveform and every effect with its parameters,
//! in the order of the stages, for use in the name of the output.

use vstd::prelude::*;
use vstd::string::StringExecFns;
use crate::text::{
    decimal, plain, two_places, two_places_of, sign, magnitude, push_decimal, push_plain,
    push_two_places, push_two_places_of, magnitude_of,
};
use crate::level::{centibels, centibels_of};
use crate::config::WavGenerator;

verus! {

/// A level in hundredths of a decibel as a number with two decimal places.
pub open spec fn level_text(amplitude: i64) -> Seq<char> {
    if amplitude > 0 {
        let level = centibels(amplitude) as i64;
        sign(level) + two_places_of(magnitude(level))
    } else if amplitude == 0 {
        "-inf"@
    } else {
        "NaN"@
    }
}

/// The harmonics, each as `-<frequency>Hz_<amplitude>`.
pub open spec fn partials_text(partials: Seq<(i64, i64)>) -> Seq<char>
    decreases partials.len(),
{
    if partials.len() == 0 {
        Seq::empty()
    } else {
        partials_text(partials.drop_last()) + "-"@ + plain(partials.last().0) + "Hz_"@ + two_places(
            partials.last().1,
        )
    }
}

/// Appends the level of an amplitude: a number for a positive one, `-inf` for zero, and
/// `NaN` for a negative one, which has no level.
fn push_level(out: &mut String, amplitude: i64)
    ensures
        final(out)@ == old(out)@ + level_text(amplitude),
{
    if amplitude > 0 {
        let level: i64 = centibels_of(amplitude);
        if level < 0 {
            out.append("-");
            proof {
                reveal_strlit("-");
            }
        }
        push_two_places_of(out, magnitude_of(level));
    } else if amplitude == 0 {
        out.append("-inf");
    } else {
        out.append("NaN");
    }
}

/// Appends the harmonics.
fn push_partials(out: &mut String, partials: &Vec<(i64, i64)>)
    ensures
        final(out)@ == old(out)@ + partials_text(partials@),
{
    let mut k: usize = 0;
    while k < partials.len()
        invariant
            k <= partials.len(),
            out@ == old(out)@ + partials_text(partials@.take(k as int)),
        decreases partials.len() - k,
    {
        let pair: (i64, i64) = partials[k];
        out.append("-");
        push_plain(out, pair.0);
        out.append("Hz_");
        push_two_places(out, pair.1);
        proof {
            let next = partials@.take(k + 1);
            assert(next.drop_last() =~= partials@.take(k as int));
        }
        k += 1;
    }
    assert(partials@.take(k as int) =~= partials@);
}

impl WavGenerator {
    /// The name of the waveform as given; `sine` if none is given.
    pub open spec fn kind_text(&self) -> Seq<char> {
        match self.waveform_type {
            Some(name) => name@,
            None => "sine"@,
        }
    }

    /// Waveform, frequency, level, sample rate, bit depth and duration.
    pub open spec fn head_text(&self) -> Seq<char> {
        self.kind_text() + "_freq"@ + plain(self.frequency) + "Hz_amp"@ + level_text(self.amplitude)
            + "dB_samp"@ + decimal(self.sample_rate as nat) + "Hz"@ + decimal(self.bit_depth as nat)
            + "bit_"@ + two_places(self.duration) + "s"@
    }

    /// The offset, if it is not zero.
    pub open spec fn offset_text(&self) -> Seq<char> {
        if self.dc_offset != 0 {
            "_"@ + two_places(self.dc_offset) + "dco"@
        } else {
            Seq::empty()
        }
    }

    /// The harmonics, if a list is given, even an empty one.
    pub open spec fn harmonics_text(&self) -> Seq<char> {
        match self.harmonics {
            Some(list) => "_harmonics"@ + partials_text(list@),
            None => Seq::empty(),
        }
    }

    /// The noise as named, if any is named, and its volume if that is not zero.
    pub open spec fn noise_text(&self) -> Seq<char> {
        match self.noise_type {
            Some(name) => if self.noise_volume != 0 {
                "_noise-"@ + name@ + "_volume-"@ + two_places(self.noise_volume)
            } else {
                "_noise-"@ + name@
            },
            None => Seq::empty(),
        }
    }

    /// The cutoffs of the filters that are set.
    pub open spec fn filter_text(&self) -> Seq<char> {
        let low = match self.low_pass_filter {
            Some(cutoff) => "_"@ + plain(cutoff) + "Hz-lp"@,
            None => Seq::empty(),
        };
        let high = match self.high_pass_filter {
            Some(cutoff) => "_"@ + plain(cutoff) + "Hz-hp"@,
            None => Seq::empty(),
        };
        low + high
    }

    /// The fade times that are positive.
    pub open spec fn fade_text(&self) -> Seq<char> {
        let rise = if self.fade_in > 0 {
            "_fade_in-"@ + two_places(self.fade_in) + "s"@
        } else {
            Seq::empty()
        };
        let fall = if self.fade_out > 0 {
            "_fade_out-"@ + two_places(self.fade_out) + "s"@
        } else {
            Seq::empty()
        };
        rise + fall
    }

    /// The reverb amount, if it is positive.
    pub open spec fn reverb_text(&self) -> Seq<char> {
        if self.reverb_amount > 0 {
            "_reverb-"@ + two_places(self.reverb_amount)
        } else {
            Seq::empty()
        }
    }

    /// The whole descriptor.
    pub open spec fn descriptor(&self) -> Seq<char> {
        self.head_text() + self.offset_text() + self.harmonics_text() + self.noise_text()
            + self.filter_text() + self.fade_text() + self.reverb_text()
    }

    fn push_head(&self, out: &mut String)
        ensures
            final(out)@ == old(out)@ + self.head_text(),
    {
        match &self.waveform_type {
            Some(name) => out.append(name.as_str()),
            None => out.append("sine"),
        }
        out.append("_freq");
        push_plain(out, self.frequency);
        out.append("Hz_amp");
        push_level(out, self.amplitude);
        out.append("dB_samp");
        push_decimal(out, self.sample_rate as u64);
        out.append("Hz");
        push_decimal(out, self.bit_depth as u64);
        out.append("bit_");
        push_two_places(out, self.duration);
        out.append("s");
    }

    fn push_offset(&self, out: &mut String)
        ensures
            final(out)@ == old(out)@ + self.offset_text(),
    {
        if self.dc_offset != 0 {
            out.append("_");
            push_two_places(out, self.dc_offset);
            out.append("dco");
        }
    }

    fn push_harmonics(&self, out: &mut String)
        ensures
            final(out)@ == old(out)@ + self.harmonics_text(),
    {
        match &self.harmonics {
            Some(list) => {
                out.append("_harmonics");
                push_partials(out, list);
            },
            None => {},
        }
    }

    fn push_noise(&self, out: &mut String)
        ensures
            final(out)@ == old(out)@ + self.noise_text(),
    {
        match &self.noise_type {
            Some(name) => {
                out.append("_noise-");
                out.append(name.as_str());
                if self.noise_volume != 0 {
                    out.append("_volume-");
                    push_two_places(out, self.noise_volume);
                }
            },
            None => {},
        }
    }

    fn push_filters(&self, out: &mut String)
        ensures
            final(out)@ == old(out)@ + self.filter_text(),
    {
        if let Some(cutoff) = self.low_pass_filter {
            out.append("_");
            push_plain(out, cutoff);
            out.append("Hz-lp");
        }
        if let Some(cutoff) = self.high_pass_filter {
            out.append("_");
            push_plain(out, cutoff);
            out.append("Hz-hp");
        }
    }

    fn push_fades(&self, out: &mut String)
        ensures
            final(out)@ == old(out)@ + self.fade_text(),
    {
        if self.fade_in > 0 {
            out.append("_fade_in-");
            push_two_places(out, self.fade_in);
            out.append("s");
        }
        if self.fade_out > 0 {
            out.append("_fade_out-");
            push_two_places(out, self.fade_out);
            out.append("s");
        }
    }

    fn push_reverb(&self, out: &mut String)
        ensures
            final(out)@ == old(out)@ + self.reverb_text(),
    {
        if self.reverb_amount > 0 {
            out.append("_reverb-");
            push_two_places(out, self.reverb_amount);
        }
    }

    /// Writes the descriptor.
    pub fn describe(&self) -> (text: String)
        ensures
            text@ == self.descriptor(),
    {
        let mut out: String = String::new();
        self.push_head(&mut out);
        self.push_offset(&mut out);
        self.push_harmonics(&mut out);
        self.push_noise(&mut out);
        self.push_filters(&mut out);
        self.push_fades(&mut out);
        self.push_reverb(&mut out);
        out
    }
}

} // verus!
