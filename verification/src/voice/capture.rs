//! Choosing and reading a capture device: which configuration to open, what the
//! mix format of a raw stream says, and what to do with a raw buffer.
use vstd::prelude::*;

use crate::text::{joined, push_decimal};

verus! {

/// Sample formats of a device.
#[derive(Debug, Clone, Copy, PartialEq, Eq, Structural)]
pub enum SampleFormat {
    I16,
    F32,
    Other,
}

/// One range of configurations that a device offers.
#[derive(Debug, Clone, Copy, PartialEq, Eq, Structural)]
pub struct InputRange {
    pub format: SampleFormat,
    pub min_rate: u32,
    pub max_rate: u32,
    pub channels: u16,
}

impl InputRange {
    /// Whether the capture path can read the range at 48 kHz.
    pub open spec fn usable(self) -> bool {
        self.format != SampleFormat::Other && self.min_rate <= 48000 <= self.max_rate
    }
}

/// The first usable mono range, else the first usable one.
pub open spec fn is_pick(configs: Seq<InputRange>, r: Option<int>) -> bool {
    match r {
        Some(i) => {
            &&& 0 <= i < configs.len()
            &&& configs[i].usable()
            &&& if configs[i].channels == 1 {
                forall|j: int|
                    0 <= j < i ==> !((#[trigger] configs[j]).usable() && configs[j].channels == 1)
            } else {
                &&& forall|j: int|
                    0 <= j < configs.len() ==> !((#[trigger] configs[j]).usable()
                        && configs[j].channels == 1)
                &&& forall|j: int| 0 <= j < i ==> !(#[trigger] configs[j]).usable()
            }
        },
        None => forall|j: int| 0 <= j < configs.len() ==> !(#[trigger] configs[j]).usable(),
    }
}

/// Picks the configuration to open at 48 kHz, so that most devices need no
/// resampling; `None` leaves the device's default.
pub fn pick_input_config(configs: &Vec<InputRange>) -> (r: Option<usize>)
    ensures
        is_pick(
            configs@,
            match r {
                Some(i) => Some(i as int),
                None => None,
            },
        ),
{
    let n: usize = configs.len();
    let mut best: Option<usize> = None;
    let mut i: usize = 0;
    while i < n
        invariant
            n == configs@.len(),
            i <= n,
            forall|j: int|
                0 <= j < i ==> !((#[trigger] configs@[j]).usable() && configs@[j].channels == 1),
            match best {
                Some(b) => b < i && configs@[b as int].usable() && forall|j: int|
                    0 <= j < b ==> !(#[trigger] configs@[j]).usable(),
                None => forall|j: int| 0 <= j < i ==> !(#[trigger] configs@[j]).usable(),
            },
        decreases n - i,
    {
        let c: InputRange = configs[i];
        if c.format != SampleFormat::Other && c.min_rate <= 48_000 && c.max_rate >= 48_000 {
            if c.channels == 1 {
                return Some(i);
            }
            if best.is_none() {
                best = Some(i);
            }
        }
        i = i + 1;
    }
    best
}

/// How the samples of a raw stream are stored.
#[derive(Debug, Clone, Copy, PartialEq, Eq, Structural)]
pub enum RawFormat {
    I16,
    F32,
}

/// The sub-format of an extensible mix format.
#[derive(Debug, Clone, Copy, PartialEq, Eq, Structural)]
pub enum SubFormat {
    Pcm,
    IeeeFloat,
    Other,
}

/// A mix format as the system gives it.
#[derive(Debug, Clone, Copy, PartialEq, Eq, Structural)]
pub struct MixFormat {
    pub rate: u32,
    pub channels: u16,
    pub tag: u16,
    pub bits: u16,
    pub sub: SubFormat,
}

/// Format tag of PCM samples.
pub const WAVE_FORMAT_PCM: u16 = 1;

/// Format tag of float samples.
pub const WAVE_FORMAT_IEEE_FLOAT: u16 = 3;

/// Format tag of an extensible format.
pub const WAVE_FORMAT_EXTENSIBLE: u16 = 65534;

/// Why a mix format cannot be read.
#[derive(Debug, Clone, Copy, PartialEq, Eq, Structural)]
pub enum FormatError {
    BadMix { rate: u32, channels: u16 },
    Extensible { bits: u16 },
    Tag { tag: u16 },
}

impl FormatError {
    /// The words for the log.
    pub fn message(self) -> (r: String)
        ensures
            r@ == (match self {
                FormatError::BadMix { rate, channels } => "bad mix format: rate="@
                    + crate::text::decimal(rate as nat) + " ch="@ + crate::text::decimal(
                    channels as nat,
                ),
                FormatError::Extensible { bits } => "unsupported extensible mic format ("@
                    + crate::text::decimal(bits as nat) + ")"@,
                FormatError::Tag { tag } => "unsupported mic format tag "@ + crate::text::decimal(
                    tag as nat,
                ),
            }),
    {
        match self {
            FormatError::BadMix { rate, channels } => {
                let mut s: String = "bad mix format: rate=".to_owned();
                push_decimal(&mut s, rate as u64);
                let mut t: String = joined(s.as_str(), " ch=");
                push_decimal(&mut t, channels as u64);
                t
            },
            FormatError::Extensible { bits } => {
                let mut s: String = "unsupported extensible mic format (".to_owned();
                push_decimal(&mut s, bits as u64);
                joined(s.as_str(), ")")
            },
            FormatError::Tag { tag } => {
                let mut s: String = "unsupported mic format tag ".to_owned();
                push_decimal(&mut s, tag as u64);
                s
            },
        }
    }
}

/// What a mix format says: sample rate, channels and storage.
pub open spec fn format_of(mix: MixFormat) -> Result<(u32, usize, RawFormat), FormatError> {
    if mix.channels == 0 || mix.rate == 0 {
        Err(FormatError::BadMix { rate: mix.rate, channels: mix.channels })
    } else if mix.tag == WAVE_FORMAT_IEEE_FLOAT || (mix.tag == WAVE_FORMAT_EXTENSIBLE && mix.sub
        == SubFormat::IeeeFloat) {
        Ok((mix.rate, mix.channels as usize, RawFormat::F32))
    } else if mix.bits == 16 && (mix.tag == WAVE_FORMAT_PCM || (mix.tag == WAVE_FORMAT_EXTENSIBLE
        && mix.sub == SubFormat::Pcm)) {
        Ok((mix.rate, mix.channels as usize, RawFormat::I16))
    } else if mix.tag == WAVE_FORMAT_EXTENSIBLE {
        Err(FormatError::Extensible { bits: mix.bits })
    } else {
        Err(FormatError::Tag { tag: mix.tag })
    }
}

/// Reads a mix format.
pub fn parse_format(mix: MixFormat) -> (r: Result<(u32, usize, RawFormat), FormatError>)
    ensures
        r == format_of(mix),
{
    if mix.channels == 0 || mix.rate == 0 {
        return Err(FormatError::BadMix { rate: mix.rate, channels: mix.channels });
    }
    let fmt: RawFormat = if mix.tag == WAVE_FORMAT_IEEE_FLOAT {
        RawFormat::F32
    } else if mix.tag == WAVE_FORMAT_PCM && mix.bits == 16 {
        RawFormat::I16
    } else if mix.tag == WAVE_FORMAT_EXTENSIBLE {
        if mix.sub == SubFormat::IeeeFloat {
            RawFormat::F32
        } else if mix.sub == SubFormat::Pcm && mix.bits == 16 {
            RawFormat::I16
        } else {
            return Err(FormatError::Extensible { bits: mix.bits });
        }
    } else {
        return Err(FormatError::Tag { tag: mix.tag });
    };
    Ok((mix.rate, mix.channels as usize, fmt))
}

/// What to do with a buffer of a raw stream.
#[derive(Debug, Clone, Copy, PartialEq, Eq, Structural)]
pub enum RawStep {
    /// Nothing in it.
    Skip,
    /// Feed this many zero samples.
    Silence(usize),
    /// Feed this many samples of it.
    Samples(usize),
}

/// Decides what a raw buffer of `frames` frames means: a buffer flagged silent is
/// silence whatever it holds.
pub fn raw_step(frames: u32, channels: usize, silent: bool, has_data: bool) -> (r: RawStep)
    requires
        frames * channels <= usize::MAX,
        frames <= usize::MAX,
    ensures
        r == (if frames == 0 || (!silent && !has_data) {
            RawStep::Skip
        } else if silent {
            RawStep::Silence((frames * channels) as usize)
        } else {
            RawStep::Samples((frames * channels) as usize)
        }),
{
    if frames == 0 {
        return RawStep::Skip;
    }
    let total: usize = frames as usize * channels;
    if silent {
        RawStep::Silence(total)
    } else if has_data {
        RawStep::Samples(total)
    } else {
        RawStep::Skip
    }
}

/// Silence of `n` samples.
pub fn zero_samples(n: usize) -> (r: Vec<i16>)
    ensures
        r@ == Seq::new(n as nat, |i: int| 0i16),
{
    let mut out: Vec<i16> = Vec::new();
    let mut i: usize = 0;
    while i < n
        invariant
            i <= n,
            out@.len() == i,
            forall|k: int| 0 <= k < i ==> #[trigger] out@[k] == 0,
        decreases n - i,
    {
        out.push(0);
        i = i + 1;
    }
    assert(out@ =~= Seq::new(n as nat, |i: int| 0i16));
    out
}

/// The configuration that is opened can be read at 48 kHz; a mono one is taken before
/// any other, and of equals the first. None is taken only where none can be read.
pub proof fn law_configuration_picked(configs: &Vec<InputRange>, r: Option<usize>, j: int)
    requires
        call_ensures(pick_input_config, (configs,), r),
        0 <= j < configs@.len(),
    ensures
        r matches Some(i) ==> {
            &&& i < configs@.len()
            &&& configs@[i as int].min_rate <= 48000 && 48000 <= configs@[i as int].max_rate
            &&& configs@[i as int].format is I16 || configs@[i as int].format is F32
        },
        configs@[j].min_rate <= 48000 && 48000 <= configs@[j].max_rate && !(
        configs@[j].format is Other) ==> {
            &&& r matches Some(i)
            &&& configs@[j].channels == 1 ==> configs@[i as int].channels == 1 && i <= j
            &&& configs@[i as int].channels != 1 ==> i <= j
        },
{
    assert(configs@[j].usable() == (configs@[j].min_rate <= 48000 && 48000 <= configs@[j].max_rate
        && !(configs@[j].format is Other)));
}

/// A mix format is read as floats where it says so, as 16-bit numbers where it says
/// so and they have 16 bits, and not at all otherwise; rate and channels are its own.
pub proof fn law_mix_format_read(
    mix: MixFormat,
    r: Result<(u32, usize, RawFormat), FormatError>,
)
    requires
        call_ensures(parse_format, (mix,), r),
    ensures
        r matches Ok(f) ==> f.0 == mix.rate && f.1 == mix.channels && f.0 > 0 && f.1 > 0,
        mix.rate == 0 || mix.channels == 0 ==> (r matches Err(FormatError::BadMix {
            rate,
            channels,
        }) && rate == mix.rate && channels == mix.channels),
        mix.rate > 0 && mix.channels > 0 ==> {
            &&& mix.tag == 3 ==> (r matches Ok(f) && f.2 is F32)
            &&& mix.tag == 1 && mix.bits == 16 ==> (r matches Ok(f) && f.2 is I16)
            &&& mix.tag == 1 && mix.bits != 16 ==> (r matches Err(FormatError::Tag { tag }) && tag
                == 1)
            &&& mix.tag == 65534 && mix.sub is IeeeFloat ==> (r matches Ok(f) && f.2 is F32)
            &&& mix.tag == 65534 && mix.sub is Pcm && mix.bits == 16 ==> (r matches Ok(f)
                && f.2 is I16)
            &&& mix.tag == 65534 && mix.sub is Pcm && mix.bits != 16 ==> (r matches Err(
                FormatError::Extensible { bits },
            ) && bits == mix.bits)
            &&& mix.tag == 65534 && mix.sub is Other ==> (r matches Err(FormatError::Extensible {
                bits,
            }) && bits == mix.bits)
            &&& mix.tag != 1 && mix.tag != 3 && mix.tag != 65534 ==> (r matches Err(
                FormatError::Tag { tag },
            ) && tag == mix.tag)
        },
{
}

/// A raw buffer gives as many samples as its frames have in all channels: zeros where
/// it is silent, its own where it holds some, and none where it is empty.
pub proof fn law_raw_buffer(
    frames: u32,
    channels: usize,
    silent: bool,
    has_data: bool,
    r: RawStep,
    n: usize,
    zeros: Vec<i16>,
    i: int,
)
    requires
        frames * channels <= usize::MAX,
        frames <= usize::MAX,
        call_ensures(raw_step, (frames, channels, silent, has_data), r),
        call_ensures(zero_samples, (n,), zeros),
    ensures
        frames == 0 ==> r is Skip,
        frames > 0 && silent ==> (r matches RawStep::Silence(k) && k == frames * channels),
        frames > 0 && !silent && has_data ==> (r matches RawStep::Samples(k) && k == frames
            * channels),
        frames > 0 && !silent && !has_data ==> r is Skip,
        zeros@.len() == n,
        0 <= i < n ==> zeros@[i] == 0,
{
}

/// An error tells what it is about.
pub proof fn law_format_errors_tell(e: FormatError, r: String)
    requires
        call_ensures(FormatError::message, (e,), r),
    ensures
        e matches FormatError::BadMix { rate, channels } ==> r@ == "bad mix format: rate="@
            + crate::text::decimal(rate as nat) + " ch="@ + crate::text::decimal(channels as nat),
        e matches FormatError::Extensible { bits } ==> r@ == "unsupported extensible mic format ("@
            + crate::text::decimal(bits as nat) + ")"@,
        e matches FormatError::Tag { tag } ==> r@ == "unsupported mic format tag "@
            + crate::text::decimal(tag as nat),
{
}

} // verus!
