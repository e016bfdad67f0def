//! Audio capture and encoding as far as it is a matter of names and numbers:
//! the settings of an encoder, the formats and flags of an audio stream, and
//! the failures of a capture.
use vstd::prelude::*;
use crate::text::{decimal, push_decimal, push_str, string_of};

verus! {

/// How good the encoding is to be, from the best to the worst.
#[derive(Clone, Copy, Debug, PartialEq, Eq, Structural)]
pub enum Quality {
    Best,
    SecondBest,
    NearBest,
    VeryNice,
    Nice,
    Good,
    Decent,
    Okay,
    SecondWorst,
    Worst,
}

impl Quality {
    /// The number that the encoder knows the quality by: 0 for the best, 9
    /// for the worst.
    pub fn level(self) -> (level: u8)
        ensures
            level == (match self {
                Quality::Best => 0u8,
                Quality::SecondBest => 1u8,
                Quality::NearBest => 2u8,
                Quality::VeryNice => 3u8,
                Quality::Nice => 4u8,
                Quality::Good => 5u8,
                Quality::Decent => 6u8,
                Quality::Okay => 7u8,
                Quality::SecondWorst => 8u8,
                Quality::Worst => 9u8,
            }),
    {
        match self {
            Quality::Best => 0,
            Quality::SecondBest => 1,
            Quality::NearBest => 2,
            Quality::VeryNice => 3,
            Quality::Nice => 4,
            Quality::Good => 5,
            Quality::Decent => 6,
            Quality::Okay => 7,
            Quality::SecondWorst => 8,
            Quality::Worst => 9,
        }
    }
}

/// The bit rates that the encoder takes, in thousands of bits a second.
#[derive(Clone, Copy, Debug, PartialEq, Eq, Structural)]
pub enum Bitrate {
    Kbps8,
    Kbps16,
    Kbps24,
    Kbps32,
    Kbps40,
    Kbps48,
    Kbps64,
    Kbps80,
    Kbps96,
    Kbps112,
    Kbps128,
    Kbps160,
    Kbps192,
    Kbps224,
    Kbps256,
    Kbps320,
}

impl Bitrate {
    /// The rate in thousands of bits a second.
    pub fn kbps(self) -> (kbps: u16)
        ensures
            kbps == (match self {
                Bitrate::Kbps8 => 8u16,
                Bitrate::Kbps16 => 16u16,
                Bitrate::Kbps24 => 24u16,
                Bitrate::Kbps32 => 32u16,
                Bitrate::Kbps40 => 40u16,
                Bitrate::Kbps48 => 48u16,
                Bitrate::Kbps64 => 64u16,
                Bitrate::Kbps80 => 80u16,
                Bitrate::Kbps96 => 96u16,
                Bitrate::Kbps112 => 112u16,
                Bitrate::Kbps128 => 128u16,
                Bitrate::Kbps160 => 160u16,
                Bitrate::Kbps192 => 192u16,
                Bitrate::Kbps224 => 224u16,
                Bitrate::Kbps256 => 256u16,
                Bitrate::Kbps320 => 320u16,
            }),
    {
        match self {
            Bitrate::Kbps8 => 8,
            Bitrate::Kbps16 => 16,
            Bitrate::Kbps24 => 24,
            Bitrate::Kbps32 => 32,
            Bitrate::Kbps40 => 40,
            Bitrate::Kbps48 => 48,
            Bitrate::Kbps64 => 64,
            Bitrate::Kbps80 => 80,
            Bitrate::Kbps96 => 96,
            Bitrate::Kbps112 => 112,
            Bitrate::Kbps128 => 128,
            Bitrate::Kbps160 => 160,
            Bitrate::Kbps192 => 192,
            Bitrate::Kbps224 => 224,
            Bitrate::Kbps256 => 256,
            Bitrate::Kbps320 => 320,
        }
    }
}

/// How the channels of the encoded stream are laid out.
#[derive(Clone, Copy, Debug, PartialEq, Eq, Structural)]
pub enum Mode {
    Mono,
    Stereo,
    JointStereo,
    DualChannel,
    NotSet,
}

/// What is asked of an encoder. What is left open is left to the encoder.
#[derive(Clone, Copy, Debug, PartialEq, Eq, Structural)]
pub struct EncodeOptions {
    pub channels: u32,
    pub quality: Option<Quality>,
    pub bitrate: Option<Bitrate>,
    pub sample_rate: Option<u32>,
    pub mode: Option<Mode>,
}

/// One setting that an encoder is given before it is built.
#[derive(Clone, Copy, Debug, PartialEq, Eq, Structural)]
pub enum EncoderSetting {
    Channels(u8),
    Quality(Quality),
    Bitrate(Bitrate),
    SampleRate(u32),
    Mode(Mode),
}

/// The settings that the options ask for, in the order in which the encoder
/// is given them: the channels first, of whose number the lowest eight bits
/// count, then what the options name of quality, bit rate, sample rate and
/// mode.
pub open spec fn settings_of(options: EncodeOptions) -> Seq<EncoderSetting> {
    seq![EncoderSetting::Channels(options.channels as u8)] + (match options.quality {
        Some(quality) => seq![EncoderSetting::Quality(quality)],
        None => seq![],
    }) + (match options.bitrate {
        Some(bitrate) => seq![EncoderSetting::Bitrate(bitrate)],
        None => seq![],
    }) + (match options.sample_rate {
        Some(rate) => seq![EncoderSetting::SampleRate(rate)],
        None => seq![],
    }) + (match options.mode {
        Some(mode) => seq![EncoderSetting::Mode(mode)],
        None => seq![],
    })
}

/// The settings that the options ask for, in the order in which the encoder
/// is given them.
pub fn encoder_settings(options: &EncodeOptions) -> (settings: Vec<EncoderSetting>)
    ensures
        settings@ == settings_of(*options),
{
    let mut settings: Vec<EncoderSetting> = Vec::new();
    settings.push(EncoderSetting::Channels(#[verifier::truncate] (options.channels as u8)));
    if let Some(quality) = options.quality {
        settings.push(EncoderSetting::Quality(quality));
    }
    if let Some(bitrate) = options.bitrate {
        settings.push(EncoderSetting::Bitrate(bitrate));
    }
    if let Some(rate) = options.sample_rate {
        settings.push(EncoderSetting::SampleRate(rate));
    }
    if let Some(mode) = options.mode {
        settings.push(EncoderSetting::Mode(mode));
    }
    assert(settings@ =~= settings_of(*options));
    settings
}

/// The format of an audio stream, known by a code of four characters.
#[derive(Clone, Copy, Debug, PartialEq, Eq, Structural)]
pub enum AudioFormatID {
    LinearPcm,
    Ac3,
    Ac360958,
    AppleIma4,
    Mpeg4Aac,
    Mpeg4Celp,
    Mpeg4Hvxc,
    Mpeg4TwinVq,
    Mace3,
    Mace6,
    ULaw,
    ALaw,
    QDesign,
    QDesign2,
    Qualcomm,
    MpegLayer1,
    MpegLayer2,
    MpegLayer3,
    TimeCode,
    MidiStream,
    ParameterValueStream,
    AppleLossless,
    Mpeg4AacHe,
    Mpeg4AacLd,
    Mpeg4AacEld,
    Mpeg4AacEldSbr,
    Mpeg4AacEldV2,
    Mpeg4AacHeV2,
    Mpeg4AacSpatial,
    MpegdUsac,
    Amr,
    AmrWb,
    Audible,
    ILbc,
    DviIntelIma,
    MicrosoftGsm,
    Aes3,
    EnhancedAc3,
    Flac,
    Opus,
    Apac,
    Unknown,
}

impl AudioFormatID {
    /// The code of the format; 0 for the unknown one.
    pub open spec fn spec_code(self) -> u32 {
        match self {
            AudioFormatID::LinearPcm => 0x6C70636Du32,
            AudioFormatID::Ac3 => 0x61632D33u32,
            AudioFormatID::Ac360958 => 0x63616333u32,
            AudioFormatID::AppleIma4 => 0x696D6134u32,
            AudioFormatID::Mpeg4Aac => 0x61616320u32,
            AudioFormatID::Mpeg4Celp => 0x63656C70u32,
            AudioFormatID::Mpeg4Hvxc => 0x68767863u32,
            AudioFormatID::Mpeg4TwinVq => 0x74777671u32,
            AudioFormatID::Mace3 => 0x4D414333u32,
            AudioFormatID::Mace6 => 0x4D414336u32,
            AudioFormatID::ULaw => 0x756C6177u32,
            AudioFormatID::ALaw => 0x616C6177u32,
            AudioFormatID::QDesign => 0x51444D43u32,
            AudioFormatID::QDesign2 => 0x51444D32u32,
            AudioFormatID::Qualcomm => 0x51636C70u32,
            AudioFormatID::MpegLayer1 => 0x2E6D7031u32,
            AudioFormatID::MpegLayer2 => 0x2E6D7032u32,
            AudioFormatID::MpegLayer3 => 0x2E6D7033u32,
            AudioFormatID::TimeCode => 0x74696D65u32,
            AudioFormatID::MidiStream => 0x6D696469u32,
            AudioFormatID::ParameterValueStream => 0x61707673u32,
            AudioFormatID::AppleLossless => 0x616C6163u32,
            AudioFormatID::Mpeg4AacHe => 0x61616368u32,
            AudioFormatID::Mpeg4AacLd => 0x6161636Cu32,
            AudioFormatID::Mpeg4AacEld => 0x61616365u32,
            AudioFormatID::Mpeg4AacEldSbr => 0x61616366u32,
            AudioFormatID::Mpeg4AacEldV2 => 0x61616367u32,
            AudioFormatID::Mpeg4AacHeV2 => 0x61616370u32,
            AudioFormatID::Mpeg4AacSpatial => 0x61616373u32,
            AudioFormatID::MpegdUsac => 0x75736163u32,
            AudioFormatID::Amr => 0x73616D72u32,
            AudioFormatID::AmrWb => 0x73617762u32,
            AudioFormatID::Audible => 0x41554442u32,
            AudioFormatID::ILbc => 0x696C6263u32,
            AudioFormatID::DviIntelIma => 0x6D730011u32,
            AudioFormatID::MicrosoftGsm => 0x6D730031u32,
            AudioFormatID::Aes3 => 0x61657333u32,
            AudioFormatID::EnhancedAc3 => 0x65632D33u32,
            AudioFormatID::Flac => 0x666C6163u32,
            AudioFormatID::Opus => 0x6F707573u32,
            AudioFormatID::Apac => 0x61706163u32,
            AudioFormatID::Unknown => 0x00000000u32,
        }
    }

    /// The format that a code stands for; the unknown one for a code that
    /// stands for none.
    pub open spec fn of_code(code: u32) -> AudioFormatID {
        if code == 0x6C70636Du32 {
            AudioFormatID::LinearPcm
        } else if code == 0x61632D33u32 {
            AudioFormatID::Ac3
        } else if code == 0x63616333u32 {
            AudioFormatID::Ac360958
        } else if code == 0x696D6134u32 {
            AudioFormatID::AppleIma4
        } else if code == 0x61616320u32 {
            AudioFormatID::Mpeg4Aac
        } else if code == 0x63656C70u32 {
            AudioFormatID::Mpeg4Celp
        } else if code == 0x68767863u32 {
            AudioFormatID::Mpeg4Hvxc
        } else if code == 0x74777671u32 {
            AudioFormatID::Mpeg4TwinVq
        } else if code == 0x4D414333u32 {
            AudioFormatID::Mace3
        } else if code == 0x4D414336u32 {
            AudioFormatID::Mace6
        } else if code == 0x756C6177u32 {
            AudioFormatID::ULaw
        } else if code == 0x616C6177u32 {
            AudioFormatID::ALaw
        } else if code == 0x51444D43u32 {
            AudioFormatID::QDesign
        } else if code == 0x51444D32u32 {
            AudioFormatID::QDesign2
        } else if code == 0x51636C70u32 {
            AudioFormatID::Qualcomm
        } else if code == 0x2E6D7031u32 {
            AudioFormatID::MpegLayer1
        } else if code == 0x2E6D7032u32 {
            AudioFormatID::MpegLayer2
        } else if code == 0x2E6D7033u32 {
            AudioFormatID::MpegLayer3
        } else if code == 0x74696D65u32 {
            AudioFormatID::TimeCode
        } else if code == 0x6D696469u32 {
            AudioFormatID::MidiStream
        } else if code == 0x61707673u32 {
            AudioFormatID::ParameterValueStream
        } else if code == 0x616C6163u32 {
            AudioFormatID::AppleLossless
        } else if code == 0x61616368u32 {
            AudioFormatID::Mpeg4AacHe
        } else if code == 0x6161636Cu32 {
            AudioFormatID::Mpeg4AacLd
        } else if code == 0x61616365u32 {
            AudioFormatID::Mpeg4AacEld
        } else if code == 0x61616366u32 {
            AudioFormatID::Mpeg4AacEldSbr
        } else if code == 0x61616367u32 {
            AudioFormatID::Mpeg4AacEldV2
        } else if code == 0x61616370u32 {
            AudioFormatID::Mpeg4AacHeV2
        } else if code == 0x61616373u32 {
            AudioFormatID::Mpeg4AacSpatial
        } else if code == 0x75736163u32 {
            AudioFormatID::MpegdUsac
        } else if code == 0x73616D72u32 {
            AudioFormatID::Amr
        } else if code == 0x73617762u32 {
            AudioFormatID::AmrWb
        } else if code == 0x41554442u32 {
            AudioFormatID::Audible
        } else if code == 0x696C6263u32 {
            AudioFormatID::ILbc
        } else if code == 0x6D730011u32 {
            AudioFormatID::DviIntelIma
        } else if code == 0x6D730031u32 {
            AudioFormatID::MicrosoftGsm
        } else if code == 0x61657333u32 {
            AudioFormatID::Aes3
        } else if code == 0x65632D33u32 {
            AudioFormatID::EnhancedAc3
        } else if code == 0x666C6163u32 {
            AudioFormatID::Flac
        } else if code == 0x6F707573u32 {
            AudioFormatID::Opus
        } else if code == 0x61706163u32 {
            AudioFormatID::Apac
        } else {
            AudioFormatID::Unknown
        }
    }

    /// The code of the format; 0 for the unknown one.
    pub fn code(self) -> (code: u32)
        ensures
            code == self.spec_code(),
    {
        match self {
            AudioFormatID::LinearPcm => 0x6C70636D,
            AudioFormatID::Ac3 => 0x61632D33,
            AudioFormatID::Ac360958 => 0x63616333,
            AudioFormatID::AppleIma4 => 0x696D6134,
            AudioFormatID::Mpeg4Aac => 0x61616320,
            AudioFormatID::Mpeg4Celp => 0x63656C70,
            AudioFormatID::Mpeg4Hvxc => 0x68767863,
            AudioFormatID::Mpeg4TwinVq => 0x74777671,
            AudioFormatID::Mace3 => 0x4D414333,
            AudioFormatID::Mace6 => 0x4D414336,
            AudioFormatID::ULaw => 0x756C6177,
            AudioFormatID::ALaw => 0x616C6177,
            AudioFormatID::QDesign => 0x51444D43,
            AudioFormatID::QDesign2 => 0x51444D32,
            AudioFormatID::Qualcomm => 0x51636C70,
            AudioFormatID::MpegLayer1 => 0x2E6D7031,
            AudioFormatID::MpegLayer2 => 0x2E6D7032,
            AudioFormatID::MpegLayer3 => 0x2E6D7033,
            AudioFormatID::TimeCode => 0x74696D65,
            AudioFormatID::MidiStream => 0x6D696469,
            AudioFormatID::ParameterValueStream => 0x61707673,
            AudioFormatID::AppleLossless => 0x616C6163,
            AudioFormatID::Mpeg4AacHe => 0x61616368,
            AudioFormatID::Mpeg4AacLd => 0x6161636C,
            AudioFormatID::Mpeg4AacEld => 0x61616365,
            AudioFormatID::Mpeg4AacEldSbr => 0x61616366,
            AudioFormatID::Mpeg4AacEldV2 => 0x61616367,
            AudioFormatID::Mpeg4AacHeV2 => 0x61616370,
            AudioFormatID::Mpeg4AacSpatial => 0x61616373,
            AudioFormatID::MpegdUsac => 0x75736163,
            AudioFormatID::Amr => 0x73616D72,
            AudioFormatID::AmrWb => 0x73617762,
            AudioFormatID::Audible => 0x41554442,
            AudioFormatID::ILbc => 0x696C6263,
            AudioFormatID::DviIntelIma => 0x6D730011,
            AudioFormatID::MicrosoftGsm => 0x6D730031,
            AudioFormatID::Aes3 => 0x61657333,
            AudioFormatID::EnhancedAc3 => 0x65632D33,
            AudioFormatID::Flac => 0x666C6163,
            AudioFormatID::Opus => 0x6F707573,
            AudioFormatID::Apac => 0x61706163,
            AudioFormatID::Unknown => 0x00000000,
        }
    }

    /// Every format is the one that its code stands for.
    pub proof fn lemma_code_round_trip(self)
        ensures
            AudioFormatID::of_code(self.spec_code()) == self,
    {
    }
}

impl From<u32> for AudioFormatID {
    fn from(value: u32) -> (format: Self)
        ensures
            format == AudioFormatID::of_code(value),
    {
        match value {
            0x6C70636D => AudioFormatID::LinearPcm,
            0x61632D33 => AudioFormatID::Ac3,
            0x63616333 => AudioFormatID::Ac360958,
            0x696D6134 => AudioFormatID::AppleIma4,
            0x61616320 => AudioFormatID::Mpeg4Aac,
            0x63656C70 => AudioFormatID::Mpeg4Celp,
            0x68767863 => AudioFormatID::Mpeg4Hvxc,
            0x74777671 => AudioFormatID::Mpeg4TwinVq,
            0x4D414333 => AudioFormatID::Mace3,
            0x4D414336 => AudioFormatID::Mace6,
            0x756C6177 => AudioFormatID::ULaw,
            0x616C6177 => AudioFormatID::ALaw,
            0x51444D43 => AudioFormatID::QDesign,
            0x51444D32 => AudioFormatID::QDesign2,
            0x51636C70 => AudioFormatID::Qualcomm,
            0x2E6D7031 => AudioFormatID::MpegLayer1,
            0x2E6D7032 => AudioFormatID::MpegLayer2,
            0x2E6D7033 => AudioFormatID::MpegLayer3,
            0x74696D65 => AudioFormatID::TimeCode,
            0x6D696469 => AudioFormatID::MidiStream,
            0x61707673 => AudioFormatID::ParameterValueStream,
            0x616C6163 => AudioFormatID::AppleLossless,
            0x61616368 => AudioFormatID::Mpeg4AacHe,
            0x6161636C => AudioFormatID::Mpeg4AacLd,
            0x61616365 => AudioFormatID::Mpeg4AacEld,
            0x61616366 => AudioFormatID::Mpeg4AacEldSbr,
            0x61616367 => AudioFormatID::Mpeg4AacEldV2,
            0x61616370 => AudioFormatID::Mpeg4AacHeV2,
            0x61616373 => AudioFormatID::Mpeg4AacSpatial,
            0x75736163 => AudioFormatID::MpegdUsac,
            0x73616D72 => AudioFormatID::Amr,
            0x73617762 => AudioFormatID::AmrWb,
            0x41554442 => AudioFormatID::Audible,
            0x696C6263 => AudioFormatID::ILbc,
            0x6D730011 => AudioFormatID::DviIntelIma,
            0x6D730031 => AudioFormatID::MicrosoftGsm,
            0x61657333 => AudioFormatID::Aes3,
            0x65632D33 => AudioFormatID::EnhancedAc3,
            0x666C6163 => AudioFormatID::Flac,
            0x6F707573 => AudioFormatID::Opus,
            0x61706163 => AudioFormatID::Apac,
            _ => AudioFormatID::Unknown,
        }
    }
}

impl vstd::std_specs::convert::FromSpecImpl<u32> for AudioFormatID {
    open spec fn obeys_from_spec() -> bool {
        true
    }

    open spec fn from_spec(value: u32) -> AudioFormatID {
        AudioFormatID::of_code(value)
    }
}

/// The flags of an audio format, one bit each.
#[derive(Clone, Copy, Debug, PartialEq, Eq, Structural)]
pub struct AudioFormatFlags(pub u32);

pub const IS_FLOAT: u32 = 1;

pub const IS_BIG_ENDIAN: u32 = 2;

pub const IS_SIGNED_INTEGER: u32 = 4;

pub const IS_PACKED: u32 = 8;

pub const IS_ALIGNED_HIGH: u32 = 16;

pub const IS_NON_INTERLEAVED: u32 = 32;

pub const IS_NON_MIXABLE: u32 = 64;

pub const ARE_ALL_CLEAR: u32 = 0x80000000;

pub const LINEAR_PCM_SAMPLE_FRACTION_SHIFT: u32 = 7;

pub const LINEAR_PCM_SAMPLE_FRACTION_MASK: u32 = 0x1F80;

pub const APPLE_LOSSLESS_FORMAT_FLAG_16_BIT_SOURCE_DATA: u32 = 1;

pub const APPLE_LOSSLESS_FORMAT_FLAG_20_BIT_SOURCE_DATA: u32 = 2;

pub const APPLE_LOSSLESS_FORMAT_FLAG_24_BIT_SOURCE_DATA: u32 = 3;

pub const APPLE_LOSSLESS_FORMAT_FLAG_32_BIT_SOURCE_DATA: u32 = 4;

/// Whether the bit of a flag is set.
pub open spec fn has_flag(bits: u32, flag: u32) -> bool {
    bits & flag != 0
}

/// The name of a flag where its bit is set, and nothing where it is not.
pub open spec fn named(bits: u32, flag: u32, name: Seq<char>) -> Seq<Seq<char>> {
    if has_flag(bits, flag) {
        seq![name]
    } else {
        seq![]
    }
}

/// The names of the flags whose bits are set, from the lowest bit up.
pub open spec fn flag_names(bits: u32) -> Seq<Seq<char>> {
    named(bits, IS_FLOAT, "FLOAT"@) + named(bits, IS_BIG_ENDIAN, "BIG_ENDIAN"@) + named(
        bits,
        IS_SIGNED_INTEGER,
        "SIGNED_INTEGER"@,
    ) + named(bits, IS_PACKED, "PACKED"@) + named(bits, IS_ALIGNED_HIGH, "ALIGNED_HIGH"@) + named(
        bits,
        IS_NON_INTERLEAVED,
        "NON_INTERLEAVED"@,
    ) + named(bits, IS_NON_MIXABLE, "NON_MIXABLE"@) + named(bits, ARE_ALL_CLEAR, "ALL_CLEAR"@)
}

/// Texts in a row with `between` between each two.
pub open spec fn joined(parts: Seq<Seq<char>>, between: Seq<char>) -> Seq<char>
    decreases parts.len(),
{
    if parts.len() == 0 {
        Seq::empty()
    } else if parts.len() == 1 {
        parts[0]
    } else {
        joined(parts.drop_last(), between) + between + parts.last()
    }
}

/// Strings as sequences of characters.
pub open spec fn texts(parts: Seq<&'static str>) -> Seq<Seq<char>> {
    parts.map_values(|part: &'static str| part@)
}

/// Appends the name of a flag where its bit is set.
fn push_if_set(names: &mut Vec<&'static str>, bits: u32, flag: u32, name: &'static str)
    ensures
        texts(final(names)@) == texts(old(names)@) + named(bits, flag, name@),
{
    if bits & flag != 0 {
        names.push(name);
    }
    assert(texts(names@) =~= texts(old(names)@) + named(bits, flag, name@));
}

/// Texts in a row with `between` between each two.
pub fn join(parts: &Vec<&'static str>, between: &str) -> (text: String)
    ensures
        text@ == joined(texts(parts@), between@),
{
    let mut chars: Vec<char> = Vec::new();
    let mut i: usize = 0;
    assert(texts(parts@).take(0) =~= Seq::<Seq<char>>::empty());
    while i < parts.len()
        invariant
            i <= parts.len(),
            chars@ == joined(texts(parts@).take(i as int), between@),
        decreases parts.len() - i,
    {
        proof {
            let longer = texts(parts@).take(i + 1);
            assert(longer.drop_last() =~= texts(parts@).take(i as int));
            assert(longer.last() == parts[i as int]@);
        }
        if i > 0 {
            push_str(&mut chars, between);
        }
        push_str(&mut chars, parts[i]);
        proof {
            if i == 0 {
                assert(chars@ =~= parts[0]@);
            }
        }
        i += 1;
    }
    assert(texts(parts@).take(i as int) =~= texts(parts@));
    string_of(&chars)
}

impl AudioFormatFlags {
    /// The flags in words: the names of those that are set with ` | `
    /// between each two, or `NONE`.
    pub open spec fn text(self) -> Seq<char> {
        if flag_names(self.0).len() == 0 {
            "NONE"@
        } else {
            joined(flag_names(self.0), " | "@)
        }
    }

    /// The names of the flags that are set, from the lowest bit up.
    pub fn names(&self) -> (names: Vec<&'static str>)
        ensures
            texts(names@) == flag_names(self.0),
    {
        let mut names: Vec<&'static str> = Vec::new();
        let bits = self.0;
        assert(texts(names@) =~= Seq::<Seq<char>>::empty());
        push_if_set(&mut names, bits, IS_FLOAT, "FLOAT");
        push_if_set(&mut names, bits, IS_BIG_ENDIAN, "BIG_ENDIAN");
        push_if_set(&mut names, bits, IS_SIGNED_INTEGER, "SIGNED_INTEGER");
        push_if_set(&mut names, bits, IS_PACKED, "PACKED");
        push_if_set(&mut names, bits, IS_ALIGNED_HIGH, "ALIGNED_HIGH");
        push_if_set(&mut names, bits, IS_NON_INTERLEAVED, "NON_INTERLEAVED");
        push_if_set(&mut names, bits, IS_NON_MIXABLE, "NON_MIXABLE");
        push_if_set(&mut names, bits, ARE_ALL_CLEAR, "ALL_CLEAR");
        assert(texts(names@) =~= flag_names(bits));
        names
    }

    /// The flags in words.
    pub fn describe(&self) -> (text: String)
        ensures
            text@ == self.text(),
    {
        let names = self.names();
        if names.len() == 0 {
            String::from_str("NONE")
        } else {
            join(&names, " | ")
        }
    }
}

impl From<u32> for AudioFormatFlags {
    fn from(value: u32) -> (flags: Self)
        ensures
            flags == AudioFormatFlags(value),
    {
        AudioFormatFlags(value)
    }
}

impl vstd::std_specs::convert::FromSpecImpl<u32> for AudioFormatFlags {
    open spec fn obeys_from_spec() -> bool {
        true
    }

    open spec fn from_spec(value: u32) -> AudioFormatFlags {
        AudioFormatFlags(value)
    }
}

/// A whole number in decimal digits, with a minus sign before them where it
/// is negative.
pub open spec fn signed_decimal(value: int) -> Seq<char> {
    if value < 0 {
        seq!['-'] + decimal((-value) as nat)
    } else {
        decimal(value as nat)
    }
}

/// Appends a whole number in decimal digits.
pub fn push_signed(chars: &mut Vec<char>, value: i32)
    ensures
        final(chars)@ == old(chars)@ + signed_decimal(value as int),
{
    if value < 0 {
        chars.push('-');
        push_decimal(chars, (-(value as i64)) as u64);
        assert(chars@ =~= old(chars)@ + signed_decimal(value as int));
    } else {
        push_decimal(chars, value as u64);
    }
}

/// A text and the status that the system gave.
pub fn with_status(what: &str, status: i32) -> (text: String)
    ensures
        text@ == what@ + signed_decimal(status as int),
{
    let mut chars: Vec<char> = Vec::new();
    push_str(&mut chars, what);
    push_signed(&mut chars, status);
    assert(chars@ =~= what@ + signed_decimal(status as int));
    string_of(&chars)
}

/// Why capturing audio failed.
#[derive(Clone, Copy, Debug, PartialEq, Eq, Structural)]
pub enum CoreAudioError {
    PidNotFound(i32),
    CreateProcessTapFailed(i32),
    GetDefaultDeviceFailed(i32),
    GetDeviceUidFailed(i32),
    CreateAggregateDeviceFailed(i32),
    GetProcessObjectListSizeFailed(i32),
    GetProcessObjectListFailed(i32),
    AudioObjectGetPropertyDataSizeFailed(i32),
    CATapDescriptionClassNotFound,
    AllocCATapDescriptionFailed,
    InitStereoMixdownOfProcessesFailed,
    GetCATapDescriptionUUIDFailed,
    GetMuteBehaviorFailed,
    ConvertUUIDToCFStringFailed,
    GetAudioStreamBasicDescriptionFailed(i32),
    AVAudioFormatClassNotFound,
    AllocAVAudioFormatFailed,
    InitAVAudioFormatFailed,
    CreateIOProcIDWithBlockFailed(i32),
    GetHardwareDevicesFailed(i32),
    AudioDeviceStartFailed(i32),
    AudioDeviceStopFailed(i32),
    AudioDeviceDestroyIOProcIDFailed(i32),
    AudioHardwareDestroyAggregateDeviceFailed(i32),
    AudioHardwareDestroyProcessTapFailed(i32),
    GetAggregateDevicePropertyFullSubDeviceListFailed(i32),
    AddPropertyListenerBlockFailed(i32),
    AudioObjectGetPropertyDataFailed(i32),
    AVAudioFileClassNotFound,
    AllocAVAudioFileFailed,
    InitAVAudioFileFailed,
    AVAudioPCMBufferClassNotFound,
    AllocAVAudioPCMBufferFailed,
    InitAVAudioPCMBufferFailed,
    WriteAVAudioFileFailed,
}

impl CoreAudioError {
    /// The failure in words, as the contracts see it.
    pub open spec fn text(self) -> Seq<char> {
        match self {
            CoreAudioError::PidNotFound(status) => "Map pid "@ + signed_decimal(status as int) + " to AudioObjectID failed"@,
            CoreAudioError::CreateProcessTapFailed(status) => "Create process tap failed, status: "@ + signed_decimal(status as int),
            CoreAudioError::GetDefaultDeviceFailed(status) => "Get default device failed, status: "@ + signed_decimal(status as int),
            CoreAudioError::GetDeviceUidFailed(status) => "Get device uid failed, status: "@ + signed_decimal(status as int),
            CoreAudioError::CreateAggregateDeviceFailed(status) => "Create aggregate device failed, status: "@ + signed_decimal(status as int),
            CoreAudioError::GetProcessObjectListSizeFailed(status) => "Get process object list size failed, status: "@ + signed_decimal(status as int),
            CoreAudioError::GetProcessObjectListFailed(status) => "Get process object list failed, status: "@ + signed_decimal(status as int),
            CoreAudioError::AudioObjectGetPropertyDataSizeFailed(status) => "AudioObjectGetPropertyDataSize failed, status: "@ + signed_decimal(status as int),
            CoreAudioError::CATapDescriptionClassNotFound => "CATapDescription class not found"@,
            CoreAudioError::AllocCATapDescriptionFailed => "Alloc CATapDescription failed"@,
            CoreAudioError::InitStereoMixdownOfProcessesFailed => "Call initStereoMixdownOfProcesses on CATapDescription failed"@,
            CoreAudioError::GetCATapDescriptionUUIDFailed => "Get UUID on CATapDescription failed"@,
            CoreAudioError::GetMuteBehaviorFailed => "Get mute behavior on CATapDescription failed"@,
            CoreAudioError::ConvertUUIDToCFStringFailed => "Convert UUID to CFString failed"@,
            CoreAudioError::GetAudioStreamBasicDescriptionFailed(status) => "Get AudioStreamBasicDescription failed, status: "@ + signed_decimal(status as int),
            CoreAudioError::AVAudioFormatClassNotFound => "AVAudioFormat class not found"@,
            CoreAudioError::AllocAVAudioFormatFailed => "Alloc AVAudioFormat failed"@,
            CoreAudioError::InitAVAudioFormatFailed => "Init AVAudioFormat failed"@,
            CoreAudioError::CreateIOProcIDWithBlockFailed(status) => "Create IOProcIDWithBlock failed, status: "@ + signed_decimal(status as int),
            CoreAudioError::GetHardwareDevicesFailed(status) => "Get hardware devices failed, status: "@ + signed_decimal(status as int),
            CoreAudioError::AudioDeviceStartFailed(status) => "AudioDeviceStart failed, status: "@ + signed_decimal(status as int),
            CoreAudioError::AudioDeviceStopFailed(status) => "AudioDeviceStop failed, status: "@ + signed_decimal(status as int),
            CoreAudioError::AudioDeviceDestroyIOProcIDFailed(status) => "AudioDeviceDestroyIOProcID failed, status: "@ + signed_decimal(status as int),
            CoreAudioError::AudioHardwareDestroyAggregateDeviceFailed(status) => "AudioHardwareDestroyAggregateDevice failed, status: "@ + signed_decimal(status as int),
            CoreAudioError::AudioHardwareDestroyProcessTapFailed(status) => "AudioHardwareDestroyProcessTap failed, status: "@ + signed_decimal(status as int),
            CoreAudioError::GetAggregateDevicePropertyFullSubDeviceListFailed(status) => "Get aggregate device property full sub device list failed, status: "@ + signed_decimal(status as int),
            CoreAudioError::AddPropertyListenerBlockFailed(status) => "Add property listener block failed, status: "@ + signed_decimal(status as int),
            CoreAudioError::AudioObjectGetPropertyDataFailed(status) => "AudioObjectGetPropertyData failed, status: "@ + signed_decimal(status as int),
            CoreAudioError::AVAudioFileClassNotFound => "AVAudioFile class not found"@,
            CoreAudioError::AllocAVAudioFileFailed => "Alloc AVAudioFile failed"@,
            CoreAudioError::InitAVAudioFileFailed => "Init AVAudioFile failed"@,
            CoreAudioError::AVAudioPCMBufferClassNotFound => "AVAudioPCMBuffer class not found"@,
            CoreAudioError::AllocAVAudioPCMBufferFailed => "Alloc AVAudioPCMBuffer failed"@,
            CoreAudioError::InitAVAudioPCMBufferFailed => "Init AVAudioPCMBuffer failed"@,
            CoreAudioError::WriteAVAudioFileFailed => "Write AVAudioFile failed"@,
        }
    }

    /// The failure in words.
    pub fn message(&self) -> (message: String)
        ensures
            message@ == self.text(),
    {
        match *self {
            CoreAudioError::PidNotFound(status) => with_status("Map pid ", status).concat(" to AudioObjectID failed"),
            CoreAudioError::CreateProcessTapFailed(status) => with_status("Create process tap failed, status: ", status),
            CoreAudioError::GetDefaultDeviceFailed(status) => with_status("Get default device failed, status: ", status),
            CoreAudioError::GetDeviceUidFailed(status) => with_status("Get device uid failed, status: ", status),
            CoreAudioError::CreateAggregateDeviceFailed(status) => with_status("Create aggregate device failed, status: ", status),
            CoreAudioError::GetProcessObjectListSizeFailed(status) => with_status("Get process object list size failed, status: ", status),
            CoreAudioError::GetProcessObjectListFailed(status) => with_status("Get process object list failed, status: ", status),
            CoreAudioError::AudioObjectGetPropertyDataSizeFailed(status) => with_status("AudioObjectGetPropertyDataSize failed, status: ", status),
            CoreAudioError::CATapDescriptionClassNotFound => String::from_str("CATapDescription class not found"),
            CoreAudioError::AllocCATapDescriptionFailed => String::from_str("Alloc CATapDescription failed"),
            CoreAudioError::InitStereoMixdownOfProcessesFailed => String::from_str("Call initStereoMixdownOfProcesses on CATapDescription failed"),
            CoreAudioError::GetCATapDescriptionUUIDFailed => String::from_str("Get UUID on CATapDescription failed"),
            CoreAudioError::GetMuteBehaviorFailed => String::from_str("Get mute behavior on CATapDescription failed"),
            CoreAudioError::ConvertUUIDToCFStringFailed => String::from_str("Convert UUID to CFString failed"),
            CoreAudioError::GetAudioStreamBasicDescriptionFailed(status) => with_status("Get AudioStreamBasicDescription failed, status: ", status),
            CoreAudioError::AVAudioFormatClassNotFound => String::from_str("AVAudioFormat class not found"),
            CoreAudioError::AllocAVAudioFormatFailed => String::from_str("Alloc AVAudioFormat failed"),
            CoreAudioError::InitAVAudioFormatFailed => String::from_str("Init AVAudioFormat failed"),
            CoreAudioError::CreateIOProcIDWithBlockFailed(status) => with_status("Create IOProcIDWithBlock failed, status: ", status),
            CoreAudioError::GetHardwareDevicesFailed(status) => with_status("Get hardware devices failed, status: ", status),
            CoreAudioError::AudioDeviceStartFailed(status) => with_status("AudioDeviceStart failed, status: ", status),
            CoreAudioError::AudioDeviceStopFailed(status) => with_status("AudioDeviceStop failed, status: ", status),
            CoreAudioError::AudioDeviceDestroyIOProcIDFailed(status) => with_status("AudioDeviceDestroyIOProcID failed, status: ", status),
            CoreAudioError::AudioHardwareDestroyAggregateDeviceFailed(status) => with_status("AudioHardwareDestroyAggregateDevice failed, status: ", status),
            CoreAudioError::AudioHardwareDestroyProcessTapFailed(status) => with_status("AudioHardwareDestroyProcessTap failed, status: ", status),
            CoreAudioError::GetAggregateDevicePropertyFullSubDeviceListFailed(status) => with_status("Get aggregate device property full sub device list failed, status: ", status),
            CoreAudioError::AddPropertyListenerBlockFailed(status) => with_status("Add property listener block failed, status: ", status),
            CoreAudioError::AudioObjectGetPropertyDataFailed(status) => with_status("AudioObjectGetPropertyData failed, status: ", status),
            CoreAudioError::AVAudioFileClassNotFound => String::from_str("AVAudioFile class not found"),
            CoreAudioError::AllocAVAudioFileFailed => String::from_str("Alloc AVAudioFile failed"),
            CoreAudioError::InitAVAudioFileFailed => String::from_str("Init AVAudioFile failed"),
            CoreAudioError::AVAudioPCMBufferClassNotFound => String::from_str("AVAudioPCMBuffer class not found"),
            CoreAudioError::AllocAVAudioPCMBufferFailed => String::from_str("Alloc AVAudioPCMBuffer failed"),
            CoreAudioError::InitAVAudioPCMBufferFailed => String::from_str("Init AVAudioPCMBuffer failed"),
            CoreAudioError::WriteAVAudioFileFailed => String::from_str("Write AVAudioFile failed"),
        }
    }
}

/// A running application that may be recorded.
#[derive(Debug)]
pub struct Application {
    pub process_id: i32,
    pub name: String,
}

impl Application {
    /// An application that is known by its process alone, or, where the
    /// process is a real one and the system knows a name for it, by that name
    /// too.
    pub fn named(process_id: i32, known_name: Option<String>) -> (app: Application)
        ensures
            app.process_id == process_id,
            app.name@ == (match known_name {
                Some(name) => if process_id > 0 {
                    name@
                } else {
                    Seq::empty()
                },
                None => Seq::empty(),
            }),
    {
        let name = match known_name {
            Some(name) => if process_id > 0 {
                name
            } else {
                String::new()
            },
            None => String::new(),
        };
        Application { process_id, name }
    }

    /// The process of the application.
    pub fn process_id(&self) -> (id: i32)
        ensures
            id == self.process_id,
    {
        self.process_id
    }

    /// The group of the application's process, given what the system said
    /// when asked for it: that group, or the process itself where the system
    /// said -1, and -1 for what is no real process.
    pub fn process_group_id(&self, reported: i32) -> (id: i32)
        ensures
            id == (if self.process_id > 0 {
                if reported != -1 {
                    reported
                } else {
                    self.process_id
                }
            } else {
                -1i32
            }),
    {
        if self.process_id > 0 {
            if reported != -1 {
                return reported;
            }
            return self.process_id;
        }
        -1
    }
}

/// What the user has allowed to be recorded.
#[derive(Clone, Copy, Debug, PartialEq, Eq, Structural)]
pub struct RecordingPermissions {
    pub audio: bool,
    pub screen: bool,
}

impl Default for RecordingPermissions {
    fn default() -> (permissions: Self)
        ensures
            permissions == (RecordingPermissions { audio: false, screen: false }),
    {
        RecordingPermissions { audio: false, screen: false }
    }
}

} // verus!
