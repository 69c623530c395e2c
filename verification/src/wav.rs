//! WAV export settings, the header checks for reading a WAV back, and the
//! size of a PCM data chunk.
use vstd::prelude::*;

use crate::error::{is_invalid_param, Error, Result};
use crate::text::{decimal, decimal_string, string_from};

verus! {

/// Lowest and highest sample rate the engine renders at, in Hz.
pub const MIN_SAMPLE_RATE: u32 = 8_000;

pub const MAX_SAMPLE_RATE: u32 = 192_000;

pub open spec fn sample_rate_ok(sample_rate: int) -> bool {
    MIN_SAMPLE_RATE <= sample_rate <= MAX_SAMPLE_RATE
}

pub open spec fn sample_rate_message(sample_rate: int) -> Seq<char> {
    "sample_rate must be 8000-192000, got "@ + decimal(sample_rate)
}

/// `Ok` exactly for a sample rate in 8000..=192000; otherwise the
/// `InvalidParam` error that names the rate.
pub fn check_sample_rate(sample_rate: u32) -> (r: Result<()>)
    ensures
        match r {
            Ok(_) => sample_rate_ok(sample_rate as int),
            Err(e) => !sample_rate_ok(sample_rate as int) && is_invalid_param(
                e,
                sample_rate_message(sample_rate as int),
            ),
        },
{
    if MIN_SAMPLE_RATE <= sample_rate && sample_rate <= MAX_SAMPLE_RATE {
        Ok(())
    } else {
        let mut message = string_from("sample_rate must be 8000-192000, got ");
        let n = decimal_string(sample_rate as i64);
        message.append(n.as_str());
        Err(Error::InvalidParam { message })
    }
}

/// Mono integer PCM settings of an exported WAV.
#[derive(Clone, Copy, Debug, PartialEq, Eq, Structural)]
pub struct WavSettings {
    pub sample_rate: u32,
    pub bit_depth: u16,
}

pub open spec fn bit_depth_ok(bit_depth: int) -> bool {
    bit_depth == 16 || bit_depth == 24
}

pub open spec fn bit_depth_message(bit_depth: int) -> Seq<char> {
    "bit_depth must be 16 or 24, got "@ + decimal(bit_depth)
}

impl WavSettings {
    /// Settings for 16- or 24-bit output at 8000..=192000 Hz. The bit depth is
    /// checked first.
    pub fn new(sample_rate: u32, bit_depth: u16) -> (r: Result<Self>)
        ensures
            match r {
                Ok(s) => bit_depth_ok(bit_depth as int) && sample_rate_ok(sample_rate as int)
                    && s.sample_rate == sample_rate && s.bit_depth == bit_depth,
                Err(e) => if !bit_depth_ok(bit_depth as int) {
                    is_invalid_param(e, bit_depth_message(bit_depth as int))
                } else {
                    !sample_rate_ok(sample_rate as int) && is_invalid_param(
                        e,
                        sample_rate_message(sample_rate as int),
                    )
                },
            },
    {
        if bit_depth != 16 && bit_depth != 24 {
            let mut message = string_from("bit_depth must be 16 or 24, got ");
            let n = decimal_string(bit_depth as i64);
            message.append(n.as_str());
            return Err(Error::InvalidParam { message });
        }
        match check_sample_rate(sample_rate) {
            Ok(_) => Ok(WavSettings { sample_rate, bit_depth }),
            Err(e) => Err(e),
        }
    }
}

/// Sample format field of a WAV header.
#[derive(Clone, Copy, Debug, PartialEq, Eq, Structural)]
pub enum PcmFormat {
    Int,
    Float,
}

/// The sample encodings a WAV can be read back from.
#[derive(Clone, Copy, Debug, PartialEq, Eq, Structural)]
pub enum PcmEncoding {
    Int16,
    Int24,
    Int32,
    Float32,
}

pub open spec fn format_name(format: PcmFormat) -> Seq<char> {
    match format {
        PcmFormat::Int => "Int"@,
        PcmFormat::Float => "Float"@,
    }
}

/// The encoding a header names, if it is one the reader accepts.
pub open spec fn encoding_of(format: PcmFormat, bits: int) -> Option<PcmEncoding> {
    match format {
        PcmFormat::Int => if bits == 16 {
            Some(PcmEncoding::Int16)
        } else if bits == 24 {
            Some(PcmEncoding::Int24)
        } else if bits == 32 {
            Some(PcmEncoding::Int32)
        } else {
            None
        },
        PcmFormat::Float => if bits == 32 {
            Some(PcmEncoding::Float32)
        } else {
            None
        },
    }
}

/// Checks a WAV header before its samples are read: the sample rate first,
/// then the channel count, then the sample encoding.
pub fn check_wav_header(sample_rate: u32, channels: u16, format: PcmFormat, bits: u16) -> (r:
    Result<PcmEncoding>)
    ensures
        match r {
            Ok(enc) => sample_rate_ok(sample_rate as int) && channels > 0 && encoding_of(
                format,
                bits as int,
            ) == Some(enc),
            Err(e) => if !sample_rate_ok(sample_rate as int) {
                is_invalid_param(e, sample_rate_message(sample_rate as int))
            } else if channels == 0 {
                is_invalid_param(e, "wav has zero channels"@)
            } else {
                encoding_of(format, bits as int) is None && is_invalid_param(
                    e,
                    "unsupported wav format "@ + format_name(format) + " "@ + decimal(bits as int)
                        + "-bit"@,
                )
            },
        },
{
    match check_sample_rate(sample_rate) {
        Ok(_) => {},
        Err(e) => return Err(e),
    }
    if channels == 0 {
        return Err(Error::InvalidParam { message: string_from("wav has zero channels") });
    }
    match format {
        PcmFormat::Int => {
            if bits == 16 {
                return Ok(PcmEncoding::Int16);
            } else if bits == 24 {
                return Ok(PcmEncoding::Int24);
            } else if bits == 32 {
                return Ok(PcmEncoding::Int32);
            }
        },
        PcmFormat::Float => {
            if bits == 32 {
                return Ok(PcmEncoding::Float32);
            }
        },
    }
    let mut message = string_from("unsupported wav format ");
    match format {
        PcmFormat::Int => message.append("Int"),
        PcmFormat::Float => message.append("Float"),
    }
    message.append(" ");
    let n = decimal_string(bits as i64);
    message.append(n.as_str());
    message.append("-bit");
    Err(Error::InvalidParam { message })
}

/// Size in bytes of the data chunk (headers not included) for `n_samples`
/// frames of `channels` channels at `bit_depth` bits.
pub fn pcm_data_bytes(n_samples: usize, bit_depth: u16, channels: u16) -> (r: usize)
    requires
        n_samples * channels <= usize::MAX,
        n_samples * channels * (bit_depth / 8) <= usize::MAX,
    ensures
        r == n_samples * channels * (bit_depth / 8),
{
    let frames = n_samples * (channels as usize);
    frames * ((bit_depth as usize) / 8)
}

/// Every WAV the exporter's settings allow is one the reader accepts: mono
/// integer PCM at an accepted rate and depth passes the header check.
pub proof fn lemma_written_is_readable(sample_rate: int, bit_depth: int)
    requires
        sample_rate_ok(sample_rate),
        bit_depth_ok(bit_depth),
    ensures
        encoding_of(PcmFormat::Int, bit_depth) == Some(
            if bit_depth == 16 {
                PcmEncoding::Int16
            } else {
                PcmEncoding::Int24
            },
        ),
{
}

} // verus!
