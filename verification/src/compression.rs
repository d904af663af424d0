//! The compression option: from the user's text to a Parquet codec.

use vstd::prelude::*;
use vstd::string::*;
use parquet::basic::{BrotliLevel, Compression, GzipLevel, ZstdLevel};
use crate::text::{lowercase, spec_lowercase, text_equals};
use crate::conversion::ExceptionKind;

verus! {

#[verifier::external_type_specification]
#[verifier::external_body]
pub struct ExCompression(Compression);

/// The codecs that the compression option can select.
#[derive(Clone, Copy, Debug, PartialEq, Eq, Structural)]
pub enum Codec {
    Uncompressed,
    Snappy,
    Gzip,
    Lz4,
    Zstd,
    Brotli,
}

/// The Parquet compression setting for a codec, at the codec's default level.
pub uninterp spec fn parquet_compression(codec: Codec) -> Compression;

/// Builds the Parquet compression setting for a codec.
///
/// Trusted: `Compression::GZIP`, `Compression::ZSTD` and `Compression::BROTLI`
/// are built with `GzipLevel::default()`, `ZstdLevel::default()` and
/// `BrotliLevel::default()`; the result is only named here.
#[verifier::external_body]
fn to_parquet_compression(codec: Codec) -> (c: Compression)
    ensures
        c == parquet_compression(codec),
{
    match codec {
        Codec::Uncompressed => Compression::UNCOMPRESSED,
        Codec::Snappy => Compression::SNAPPY,
        Codec::Gzip => Compression::GZIP(GzipLevel::default()),
        Codec::Lz4 => Compression::LZ4,
        Codec::Zstd => Compression::ZSTD(ZstdLevel::default()),
        Codec::Brotli => Compression::BROTLI(BrotliLevel::default()),
    }
}

/// The codec that an already lower-cased option name selects, if any.
pub open spec fn spec_codec_for(name: Seq<char>) -> Option<Codec> {
    if name == "none"@ || name == "uncompressed"@ {
        Some(Codec::Uncompressed)
    } else if name == "snappy"@ {
        Some(Codec::Snappy)
    } else if name == "gzip"@ {
        Some(Codec::Gzip)
    } else if name == "lz4"@ {
        Some(Codec::Lz4)
    } else if name == "zstd"@ {
        Some(Codec::Zstd)
    } else if name == "brotli"@ {
        Some(Codec::Brotli)
    } else {
        None
    }
}

/// An option name that selects no codec.
#[derive(Debug)]
pub struct CompressionError {
    /// The option as it was matched, that is lower-cased.
    pub option: String,
}

/// The message of a rejected compression option.
pub open spec fn compression_error_message(option: Seq<char>) -> Seq<char> {
    "Invalid compression option: '"@ + option
        + "'. Valid options are: none, snappy, gzip, lz4, zstd, brotli"@
}

impl CompressionError {
    /// The exception this refusal is raised as.
    pub fn exception(&self) -> (k: ExceptionKind)
        ensures
            k == ExceptionKind::ArgumentError,
    {
        ExceptionKind::ArgumentError
    }

    /// The text shown to the user for this error.
    pub fn message(&self) -> (m: String)
        ensures
            m@ == compression_error_message(self.option@),
    {
        let mut m = String::from_str("Invalid compression option: '");
        m.append(self.option.as_str());
        m.append("'. Valid options are: none, snappy, gzip, lz4, zstd, brotli");
        m
    }
}

/// Selects the codec named by a lower-cased option name.
pub fn codec_for_name(name: &str) -> (r: Result<Codec, CompressionError>)
    ensures
        match spec_codec_for(name@) {
            Some(c) => r == Ok::<Codec, CompressionError>(c),
            None => r matches Err(e) && e.option@ == name@,
        },
{
    if text_equals(name, "none") || text_equals(name, "uncompressed") {
        Ok(Codec::Uncompressed)
    } else if text_equals(name, "snappy") {
        Ok(Codec::Snappy)
    } else if text_equals(name, "gzip") {
        Ok(Codec::Gzip)
    } else if text_equals(name, "lz4") {
        Ok(Codec::Lz4)
    } else if text_equals(name, "zstd") {
        Ok(Codec::Zstd)
    } else if text_equals(name, "brotli") {
        Ok(Codec::Brotli)
    } else {
        Err(CompressionError { option: String::from_str(name) })
    }
}

/// The codec that the compression option selects: Snappy when it is
/// absent, otherwise the codec named by its lower-cased form.
pub open spec fn spec_option_codec(compression: Option<String>) -> Option<Codec> {
    match compression {
        None => Some(Codec::Snappy),
        Some(s) => spec_codec_for(spec_lowercase(s@)),
    }
}

/// Selects the codec of the compression option, matched without regard to
/// case; an absent option selects Snappy.
pub fn parse_codec(compression: Option<String>) -> (r: Result<Codec, CompressionError>)
    ensures
        match spec_option_codec(compression) {
            Some(c) => r == Ok::<Codec, CompressionError>(c),
            None => r matches Err(e) && compression matches Some(s) && e.option@ == spec_lowercase(
                s@,
            ),
        },
{
    match compression {
        None => Ok(Codec::Snappy),
        Some(s) => {
            let lowered = lowercase(s.as_str());
            codec_for_name(lowered.as_str())
        },
    }
}

/// Options that lower-case alike select the same codec: the option is
/// matched without regard to case.
pub proof fn law_compression_ignores_case(a: String, b: String)
    requires
        spec_lowercase(a@) == spec_lowercase(b@),
    ensures
        spec_option_codec(Some(a)) == spec_option_codec(Some(b)),
{
}

/// Exactly seven lower-cased names select a codec: `none` and
/// `uncompressed` select no compression, `snappy`, `gzip`, `lz4`, `zstd` and
/// `brotli` their codecs, and every other name is refused.
pub proof fn law_codec_names(name: Seq<char>)
    ensures
        spec_codec_for(name) is Some ==> name == "none"@ || name == "uncompressed"@ || name
            == "snappy"@ || name == "gzip"@ || name == "lz4"@ || name == "zstd"@ || name
            == "brotli"@,
        spec_codec_for("none"@) == Some(Codec::Uncompressed),
        spec_codec_for("uncompressed"@) == Some(Codec::Uncompressed),
        spec_codec_for("lz4"@) == Some(Codec::Lz4),
        spec_codec_for("brotli"@) == Some(Codec::Brotli),
{
    reveal_strlit("none");
    reveal_strlit("uncompressed");
    reveal_strlit("snappy");
    reveal_strlit("gzip");
    reveal_strlit("lz4");
    reveal_strlit("zstd");
    reveal_strlit("brotli");
    assert("lz4"@ != "none"@ && "lz4"@ != "uncompressed"@ && "lz4"@ != "snappy"@ && "lz4"@ != "gzip"@) by {
        assert("lz4"@[0] != "none"@[0]);
        assert("lz4"@[0] != "uncompressed"@[0]);
        assert("lz4"@[0] != "snappy"@[0]);
        assert("lz4"@[0] != "gzip"@[0]);
    }
    assert("brotli"@ != "none"@ && "brotli"@ != "uncompressed"@ && "brotli"@ != "snappy"@
        && "brotli"@ != "gzip"@ && "brotli"@ != "lz4"@ && "brotli"@ != "zstd"@) by {
        assert("brotli"@[0] != "none"@[0]);
        assert("brotli"@[0] != "uncompressed"@[0]);
        assert("brotli"@[0] != "snappy"@[0]);
        assert("brotli"@[0] != "gzip"@[0]);
        assert("brotli"@[0] != "lz4"@[0]);
        assert("brotli"@[0] != "zstd"@[0]);
    }
}

/// An option is accepted only when its lower-cased form is one of the seven
/// codec names, and an absent option selects Snappy.
pub proof fn law_accepted_options(compression: Option<String>)
    ensures
        spec_option_codec(None) == Some(Codec::Snappy),
        compression is Some && spec_option_codec(compression) is Some ==> ({
            let n = spec_lowercase(compression->Some_0@);
            n == "none"@ || n == "uncompressed"@ || n == "snappy"@ || n == "gzip"@ || n == "lz4"@
                || n == "zstd"@ || n == "brotli"@
        }),
{
    if let Some(s) = compression {
        law_codec_names(spec_lowercase(s@));
    }
}

/// Parses the compression option into a Parquet compression setting.
///
/// The option is matched without regard to case against `none` and
/// `uncompressed`, `snappy`, `gzip`, `lz4`, `zstd` and `brotli`; an absent
/// option selects Snappy. Gzip, Zstd and Brotli use their default levels.
pub fn parse_compression(compression: Option<String>) -> (r: Result<Compression, CompressionError>)
    ensures
        match spec_option_codec(compression) {
            Some(c) => r == Ok::<Compression, CompressionError>(parquet_compression(c)),
            None => r matches Err(e) && compression matches Some(s) && e.option@ == spec_lowercase(
                s@,
            ),
        },
{
    match parse_codec(compression) {
        Ok(codec) => Ok(to_parquet_compression(codec)),
        Err(e) => Err(e),
    }
}

} // verus!
