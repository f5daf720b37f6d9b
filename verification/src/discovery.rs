//! Where a contract that was discovered at run time comes from.

use vstd::prelude::*;
use vstd::utf8::encode_utf8;
use crate::codec::{hex_chars, hex_text, sha1, sha1_digest};
use crate::text::{decimal_text, string_of_range, u64_to_text};

verus! {

/// A discovery payload: a file that holds it, or the JSON text itself.
#[derive(Debug, Clone, PartialEq, Eq)]
pub enum DiscoverySource {
    File(String),
    InlineJson(String),
}

/// The model of a [`DiscoverySource`].
pub ghost enum DiscoverySourceModel {
    File(Seq<char>),
    InlineJson(Seq<char>),
}

impl View for DiscoverySource {
    type V = DiscoverySourceModel;

    open spec fn view(&self) -> DiscoverySourceModel {
        match self {
            DiscoverySource::File(path) => DiscoverySourceModel::File(path@),
            DiscoverySource::InlineJson(json) => DiscoverySourceModel::InlineJson(json@),
        }
    }
}

/// The label of a source: a file by its path, inline JSON by the first
/// twelve hexadecimal digits of its SHA-1 digest and its length in bytes.
pub open spec fn discovery_label(source: DiscoverySourceModel) -> Seq<char> {
    match source {
        DiscoverySourceModel::File(path) => "discovery-file:"@ + path,
        DiscoverySourceModel::InlineJson(text) => "discovery-inline:sha1:"@ + hex_text(
            sha1_digest(encode_utf8(text)),
        ).take(12) + ":len:"@ + decimal_text(encode_utf8(text).len()),
    }
}

impl DiscoverySource {
    /// Every discovery source is of the kind `discovered`.
    pub fn source_kind(&self) -> (out: &'static str)
        ensures
            out@ == "discovered"@,
    {
        "discovered"
    }

    /// A short text that tells one source from another without holding the payload.
    pub fn source_label(&self) -> (out: String)
        ensures
            out@ == discovery_label(self@),
    {
        match self {
            DiscoverySource::File(path) => {
                let mut out = "discovery-file:".to_owned();
                out.append(path.as_str());
                out
            },
            DiscoverySource::InlineJson(json) => {
                let bytes = json.as_str().as_bytes();
                let digest = sha1(bytes);
                let hex = hex_chars(&digest);
                let short = string_of_range(&hex, 0, 12);
                let length = u64_to_text(bytes.len() as u64);
                let mut out = "discovery-inline:sha1:".to_owned();
                out.append(short.as_str());
                out.append(":len:");
                out.append(length.as_str());
                out
            },
        }
    }
}

/// No source, or more than one, was named on the command line.
#[derive(Debug, Clone, PartialEq, Eq)]
pub struct InvalidInput {
    pub message: String,
}

/// What choosing a source came to, as a model.
pub open spec fn chosen_source(out: Result<DiscoverySource, InvalidInput>) -> Result<
    DiscoverySourceModel,
    Seq<char>,
> {
    match out {
        Ok(source) => Ok(source@),
        Err(e) => Err(e.message@),
    }
}

/// The source that the two flags name: exactly one of them has to be given.
pub open spec fn source_from_flags(
    file: Option<&str>,
    inline_json: Option<&str>,
    file_flag: Seq<char>,
    inline_flag: Seq<char>,
) -> Result<DiscoverySourceModel, Seq<char>> {
    match (file, inline_json) {
        (Some(path), None) => Ok(DiscoverySourceModel::File(path@)),
        (None, Some(raw)) => Ok(DiscoverySourceModel::InlineJson(raw@)),
        (Some(_), Some(_)) => Err(file_flag + " and "@ + inline_flag + " are mutually exclusive"@),
        (None, None) => Err("one of "@ + file_flag + " or "@ + inline_flag + " is required"@),
    }
}

/// Chooses the discovery source that the command line names.
pub fn discovery_source_from_cli(
    file: Option<&str>,
    inline_json: Option<&str>,
    file_flag: &str,
    inline_flag: &str,
) -> (out: Result<DiscoverySource, InvalidInput>)
    ensures
        chosen_source(out) == source_from_flags(file, inline_json, file_flag@, inline_flag@),
{
    match (file, inline_json) {
        (Some(path), None) => Ok(DiscoverySource::File(path.to_owned())),
        (None, Some(raw)) => Ok(DiscoverySource::InlineJson(raw.to_owned())),
        (Some(_), Some(_)) => {
            let mut message = file_flag.to_owned();
            message.append(" and ");
            message.append(inline_flag);
            message.append(" are mutually exclusive");
            Err(InvalidInput { message })
        },
        (None, None) => {
            let mut message = "one of ".to_owned();
            message.append(file_flag);
            message.append(" or ");
            message.append(inline_flag);
            message.append(" is required");
            Err(InvalidInput { message })
        },
    }
}

/// How loading a payload went wrong before any rule was tried.
#[derive(Debug, Clone, PartialEq, Eq)]
pub enum LoadFailure {
    /// The payload could not be read; the text says why.
    Read(String),
    /// The payload was read and is not the JSON that was asked for.
    Parse(String),
}

/// A discovery payload that could not be had: where it was looked for, and why it failed.
#[derive(Debug, Clone, PartialEq, Eq)]
pub enum DiscoveryError {
    ReadFailed(String, String),
    ParseFailed(String, String),
}

/// The sentence that reports a failed discovery: a file by its path, inline
/// JSON under the name `inline-json`.
pub open spec fn discovery_failure_text(source: DiscoverySourceModel, failure: LoadFailure) -> Seq<
    char,
> {
    match (source, failure) {
        (DiscoverySourceModel::File(path), LoadFailure::Read(why)) =>
            "failed to read discovery payload "@ + path + ": "@ + why@,
        (DiscoverySourceModel::File(path), LoadFailure::Parse(why)) =>
            "failed to parse discovery payload "@ + path + ": "@ + why@,
        (DiscoverySourceModel::InlineJson(_), LoadFailure::Read(why)) =>
            "failed to parse discovery payload "@ + "inline-json"@ + ": "@ + why@,
        (DiscoverySourceModel::InlineJson(_), LoadFailure::Parse(why)) =>
            "failed to parse discovery payload "@ + "inline-json"@ + ": "@ + why@,
    }
}

/// The model of a [`DiscoveryError`].
pub ghost enum DiscoveryFault {
    ReadFailed(Seq<char>, Seq<char>),
    ParseFailed(Seq<char>, Seq<char>),
}

impl View for DiscoveryError {
    type V = DiscoveryFault;

    open spec fn view(&self) -> DiscoveryFault {
        match self {
            DiscoveryError::ReadFailed(place, why) => DiscoveryFault::ReadFailed(place@, why@),
            DiscoveryError::ParseFailed(place, why) => DiscoveryFault::ParseFailed(place@, why@),
        }
    }
}

/// The error for a payload that could not be loaded. A file fails as the
/// loading did, under its path. A payload that was handed over as it is
/// can only fail to be parsed, under the name `inline-json`.
pub open spec fn discovery_fault(source: DiscoverySourceModel, failure: LoadFailure) -> DiscoveryFault {
    match (source, failure) {
        (DiscoverySourceModel::File(path), LoadFailure::Read(why)) => DiscoveryFault::ReadFailed(
            path,
            why@,
        ),
        (DiscoverySourceModel::File(path), LoadFailure::Parse(why)) => DiscoveryFault::ParseFailed(
            path,
            why@,
        ),
        (DiscoverySourceModel::InlineJson(_), LoadFailure::Read(why)) => DiscoveryFault::ParseFailed(
            "inline-json"@,
            why@,
        ),
        (DiscoverySourceModel::InlineJson(_), LoadFailure::Parse(why)) => DiscoveryFault::ParseFailed(
            "inline-json"@,
            why@,
        ),
    }
}


impl DiscoveryError {
    /// The error that a failure to load `source` stands for. Inline JSON is
    /// never read from anywhere, so every failure of it is one of parsing.
    pub fn from_failure(source: &DiscoverySource, failure: LoadFailure) -> (out: Self)
        ensures
            out@ == discovery_fault(source@, failure),
            out.message_text() == discovery_failure_text(source@, failure),
    {
        match source {
            DiscoverySource::File(path) => match failure {
                LoadFailure::Read(why) => DiscoveryError::ReadFailed(path.clone(), why),
                LoadFailure::Parse(why) => DiscoveryError::ParseFailed(path.clone(), why),
            },
            DiscoverySource::InlineJson(_) => match failure {
                LoadFailure::Read(why) => DiscoveryError::ParseFailed("inline-json".to_owned(), why),
                LoadFailure::Parse(why) => DiscoveryError::ParseFailed(
                    "inline-json".to_owned(),
                    why,
                ),
            },
        }
    }

    /// The sentence that [`DiscoveryError::message`] writes.
    pub open spec fn message_text(&self) -> Seq<char> {
        match self {
            DiscoveryError::ReadFailed(place, why) => "failed to read discovery payload "@ + place@
                + ": "@ + why@,
            DiscoveryError::ParseFailed(place, why) => "failed to parse discovery payload "@
                + place@ + ": "@ + why@,
        }
    }

    /// The error as a sentence.
    pub fn message(&self) -> (out: String)
        ensures
            out@ == self.message_text(),
    {
        match self {
            DiscoveryError::ReadFailed(place, why) => {
                let mut out = "failed to read discovery payload ".to_owned();
                out.append(place.as_str());
                out.append(": ");
                out.append(why.as_str());
                out
            },
            DiscoveryError::ParseFailed(place, why) => {
                let mut out = "failed to parse discovery payload ".to_owned();
                out.append(place.as_str());
                out.append(": ");
                out.append(why.as_str());
                out
            },
        }
    }
}

} // verus!
