//! The descriptors that cross the JSON boundary, and the rules that a
//! descriptor has to meet before the runtime accepts it.

use vstd::prelude::*;
use crate::text::{all_digits, is_blank, split_on, split_text, starts_with, starts_with_char,
    str_all_digits, str_is_blank, texts};

verus! {

/// Runtime status snapshot for the frame process.
#[derive(Debug, Clone, Copy, PartialEq, Eq)]
pub enum FrameStatus {
    Booting,
    Idle,
    Rendering,
    Error,
}

/// Canonical frame state model exchanged over JSON boundaries.
#[derive(Debug, Clone, PartialEq)]
pub struct FrameState {
    pub frame_id: String,
    pub status: FrameStatus,
    pub active_scene: Option<String>,
    pub width: u32,
    pub height: u32,
    pub rotated: i32,
    pub last_error: Option<String>,
}

/// Scene source description for resolving scene payloads.
#[derive(Debug, Clone, PartialEq, Eq)]
pub enum SceneSource {
    AssetPath { path: String },
    InlineJson,
    RemoteUrl { url: String },
}

/// Scene descriptor model for internal cataloging and API payloads.
#[derive(Debug, Clone, PartialEq)]
pub struct SceneDescriptor {
    pub id: String,
    pub app_id: String,
    pub version: String,
    pub source: SceneSource,
    /// Free-form pairs of key and value; a key stands at most once.
    pub metadata: Vec<(String, String)>,
}

/// Manifest entry for a runnable app.
#[derive(Debug, Clone, PartialEq)]
pub struct AppDescriptor {
    pub id: String,
    pub display_name: String,
    pub executable: String,
    pub entry_scene: Option<String>,
    pub enabled: bool,
    /// Environment variables as pairs of name and value; a name stands at most once.
    pub env: Vec<(String, String)>,
}

/// Why a descriptor was turned down.
#[derive(Debug, Clone, PartialEq, Eq)]
pub enum ModelValidationError {
    MissingField(&'static str),
    InvalidField { field: &'static str, reason: String },
}

/// The mathematical model of a [`ModelValidationError`].
pub ghost enum ValidationFault {
    Missing(Seq<char>),
    Invalid { field: Seq<char>, reason: Seq<char> },
}

impl View for ModelValidationError {
    type V = ValidationFault;

    open spec fn view(&self) -> ValidationFault {
        match self {
            ModelValidationError::MissingField(field) => ValidationFault::Missing(field@),
            ModelValidationError::InvalidField { field, reason } => ValidationFault::Invalid {
                field: field@,
                reason: reason@,
            },
        }
    }
}

impl ModelValidationError {
    /// The message that describes the error.
    pub open spec fn message_text(fault: ValidationFault) -> Seq<char> {
        match fault {
            ValidationFault::Missing(field) => "missing required field: "@ + field,
            ValidationFault::Invalid { field, reason } => "invalid field `"@ + field + "`: "@
                + reason,
        }
    }

    /// The error as a sentence.
    pub fn message(&self) -> (out: String)
        ensures
            out@ == Self::message_text(self@),
    {
        match self {
            ModelValidationError::MissingField(field) => {
                let mut out = "missing required field: ".to_owned();
                out.append(field);
                out
            },
            ModelValidationError::InvalidField { field, reason } => {
                let mut out = "invalid field `".to_owned();
                out.append(field);
                out.append("`: ");
                out.append(reason.as_str());
                out
            },
        }
    }
}

/// What a validation returned, as a model: `None` where the descriptor passed.
pub open spec fn fault_of(out: Result<(), ModelValidationError>) -> Option<ValidationFault> {
    match out {
        Ok(_) => None,
        Err(e) => Some(e@),
    }
}

/// A version of the form `major.minor.patch`: three parts between dots, each
/// of one or more ASCII digits.
pub open spec fn semver_like(value: Seq<char>) -> bool {
    let parts = split_on(value, '.');
    &&& parts.len() == 3
    &&& forall|i: int| 0 <= i < 3 ==> (#[trigger] parts[i]).len() > 0 && all_digits(parts[i])
}

/// Whether `value` has the form `major.minor.patch` with numeric parts.
pub fn is_semver_like(value: &str) -> (out: bool)
    ensures
        out == semver_like(value@),
{
    let parts = split_text(value, '.');
    if parts.len() != 3 {
        return false;
    }
    let mut i: usize = 0;
    while i < 3
        invariant
            i <= 3,
            parts.len() == 3,
            texts(parts@) == split_on(value@, '.'),
            forall|j: int|
                0 <= j < i ==> (#[trigger] split_on(value@, '.')[j]).len() > 0 && all_digits(
                    split_on(value@, '.')[j],
                ),
        decreases 3 - i,
    {
        let part = parts[i].as_str();
        assert(texts(parts@)[i as int] == parts@[i as int]@);
        if part.unicode_len() == 0 || !str_all_digits(part) {
            return false;
        }
        i += 1;
    }
    true
}

impl SceneSource {
    /// The first rule that the source breaks, if it breaks one.
    pub open spec fn fault(&self) -> Option<ValidationFault> {
        match self {
            SceneSource::AssetPath { path } => {
                if is_blank(path@) {
                    Some(ValidationFault::Missing("source.path"@))
                } else if !(path@.len() > 0 && path@[0] == '/') {
                    Some(
                        ValidationFault::Invalid {
                            field: "source.path"@,
                            reason: "asset path must be absolute"@,
                        },
                    )
                } else {
                    None
                }
            },
            SceneSource::InlineJson => None,
            SceneSource::RemoteUrl { url } => {
                if is_blank(url@) {
                    Some(ValidationFault::Missing("source.url"@))
                } else if !("http://"@.is_prefix_of(url@) || "https://"@.is_prefix_of(url@)) {
                    Some(
                        ValidationFault::Invalid {
                            field: "source.url"@,
                            reason: "remote url must start with http:// or https://"@,
                        },
                    )
                } else {
                    None
                }
            },
        }
    }
}

impl SceneDescriptor {
    /// The first rule that the descriptor breaks, if it breaks one. The rules
    /// are tried in this order: `id`, `app_id` and `version` are not blank,
    /// `version` is `major.minor.patch`, and the source is well formed.
    pub open spec fn fault(&self) -> Option<ValidationFault> {
        if is_blank(self.id@) {
            Some(ValidationFault::Missing("id"@))
        } else if is_blank(self.app_id@) {
            Some(ValidationFault::Missing("app_id"@))
        } else if is_blank(self.version@) {
            Some(ValidationFault::Missing("version"@))
        } else if !semver_like(self.version@) {
            Some(
                ValidationFault::Invalid {
                    field: "version"@,
                    reason: "must match major.minor.patch using numeric segments"@,
                },
            )
        } else {
            self.source.fault()
        }
    }

    /// Accepts the descriptor, or names the first rule that it breaks.
    pub fn validate(&self) -> (out: Result<(), ModelValidationError>)
        ensures
            fault_of(out) == self.fault(),
    {
        if str_is_blank(self.id.as_str()) {
            return Err(ModelValidationError::MissingField("id"));
        }
        if str_is_blank(self.app_id.as_str()) {
            return Err(ModelValidationError::MissingField("app_id"));
        }
        if str_is_blank(self.version.as_str()) {
            return Err(ModelValidationError::MissingField("version"));
        }
        if !is_semver_like(self.version.as_str()) {
            return Err(
                ModelValidationError::InvalidField {
                    field: "version",
                    reason: "must match major.minor.patch using numeric segments".to_owned(),
                },
            );
        }
        match &self.source {
            SceneSource::AssetPath { path } => {
                if str_is_blank(path.as_str()) {
                    return Err(ModelValidationError::MissingField("source.path"));
                }
                if !starts_with_char(path.as_str(), '/') {
                    return Err(
                        ModelValidationError::InvalidField {
                            field: "source.path",
                            reason: "asset path must be absolute".to_owned(),
                        },
                    );
                }
            },
            SceneSource::InlineJson => {},
            SceneSource::RemoteUrl { url } => {
                if str_is_blank(url.as_str()) {
                    return Err(ModelValidationError::MissingField("source.url"));
                }
                if !(starts_with(url.as_str(), "http://") || starts_with(url.as_str(), "https://")) {
                    return Err(
                        ModelValidationError::InvalidField {
                            field: "source.url",
                            reason: "remote url must start with http:// or https://".to_owned(),
                        },
                    );
                }
            },
        }
        Ok(())
    }
}

impl AppDescriptor {
    /// Whether some environment variable has a blank name.
    pub open spec fn has_blank_env_key(&self) -> bool {
        exists|i: int| 0 <= i < self.env@.len() && is_blank((#[trigger] self.env@[i]).0@)
    }

    /// The first rule that the descriptor breaks, if it breaks one. The rules
    /// are tried in this order: `id`, `display_name` and `executable` are not
    /// blank, an entry scene that is given is not blank, and no environment
    /// variable has a blank name.
    pub open spec fn fault(&self) -> Option<ValidationFault> {
        if is_blank(self.id@) {
            Some(ValidationFault::Missing("id"@))
        } else if is_blank(self.display_name@) {
            Some(ValidationFault::Missing("display_name"@))
        } else if is_blank(self.executable@) {
            Some(ValidationFault::Missing("executable"@))
        } else if self.entry_scene matches Some(scene) && is_blank(scene@) {
            Some(
                ValidationFault::Invalid {
                    field: "entry_scene"@,
                    reason: "entry scene cannot be blank when provided"@,
                },
            )
        } else if self.has_blank_env_key() {
            Some(
                ValidationFault::Invalid {
                    field: "env"@,
                    reason: "environment variable keys cannot be blank"@,
                },
            )
        } else {
            None
        }
    }

    /// Accepts the descriptor, or names the first rule that it breaks.
    #[verifier::loop_isolation(false)]
    pub fn validate(&self) -> (out: Result<(), ModelValidationError>)
        ensures
            fault_of(out) == self.fault(),
    {
        if str_is_blank(self.id.as_str()) {
            return Err(ModelValidationError::MissingField("id"));
        }
        if str_is_blank(self.display_name.as_str()) {
            return Err(ModelValidationError::MissingField("display_name"));
        }
        if str_is_blank(self.executable.as_str()) {
            return Err(ModelValidationError::MissingField("executable"));
        }
        if let Some(entry_scene) = &self.entry_scene {
            if str_is_blank(entry_scene.as_str()) {
                return Err(
                    ModelValidationError::InvalidField {
                        field: "entry_scene",
                        reason: "entry scene cannot be blank when provided".to_owned(),
                    },
                );
            }
        }
        let mut i: usize = 0;
        while i < self.env.len()
            invariant
                i <= self.env.len(),
                forall|j: int| 0 <= j < i ==> !is_blank((#[trigger] self.env@[j]).0@),
            decreases self.env.len() - i,
        {
            if str_is_blank(self.env[i].0.as_str()) {
                return Err(
                    ModelValidationError::InvalidField {
                        field: "env",
                        reason: "environment variable keys cannot be blank".to_owned(),
                    },
                );
            }
            i += 1;
        }
        Ok(())
    }
}

} // verus!
