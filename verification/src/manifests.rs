//! Manifests: lists of descriptors that are accepted only as a whole.

use vstd::prelude::*;
use crate::apps::AppRegistry;
use crate::models::{AppDescriptor, ModelValidationError, SceneDescriptor};
use crate::scenes::SceneCatalog;

verus! {

/// Why a manifest could not be had.
#[derive(Debug, Clone, PartialEq, Eq)]
pub enum ManifestLoadError {
    /// The manifest could not be read: its path, and why.
    Io { path: String, source: String },
    /// The manifest was read and is not what it should be: its path, and why.
    Parse { path: String, source: String },
    /// An entry of the manifest breaks a rule: the kind of manifest, the
    /// place of the entry, and the rule.
    Validation { manifest: &'static str, index: usize, source: ModelValidationError },
}

impl ManifestLoadError {
    /// The sentence that [`ManifestLoadError::message`] writes.
    pub open spec fn message_text(&self) -> Seq<char> {
        match self {
            ManifestLoadError::Io { path, source } => "failed to read manifest "@ + path@ + ": "@
                + source@,
            ManifestLoadError::Parse { path, source } => "failed to parse manifest "@ + path@
                + ": "@ + source@,
            ManifestLoadError::Validation { manifest, index, source } => "invalid "@ + manifest@
                + " entry at index "@ + crate::text::decimal_text(*index as nat) + ": "@
                + ModelValidationError::message_text(source@),
        }
    }

    /// The error as a sentence.
    pub fn message(&self) -> (out: String)
        ensures
            out@ == self.message_text(),
    {
        match self {
            ManifestLoadError::Io { path, source } => {
                let mut out = "failed to read manifest ".to_owned();
                out.append(path.as_str());
                out.append(": ");
                out.append(source.as_str());
                out
            },
            ManifestLoadError::Parse { path, source } => {
                let mut out = "failed to parse manifest ".to_owned();
                out.append(path.as_str());
                out.append(": ");
                out.append(source.as_str());
                out
            },
            ManifestLoadError::Validation { manifest, index, source } => {
                let mut out = "invalid ".to_owned();
                out.append(manifest);
                out.append(" entry at index ");
                out.append(crate::text::u64_to_text(*index as u64).as_str());
                out.append(": ");
                out.append(source.message().as_str());
                out
            },
        }
    }
}

/// The first scene that breaks a rule, if `i` is its place.
pub open spec fn first_bad_scene(scenes: Seq<SceneDescriptor>, i: int) -> bool {
    &&& 0 <= i < scenes.len()
    &&& scenes[i].fault() is Some
    &&& forall|j: int| 0 <= j < i ==> (#[trigger] scenes[j]).fault() is None
}

/// The first app that breaks a rule, if `i` is its place.
pub open spec fn first_bad_app(apps: Seq<AppDescriptor>, i: int) -> bool {
    &&& 0 <= i < apps.len()
    &&& apps[i].fault() is Some
    &&& forall|j: int| 0 <= j < i ==> (#[trigger] apps[j]).fault() is None
}

/// What checking the scenes of a manifest came to: every scene passes, or
/// the error names the first that does not, and the rule that it breaks.
pub open spec fn scenes_checked(scenes: Seq<SceneDescriptor>, fault: Option<ManifestLoadError>) -> bool {
    match fault {
        None => forall|j: int| 0 <= j < scenes.len() ==> (#[trigger] scenes[j]).fault() is None,
        Some(ManifestLoadError::Validation { manifest, index, source }) => manifest@ == "scene"@
            && first_bad_scene(scenes, index as int) && scenes[index as int].fault() == Some(source@),
        Some(_) => false,
    }
}

/// What checking the apps of a manifest came to: every app passes, or the
/// error names the first that does not, and the rule that it breaks.
pub open spec fn apps_checked(apps: Seq<AppDescriptor>, fault: Option<ManifestLoadError>) -> bool {
    match fault {
        None => forall|j: int| 0 <= j < apps.len() ==> (#[trigger] apps[j]).fault() is None,
        Some(ManifestLoadError::Validation { manifest, index, source }) => manifest@ == "app"@
            && first_bad_app(apps, index as int) && apps[index as int].fault() == Some(source@),
        Some(_) => false,
    }
}

/// Accepts the scenes of a manifest if each of them passes its rules.
pub fn load_scene_manifest(scenes: Vec<SceneDescriptor>) -> (out: Result<
    Vec<SceneDescriptor>,
    ManifestLoadError,
>)
    ensures
        match out {
            Ok(accepted) => accepted == scenes && scenes_checked(scenes@, None),
            Err(e) => scenes_checked(scenes@, Some(e)),
        },
{
    let mut index: usize = 0;
    while index < scenes.len()
        invariant
            index <= scenes.len(),
            forall|j: int| 0 <= j < index ==> (#[trigger] scenes@[j]).fault() is None,
        decreases scenes.len() - index,
    {
        match scenes[index].validate() {
            Ok(_) => {},
            Err(source) => {
                return Err(ManifestLoadError::Validation { manifest: "scene", index, source });
            },
        }
        index += 1;
    }
    Ok(scenes)
}

/// Accepts the apps of a manifest if each of them passes its rules.
pub fn load_app_manifest(apps: Vec<AppDescriptor>) -> (out: Result<
    Vec<AppDescriptor>,
    ManifestLoadError,
>)
    ensures
        match out {
            Ok(accepted) => accepted == apps && apps_checked(apps@, None),
            Err(e) => apps_checked(apps@, Some(e)),
        },
{
    let mut index: usize = 0;
    while index < apps.len()
        invariant
            index <= apps.len(),
            forall|j: int| 0 <= j < index ==> (#[trigger] apps@[j]).fault() is None,
        decreases apps.len() - index,
    {
        match apps[index].validate() {
            Ok(_) => {},
            Err(source) => {
                return Err(ManifestLoadError::Validation { manifest: "app", index, source });
            },
        }
        index += 1;
    }
    Ok(apps)
}

/// The catalog of the scenes of a manifest, if each of them passes its rules.
pub fn load_scene_catalog(scenes: Vec<SceneDescriptor>) -> (out: Result<
    SceneCatalog,
    ManifestLoadError,
>)
    ensures
        match out {
            Ok(catalog) => catalog.entries() == scenes@ && scenes_checked(scenes@, None),
            Err(e) => scenes_checked(scenes@, Some(e)),
        },
{
    match load_scene_manifest(scenes) {
        Ok(accepted) => Ok(SceneCatalog::with_scenes(accepted)),
        Err(e) => Err(e),
    }
}

/// The registry of the apps of a manifest, if each of them passes its rules.
pub fn load_app_registry(apps: Vec<AppDescriptor>) -> (out: Result<AppRegistry, ManifestLoadError>)
    ensures
        match out {
            Ok(registry) => registry.entries() == apps@ && apps_checked(apps@, None),
            Err(e) => apps_checked(apps@, Some(e)),
        },
{
    match load_app_manifest(apps) {
        Ok(accepted) => Ok(AppRegistry::with_apps(accepted)),
        Err(e) => Err(e),
    }
}

} // verus!
