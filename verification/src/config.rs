//! The runtime's configuration: defaults, the values that a file may set, and
//! the rules that the result has to meet.

use vstd::prelude::*;
use crate::text::starts_with_char;

verus! {

/// Configuration for the FrameOS runtime.
#[derive(Debug, Clone)]
pub struct FrameOSConfig {
    pub name: String,
    pub mode: String,
    pub server_host: String,
    pub server_port: u16,
    pub server_api_key: String,
    pub frame_host: String,
    pub frame_port: u16,
    pub frame_access: String,
    pub frame_access_key: String,
    pub width: u32,
    pub height: u32,
    pub device: String,
    pub metrics_interval_seconds: u64,
    pub rotate: i32,
    pub flip: String,
    pub scaling_mode: String,
    pub assets_path: String,
    pub log_to_file: Option<String>,
    pub debug: bool,
    pub time_zone: String,
}

/// Why no configuration could be had.
#[derive(Debug, Clone, PartialEq, Eq)]
pub enum ConfigError {
    MissingConfig(String),
    ReadFailed(String, String),
    ParseFailed(String, String),
    ValidationFailed(String),
}

/// What a configuration file holds: any setting may be left out.
#[derive(Debug, Clone)]
pub struct RawFrameOSConfig {
    pub name: Option<String>,
    pub mode: Option<String>,
    pub server_host: Option<String>,
    pub server_port: Option<u16>,
    pub server_api_key: Option<String>,
    pub frame_host: Option<String>,
    pub frame_port: Option<u16>,
    pub frame_access: Option<String>,
    pub frame_access_key: Option<String>,
    pub width: Option<u32>,
    pub height: Option<u32>,
    pub device: Option<String>,
    pub metrics_interval: Option<u64>,
    pub rotate: Option<i32>,
    pub flip: Option<String>,
    pub scaling_mode: Option<String>,
    pub assets_path: Option<String>,
    pub log_to_file: Option<String>,
    pub debug: Option<bool>,
    pub time_zone: Option<String>,
}

impl Default for RawFrameOSConfig {
    /// A file that sets nothing.
    fn default() -> (out: Self)
        ensures
            out.name is None,
            out.mode is None,
            out.server_host is None,
            out.server_port is None,
            out.server_api_key is None,
            out.frame_host is None,
            out.frame_port is None,
            out.frame_access is None,
            out.frame_access_key is None,
            out.width is None,
            out.height is None,
            out.device is None,
            out.metrics_interval is None,
            out.rotate is None,
            out.flip is None,
            out.scaling_mode is None,
            out.assets_path is None,
            out.log_to_file is None,
            out.debug is None,
            out.time_zone is None,
    {
        Self {
            name: None,
            mode: None,
            server_host: None,
            server_port: None,
            server_api_key: None,
            frame_host: None,
            frame_port: None,
            frame_access: None,
            frame_access_key: None,
            width: None,
            height: None,
            device: None,
            metrics_interval: None,
            rotate: None,
            flip: None,
            scaling_mode: None,
            assets_path: None,
            log_to_file: None,
            debug: None,
            time_zone: None,
        }
    }
}

/// The text that a setting has after a file was applied: the file's, where it gives one.
pub open spec fn chosen_text(given: Option<String>, before: String) -> Seq<char> {
    match given {
        Some(value) => value@,
        None => before@,
    }
}

/// The value that a setting has after a file was applied: the file's, where it gives one.
pub open spec fn chosen<T>(given: Option<T>, before: T) -> T {
    match given {
        Some(value) => value,
        None => before,
    }
}

/// The rule that a configuration breaks first, by its message: the sizes are
/// positive, the ports are positive, and the assets path is absolute.
pub open spec fn config_fault(config: &FrameOSConfig) -> Option<Seq<char>> {
    if config.width == 0 || config.height == 0 {
        Some("width and height must be positive"@)
    } else if config.server_port == 0 || config.frame_port == 0 {
        Some("server_port and frame_port must be positive"@)
    } else if !(config.assets_path@.len() > 0 && config.assets_path@[0] == '/') {
        Some("assets_path must be an absolute path"@)
    } else {
        None
    }
}

fn set_text(slot: &mut String, given: Option<String>)
    ensures
        final(slot)@ == chosen_text(given, *old(slot)),
{
    if let Some(value) = given {
        *slot = value;
    }
}

fn set_value<T>(slot: &mut T, given: Option<T>)
    ensures
        *final(slot) == chosen(given, *old(slot)),
{
    if let Some(value) = given {
        *slot = value;
    }
}

impl FrameOSConfig {
    /// Takes over every setting that `raw` gives and keeps the others. A
    /// frame that has no name afterwards is named after its host.
    pub fn apply_raw(&mut self, raw: RawFrameOSConfig)
        ensures
            final(self).mode@ == chosen_text(raw.mode, old(self).mode),
            final(self).server_host@ == chosen_text(raw.server_host, old(self).server_host),
            final(self).server_port == chosen(raw.server_port, old(self).server_port),
            final(self).server_api_key@ == chosen_text(
                raw.server_api_key,
                old(self).server_api_key,
            ),
            final(self).frame_host@ == chosen_text(raw.frame_host, old(self).frame_host),
            final(self).frame_port == chosen(raw.frame_port, old(self).frame_port),
            final(self).frame_access@ == chosen_text(raw.frame_access, old(self).frame_access),
            final(self).frame_access_key@ == chosen_text(
                raw.frame_access_key,
                old(self).frame_access_key,
            ),
            final(self).width == chosen(raw.width, old(self).width),
            final(self).height == chosen(raw.height, old(self).height),
            final(self).device@ == chosen_text(raw.device, old(self).device),
            final(self).metrics_interval_seconds == chosen(
                raw.metrics_interval,
                old(self).metrics_interval_seconds,
            ),
            final(self).rotate == chosen(raw.rotate, old(self).rotate),
            final(self).flip@ == chosen_text(raw.flip, old(self).flip),
            final(self).scaling_mode@ == chosen_text(raw.scaling_mode, old(self).scaling_mode),
            final(self).assets_path@ == chosen_text(raw.assets_path, old(self).assets_path),
            match raw.log_to_file {
                Some(path) => final(self).log_to_file matches Some(p) && p@ == path@,
                None => final(self).log_to_file == old(self).log_to_file,
            },
            final(self).debug == chosen(raw.debug, old(self).debug),
            final(self).time_zone@ == chosen_text(raw.time_zone, old(self).time_zone),
            final(self).name@ == (if chosen_text(raw.name, old(self).name).len() == 0 {
                final(self).frame_host@
            } else {
                chosen_text(raw.name, old(self).name)
            }),
    {
        set_text(&mut self.name, raw.name);
        set_text(&mut self.mode, raw.mode);
        set_text(&mut self.server_host, raw.server_host);
        set_value(&mut self.server_port, raw.server_port);
        set_text(&mut self.server_api_key, raw.server_api_key);
        set_text(&mut self.frame_host, raw.frame_host);
        set_value(&mut self.frame_port, raw.frame_port);
        set_text(&mut self.frame_access, raw.frame_access);
        set_text(&mut self.frame_access_key, raw.frame_access_key);
        set_value(&mut self.width, raw.width);
        set_value(&mut self.height, raw.height);
        set_text(&mut self.device, raw.device);
        set_value(&mut self.metrics_interval_seconds, raw.metrics_interval);
        set_value(&mut self.rotate, raw.rotate);
        set_text(&mut self.flip, raw.flip);
        set_text(&mut self.scaling_mode, raw.scaling_mode);
        set_text(&mut self.assets_path, raw.assets_path);
        if let Some(value) = raw.log_to_file {
            self.log_to_file = Some(value);
        }
        set_value(&mut self.debug, raw.debug);
        set_text(&mut self.time_zone, raw.time_zone);
        if self.name.as_str().unicode_len() == 0 {
            self.name = self.frame_host.clone();
        }
    }

    /// Accepts the configuration, or names the first rule that it breaks.
    pub fn validate(&self) -> (out: Result<(), ConfigError>)
        ensures
            match out {
                Ok(_) => config_fault(self) is None,
                Err(e) => e matches ConfigError::ValidationFailed(message) && config_fault(self)
                    == Some(message@),
            },
    {
        if self.width == 0 || self.height == 0 {
            return Err(
                ConfigError::ValidationFailed("width and height must be positive".to_owned()),
            );
        }
        if self.server_port == 0 || self.frame_port == 0 {
            return Err(
                ConfigError::ValidationFailed(
                    "server_port and frame_port must be positive".to_owned(),
                ),
            );
        }
        if !starts_with_char(self.assets_path.as_str(), '/') {
            return Err(
                ConfigError::ValidationFailed("assets_path must be an absolute path".to_owned()),
            );
        }
        Ok(())
    }
}

impl ConfigError {
    /// The sentence that [`ConfigError::message`] writes.
    pub open spec fn message_text(&self) -> Seq<char> {
        match self {
            ConfigError::MissingConfig(path) => "config file not found: "@ + path@,
            ConfigError::ReadFailed(path, why) => "failed to read config file "@ + path@ + ": "@
                + why@,
            ConfigError::ParseFailed(path, why) => "failed to parse config file "@ + path@ + ": "@
                + why@,
            ConfigError::ValidationFailed(message) => "invalid config: "@ + message@,
        }
    }

    /// The error as a sentence.
    pub fn message(&self) -> (out: String)
        ensures
            out@ == self.message_text(),
    {
        match self {
            ConfigError::MissingConfig(path) => {
                let mut out = "config file not found: ".to_owned();
                out.append(path.as_str());
                out
            },
            ConfigError::ReadFailed(path, why) => {
                let mut out = "failed to read config file ".to_owned();
                out.append(path.as_str());
                out.append(": ");
                out.append(why.as_str());
                out
            },
            ConfigError::ParseFailed(path, why) => {
                let mut out = "failed to parse config file ".to_owned();
                out.append(path.as_str());
                out.append(": ");
                out.append(why.as_str());
                out
            },
            ConfigError::ValidationFailed(message) => {
                let mut out = "invalid config: ".to_owned();
                out.append(message.as_str());
                out
            },
        }
    }
}

impl Default for FrameOSConfig {
    fn default() -> (out: Self)
        ensures
            out.name@.len() == 0,
            out.mode@ == "rpios"@,
            out.server_host@.len() == 0,
            out.server_port == 8989,
            out.server_api_key@.len() == 0,
            out.frame_host@ == "localhost"@,
            out.frame_port == 8787,
            out.frame_access@ == "private"@,
            out.frame_access_key@.len() == 0,
            out.width == 1920,
            out.height == 1080,
            out.device@ == "web_only"@,
            out.metrics_interval_seconds == 60,
            out.rotate == 0,
            out.flip@.len() == 0,
            out.scaling_mode@ == "cover"@,
            out.assets_path@ == "/srv/assets"@,
            out.log_to_file is None,
            !out.debug,
            out.time_zone@ == "UTC"@,
    {
        FrameOSConfig {
            name: String::new(),
            mode: "rpios".to_owned(),
            server_host: String::new(),
            server_port: 8989,
            server_api_key: String::new(),
            frame_host: "localhost".to_owned(),
            frame_port: 8787,
            frame_access: "private".to_owned(),
            frame_access_key: String::new(),
            width: 1920,
            height: 1080,
            device: "web_only".to_owned(),
            metrics_interval_seconds: 60,
            rotate: 0,
            flip: String::new(),
            scaling_mode: "cover".to_owned(),
            assets_path: "/srv/assets".to_owned(),
            log_to_file: None,
            debug: false,
            time_zone: "UTC".to_owned(),
        }
    }
}

} // verus!
