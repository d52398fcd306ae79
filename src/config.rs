//! The user's settings: their keys, how each reads and is set from text, and their defaults.
use vstd::prelude::*;
use crate::error::EngineError;
use crate::text::{chars_of, opt_string_view, decimal, decimal_chars, parse_unsigned, same_text, string_of,
    unsigned_literal};

verus! {

#[derive(Debug, Clone)]
pub struct Config {
    pub default_batch_size: Option<usize>,
    pub default_album_id: Option<String>,
    pub default_album_name: Option<String>,
    pub preprocess_videos: Option<bool>,
}

impl Default for Config {
    fn default() -> (r: Config)
        ensures
            r.default_batch_size == Some(1usize),
            r.default_album_id is None,
            r.default_album_name is None,
            r.preprocess_videos == Some(true),
    {
        Config {
            default_batch_size: Some(1),
            default_album_id: None,
            default_album_name: None,
            preprocess_videos: Some(true),
        }
    }
}

#[derive(Debug, Clone, Copy, PartialEq, Eq, Structural)]
pub enum ConfigKey {
    DefaultBatchSize,
    DefaultAlbumId,
    DefaultAlbumName,
    PreprocessVideos,
}

/// The name of a key, as the user writes it.
pub open spec fn key_name(k: ConfigKey) -> Seq<char> {
    match k {
        ConfigKey::DefaultBatchSize => "default_batch_size"@,
        ConfigKey::DefaultAlbumId => "default_album_id"@,
        ConfigKey::DefaultAlbumName => "default_album_name"@,
        ConfigKey::PreprocessVideos => "preprocess_videos"@,
    }
}

/// The key with a given name.
pub open spec fn key_named(s: Seq<char>) -> Option<ConfigKey> {
    if s == "default_batch_size"@ {
        Some(ConfigKey::DefaultBatchSize)
    } else if s == "default_album_id"@ {
        Some(ConfigKey::DefaultAlbumId)
    } else if s == "default_album_name"@ {
        Some(ConfigKey::DefaultAlbumName)
    } else if s == "preprocess_videos"@ {
        Some(ConfigKey::PreprocessVideos)
    } else {
        None
    }
}

pub open spec fn bool_text(b: bool) -> Seq<char> {
    if b { "true"@ } else { "false"@ }
}

/// How a setting reads: its value as text, or the key's default where it is unset.
pub open spec fn value_text(k: ConfigKey, c: Config) -> Seq<char> {
    match k {
        ConfigKey::DefaultBatchSize => match c.default_batch_size {
            Some(v) => decimal(v as nat),
            None => "1"@,
        },
        ConfigKey::DefaultAlbumId => match c.default_album_id {
            Some(v) => v@,
            None => "none"@,
        },
        ConfigKey::DefaultAlbumName => match c.default_album_name {
            Some(v) => v@,
            None => "none"@,
        },
        ConfigKey::PreprocessVideos => match c.preprocess_videos {
            Some(v) => bool_text(v),
            None => "true"@,
        },
    }
}

/// The default of a key, as text.
pub open spec fn default_text(k: ConfigKey) -> Seq<char> {
    match k {
        ConfigKey::DefaultBatchSize => "1"@,
        ConfigKey::DefaultAlbumId => "none"@,
        ConfigKey::DefaultAlbumName => "none"@,
        ConfigKey::PreprocessVideos => "true"@,
    }
}

/// What a text sets an optional text setting to: `none` unsets it.
pub open spec fn optional_text(v: Seq<char>) -> Option<Seq<char>> {
    if v == "none"@ { None } else { Some(v) }
}

/// A boolean setting's text: exactly `true` or `false`.
pub open spec fn bool_of_text(v: Seq<char>) -> Option<bool> {
    if v == "true"@ {
        Some(true)
    } else if v == "false"@ {
        Some(false)
    } else {
        None
    }
}

/// Setting `k` to the text `v` in `old` gives `new`, or fails with `InvalidValue` where the
/// text does not parse for the key; the other settings stay as they were.
pub open spec fn set_spec(k: ConfigKey, old: Config, v: Seq<char>, new: Config, r: Result<(), EngineError>) -> bool {
    let others_kept = |keep_batch: bool, keep_id: bool, keep_name: bool, keep_pre: bool|
        (keep_batch ==> new.default_batch_size == old.default_batch_size) && (keep_id ==> opt_string_view(
            new.default_album_id,
        ) == opt_string_view(old.default_album_id)) && (keep_name ==> opt_string_view(new.default_album_name)
            == opt_string_view(old.default_album_name)) && (keep_pre ==> new.preprocess_videos
            == old.preprocess_videos);
    match k {
        ConfigKey::DefaultBatchSize => match unsigned_literal(v) {
            Some(n) => if n <= usize::MAX {
                r is Ok && new.default_batch_size == Some(n as usize) && others_kept(
                    false,
                    true,
                    true,
                    true,
                )
            } else {
                r == Err::<(), EngineError>(EngineError::InvalidValue) && others_kept(
                    true,
                    true,
                    true,
                    true,
                )
            },
            None => r == Err::<(), EngineError>(EngineError::InvalidValue) && others_kept(
                true,
                true,
                true,
                true,
            ),
        },
        ConfigKey::DefaultAlbumId => r is Ok && opt_string_view(new.default_album_id) == optional_text(v)
            && others_kept(true, false, true, true),
        ConfigKey::DefaultAlbumName => r is Ok && opt_string_view(new.default_album_name)
            == optional_text(v) && others_kept(true, true, false, true),
        ConfigKey::PreprocessVideos => match bool_of_text(v) {
            Some(b) => r is Ok && new.preprocess_videos == Some(b) && others_kept(true, true, true, false),
            None => r == Err::<(), EngineError>(EngineError::InvalidValue) && others_kept(
                true,
                true,
                true,
                true,
            ),
        },
    }
}

fn text_or_unset(value: &str) -> (r: Option<String>)
    ensures
        opt_string_view(r) == optional_text(value@),
{
    if same_text(value, "none") {
        None
    } else {
        Some(value.to_owned())
    }
}

fn bool_text_exec(b: bool) -> (r: String)
    ensures
        r@ == bool_text(b),
{
    if b {
        "true".to_owned()
    } else {
        "false".to_owned()
    }
}

impl ConfigKey {
    pub fn as_str(&self) -> (r: &'static str)
        ensures
            r@ == key_name(*self),
    {
        match self {
            ConfigKey::DefaultBatchSize => "default_batch_size",
            ConfigKey::DefaultAlbumId => "default_album_id",
            ConfigKey::DefaultAlbumName => "default_album_name",
            ConfigKey::PreprocessVideos => "preprocess_videos",
        }
    }

    pub fn from_str(s: &str) -> (r: Option<ConfigKey>)
        ensures
            r == key_named(s@),
    {
        if same_text(s, "default_batch_size") {
            Some(ConfigKey::DefaultBatchSize)
        } else if same_text(s, "default_album_id") {
            Some(ConfigKey::DefaultAlbumId)
        } else if same_text(s, "default_album_name") {
            Some(ConfigKey::DefaultAlbumName)
        } else if same_text(s, "preprocess_videos") {
            Some(ConfigKey::PreprocessVideos)
        } else {
            None
        }
    }

    /// The setting's current value as text, or the key's default where it is unset.
    pub fn get(&self, config: &Config) -> (r: String)
        ensures
            r@ == value_text(*self, *config),
    {
        match self {
            ConfigKey::DefaultBatchSize => match config.default_batch_size {
                Some(v) => string_of(&decimal_chars(v as u64)),
                None => "1".to_owned(),
            },
            ConfigKey::DefaultAlbumId => match &config.default_album_id {
                Some(v) => v.clone(),
                None => "none".to_owned(),
            },
            ConfigKey::DefaultAlbumName => match &config.default_album_name {
                Some(v) => v.clone(),
                None => "none".to_owned(),
            },
            ConfigKey::PreprocessVideos => match config.preprocess_videos {
                Some(v) => bool_text_exec(v),
                None => "true".to_owned(),
            },
        }
    }

    /// Sets the setting from text: a batch size is an unsigned integer, a boolean is `true` or
    /// `false`, and `none` unsets an album setting.
    pub fn set(&self, config: &mut Config, value: &str) -> (r: Result<(), EngineError>)
        ensures
            set_spec(*self, *old(config), value@, *final(config), r),
    {
        match self {
            ConfigKey::DefaultBatchSize => {
                let cs = chars_of(value);
                match parse_unsigned(&cs, usize::MAX as u64) {
                    Some(v) => {
                        config.default_batch_size = Some(v as usize);
                        Ok(())
                    },
                    None => Err(EngineError::InvalidValue),
                }
            },
            ConfigKey::DefaultAlbumId => {
                config.default_album_id = text_or_unset(value);
                Ok(())
            },
            ConfigKey::DefaultAlbumName => {
                config.default_album_name = text_or_unset(value);
                Ok(())
            },
            ConfigKey::PreprocessVideos => {
                if same_text(value, "true") {
                    config.preprocess_videos = Some(true);
                    Ok(())
                } else if same_text(value, "false") {
                    config.preprocess_videos = Some(false);
                    Ok(())
                } else {
                    Err(EngineError::InvalidValue)
                }
            },
        }
    }

    /// The key's default, as text.
    pub fn default(&self) -> (r: String)
        ensures
            r@ == default_text(*self),
    {
        match self {
            ConfigKey::DefaultBatchSize => "1".to_owned(),
            ConfigKey::DefaultAlbumId => "none".to_owned(),
            ConfigKey::DefaultAlbumName => "none".to_owned(),
            ConfigKey::PreprocessVideos => "true".to_owned(),
        }
    }

    /// Every key, in the order in which settings are listed.
    pub fn all() -> (r: Vec<ConfigKey>)
        ensures
            r@ == seq![
                ConfigKey::DefaultBatchSize,
                ConfigKey::DefaultAlbumId,
                ConfigKey::DefaultAlbumName,
                ConfigKey::PreprocessVideos,
            ],
    {
        let mut r: Vec<ConfigKey> = Vec::new();
        r.push(ConfigKey::DefaultBatchSize);
        r.push(ConfigKey::DefaultAlbumId);
        r.push(ConfigKey::DefaultAlbumName);
        r.push(ConfigKey::PreprocessVideos);
        assert(r@ =~= seq![
            ConfigKey::DefaultBatchSize,
            ConfigKey::DefaultAlbumId,
            ConfigKey::DefaultAlbumName,
            ConfigKey::PreprocessVideos,
        ]);
        r
    }
}

impl Config {
    /// The value of the setting named `key` as text; `unknown key` for a name that is none.
    pub fn get_value(&self, key: &str) -> (r: String)
        ensures
            match key_named(key@) {
                Some(k) => r@ == value_text(k, *self),
                None => r@ == "unknown key"@,
            },
    {
        match ConfigKey::from_str(key) {
            Some(k) => k.get(self),
            None => "unknown key".to_owned(),
        }
    }

    /// Sets the setting named `key` from text; a name that is none is an `UnknownKey` error and
    /// changes nothing.
    pub fn set_value(&mut self, key: &str, value: &str) -> (r: Result<(), EngineError>)
        ensures
            match key_named(key@) {
                Some(k) => set_spec(k, *old(self), value@, *final(self), r),
                None => r == Err::<(), EngineError>(EngineError::UnknownKey) && *final(self)
                    == *old(self),
            },
    {
        match ConfigKey::from_str(key) {
            Some(k) => k.set(self, value),
            None => Err(EngineError::UnknownKey),
        }
    }
}

} // verus!
