use bunkr_uploader::config::{Config, ConfigKey};
use bunkr_uploader::error::EngineError;

#[test]
fn defaults_read_back() {
    let c = Config::default();
    assert_eq!(c.get_value("default_batch_size"), "1");
    assert_eq!(c.get_value("default_album_id"), "none");
    assert_eq!(c.get_value("default_album_name"), "none");
    assert_eq!(c.get_value("preprocess_videos"), "true");
    assert_eq!(c.get_value("colour"), "unknown key");
}

#[test]
fn setting_values() {
    let mut c = Config::default();
    assert_eq!(c.set_value("default_batch_size", "4"), Ok(()));
    assert_eq!(c.default_batch_size, Some(4));
    assert_eq!(c.get_value("default_batch_size"), "4");
    assert_eq!(c.set_value("default_batch_size", "four"), Err(EngineError::InvalidValue));
    assert_eq!(c.default_batch_size, Some(4));
    assert_eq!(c.set_value("default_album_id", "123"), Ok(()));
    assert_eq!(c.default_album_id.as_deref(), Some("123"));
    assert_eq!(c.set_value("default_album_id", "none"), Ok(()));
    assert_eq!(c.default_album_id, None);
    assert_eq!(c.set_value("default_album_name", "Holiday"), Ok(()));
    assert_eq!(c.get_value("default_album_name"), "Holiday");
    assert_eq!(c.set_value("preprocess_videos", "false"), Ok(()));
    assert_eq!(c.get_value("preprocess_videos"), "false");
    assert_eq!(c.set_value("preprocess_videos", "yes"), Err(EngineError::InvalidValue));
    assert_eq!(c.set_value("nope", "1"), Err(EngineError::UnknownKey));
}

#[test]
fn keys_and_their_names() {
    let all = ConfigKey::all();
    assert_eq!(all.len(), 4);
    for k in &all {
        assert_eq!(ConfigKey::from_str(k.as_str()), Some(*k));
    }
    assert_eq!(ConfigKey::from_str("Default_Batch_Size"), None);
    assert_eq!(ConfigKey::DefaultBatchSize.default(), "1");
    assert_eq!(ConfigKey::PreprocessVideos.default(), "true");
    let c = Config { default_batch_size: None, default_album_id: None, default_album_name: None, preprocess_videos: None };
    assert_eq!(ConfigKey::DefaultBatchSize.get(&c), "1");
    assert_eq!(ConfigKey::PreprocessVideos.get(&c), "true");
}
