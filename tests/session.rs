use bunkr_uploader::albums::first_album_with_folded_name;
use bunkr_uploader::albums::{albums_from_answer, created_album_id, find_album_id, Album, AlbumCreated};
use bunkr_uploader::error::EngineError;
use bunkr_uploader::session::{check_status, check_verification, effective_max_size, BunkrConfig,
    ChunkSizeConfig, FileIdentifierConfig, NodeResponse, Session, StripTagsConfig, VerifyResponse};

fn limits(max: &str, chunk: &str) -> BunkrConfig {
    BunkrConfig {
        maintenance: false,
        private: false,
        enableUserAccounts: true,
        maxSize: max.to_string(),
        chunkSize: ChunkSizeConfig { max: "95MB".to_string(), default: chunk.to_string(), timeout: 30 },
        fileIdentifierLength: FileIdentifierConfig { min: 4, max: 32, default: 8, force: false },
        stripTags: StripTagsConfig { default: false, video: false, force: false, blacklistExtensions: vec![] },
        temporaryUploadAges: vec![],
        defaultTemporaryUploadAge: 0,
    }
}

fn verify(success: bool) -> VerifyResponse {
    VerifyResponse { success, username: None, permissions: None, group: None, retentionPeriods: None, defaultRetentionPeriod: None }
}

#[test]
fn session_from_limits() {
    let node = NodeResponse { success: true, url: "https://up.example/upload".to_string() };
    let s = Session::establish("tok".to_string(), &limits("2GB", "25MB"), &node).unwrap();
    assert_eq!(s.upload_url, "https://up.example/upload");
    assert_eq!(s.chunk_size, 25 * 1024 * 1024);
    assert_eq!(s.max_file_size, 2040109465);
    assert_eq!(s.token, "tok");
    assert_eq!(Session::establish("t".to_string(), &limits("2XB", "25MB"), &node).err(), Some(EngineError::ConfigParse));
    assert_eq!(Session::establish("t".to_string(), &limits("2GB", "0MB"), &node).err(), Some(EngineError::ConfigParse));
}

#[test]
fn ninety_five_percent() {
    assert_eq!(effective_max_size(100), 95);
    assert_eq!(effective_max_size(19), 18);
    assert_eq!(effective_max_size(u64::MAX), 17524406870024074034);
}

#[test]
fn credential_checks() {
    assert_eq!(check_verification(200, Ok(verify(true))), Ok(()));
    assert_eq!(check_verification(200, Ok(verify(false))), Err(EngineError::Auth));
    assert_eq!(check_verification(401, Ok(verify(true))), Err(EngineError::Auth));
    assert_eq!(check_verification(200, Err("eof".to_string())), Err(EngineError::Parse));
    assert_eq!(check_status(204), Ok(()));
    assert_eq!(check_status(503), Err(EngineError::Server { status: 503 }));
}

#[test]
fn albums_by_name() {
    let albums = vec![
        Album { id: 1, name: "Trips".to_string() },
        Album { id: 2, name: "ÉTÉ".to_string() },
        Album { id: 3, name: "été".to_string() },
    ];
    assert_eq!(find_album_id(&albums, "trips"), Some(1));
    assert_eq!(find_album_id(&albums, "Été"), Some(2));
    assert_eq!(find_album_id(&albums, "winter"), None);
}

#[test]
fn album_answers() {
    let listed = albums_from_answer(200, Ok(vec![Album { id: 9, name: "x".to_string() }])).unwrap();
    assert_eq!(listed[0].id, 9);
    assert_eq!(albums_from_answer(500, Ok(vec![])).err(), Some(EngineError::Server { status: 500 }));
    assert_eq!(albums_from_answer(200, Err("bad".to_string())).err(), Some(EngineError::Parse));
    assert_eq!(created_album_id(200, Ok(AlbumCreated { success: true, id: Some(77) })), Ok(77));
    assert_eq!(created_album_id(200, Ok(AlbumCreated { success: false, id: Some(77) })), Err(EngineError::UnexpectedResponse));
    assert_eq!(created_album_id(200, Ok(AlbumCreated { success: true, id: None })), Err(EngineError::Parse));
    assert_eq!(created_album_id(403, Err("x".to_string())), Err(EngineError::Server { status: 403 }));
}

#[test]
fn albums_by_folded_name() {
    let albums = vec![Album { id: 4, name: "A".to_string() }, Album { id: 5, name: "B".to_string() }];
    let folded = vec!["a".to_string(), "b".to_string()];
    assert_eq!(first_album_with_folded_name(&albums, &folded, "b"), Some(5));
    assert_eq!(first_album_with_folded_name(&albums, &folded, "B"), None);
}
