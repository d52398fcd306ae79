use bunkr_uploader::config::Config;
use bunkr_uploader::preprocess::{pick_acceleration, removes_files_after_upload, should_split,
    split_into, split_part_count, unsplit};

#[test]
fn only_large_videos_are_split() {
    let mut c = Config::default();
    assert!(should_split("/v/clip.mp4", 11, 10, &c));
    assert!(!should_split("/v/clip.mp4", 10, 10, &c));
    assert!(!should_split("/v/pic.png", 11, 10, &c));
    assert!(!should_split("/v/noext", 11, 10, &c));
    c.preprocess_videos = Some(false);
    assert!(!should_split("/v/clip.mp4", 11, 10, &c));
    c.preprocess_videos = None;
    assert!(should_split("/v/film.mkv", 11, 10, &c));
}

#[test]
fn parts_and_cleanup() {
    assert_eq!(split_part_count(25, 10), 3);
    assert_eq!(split_part_count(20, 10), 2);
    let u = unsplit("/a/b.mp4");
    assert_eq!(u.files_to_upload, vec!["/a/b.mp4".to_string()]);
    assert!(!removes_files_after_upload(&u.preprocess_id));
    let s = split_into(vec!["p0".to_string(), "p1".to_string()]);
    assert_eq!(s.preprocess_id, "split_video");
    assert!(removes_files_after_upload(&s.preprocess_id));
}

#[test]
fn acceleration_from_transcoder_listing() {
    let lines: Vec<String> = ["ffmpeg version x", "Hardware acceleration methods:", "", "  none ", "  vaapi  ", "cuda"]
        .iter().map(|s| s.to_string()).collect();
    assert_eq!(pick_acceleration(&lines), Some("vaapi".to_string()));
    let none: Vec<String> = ["Hardware acceleration methods:", "none"].iter().map(|s| s.to_string()).collect();
    assert_eq!(pick_acceleration(&none), None);
    let missing: Vec<String> = ["vaapi"].iter().map(|s| s.to_string()).collect();
    assert_eq!(pick_acceleration(&missing), None);
}
