use yliproxy::config::Config;
use yliproxy::models::{ThumbnailCache, VideoInfo};
use yliproxy::thumbnails::{
    generate_thumbnail_command, get_video_list, plan_missing_thumbnails, thumb_path, thumbnail_outcome,
    thumbs_dir, StoreEntry,
};
use yliproxy::web::render_index_html;

fn test_config() -> Config {
    Config::new(
        String::from("token"),
        "/data",
        None,
        None,
        String::from("127.0.0.1"),
        8080,
        None,
    )
}

fn record(id: &str, created_at: u64) -> VideoInfo {
    VideoInfo {
        id: String::from(id),
        filename: format!("{}.mp4", id),
        thumbnail: format!("thumbs/{}.jpg", id),
        created_at,
    }
}

#[test]
fn new_cache_needs_refresh_at_any_time() {
    let cache = ThumbnailCache::new();
    assert!(cache.needs_refresh(0));
    assert!(cache.needs_refresh(1));
    assert!(cache.needs_refresh(u64::MAX));
}

#[test]
fn refresh_window_controls_staleness() {
    let mut cache = ThumbnailCache::new();
    cache.refresh(Some(vec![record("a", 5)]), 1000);
    assert!(!cache.needs_refresh(1000));
    assert!(!cache.needs_refresh(31000));
    assert!(cache.needs_refresh(31001));
    assert!(cache.needs_refresh(999));
}

#[test]
fn failed_refresh_keeps_prior_snapshot() {
    let mut cache = ThumbnailCache::new();
    cache.refresh(Some(vec![record("a", 5)]), 1000);
    cache.refresh(None, 50000);
    assert_eq!(cache.videos.len(), 1);
    assert_eq!(cache.videos[0].id, "a");
    assert_eq!(cache.last_refresh, 1000);
    assert!(cache.needs_refresh(50000));
}

#[test]
fn refresh_is_idempotent_on_unchanged_listing() {
    let listing = vec![record("a", 5), record("b", 9)];
    let mut cache = ThumbnailCache::new();
    cache.refresh(Some(listing.clone()), 1000);
    let first: Vec<(String, String, String, u64)> = cache
        .videos
        .iter()
        .map(|v| (v.id.clone(), v.filename.clone(), v.thumbnail.clone(), v.created_at))
        .collect();
    cache.refresh(Some(listing), 2000);
    let second: Vec<(String, String, String, u64)> = cache
        .videos
        .iter()
        .map(|v| (v.id.clone(), v.filename.clone(), v.thumbnail.clone(), v.created_at))
        .collect();
    assert_eq!(first, second);
    assert_eq!(cache.last_refresh, 2000);
}

#[test]
fn refresh_replaces_snapshot_wholesale() {
    let mut cache = ThumbnailCache::new();
    cache.refresh(Some(vec![record("a", 5), record("b", 9)]), 1000);
    cache.refresh(Some(vec![record("b", 9), record("c", 11)]), 2000);
    let ids: Vec<&str> = cache.videos.iter().map(|v| v.id.as_str()).collect();
    assert_eq!(ids, vec!["b", "c"]);
}

#[test]
fn refresh_keeps_last_record_of_duplicate_identifier() {
    let mut cache = ThumbnailCache::new();
    cache.refresh(Some(vec![record("a", 5), record("a", 7)]), 1000);
    assert_eq!(cache.videos.len(), 1);
    assert_eq!(cache.videos[0].created_at, 7);
}

#[test]
fn list_sorted_returns_newest_first() {
    let mut cache = ThumbnailCache::new();
    cache.refresh(
        Some(vec![record("one", 100), record("three", 300), record("two", 200)]),
        1000,
    );
    let sorted = cache.list_sorted();
    let times: Vec<u64> = sorted.iter().map(|v| v.created_at).collect();
    assert_eq!(times, vec![300, 200, 100]);
    let ids: Vec<&str> = sorted.iter().map(|v| v.id.as_str()).collect();
    assert_eq!(ids, vec!["three", "two", "one"]);
}

#[test]
fn list_sorted_keeps_every_record() {
    let mut cache = ThumbnailCache::new();
    cache.refresh(Some(vec![record("a", 7), record("b", 7), record("c", 7)]), 1000);
    let sorted = cache.list_sorted();
    let mut ids: Vec<&str> = sorted.iter().map(|v| v.id.as_str()).collect();
    ids.sort();
    assert_eq!(ids, vec!["a", "b", "c"]);
}

#[test]
fn thumbs_paths_are_under_store_root() {
    let cfg = test_config();
    assert_eq!(thumbs_dir(&cfg), "/data/converted/thumbs");
    assert_eq!(thumb_path(&cfg, "abc"), "/data/converted/thumbs/abc.jpg");
}

#[test]
fn existing_thumbnails_are_skipped() {
    let cfg = test_config();
    let videos = vec![record("a", 1), record("b", 2), record("c", 3)];
    let exists = vec![false, true, false];
    let jobs = plan_missing_thumbnails(&cfg, &videos, &exists);
    let ids: Vec<&str> = jobs.iter().map(|j| j.id.as_str()).collect();
    assert_eq!(ids, vec!["a", "c"]);
    assert_eq!(jobs[0].video_path, "/data/converted/a.mp4");
    assert_eq!(jobs[0].thumb_path, "/data/converted/thumbs/a.jpg");
}

#[test]
fn thumbnail_generation_count_stays_zero_across_passes() {
    let cfg = test_config();
    let videos = vec![record("done", 1)];
    let exists = vec![true];
    for _ in 0..3 {
        let jobs = plan_missing_thumbnails(&cfg, &videos, &exists);
        assert!(jobs.is_empty());
    }
}

#[test]
fn thumbnail_command_extracts_one_scaled_frame() {
    let args = generate_thumbnail_command("/data/converted/a.mp4", "/data/converted/thumbs/a.jpg");
    let got: Vec<&str> = args.iter().map(|s| s.as_str()).collect();
    assert_eq!(
        got,
        vec![
            "-y",
            "-i",
            "/data/converted/a.mp4",
            "-ss",
            "00:00:01",
            "-vframes",
            "1",
            "-vf",
            "scale=320:-1",
            "-q:v",
            "2",
            "/data/converted/thumbs/a.jpg",
        ]
    );
}

#[test]
fn thumbnail_failure_carries_stderr_and_stays_isolated() {
    assert!(thumbnail_outcome(true, "").is_ok());
    let err = thumbnail_outcome(false, "no such file").unwrap_err();
    assert_eq!(err.stderr, "no such file");
}

#[test]
fn video_list_skips_directories_and_other_files() {
    let entries = vec![
        StoreEntry { name: String::from("a.mp4"), is_dir: false, created_at: 10 },
        StoreEntry { name: String::from("thumbs"), is_dir: true, created_at: 0 },
        StoreEntry { name: String::from("notes.txt"), is_dir: false, created_at: 3 },
        StoreEntry { name: String::from(".mp4"), is_dir: false, created_at: 4 },
        StoreEntry { name: String::from("b.old.mp4"), is_dir: false, created_at: 20 },
    ];
    let videos = get_video_list(&entries);
    assert_eq!(videos.len(), 2);
    assert_eq!(videos[0].id, "a");
    assert_eq!(videos[0].filename, "a.mp4");
    assert_eq!(videos[0].thumbnail, "thumbs/a.jpg");
    assert_eq!(videos[0].created_at, 10);
    assert_eq!(videos[1].id, "b.old");
    assert_eq!(videos[1].filename, "b.old.mp4");
}

#[test]
fn rendered_page_lists_records_in_given_order() {
    let videos = vec![record("a", 2), record("b", 1)];
    let html = render_index_html(&videos);
    assert!(html.starts_with("\n    <!DOCTYPE html>"));
    assert!(html.ends_with("</html>\n    "));
    let a_pos = html.find("<a href=\"/a.mp4\">").unwrap();
    let b_pos = html.find("<a href=\"/b.mp4\">").unwrap();
    assert!(a_pos < b_pos);
    assert!(html.contains("src=\"/thumbs/a.jpg\""));
    assert!(html.contains("<h3 class=\"video-title\">b.mp4</h3>"));
    assert!(html.contains("<title>YliProxy</title>"));
}

#[test]
fn rendered_page_of_one_record_is_exact() {
    let videos = vec![record("x", 1)];
    let html = render_index_html(&videos);
    let header = "\n    <!DOCTYPE html>\n    <html>\n    <head>\n        <title>YliProxy</title>\n        <style>\n            body { font-family: Arial, sans-serif; margin: 0; padding: 20px; background-color: #f5f5f5; }\n            .video-grid { display: grid; grid-template-columns: repeat(auto-fill, minmax(300px, 1fr)); gap: 20px; }\n            .video-item { background-color: white; border-radius: 8px; overflow: hidden; box-shadow: 0 2px 4px rgba(0,0,0,0.1); }\n            .thumbnail { width: 100%; height: 180px; object-fit: cover; background-color: #ccc; }\n            .video-info { padding: 10px; }\n            h1 { color: #333; }\n            a { text-decoration: none; color: inherit; }\n            .video-title { margin: 5px 0; color: #333; }\n        </style>\n    </head>\n    <body>\n        <h1>YliProxy</h1>\n        <div class=\"video-grid\">\n    ";
    let item = "\n            <div class=\"video-item\">\n                <a href=\"/x.mp4\">\n                    <img class=\"thumbnail\" src=\"/thumbs/x.jpg\" alt=\"x.mp4\" onerror=\"this.style.backgroundColor='#ccc';\">\n                    <div class=\"video-info\">\n                        <h3 class=\"video-title\">x.mp4</h3>\n                    </div>\n                </a>\n            </div>\n        ";
    let footer = "\n        </div>\n    </body>\n    </html>\n    ";
    assert_eq!(html, format!("{header}{item}{footer}"));
}
