use yliproxy::config::Config;
use yliproxy::errors::ConversionError;
use yliproxy::text::{
    before_first_dot_of, has_suffix, last_segment_of, replace_all_str, split_spaces_str, str_eq,
    u16_to_dec,
};
use yliproxy::yliproxy::YliProxy;

fn test_config() -> Config {
    Config::new(
        String::from("token"),
        "/data",
        None,
        None,
        String::from("127.0.0.1"),
        8080,
        None,
    )
}

#[test]
fn extract_id_from_plain_url() {
    let id = YliProxy::extract_id_from_url("https://i.ylilauta.org/abc123.mp4").unwrap();
    assert_eq!(id, "abc123");
}

#[test]
fn extract_id_takes_stem_before_first_dot() {
    let id = YliProxy::extract_id_from_url("https://host/dir/video.webm.mp4").unwrap();
    assert_eq!(id, "video");
}

#[test]
fn extract_id_without_slash_uses_whole_stem() {
    let id = YliProxy::extract_id_from_url("clip.mp4").unwrap();
    assert_eq!(id, "clip");
}

#[test]
fn extract_id_rejects_trailing_slash() {
    let r = YliProxy::extract_id_from_url("https://host/dir/");
    assert!(matches!(r, Err(ConversionError::MalformedReference)));
}

#[test]
fn extract_id_rejects_empty_stem() {
    let r = YliProxy::extract_id_from_url("https://host/.mp4");
    assert!(matches!(r, Err(ConversionError::MalformedReference)));
}

#[test]
fn extract_id_rejects_empty_reference() {
    let r = YliProxy::extract_id_from_url("");
    assert!(matches!(r, Err(ConversionError::MalformedReference)));
}

#[test]
fn file_url_joins_base_and_name() {
    let cfg = test_config();
    let url = YliProxy::get_file_url(&cfg, "abc.mp4");
    assert_eq!(url, "http://127.0.0.1:8080/abc.mp4");
}

#[test]
fn artifact_filename_appends_extension() {
    assert_eq!(YliProxy::artifact_filename("abc"), "abc.mp4");
}

#[test]
fn artifact_path_is_under_converted_dir() {
    let cfg = test_config();
    assert_eq!(YliProxy::artifact_path(&cfg, "abc"), "/data/converted/abc.mp4");
}

#[test]
fn cache_hit_returns_url_without_work() {
    let cfg = test_config();
    let hit = YliProxy::get_existing_file_url(&cfg, "abc", true);
    assert_eq!(hit.unwrap(), "http://127.0.0.1:8080/abc.mp4");
    let miss = YliProxy::get_existing_file_url(&cfg, "abc", false);
    assert!(miss.is_none());
}

#[test]
fn cache_hit_idempotence_round_trip() {
    // First resolve: miss, download, transcode succeeds, URL built from the
    // transcoder's output filename. Second resolve for the same identifier:
    // hit. Both return the same public URL, and the identifier derived from
    // that URL is the same one again.
    let cfg = test_config();
    let reference = "https://i.ylilauta.org/abc123.mp4";
    let id = YliProxy::extract_id_from_url(reference).unwrap();

    let plan = YliProxy::plan_download(&cfg, reference);
    let input = YliProxy::finish_download(&plan, true, "200 OK").unwrap();
    let cmd = YliProxy::convert_command(&cfg, &input, &id);
    let outcome = YliProxy::convert_outcome(&cmd, true, "");
    let output_path = outcome.result.unwrap();
    let file_name = last_segment_of(&output_path);
    let first_url = YliProxy::get_file_url(&cfg, file_name);

    let second_url = YliProxy::get_existing_file_url(&cfg, &id, true).unwrap();
    assert_eq!(first_url, second_url);

    let id_again = YliProxy::extract_id_from_url(&first_url).unwrap();
    assert_eq!(id_again, id);
}

#[test]
fn download_plan_uses_last_segment() {
    let cfg = test_config();
    let plan = YliProxy::plan_download(&cfg, "https://host/dir/clip.mp4");
    assert_eq!(plan.url, "https://host/dir/clip.mp4");
    assert_eq!(plan.target_path, "/data/downloads/clip.mp4");
}

#[test]
fn download_plan_falls_back_on_fixed_name() {
    let cfg = test_config();
    let plan = YliProxy::plan_download(&cfg, "https://host/dir/");
    assert_eq!(plan.target_path, "/data/downloads/downloaded_file");
}

#[test]
fn failed_download_reports_status() {
    let cfg = test_config();
    let plan = YliProxy::plan_download(&cfg, "https://host/clip.mp4");
    let r = YliProxy::finish_download(&plan, false, "404 Not Found");
    match r {
        Err(ConversionError::DownloadFailed(s)) => assert_eq!(s, "404 Not Found"),
        _ => panic!("expected a download failure"),
    }
}

#[test]
fn convert_command_substitutes_template() {
    let cfg = test_config();
    let cmd = YliProxy::convert_command(&cfg, "/data/downloads/abc.mp4", "abc");
    assert_eq!(cmd.bin, "ffmpeg");
    assert_eq!(cmd.input_path, "/data/downloads/abc.mp4");
    assert_eq!(cmd.output_path, "/data/converted/abc.mp4");
    let expected = vec![
        "-y",
        "-i",
        "/data/downloads/abc.mp4",
        "-c:v",
        "libx264",
        "-preset",
        "veryfast",
        "-crf",
        "23",
        "-threads",
        "4",
        "-c:a",
        "copy",
        "/data/converted/abc.mp4",
    ];
    let got: Vec<&str> = cmd.args.iter().map(|s| s.as_str()).collect();
    assert_eq!(got, expected);
}

#[test]
fn convert_command_honours_custom_template() {
    let cfg = Config::new(
        String::from("token"),
        "/d",
        Some(String::from("/usr/bin/ffmpeg")),
        Some(String::from("-i  $INPUT\t-fast $OUTPUT")),
        String::from("h"),
        1,
        Some(String::from("http://cdn")),
    );
    let cmd = YliProxy::convert_command(&cfg, "in.mp4", "x");
    assert_eq!(cmd.bin, "/usr/bin/ffmpeg");
    let got: Vec<&str> = cmd.args.iter().map(|s| s.as_str()).collect();
    assert_eq!(got, vec!["-i", "in.mp4", "-fast", "/d/converted/x.mp4"]);
}

#[test]
fn successful_transcode_keeps_canonical_output() {
    let cfg = test_config();
    let cmd = YliProxy::convert_command(&cfg, "/data/downloads/abc.mp4", "abc");
    let outcome = YliProxy::convert_outcome(&cmd, true, "");
    assert_eq!(outcome.result.unwrap(), "/data/converted/abc.mp4");
    let removed: Vec<&str> = outcome.remove_paths.iter().map(|s| s.as_str()).collect();
    assert_eq!(removed, vec!["/data/downloads/abc.mp4"]);
}

#[test]
fn failed_transcode_leaves_no_canonical_file() {
    // A non-zero exit yields the conversion error with the captured stderr,
    // and the cleanup plan removes both the temporary input and the
    // canonical output path, so no partial artifact survives.
    let cfg = test_config();
    let cmd = YliProxy::convert_command(&cfg, "/data/downloads/abc.mp4", "abc");
    let outcome = YliProxy::convert_outcome(&cmd, false, "codec not found");
    match outcome.result {
        Err(ConversionError::ConversionFailed(s)) => assert_eq!(s, "codec not found"),
        _ => panic!("expected a conversion failure"),
    }
    let removed: Vec<&str> = outcome.remove_paths.iter().map(|s| s.as_str()).collect();
    assert_eq!(removed, vec!["/data/downloads/abc.mp4", "/data/converted/abc.mp4"]);
}

#[test]
fn config_derives_directories_and_defaults() {
    let cfg = test_config();
    assert_eq!(cfg.download_dir, "/data/downloads");
    assert_eq!(cfg.converted_dir, "/data/converted");
    assert_eq!(cfg.ffmpeg_bin, "ffmpeg");
    assert_eq!(
        cfg.ffmpeg_args,
        "-y -i $INPUT -c:v libx264 -preset veryfast -crf 23 -threads 4 -c:a copy $OUTPUT"
    );
    assert_eq!(cfg.host, "127.0.0.1");
    assert_eq!(cfg.port, 8080);
    assert_eq!(cfg.public_url, "http://127.0.0.1:8080");
}

#[test]
fn config_keeps_explicit_settings() {
    let cfg = Config::new(
        String::from("t"),
        "/srv",
        Some(String::from("avconv")),
        Some(String::from("-i $INPUT $OUTPUT")),
        String::from("0.0.0.0"),
        80,
        Some(String::from("https://media.example")),
    );
    assert_eq!(cfg.discord_token, "t");
    assert_eq!(cfg.ffmpeg_bin, "avconv");
    assert_eq!(cfg.ffmpeg_args, "-i $INPUT $OUTPUT");
    assert_eq!(cfg.public_url, "https://media.example");
}

#[test]
fn error_messages_name_the_failure() {
    assert_eq!(
        ConversionError::MalformedReference.message(),
        "Failed to extract ID from URL"
    );
    assert_eq!(
        ConversionError::DownloadFailed(String::from("500")).message(),
        "Download failed with status: 500"
    );
    assert_eq!(
        ConversionError::ConversionFailed(String::from("boom")).message(),
        "Failed to convert video: boom"
    );
}

#[test]
fn text_segment_helpers() {
    assert_eq!(last_segment_of("a/b/c.mp4"), "c.mp4");
    assert_eq!(last_segment_of("abc"), "abc");
    assert_eq!(last_segment_of("a/b/"), "");
    assert_eq!(before_first_dot_of("a.b.c"), "a");
    assert_eq!(before_first_dot_of("abc"), "abc");
    assert_eq!(before_first_dot_of(".abc"), "");
}

#[test]
fn text_equality_and_suffix() {
    assert!(str_eq("abc", "abc"));
    assert!(!str_eq("abc", "abd"));
    assert!(!str_eq("abc", "ab"));
    assert!(has_suffix("movie.mp4", ".mp4"));
    assert!(!has_suffix("movie.mkv", ".mp4"));
    assert!(!has_suffix("p4", ".mp4"));
}

#[test]
fn text_replace_all() {
    assert_eq!(replace_all_str("a $X b $X", "$X", "z"), "a z b z");
    assert_eq!(replace_all_str("aaa", "aa", "b"), "ba");
    assert_eq!(replace_all_str("abc", "x", "y"), "abc");
    assert_eq!(replace_all_str("abc", "", "y"), "abc");
}

#[test]
fn text_split_spaces() {
    let toks = split_spaces_str("  one\ttwo  three ");
    let got: Vec<&str> = toks.iter().map(|s| s.as_str()).collect();
    assert_eq!(got, vec!["one", "two", "three"]);
    assert!(split_spaces_str("   ").is_empty());
}

#[test]
fn text_decimal_formatting() {
    assert_eq!(u16_to_dec(0), "0");
    assert_eq!(u16_to_dec(7), "7");
    assert_eq!(u16_to_dec(8080), "8080");
    assert_eq!(u16_to_dec(65535), "65535");
}
