use livecap::job::lock_marker_file;
use livecap::job::CaptureJob;
use livecap::session::extract_stream_id;
use livecap::timestamp::current_timestamp;
use livecap::timestamp::format_timestamp;

#[test]
fn session_id_from_marked_address() {
    assert_eq!(extract_stream_id("https://x/stream-42_abc"), "42");
}

#[test]
fn session_id_placeholder_without_marker() {
    assert_eq!(extract_stream_id("https://x/live/alice"), "unknownid");
    assert_eq!(extract_stream_id(""), "unknownid");
}

#[test]
fn session_id_needs_underscore_after_digits() {
    assert_eq!(extract_stream_id("stream-12a34_"), "unknownid");
    assert_eq!(extract_stream_id("stream-99"), "unknownid");
}

#[test]
fn session_id_needs_at_least_one_digit() {
    assert_eq!(extract_stream_id("stream-_x"), "unknownid");
}

#[test]
fn session_id_takes_leftmost_marker() {
    assert_eq!(extract_stream_id("stream-1_stream-2_"), "1");
}

#[test]
fn session_id_takes_whole_digit_run() {
    assert_eq!(extract_stream_id("a/stream-0123456789_tail"), "0123456789");
}

#[test]
fn timestamp_is_zero_padded() {
    assert_eq!(format_timestamp(2024, 1, 2, 3, 4, 5), "2024-01-02_03-04-05");
    assert_eq!(format_timestamp(999, 12, 31, 23, 59, 58), "0999-12-31_23-59-58");
}

#[test]
fn current_timestamp_has_the_name_shape() {
    let t = current_timestamp();
    let chars: Vec<char> = t.chars().collect();
    assert_eq!(chars.len(), 19);
    for (i, c) in chars.iter().enumerate() {
        match i {
            4 | 7 | 13 | 16 => assert_eq!(*c, '-'),
            10 => assert_eq!(*c, '_'),
            _ => assert!(c.is_ascii_digit()),
        }
    }
}

#[test]
fn marker_path_is_dir_id_lock() {
    assert_eq!(lock_marker_file("../lock_files", "alice"), "../lock_files/alice.lock");
}

#[test]
fn job_derives_output_locations() {
    let job = CaptureJob::prepare(
        "alice",
        "https://x/stream-42_abc",
        "../videos",
        "2024-01-02_03-04-05",
    );
    assert_eq!(job.source_id, "alice");
    assert_eq!(job.address, "https://x/stream-42_abc");
    assert_eq!(job.session_id, "42");
    assert_eq!(job.output_dir, "../videos/alice");
    assert_eq!(job.output_path, "../videos/alice/alice_2024-01-02_03-04-05.mkv");
}
