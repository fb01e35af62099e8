use videoserve::mime::{mime_for_path, MimeType};
use videoserve::numbers::{parse_u64, u64_to_string};
use videoserve::range::{compute_window, extract_window, parse_range_header};
use videoserve::response::{
    chunk_size, content_range_value, plan_response, response_headers, ResponsePlan,
};

fn sample_file(len: usize) -> Vec<u8> {
    let mut v: Vec<u8> = Vec::with_capacity(len);
    for i in 0..len {
        v.push((i % 251) as u8);
    }
    v
}

#[test]
fn full_request_serves_whole_file() {
    let file = sample_file(1000);
    let plan = plan_response("/tmp/movie.mp4", true, 1000, None);
    assert_eq!(
        plan,
        ResponsePlan::Full { mime: MimeType::Mp4, total: 1000 }
    );
    let body = extract_window(&file, 0, 999);
    assert_eq!(body.len(), 1000);
    assert_eq!(body, file);
    let headers = response_headers(plan);
    assert_eq!(headers.len(), 5);
    assert_eq!(headers[0], ("Content-Type".to_string(), "video/mp4".to_string()));
    assert_eq!(headers[1], ("Accept-Ranges".to_string(), "bytes".to_string()));
    assert_eq!(
        headers[2],
        ("Access-Control-Allow-Origin".to_string(), "*".to_string())
    );
    assert_eq!(
        headers[3],
        ("Access-Control-Allow-Methods".to_string(), "GET, OPTIONS".to_string())
    );
    assert_eq!(
        headers[4],
        ("Access-Control-Allow-Headers".to_string(), "Content-Type".to_string())
    );
}

#[test]
fn first_hundred_bytes_partial() {
    let file = sample_file(1000);
    let plan = plan_response("/tmp/movie.mp4", true, 1000, Some("bytes=0-99"));
    assert_eq!(
        plan,
        ResponsePlan::Partial { mime: MimeType::Mp4, start: 0, end: 99, total: 1000 }
    );
    assert_eq!(chunk_size(0, 99), 100);
    assert_eq!(content_range_value(0, 99, 1000), "bytes 0-99/1000");
    let body = extract_window(&file, 0, 99);
    assert_eq!(body.len(), 100);
    assert_eq!(&body[..], &file[0..100]);
    let headers = response_headers(plan);
    assert_eq!(headers.len(), 7);
    assert_eq!(headers[2], ("Content-Length".to_string(), "100".to_string()));
    assert_eq!(
        headers[3],
        ("Content-Range".to_string(), "bytes 0-99/1000".to_string())
    );
}

#[test]
fn open_ended_range_runs_to_last_byte() {
    let file = sample_file(1000);
    let plan = plan_response("/tmp/movie.mp4", true, 1000, Some("bytes=500-"));
    assert_eq!(
        plan,
        ResponsePlan::Partial { mime: MimeType::Mp4, start: 500, end: 999, total: 1000 }
    );
    assert_eq!(chunk_size(500, 999), 500);
    assert_eq!(content_range_value(500, 999, 1000), "bytes 500-999/1000");
    let body = extract_window(&file, 500, 999);
    assert_eq!(body.len(), 500);
    assert_eq!(&body[..], &file[500..1000]);
}

#[test]
fn out_of_bounds_range_is_rejected() {
    let plan = plan_response("/tmp/movie.mp4", true, 1000, Some("bytes=2000-2100"));
    assert_eq!(plan, ResponsePlan::InvalidRange);
    let headers = response_headers(plan);
    assert_eq!(headers.len(), 3);
    assert_eq!(
        headers[0],
        ("Access-Control-Allow-Origin".to_string(), "*".to_string())
    );
    assert_eq!(
        headers[1],
        ("Access-Control-Allow-Methods".to_string(), "GET, OPTIONS".to_string())
    );
    assert_eq!(
        headers[2],
        ("Access-Control-Allow-Headers".to_string(), "Content-Type".to_string())
    );
}

#[test]
fn range_past_end_is_rejected() {
    let plan = plan_response("/tmp/movie.mp4", true, 1000, Some("bytes=500-1500"));
    assert_eq!(plan, ResponsePlan::InvalidRange);
}

#[test]
fn inverted_range_is_rejected() {
    let plan = plan_response("/tmp/movie.mp4", true, 1000, Some("bytes=700-600"));
    assert_eq!(plan, ResponsePlan::InvalidRange);
}

#[test]
fn malformed_ranges_are_rejected() {
    for h in [
        "bytes=",
        "bytes=-",
        "bytes=abc-",
        "bytes=10",
        "bytes=1-2-3",
        "bites=0-99",
        "bytes= 0-99",
        "bytes=0-x",
        "",
    ] {
        let plan = plan_response("/tmp/movie.mp4", true, 1000, Some(h));
        assert_eq!(plan, ResponsePlan::InvalidRange, "header {:?}", h);
    }
}

#[test]
fn any_range_on_empty_file_is_rejected() {
    let plan = plan_response("/tmp/empty.mp4", true, 0, Some("bytes=0-"));
    assert_eq!(plan, ResponsePlan::InvalidRange);
}

#[test]
fn missing_file_is_not_found() {
    let plan = plan_response("/tmp/gone.mp4", false, 0, None);
    assert_eq!(plan, ResponsePlan::NotFound);
    let headers = response_headers(plan);
    assert_eq!(headers.len(), 3);
    assert_eq!(
        headers[0],
        ("Access-Control-Allow-Origin".to_string(), "*".to_string())
    );
    assert_eq!(
        headers[1],
        ("Access-Control-Allow-Methods".to_string(), "GET, OPTIONS".to_string())
    );
    assert_eq!(
        headers[2],
        ("Access-Control-Allow-Headers".to_string(), "Content-Type".to_string())
    );
    let ranged = plan_response("/tmp/gone.mp4", false, 0, Some("bytes=0-99"));
    assert_eq!(ranged, ResponsePlan::NotFound);
}

#[test]
fn small_ranges_reassemble_file() {
    let file = sample_file(1000);
    let mut out: Vec<u8> = Vec::new();
    let mut start: u64 = 0;
    while start < 1000 {
        let end = std::cmp::min(start + 99, 999);
        let header = format!("bytes={}-{}", start, end);
        let plan = plan_response("/tmp/movie.mp4", true, 1000, Some(&header));
        match plan {
            ResponsePlan::Partial { start: s, end: e, total, .. } => {
                assert_eq!((s, e, total), (start, end, 1000));
                let mut chunk = extract_window(&file, s as usize, e as usize);
                out.append(&mut chunk);
            }
            other => panic!("expected a partial response, got {:?}", other),
        }
        start = end + 1;
    }
    assert_eq!(out, file);
}

#[test]
fn parse_range_header_reads_both_forms() {
    let r = parse_range_header("bytes=12-345").unwrap();
    assert_eq!(r.start, 12);
    assert_eq!(r.end, Some(345));
    let r = parse_range_header("bytes=7-").unwrap();
    assert_eq!(r.start, 7);
    assert_eq!(r.end, None);
    assert!(parse_range_header("bytes=18446744073709551616-").is_none());
    assert!(parse_range_header("0-99").is_none());
}

#[test]
fn compute_window_defaults_and_bounds() {
    assert_eq!(compute_window(0, Some(99), 1000), Some((0, 99)));
    assert_eq!(compute_window(500, None, 1000), Some((500, 999)));
    assert_eq!(compute_window(999, None, 1000), Some((999, 999)));
    assert_eq!(compute_window(1000, None, 1000), None);
    assert_eq!(compute_window(0, Some(1000), 1000), None);
    assert_eq!(compute_window(0, None, 0), None);
}

#[test]
fn decimal_rendering_and_parsing() {
    assert_eq!(u64_to_string(0), "0");
    assert_eq!(u64_to_string(7), "7");
    assert_eq!(u64_to_string(1421), "1421");
    assert_eq!(u64_to_string(u64::MAX), "18446744073709551615");
    assert_eq!(parse_u64("0"), Some(0));
    assert_eq!(parse_u64("1421"), Some(1421));
    assert_eq!(parse_u64("18446744073709551615"), Some(u64::MAX));
    assert_eq!(parse_u64("18446744073709551616"), None);
    assert_eq!(parse_u64(""), None);
    assert_eq!(parse_u64("12a"), None);
    assert_eq!(parse_u64("-3"), None);
}

#[test]
fn mime_type_follows_extension() {
    assert_eq!(mime_for_path("/videos/movie.mp4"), MimeType::Mp4);
    assert_eq!(mime_for_path("/videos/MOVIE.MP4"), MimeType::Mp4);
    assert_eq!(mime_for_path("/videos/clip.mov"), MimeType::QuickTime);
    assert_eq!(mime_for_path("/videos/clip.Mov"), MimeType::QuickTime);
    assert_eq!(mime_for_path("old.avi"), MimeType::MsVideo);
    assert_eq!(mime_for_path("/videos/readme.txt"), MimeType::Mp4);
    assert_eq!(mime_for_path("/videos/noextension"), MimeType::Mp4);
    assert_eq!(mime_for_path("/videos/archive.tar.gz"), MimeType::Mp4);
    assert_eq!(mime_for_path("/dir.mov/file"), MimeType::Mp4);
    assert_eq!(mime_for_path("/videos/.mov"), MimeType::Mp4);
    assert_eq!(mime_for_path("C:\\videos\\clip.mov"), MimeType::QuickTime);
    assert_eq!(mime_for_path("\\videos\\.mov"), MimeType::Mp4);
    assert_eq!(mime_for_path("\\dir.avi\\file"), MimeType::Mp4);
    assert_eq!(mime_for_path("C:\\dir\\sub/clip.avi"), MimeType::MsVideo);
    assert_eq!(MimeType::Mp4.as_str(), "video/mp4");
    assert_eq!(MimeType::QuickTime.as_str(), "video/quicktime");
    assert_eq!(MimeType::MsVideo.as_str(), "video/x-msvideo");
}
