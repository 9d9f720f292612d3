use klyppd::http::{parse_range_header, video_reply};

fn req(range: &str) -> String {
    format!("GET /video.mp4 HTTP/1.1\r\nHost: 127.0.0.1\r\n{range}\r\n\r\n")
}

#[test]
fn no_range_header_asks_for_the_whole_file() {
    assert_eq!(parse_range_header("GET / HTTP/1.1\r\n\r\n", 100), Some((0, 99)));
    assert_eq!(parse_range_header("", 1), Some((0, 0)));
}

#[test]
fn explicit_ranges() {
    assert_eq!(parse_range_header(&req("Range: bytes=0-99"), 1000), Some((0, 99)));
    assert_eq!(parse_range_header(&req("Range: bytes=500-"), 1000), Some((500, 999)));
    assert_eq!(parse_range_header(&req("Range: bytes=5-5000"), 1000), Some((5, 999)));
    assert_eq!(parse_range_header(&req("Range: bytes=+1-2"), 1000), Some((1, 2)));
    assert_eq!(parse_range_header(&req("Range:   bytes=1-2   "), 1000), Some((1, 2)));
    assert_eq!(parse_range_header(&req("Range:Range: bytes=3-4"), 1000), Some((3, 4)));
}

#[test]
fn suffix_ranges() {
    assert_eq!(parse_range_header(&req("Range: bytes=-100"), 1000), Some((900, 999)));
    assert_eq!(parse_range_header(&req("Range: bytes=-2000"), 1000), Some((0, 999)));
    assert_eq!(parse_range_header(&req("Range: bytes=-0"), 1000), None);
}

#[test]
fn unsatisfiable_ranges() {
    assert_eq!(parse_range_header(&req("Range: bytes=1000-"), 1000), None);
    assert_eq!(parse_range_header(&req("Range: bytes=10-5"), 1000), None);
    assert_eq!(parse_range_header(&req("Range: items=0-1"), 1000), None);
    assert_eq!(parse_range_header(&req("Range: bytes=12"), 1000), None);
    assert_eq!(parse_range_header(&req("Range: bytes=a-1"), 1000), None);
    assert_eq!(parse_range_header(&req("Range: bytes=1-b"), 1000), None);
    assert_eq!(parse_range_header(&req("Range: bytes=-18446744073709551616"), 1000), None);
}

#[test]
fn only_the_first_range_line_counts() {
    let r = "GET / HTTP/1.1\r\nRange: bytes=1-2\r\nRange: bytes=3-4\r\n\r\n";
    assert_eq!(parse_range_header(r, 10), Some((1, 2)));
}

#[test]
fn full_get_gets_200() {
    let r = video_reply("GET / HTTP/1.1\r\n\r\n", 1234);
    assert_eq!(
        r.header,
        "HTTP/1.1 200 OK\r\nContent-Type: video/mp4\r\nContent-Length: 1234\r\nAccess-Control-Allow-Origin: *\r\nAccept-Ranges: bytes\r\n\r\n"
    );
    assert_eq!(r.body, Some((0, 1233)));
}

#[test]
fn partial_get_gets_206() {
    let r = video_reply(&req("Range: bytes=10-19"), 100);
    assert_eq!(
        r.header,
        "HTTP/1.1 206 Partial Content\r\nContent-Type: video/mp4\r\nContent-Range: bytes 10-19/100\r\nContent-Length: 10\r\nAccess-Control-Allow-Origin: *\r\nAccept-Ranges: bytes\r\n\r\n"
    );
    assert_eq!(r.body, Some((10, 19)));
}

#[test]
fn head_gets_headers_only() {
    let r = video_reply("HEAD / HTTP/1.1\r\nRange: bytes=0-0\r\n\r\n", 100);
    assert!(r.header.starts_with("HTTP/1.1 206 Partial Content\r\n"));
    assert!(r.header.contains("Content-Length: 1\r\n"));
    assert_eq!(r.body, None);
}

#[test]
fn other_methods_get_405() {
    let r = video_reply("POST / HTTP/1.1\r\n\r\n", 100);
    assert_eq!(r.header, "HTTP/1.1 405 Method Not Allowed\r\nContent-Length: 0\r\n\r\n");
    assert_eq!(r.body, None);
}

#[test]
fn empty_request_is_a_get() {
    let r = video_reply("   ", 5);
    assert!(r.header.starts_with("HTTP/1.1 200 OK\r\n"));
    assert_eq!(r.body, Some((0, 4)));
}

#[test]
fn bad_range_gets_416() {
    let r = video_reply(&req("Range: bytes=200-300"), 100);
    assert_eq!(
        r.header,
        "HTTP/1.1 416 Range Not Satisfiable\r\nContent-Range: bytes */100\r\nContent-Length: 0\r\nAccept-Ranges: bytes\r\n\r\n"
    );
    assert_eq!(r.body, None);
}
