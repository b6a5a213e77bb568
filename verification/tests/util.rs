use ekursy_api::accesslogger::access_log_line;
use ekursy_api::util::{generic_firefox_headers, moodle_session_cookie};

#[test]
fn firefox_headers_in_order() {
    let h = generic_firefox_headers();
    assert_eq!(h.len(), 11);
    assert_eq!(h[0].0, "user-agent");
    assert_eq!(h[0].1, "Mozilla/5.0 (Windows NT 10.0; Win64; x64; rv:132.0) Gecko/20100101 Firefox/132.0");
    assert_eq!(h[5], ("upgrade-insecure-requests".to_string(), "1".to_string()));
    assert_eq!(h[10], ("priority".to_string(), "u=0, i".to_string()));
}

#[test]
fn session_cookie_names_moodle_session() {
    assert_eq!(moodle_session_cookie("abc123"), "MoodleSession=abc123");
}

#[test]
fn log_line_pads_its_columns() {
    assert_eq!(
        access_log_line("127.0.0.1", 200, "GET", Some("/api/me?x=1".to_string())),
        "127.0.0.1        200  - GET    /api/me?x=1"
    );
    assert_eq!(
        access_log_line("2001:db8:1:2:3:4:5:6", 404, "DELETE", None),
        "2001:db8:1:2:3:4:5:6 404  - DELETE /"
    );
    assert_eq!(access_log_line("1.1.1.1", 5, "OPTIONS", None), format!("{:<16} {:<4} - {:<6} {}", "1.1.1.1", 5, "OPTIONS", "/"));
}
