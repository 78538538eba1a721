use simse::text::{terminate_line, trim_line_ending};

#[test]
fn trims_crlf_and_lf() {
    assert_eq!(trim_line_ending("250 OK\r\n"), "250 OK");
    assert_eq!(trim_line_ending("250 OK\n"), "250 OK");
    assert_eq!(trim_line_ending("250 OK"), "250 OK");
    assert_eq!(trim_line_ending("250 OK\r"), "250 OK\r");
    assert_eq!(trim_line_ending("\r\n"), "");
    assert_eq!(trim_line_ending(""), "");
}

#[test]
fn terminates_unterminated_lines() {
    assert_eq!(terminate_line("QUIT"), "QUIT\r\n");
    assert_eq!(terminate_line(""), "\r\n");
    assert_eq!(terminate_line("DATA\n"), "DATA\n");
    assert_eq!(terminate_line("DATA\r\n"), "DATA\r\n");
}
