use gpgui::auth_manager::AuthError;
use gpgui::AuthManager;

fn parse(s: &str) -> Result<String, AuthError> {
    AuthManager::new().parse_cookie_from_output(s)
}

#[test]
fn cookie_line_is_taken() {
    assert_eq!(parse("COOKIE=abc\n"), Ok("abc".to_string()));
}

#[test]
fn first_cookie_line_wins_over_later_ones() {
    assert_eq!(parse("a\nCOOKIE=1\nCOOKIE=2"), Ok("1".to_string()));
}

#[test]
fn cookie_line_after_other_lines_with_crlf() {
    assert_eq!(parse("starting\r\nCOOKIE=xyz\r\nbye\r\n"), Ok("xyz".to_string()));
}

#[test]
fn carriage_return_without_newline_stays() {
    assert_eq!(parse("COOKIE=abc\r"), Ok("abc\r".to_string()));
}

#[test]
fn empty_cookie_value() {
    assert_eq!(parse("COOKIE=\nother"), Ok(String::new()));
}

#[test]
fn marker_inside_a_line_is_not_a_cookie_line() {
    assert_eq!(parse("xCOOKIE=1"), Ok("xCOOKIE=1".to_string()));
    assert_eq!(parse(" COOKIE=1\n"), Ok("COOKIE=1".to_string()));
}

#[test]
fn whole_output_trimmed_when_no_cookie_line() {
    assert_eq!(parse("  token-value \n"), Ok("token-value".to_string()));
    assert_eq!(parse("\u{3000}a b\u{00a0}"), Ok("a b".to_string()));
    assert_eq!(parse("line one\nline two\n"), Ok("line one\nline two".to_string()));
}

#[test]
fn blank_output_has_no_cookie() {
    assert_eq!(parse(""), Err(AuthError::NoCookie));
    assert_eq!(parse("  \n\t\r\n"), Err(AuthError::NoCookie));
}

#[test]
fn unicode_text_is_kept() {
    assert_eq!(parse("COOKIE=día=π\n"), Ok("día=π".to_string()));
}

#[test]
fn failed_helper_reports_its_stderr() {
    let m = AuthManager::new();
    let r = m.cookie_from_gpauth(false, b"COOKIE=abc", b"boom");
    assert_eq!(r, Err(AuthError::GpauthFailed { stderr: "boom".to_string() }));
    assert_eq!(r.unwrap_err().message(), "gpauth failed: boom");
}

#[test]
fn successful_helper_output_is_parsed() {
    let m = AuthManager::new();
    assert_eq!(m.cookie_from_gpauth(true, b"hello\nCOOKIE=c1\n", b""), Ok("c1".to_string()));
    assert_eq!(m.cookie_from_gpauth(true, b" \n ", b""), Err(AuthError::NoCookie));
}

#[test]
fn invalid_utf8_is_replaced() {
    let m = AuthManager::new();
    assert_eq!(
        m.cookie_from_gpauth(true, b"COOKIE=a\xffb", b""),
        Ok("a\u{fffd}b".to_string())
    );
}

#[test]
fn no_cookie_message() {
    assert_eq!(AuthError::NoCookie.message(), "No cookie found in gpauth output");
}

#[test]
fn gpauth_is_run_with_portal_and_default_browser() {
    let args = AuthManager::new().gpauth_arguments("vpn.example.com");
    assert_eq!(args, vec!["--portal", "vpn.example.com", "--browser", "default"]);
}

#[test]
fn gpauth_program_name() {
    assert_eq!(AuthManager::new().gpauth_program(), "gpauth");
}
