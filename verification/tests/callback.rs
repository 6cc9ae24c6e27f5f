use clipygo_plugin_msteams::oauth::{authorize_url, extract_code, oauth_error, redirect_uri};
use clipygo_plugin_msteams::config::Config;

#[test]
fn extract_code_reads_code_from_query() {
    let req = b"GET /?code=M.abc&session_state=xyz HTTP/1.1\r\nHost: localhost\r\n\r\n";
    assert_eq!(extract_code(req), Ok("M.abc".to_string()));
}

#[test]
fn extract_code_percent_decodes() {
    let req = b"GET /?session_state=1&code=a%20b%2Fc HTTP/1.1\r\n\r\n";
    assert_eq!(extract_code(req), Ok("a b/c".to_string()));
}

#[test]
fn extract_code_reports_oauth_error() {
    let req = b"GET /?error=access_denied&error_description=User%20cancelled HTTP/1.1\r\n";
    assert_eq!(extract_code(req), Err("OAuth error: User cancelled".to_string()));
}

#[test]
fn extract_code_first_matching_key_wins() {
    let req = b"GET /?code=first&error_description=later HTTP/1.1\r\n";
    assert_eq!(extract_code(req), Ok("first".to_string()));
}

#[test]
fn extract_code_without_code() {
    let req = b"GET /?state=1&noeq&code HTTP/1.1\r\n";
    assert_eq!(extract_code(req), Err("No authorization code in callback".to_string()));
    assert_eq!(extract_code(b""), Err("No authorization code in callback".to_string()));
    assert_eq!(extract_code(b"GET"), Err("No authorization code in callback".to_string()));
    assert_eq!(extract_code(b"GET /path HTTP/1.1"), Err("No authorization code in callback".to_string()));
}

#[test]
fn extract_code_only_looks_at_first_line() {
    let req = b"GET / HTTP/1.1\r\nReferer: /?code=nope\r\n";
    assert_eq!(extract_code(req), Err("No authorization code in callback".to_string()));
}

#[test]
fn extract_code_splits_on_any_white_space() {
    let req = b"GET\t /?code=z\tHTTP/1.1";
    assert_eq!(extract_code(req), Ok("z".to_string()));
}

#[test]
fn extract_code_rejects_invalid_utf8() {
    let req = [0x47u8, 0x45, 0xff, 0xfe];
    assert_eq!(extract_code(&req), Err("Invalid UTF-8 in request".to_string()));
}

#[test]
fn extract_code_decode_error_is_reported() {
    let req = b"GET /?code=%FF HTTP/1.1";
    let r = extract_code(req);
    assert!(r.is_err());
    assert!(!r.unwrap_err().is_empty());
}

#[test]
fn redirect_uri_uses_port() {
    assert_eq!(redirect_uri(8080), "http://localhost:8080/");
    assert_eq!(redirect_uri(0), "http://localhost:0/");
    assert_eq!(redirect_uri(65535), "http://localhost:65535/");
}

#[test]
fn authorize_url_encodes_redirect_and_scopes() {
    let c = Config {
        tenant_id: "ten".to_string(),
        client_id: "cli".to_string(),
        ..Config::default()
    };
    let url = authorize_url(&c, "http://localhost:8080/");
    assert_eq!(
        url,
        "https://login.microsoftonline.com/ten/oauth2/v2.0/authorize?client_id=cli\
         &response_type=code&redirect_uri=http%3A%2F%2Flocalhost%3A8080%2F\
         &scope=https%3A%2F%2Fgraph.microsoft.com%2FTeam.ReadBasic.All%20\
         https%3A%2F%2Fgraph.microsoft.com%2FChannel.ReadBasic.All%20\
         https%3A%2F%2Fgraph.microsoft.com%2FChannelMessage.Send%20\
         https%3A%2F%2Fgraph.microsoft.com%2FChat.ReadBasic%20\
         https%3A%2F%2Fgraph.microsoft.com%2FChatMessage.Send%20offline_access\
         &response_mode=query"
    );
}

#[test]
fn oauth_error_message() {
    assert_eq!(oauth_error(Ok("denied by user".to_string())), "OAuth error: denied by user");
    assert_eq!(oauth_error(Err("invalid utf-8".to_string())), "OAuth error: ");
}

#[test]
fn extract_code_decodes_either_case_and_keeps_bad_escapes() {
    let req = b"GET /?code=a%2fb%2Fc%zz%4 HTTP/1.1\r\n";
    assert_eq!(extract_code(req), Ok("a/b/c%zz%4".to_string()));
    let plus = b"GET /?code=a+b HTTP/1.1\r\n";
    assert_eq!(extract_code(plus), Ok("a+b".to_string()));
}
