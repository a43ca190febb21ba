use aws_utils::base64::{basic_b64, decode};
use aws_utils::github::{
    bearer_header, compare_path, contents_path, decode_contents, token_from_env, token_from_gh,
    GithubClient,
};

#[test]
fn roundtrip_simple() {
    assert_eq!(decode("aGVsbG8=").unwrap(), b"hello");
    assert_eq!(decode("Zm9vYmFy").unwrap(), b"foobar");
}

#[test]
fn encode_then_decode() {
    for input in [&b""[..], b"f", b"fo", b"foo", b"any carnal pleas", &[0u8, 255, 128, 7]] {
        let e = basic_b64(input);
        assert_eq!(decode(&e).unwrap(), input);
    }
    assert_eq!(basic_b64(b"fo"), "Zm8=");
    assert_eq!(decode("a*b").unwrap_err(), "invalid base64 character");
}

#[test]
fn contents_decoding() {
    assert_eq!(decode_contents("aGVs\nbG8=\n", "base64").unwrap(), b"hello");
    assert_eq!(
        decode_contents("x", "utf-8").unwrap_err(),
        "unexpected encoding from GitHub: utf-8"
    );
    assert_eq!(
        decode_contents("a?b", "base64").unwrap_err(),
        "base64 decode failed: invalid base64 character"
    );
}

#[test]
fn client_and_tokens() {
    let c = GithubClient::new("o/n").unwrap();
    assert_eq!(c.repo(), "o/n");
    assert_eq!(c.url("releases"), "https://api.github.com/repos/o/n/releases");
    assert!(GithubClient::new("o/n/x").is_err());
    assert_eq!(contents_path("a.toml"), "contents/a.toml");
    assert_eq!(compare_path("b", "h"), "compare/b...h");
    assert_eq!(token_from_env(Some(" t ")).as_deref(), Some(" t "));
    assert_eq!(token_from_env(Some("  ")), None);
    assert_eq!(token_from_gh(true, " abc \n").unwrap(), "abc");
    assert_eq!(
        token_from_gh(true, "\n").unwrap_err(),
        "GITHUB_TOKEN not set and `gh auth token` returned empty output"
    );
    assert_eq!(
        token_from_gh(false, "abc").unwrap_err(),
        "no GitHub token available: set GITHUB_TOKEN or run `gh auth login`"
    );
    assert_eq!(bearer_header("t"), "Bearer t");
}
