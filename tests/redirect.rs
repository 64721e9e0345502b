use rust_crawler::redirect::{base64_decode, decode_search_url};

#[test]
fn base64_decodes_with_and_without_padding() {
    assert_eq!(base64_decode("aGVsbG8="), b"hello".to_vec());
    assert_eq!(base64_decode("aGVsbG8"), b"hello".to_vec());
    assert_eq!(base64_decode("aGk="), b"hi".to_vec());
    assert_eq!(base64_decode(""), Vec::<u8>::new());
    assert_eq!(base64_decode("aG!Vs bG8="), b"hello".to_vec());
}

#[test]
fn plain_url_passes_through_and_is_idempotent() {
    let u = "https://example.com/path?q=1&u=abc";
    let once = decode_search_url(u);
    assert_eq!(once, u);
    assert_eq!(decode_search_url(&once), once);
}

#[test]
fn bing_wrapper_is_unwrapped() {
    // base64 of "https://example.com/page"
    let u = "https://www.bing.com/ck/a?!&&p=abc&u=a1aHR0cHM6Ly9leGFtcGxlLmNvbS9wYWdl&ntb=1";
    assert_eq!(decode_search_url(u), "https://example.com/page");
}

#[test]
fn bing_wrapper_without_parameter_passes_through() {
    let u = "https://www.bing.com/ck/a?!&&p=abc";
    assert_eq!(decode_search_url(u), u);
}

#[test]
fn google_wrapper_is_percent_decoded() {
    let u = "https://www.google.com/url?sa=t&url=https%3A%2F%2Fexample.com%2Fa%20b&ved=2";
    assert_eq!(decode_search_url(u), "https://example.com/a b");
    let q = "https://www.google.com/url?url=https://example.org/x";
    assert_eq!(decode_search_url(q), "https://example.org/x");
}

#[test]
fn bing_wrapper_without_padding_or_suffix() {
    // base64 of "https://a.example/x?y=1" is "aHR0cHM6Ly9hLmV4YW1wbGUveD95PTE="
    let padded = "https://www.bing.com/ck/a?!&&p=x&u=a1aHR0cHM6Ly9hLmV4YW1wbGUveD95PTE=";
    let bare = "https://www.bing.com/ck/a?!&&p=x&u=a1aHR0cHM6Ly9hLmV4YW1wbGUveD95PTE&ntb=1";
    assert_eq!(decode_search_url(padded), "https://a.example/x?y=1");
    assert_eq!(decode_search_url(bare), "https://a.example/x?y=1");
}
