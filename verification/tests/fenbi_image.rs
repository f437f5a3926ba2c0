use moyu::fenbi_image::{
    check_fenbi_image_url, check_image_response, check_visible_content, fenbi_image_referer,
    is_allowed_fenbi_image_host, png_data_url, FENBI_IMAGE_MAX_BYTES,
};

const PNG_HEAD: &[u8] = b"\x89PNG\r\n\x1a\n";

#[test]
fn only_fenbi_image_hosts_are_allowed() {
    for host in ["fb.fbstatic.cn", "fb.fenbike.cn", "nodestatic.fbstatic.cn", "userprofile.fbstatic.cn"] {
        assert!(is_allowed_fenbi_image_host(host));
    }
    assert!(!is_allowed_fenbi_image_host("fbstatic.cn"));
    assert!(!is_allowed_fenbi_image_host("FB.FBSTATIC.CN"));
    assert!(!is_allowed_fenbi_image_host(""));
}

#[test]
fn image_url_checks() {
    assert_eq!(check_fenbi_image_url("https://fb.fbstatic.cn/api/a.png"), Ok(()));
    assert_eq!(
        check_fenbi_image_url("http://fb.fbstatic.cn/a.png"),
        Err("only https images are allowed".to_string())
    );
    assert_eq!(
        check_fenbi_image_url("https://example.com/a.png"),
        Err("image host is not allowed".to_string())
    );
    assert_eq!(
        check_fenbi_image_url("not a url"),
        Err("relative URL without a base".to_string())
    );
}

#[test]
fn referer_is_kept_only_for_https_pages() {
    assert_eq!(
        fenbi_image_referer(Some("https://www.fenbi.com/x".to_string())),
        Some("https://www.fenbi.com/x".to_string())
    );
    assert_eq!(fenbi_image_referer(Some("http://www.fenbi.com/x".to_string())), None);
    assert_eq!(fenbi_image_referer(None), None);
}

#[test]
fn response_checks() {
    let mut body = PNG_HEAD.to_vec();
    body.extend_from_slice(&[0; 10]);
    assert_eq!(check_image_response(200, &body), Ok(()));
    assert_eq!(check_image_response(299, &body), Ok(()));
    assert_eq!(
        check_image_response(404, &body),
        Err("image request failed with status 404".to_string())
    );
    assert_eq!(
        check_image_response(300, &body),
        Err("image request failed with status 300".to_string())
    );
    assert_eq!(
        check_image_response(-7, &body),
        Err("image request failed with status -7".to_string())
    );
    assert_eq!(
        check_image_response(200, b"GIF89a...."),
        Err("only png images are supported for now".to_string())
    );
    assert_eq!(
        check_image_response(200, &PNG_HEAD[..7]),
        Err("only png images are supported for now".to_string())
    );
    let mut big = PNG_HEAD.to_vec();
    big.resize(FENBI_IMAGE_MAX_BYTES + 1, 0);
    assert_eq!(check_image_response(200, &big), Err("image is too large".to_string()));
    big.truncate(FENBI_IMAGE_MAX_BYTES);
    assert_eq!(check_image_response(200, &big), Ok(()));
}

#[test]
fn visible_content_floor() {
    assert_eq!(check_visible_content(0, 10, 10), Ok(()));
    assert_eq!(check_visible_content(1, 600, 1), Ok(()));
    assert_eq!(check_visible_content(2, 600, 2), Ok(()));
    assert_eq!(
        check_visible_content(1, 600, 2),
        Err("processed image has too little visible content".to_string())
    );
    assert_eq!(check_visible_content(0, 0, 0), Ok(()));
}

#[test]
fn data_url_is_base64_of_the_png() {
    assert_eq!(png_data_url(b"hello"), "data:image/png;base64,aGVsbG8=");
    assert_eq!(png_data_url(b"hel"), "data:image/png;base64,aGVs");
    assert_eq!(png_data_url(b"he"), "data:image/png;base64,aGU=");
    assert_eq!(png_data_url(&[0xff, 0xfe, 0xfd]), "data:image/png;base64,//79");
    assert_eq!(png_data_url(&[]), "data:image/png;base64,");
}
