use nebula_core::bilibili::{
    login_cookie,
    generate_key, generate_nonce, interpret_generate, interpret_poll, netscape_cookie_file,
    open_vault, parse_cookies, qrcode_poll_url, seal_vault, usable_key, cookie_from_url,
    BilibiliAuth, BilibiliCookie, LoginStatus, QrCodeGenerateResponse, QrCodePollData,
    QrCodePollResponse,
};

#[test]
fn vault_round_trip() {
    let key = generate_key();
    let nonce = generate_nonce();
    let plaintext = br#"{"sessdata":"a","bili_jct":"b","dede_user_id":"c","created_at":1}"#.to_vec();
    let blob = seal_vault(&key, &nonce, &plaintext).unwrap();
    assert_eq!(blob.len(), 12 + plaintext.len() + 16);
    assert_eq!(&blob[..12], &nonce[..]);
    assert_ne!(&blob[12..], &plaintext[..]);
    assert_eq!(open_vault(&key, &blob).unwrap(), Some(plaintext.clone()));
    let other = generate_key();
    assert!(open_vault(&other, &blob).is_err());
    assert_eq!(open_vault(&key, &vec![1, 2, 3]).unwrap(), None);
    assert!(seal_vault(&vec![0; 5], &nonce, &plaintext).is_err());
}

#[test]
fn stored_key_must_be_32_bytes() {
    assert_eq!(usable_key(Some(vec![7; 32])), Some(vec![7; 32]));
    assert_eq!(usable_key(Some(vec![7; 31])), None);
    assert_eq!(usable_key(None), None);
}

#[test]
fn cookies_from_headers() {
    let cookies = vec![
        "SESSDATA=s1".to_string(),
        "other=x".to_string(),
        "bili_jct=j".to_string(),
        "DedeUserID=42".to_string(),
        "SESSDATA=s2".to_string(),
    ];
    let c = parse_cookies(&cookies, 9).unwrap();
    assert_eq!(c.sessdata, "s2");
    assert_eq!(c.bili_jct, "j");
    assert_eq!(c.dede_user_id, "42");
    assert_eq!(c.created_at, 9);
    assert!(parse_cookies(&cookies[..2].to_vec(), 9).is_none());
}

#[test]
fn cookies_from_login_url() {
    let c = cookie_from_url(
        "https://passport.biligame.com/crossDomain?DedeUserID=42&SESSDATA=s%2C1&bili_jct=j",
        3,
    )
    .unwrap();
    assert_eq!(c.sessdata, "s,1");
    assert_eq!(c.dede_user_id, "42");
    assert!(cookie_from_url("not a url", 3).is_none());
    assert!(cookie_from_url("https://e.com/?SESSDATA=a", 3).is_none());
}

#[test]
fn poll_answers() {
    let data = |code: i32| QrCodePollData {
        url: String::new(),
        refresh_token: String::new(),
        timestamp: 0,
        code,
        message: "msg".to_string(),
    };
    let poll = |code: i32, d: Option<QrCodePollData>| QrCodePollResponse { code, message: "m".to_string(), data: d };
    assert_eq!(interpret_poll(poll(0, Some(data(0)))), Ok(LoginStatus::Success));
    assert_eq!(interpret_poll(poll(0, Some(data(86038)))), Ok(LoginStatus::Expired));
    assert_eq!(interpret_poll(poll(0, Some(data(86090)))), Ok(LoginStatus::WaitingScan));
    assert_eq!(interpret_poll(poll(0, Some(data(86101)))), Ok(LoginStatus::WaitingConfirm));
    assert_eq!(interpret_poll(poll(0, Some(data(1)))), Ok(LoginStatus::Failed("msg".to_string())));
    assert!(interpret_poll(poll(-1, None)).is_err());
    assert!(interpret_poll(poll(0, None)).is_err());
    let g = QrCodeGenerateResponse { code: 1, message: "no".to_string(), data: None };
    assert!(interpret_generate(g).is_err());
    assert_eq!(
        qrcode_poll_url("k"),
        "https://passport.bilibili.com/x/passport-login/web/qrcode/poll?qrcode_key=k"
    );
}

#[test]
fn netscape_export() {
    let c = BilibiliCookie {
        sessdata: "s".to_string(),
        bili_jct: "j".to_string(),
        dede_user_id: "1".to_string(),
        created_at: 0,
    };
    assert_eq!(
        netscape_cookie_file(&c),
        "# Netscape HTTP Cookie File\n.bilibili.com\tTRUE\t/\tFALSE\t0\tSESSDATA\ts\n.bilibili.com\tTRUE\t/\tFALSE\t0\tbili_jct\tj\n.bilibili.com\tTRUE\t/\tFALSE\t0\tDedeUserID\t1\n"
    );
    let auth = BilibiliAuth::new("/tmp/test_bilibili".to_string());
    assert_eq!(auth.cookie_path(), "/tmp/test_bilibili/bilibili_cookies.enc");
    assert_eq!(auth.key_path(), "/tmp/test_bilibili/bilibili_key.bin");
}

#[test]
fn generated_keys_have_cipher_lengths() {
    assert_eq!(generate_key().len(), 32);
    assert_eq!(generate_nonce().len(), 12);
    assert_ne!(generate_key(), generate_key());
}

#[test]
fn login_cookie_prefers_headers() {
    let headers = vec!["SESSDATA=h".to_string(), "bili_jct=j".to_string(), "DedeUserID=1".to_string()];
    let url = "https://e.com/?SESSDATA=u&bili_jct=k&DedeUserID=2";
    assert_eq!(login_cookie(&headers, url, 5).unwrap().sessdata, "h");
    assert_eq!(login_cookie(&vec![], url, 5).unwrap().sessdata, "u");
    assert!(login_cookie(&vec![], "https://e.com/", 5).is_none());
}
