use vstd::prelude::*;

use aes_gcm::aead::{Aead, KeyInit};
use rand::RngCore;

use crate::error::NebulaError;
use crate::http::path_join_of;
use crate::task::trim_start_all;
use crate::text::{chars_of, owned, push_str, starts_with, starts_with_exec, string_of};

verus! {

/// Base URL of the Bilibili passport API.
pub const PASSPORT_URL: &'static str = "https://passport.bilibili.com";

/// Length of an AES-256 key.
pub const KEY_LEN: usize = 32;

/// Length of an AES-GCM nonce.
pub const NONCE_LEN: usize = 12;

/// Longest plaintext AES-GCM seals (2^36 bytes).
pub const MAX_PLAINTEXT: u64 = 0x10_0000_0000;

/// Answer of the QR-code generation endpoint.
#[derive(Debug, Clone, PartialEq, Eq)]
pub struct QrCodeGenerateResponse {
    pub code: i32,
    pub message: String,
    pub data: Option<QrCodeData>,
}

/// A login QR code.
#[derive(Debug, Clone, PartialEq, Eq)]
pub struct QrCodeData {
    /// URL to show as a QR code.
    pub url: String,
    /// Key to poll the login state with.
    pub qrcode_key: String,
}

/// Answer of the QR-code polling endpoint.
#[derive(Debug, Clone, PartialEq, Eq)]
pub struct QrCodePollResponse {
    pub code: i32,
    pub message: String,
    pub data: Option<QrCodePollData>,
}

/// State of a QR-code login.
#[derive(Debug, Clone, PartialEq, Eq)]
pub struct QrCodePollData {
    /// Login URL, with the cookies as query parameters once confirmed.
    pub url: String,
    pub refresh_token: String,
    pub timestamp: i64,
    /// 0 success, 86038 expired, 86090 waiting for a scan, 86101 scanned and waiting for
    /// confirmation.
    pub code: i32,
    pub message: String,
}

/// Where a QR-code login stands.
#[derive(Debug, Clone, PartialEq, Eq)]
pub enum LoginStatus {
    WaitingScan,
    WaitingConfirm,
    Success,
    Expired,
    Failed(String),
}

/// The login cookies kept in the vault.
#[derive(Debug, Clone, PartialEq, Eq)]
pub struct BilibiliCookie {
    pub sessdata: String,
    pub bili_jct: String,
    pub dede_user_id: String,
    /// When they were obtained, in seconds since the Unix epoch.
    pub created_at: i64,
}

/// The URL that creates a login QR code.
pub fn qrcode_generate_url() -> (r: String)
    ensures
        r@ == PASSPORT_URL@ + "/x/passport-login/web/qrcode/generate"@,
{
    let mut r = owned(PASSPORT_URL);
    push_str(&mut r, "/x/passport-login/web/qrcode/generate");
    r
}

/// The URL that polls the login state of a QR code.
pub fn qrcode_poll_url(qrcode_key: &str) -> (r: String)
    ensures
        r@ == PASSPORT_URL@ + "/x/passport-login/web/qrcode/poll?qrcode_key="@ + qrcode_key@,
{
    let mut r = owned(PASSPORT_URL);
    push_str(&mut r, "/x/passport-login/web/qrcode/poll?qrcode_key=");
    push_str(&mut r, qrcode_key);
    r
}

/// The QR code of a generation answer: an error unless the code is 0 and data came.
pub fn interpret_generate(resp: QrCodeGenerateResponse) -> (r: Result<QrCodeData, NebulaError>)
    ensures
        resp.code != 0 ==> r is Err && r->Err_0 is Internal && r->Err_0->Internal_0@ == "生成二维码失败: "@
            + resp.message@,
        resp.code == 0 && resp.data is None ==> r is Err && r->Err_0 is Internal,
        resp.code == 0 && resp.data is Some ==> r == Ok::<QrCodeData, NebulaError>(resp.data->0),
{
    if resp.code != 0 {
        let mut m = owned("生成二维码失败: ");
        push_str(&mut m, resp.message.as_str());
        return Err(NebulaError::Internal(m));
    }
    match resp.data {
        Some(d) => Ok(d),
        None => Err(NebulaError::Internal(owned("二维码数据为空"))),
    }
}

/// The login state of a polling answer. `Success` means the caller must now take the
/// cookies from the answer (see `parse_cookies` and `cookie_from_url`).
pub fn interpret_poll(resp: QrCodePollResponse) -> (r: Result<LoginStatus, NebulaError>)
    ensures
        resp.code != 0 ==> r is Err && r->Err_0 is Internal && r->Err_0->Internal_0@ == "轮询失败: "@
            + resp.message@,
        resp.code == 0 && resp.data is None ==> r is Err && r->Err_0 is Internal,
        resp.code == 0 && resp.data is Some ==> r == Ok::<LoginStatus, NebulaError>(
            match resp.data->0.code {
                0 => LoginStatus::Success,
                86038 => LoginStatus::Expired,
                86090 => LoginStatus::WaitingScan,
                86101 => LoginStatus::WaitingConfirm,
                _ => LoginStatus::Failed(resp.data->0.message),
            },
        ),
{
    if resp.code != 0 {
        let mut m = owned("轮询失败: ");
        push_str(&mut m, resp.message.as_str());
        return Err(NebulaError::Internal(m));
    }
    match resp.data {
        Some(d) => Ok(
            if d.code == 0 {
                LoginStatus::Success
            } else if d.code == 86038 {
                LoginStatus::Expired
            } else if d.code == 86090 {
                LoginStatus::WaitingScan
            } else if d.code == 86101 {
                LoginStatus::WaitingConfirm
            } else {
                LoginStatus::Failed(d.message)
            },
        ),
        None => Err(NebulaError::Internal(owned("轮询数据为空"))),
    }
}

/// The value of the last `name=value` cookie with the given `name=` prefix (every leading
/// repetition of the prefix removed).
pub open spec fn cookie_value(cookies: Seq<Seq<char>>, prefix: Seq<char>) -> Option<Seq<char>>
    decreases cookies.len(),
{
    if cookies.len() == 0 {
        None
    } else if starts_with(cookies.last(), prefix) {
        Some(trim_start_all(cookies.last(), prefix))
    } else {
        cookie_value(cookies.drop_last(), prefix)
    }
}

/// The characters of each string.
pub open spec fn string_views(v: Seq<String>) -> Seq<Seq<char>> {
    v.map_values(|x: String| x@)
}

fn trimmed_value(c: &Vec<char>, prefix: &Vec<char>) -> (r: String)
    ensures
        r@ == trim_start_all(c@, prefix@),
{
    if prefix.len() == 0 {
        return string_of(c, 0, c.len());
    }
    let mut i: usize = 0;
    let n = c.len();
    assert(n == c@.len());
    assert(c@.subrange(0, c@.len() as int) =~= c@);
    while crate::text::occurs_at_exec(c, prefix, i)
        invariant
            prefix@.len() > 0,
            i <= c@.len(),
            c@.len() <= usize::MAX,
            trim_start_all(c@, prefix@) == trim_start_all(
                c@.subrange(i as int, c@.len() as int),
                prefix@,
            ),
        decreases c@.len() - i,
    {
        let ghost rest = c@.subrange(i as int, c@.len() as int);
        assert(rest.subrange(0, prefix@.len() as int) =~= c@.subrange(
            i as int,
            i + prefix@.len(),
        ));
        assert(rest.subrange(prefix@.len() as int, rest.len() as int) =~= c@.subrange(
            i + prefix@.len(),
            c@.len() as int,
        ));
        i += prefix.len();
    }
    let ghost rest = c@.subrange(i as int, c@.len() as int);
    assert(!starts_with(rest, prefix@)) by {
        if starts_with(rest, prefix@) {
            assert(rest.subrange(0, prefix@.len() as int) =~= c@.subrange(
                i as int,
                i + prefix@.len(),
            ));
        }
    }
    string_of(c, i, c.len())
}

fn last_cookie(cookies: &Vec<String>, prefix: &str) -> (r: Option<String>)
    ensures
        crate::task::opt_view(r) == cookie_value(string_views(cookies@), prefix@),
{
    let p = chars_of(prefix);
    let mut k = cookies.len();
    assert(string_views(cookies@).subrange(0, k as int) =~= string_views(cookies@));
    while k > 0
        invariant
            p@ == prefix@,
            k <= cookies@.len(),
            cookie_value(string_views(cookies@), prefix@) == cookie_value(
                string_views(cookies@).subrange(0, k as int),
                prefix@,
            ),
        decreases k,
    {
        let ghost pre = string_views(cookies@).subrange(0, k as int);
        assert(pre.last() == cookies@[k - 1]@);
        assert(pre.drop_last() =~= string_views(cookies@).subrange(0, k - 1));
        let c = chars_of(cookies[k - 1].as_str());
        if starts_with_exec(&c, &p) {
            return Some(trimmed_value(&c, &p));
        }
        k -= 1;
    }
    None
}

/// The login cookies among `Set-Cookie` pairs (`name=value`): all three of `SESSDATA`,
/// `bili_jct` and `DedeUserID` are needed; the last of each counts.
pub fn parse_cookies(cookies: &Vec<String>, created_at: i64) -> (r: Option<BilibiliCookie>)
    ensures
        cookie_is(r, header_login(string_views(cookies@)), created_at),
{
    let s = last_cookie(cookies, "SESSDATA=");
    let b = last_cookie(cookies, "bili_jct=");
    let d = last_cookie(cookies, "DedeUserID=");
    match (s, b, d) {
        (Some(s), Some(b), Some(d)) => Some(
            BilibiliCookie { sessdata: s, bili_jct: b, dede_user_id: d, created_at },
        ),
        _ => None,
    }
}

/// What `url::Url::parse` and `Url::query_pairs` give for a text: `None` when it is no URL,
/// else the decoded query pairs in order.
pub uninterp spec fn url_query_pairs(u: Seq<char>) -> Option<Seq<(Seq<char>, Seq<char>)>>;

/// Relies on url::Url::parse and Url::query_pairs: the URL's decoded `key=value` pairs, in
/// order; `None` when the text does not parse as a URL.
#[verifier::external_body]
fn query_pairs(u: &str) -> (r: Option<Vec<(String, String)>>)
    ensures
        match r {
            Some(v) => url_query_pairs(u@) == Some(
                v@.map_values(|p: (String, String)| (p.0@, p.1@)),
            ),
            None => url_query_pairs(u@) is None,
        },
{
    url::Url::parse(u).ok().map(
        |url| url.query_pairs().map(|(k, v)| (k.into_owned(), v.into_owned())).collect(),
    )
}

/// The value of the last pair with key `key` (later pairs win, as when collected into a map).
pub open spec fn pair_value(pairs: Seq<(Seq<char>, Seq<char>)>, key: Seq<char>) -> Option<Seq<char>>
    decreases pairs.len(),
{
    if pairs.len() == 0 {
        None
    } else if pairs.last().0 == key {
        Some(pairs.last().1)
    } else {
        pair_value(pairs.drop_last(), key)
    }
}

fn last_pair(pairs: &Vec<(String, String)>, key: &str) -> (r: Option<String>)
    ensures
        crate::task::opt_view(r) == pair_value(
            pairs@.map_values(|p: (String, String)| (p.0@, p.1@)),
            key@,
        ),
{
    let ghost pv = pairs@.map_values(|p: (String, String)| (p.0@, p.1@));
    let kc = chars_of(key);
    let mut k = pairs.len();
    assert(pv.subrange(0, k as int) =~= pv);
    while k > 0
        invariant
            kc@ == key@,
            k <= pairs@.len(),
            pv == pairs@.map_values(|p: (String, String)| (p.0@, p.1@)),
            pair_value(pv, key@) == pair_value(pv.subrange(0, k as int), key@),
        decreases k,
    {
        let ghost pre = pv.subrange(0, k as int);
        assert(pre.last() == (pairs@[k - 1].0@, pairs@[k - 1].1@));
        assert(pre.drop_last() =~= pv.subrange(0, k - 1));
        let name = chars_of(pairs[k - 1].0.as_str());
        if name.len() == kc.len() && starts_with_exec(&name, &kc) {
            assert(name@.subrange(0, kc@.len() as int) =~= name@);
            return Some(pairs[k - 1].1.clone());
        }
        proof {
            if name@ == kc@ {
                assert(name@.subrange(0, kc@.len() as int) =~= name@);
            }
        }
        k -= 1;
    }
    None
}

/// The login cookies from the query of a login URL: all three of `SESSDATA`, `bili_jct`
/// and `DedeUserID` are needed.
pub fn cookie_from_url(url: &str, created_at: i64) -> (r: Option<BilibiliCookie>)
    ensures
        cookie_is(r, url_login(url@), created_at),
{
    let pairs = match query_pairs(url) {
        Some(p) => p,
        None => {
            return None;
        },
    };
    let s = last_pair(&pairs, "SESSDATA");
    let b = last_pair(&pairs, "bili_jct");
    let d = last_pair(&pairs, "DedeUserID");
    match (s, b, d) {
        (Some(s), Some(b), Some(d)) => Some(
            BilibiliCookie { sessdata: s, bili_jct: b, dede_user_id: d, created_at },
        ),
        _ => None,
    }
}

/// `SESSDATA`, `bili_jct` and `DedeUserID` of the `Set-Cookie` pairs, when all three come.
pub open spec fn header_login(cookies: Seq<Seq<char>>) -> Option<(Seq<char>, Seq<char>, Seq<char>)> {
    let s = cookie_value(cookies, "SESSDATA="@);
    let b = cookie_value(cookies, "bili_jct="@);
    let d = cookie_value(cookies, "DedeUserID="@);
    if s is Some && b is Some && d is Some {
        Some((s->0, b->0, d->0))
    } else {
        None
    }
}

/// `SESSDATA`, `bili_jct` and `DedeUserID` of a login URL's query, when all three come.
pub open spec fn url_login(url: Seq<char>) -> Option<(Seq<char>, Seq<char>, Seq<char>)> {
    match url_query_pairs(url) {
        None => None,
        Some(ps) => {
            let s = pair_value(ps, "SESSDATA"@);
            let b = pair_value(ps, "bili_jct"@);
            let d = pair_value(ps, "DedeUserID"@);
            if s is Some && b is Some && d is Some {
                Some((s->0, b->0, d->0))
            } else {
                None
            }
        },
    }
}

/// `r` holds the three values `f`, obtained at `created_at`, or nothing when `f` is `None`.
pub open spec fn cookie_is(
    r: Option<BilibiliCookie>,
    f: Option<(Seq<char>, Seq<char>, Seq<char>)>,
    created_at: i64,
) -> bool {
    match f {
        Some((s, b, d)) => r is Some && r->0.sessdata@ == s && r->0.bili_jct@ == b
            && r->0.dede_user_id@ == d && r->0.created_at == created_at,
        None => r is None,
    }
}

/// The cookies of a confirmed login: those of the `Set-Cookie` headers when all three are
/// there, else those of the login URL's query.
pub fn login_cookie(cookies: &Vec<String>, login_url: &str, created_at: i64) -> (r: Option<
    BilibiliCookie,
>)
    ensures
        cookie_is(
            r,
            match header_login(string_views(cookies@)) {
                Some(f) => Some(f),
                None => url_login(login_url@),
            },
            created_at,
        ),
{
    match parse_cookies(cookies, created_at) {
        Some(c) => Some(c),
        None => cookie_from_url(login_url, created_at),
    }
}

/// The cookie file in Netscape format that the extractor reads.
pub open spec fn netscape_text(c: BilibiliCookie) -> Seq<char> {
    "# Netscape HTTP Cookie File\n"@ + ".bilibili.com\tTRUE\t/\tFALSE\t0\tSESSDATA\t"@ + c.sessdata@
        + "\n"@ + ".bilibili.com\tTRUE\t/\tFALSE\t0\tbili_jct\t"@ + c.bili_jct@ + "\n"@
        + ".bilibili.com\tTRUE\t/\tFALSE\t0\tDedeUserID\t"@ + c.dede_user_id@ + "\n"@
}

/// Renders the cookies as a Netscape cookie file.
pub fn netscape_cookie_file(c: &BilibiliCookie) -> (r: String)
    ensures
        r@ == netscape_text(*c),
{
    let mut r = owned("# Netscape HTTP Cookie File\n");
    push_str(&mut r, ".bilibili.com\tTRUE\t/\tFALSE\t0\tSESSDATA\t");
    push_str(&mut r, c.sessdata.as_str());
    push_str(&mut r, "\n");
    push_str(&mut r, ".bilibili.com\tTRUE\t/\tFALSE\t0\tbili_jct\t");
    push_str(&mut r, c.bili_jct.as_str());
    push_str(&mut r, "\n");
    push_str(&mut r, ".bilibili.com\tTRUE\t/\tFALSE\t0\tDedeUserID\t");
    push_str(&mut r, c.dede_user_id.as_str());
    push_str(&mut r, "\n");
    r
}

/// What `Aead::encrypt` of `Aes256Gcm` gives for a key, a nonce and a plaintext: the
/// ciphertext followed by the tag.
pub uninterp spec fn aead_seal(key: Seq<u8>, nonce: Seq<u8>, plaintext: Seq<u8>) -> Seq<u8>;

/// aes_gcm::Error, the opaque failure of encryption and decryption.
#[verifier::external_type_specification]
#[verifier::external_body]
pub struct ExAeadError(aes_gcm::Error);

/// Relies on aes_gcm::Aes256Gcm (Aead::encrypt): a 32-byte key and a 12-byte nonce seal
/// any plaintext of at most 2^36 bytes into as many bytes followed by a 16-byte tag; a
/// longer one is refused.
#[verifier::external_body]
fn aes_seal(key: &Vec<u8>, nonce: &Vec<u8>, plaintext: &Vec<u8>) -> (r: Result<Vec<u8>, aes_gcm::Error>)
    requires
        key@.len() == KEY_LEN,
        nonce@.len() == NONCE_LEN,
    ensures
        r is Ok <==> plaintext@.len() <= MAX_PLAINTEXT,
        r is Ok ==> r->Ok_0@ == aead_seal(key@, nonce@, plaintext@),
        r is Ok ==> r->Ok_0@.len() == plaintext@.len() + 16,
{
    let cipher = aes_gcm::Aes256Gcm::new_from_slice(key).map_err(|_| aes_gcm::Error)?;
    cipher.encrypt(aes_gcm::Nonce::from_slice(nonce), plaintext.as_slice())
}

/// Relies on aes_gcm::Aes256Gcm (Aead::decrypt): under the same key and nonce, opening what
/// encrypt sealed gives the plaintext back.
#[verifier::external_body]
fn aes_open(key: &Vec<u8>, nonce: &Vec<u8>, sealed: &Vec<u8>) -> (r: Result<Vec<u8>, aes_gcm::Error>)
    requires
        key@.len() == KEY_LEN,
        nonce@.len() == NONCE_LEN,
    ensures
        forall|p: Seq<u8>|
            p.len() <= MAX_PLAINTEXT && sealed@ == aead_seal(key@, nonce@, p) ==> r is Ok
                && r->Ok_0@ == p,
{
    let cipher = aes_gcm::Aes256Gcm::new_from_slice(key).map_err(|_| aes_gcm::Error)?;
    cipher.decrypt(aes_gcm::Nonce::from_slice(nonce), sealed.as_slice())
}

/// Relies on rand::rng and RngCore::fill_bytes: `n` bytes from the thread's cryptographic
/// generator.
#[verifier::external_body]
fn random_bytes(n: usize) -> (r: Vec<u8>)
    ensures
        r@.len() == n,
{
    let mut v = vec![0u8; n];
    rand::rng().fill_bytes(&mut v);
    v
}

/// A fresh random vault key.
pub fn generate_key() -> (r: Vec<u8>)
    ensures
        r@.len() == KEY_LEN,
{
    random_bytes(KEY_LEN)
}

/// A fresh random nonce.
pub fn generate_nonce() -> (r: Vec<u8>)
    ensures
        r@.len() == NONCE_LEN,
{
    random_bytes(NONCE_LEN)
}

/// The stored key when the key file holds exactly 32 bytes; otherwise a new one is needed.
pub fn usable_key(stored: Option<Vec<u8>>) -> (r: Option<Vec<u8>>)
    ensures
        match stored {
            Some(k) => if k@.len() == KEY_LEN {
                r == Some(k)
            } else {
                r is None
            },
            None => r is None,
        },
{
    match stored {
        Some(k) => if k.len() == KEY_LEN {
            Some(k)
        } else {
            None
        },
        None => None,
    }
}

/// The vault framing: the nonce followed by the sealed plaintext.
pub open spec fn vault_blob(key: Seq<u8>, nonce: Seq<u8>, plaintext: Seq<u8>) -> Seq<u8> {
    nonce + aead_seal(key, nonce, plaintext)
}

/// `data` is a vault blob of `plaintext` under `key`: a nonce, then what sealing the
/// plaintext under that nonce gives.
pub open spec fn sealed_by(key: Seq<u8>, data: Seq<u8>, plaintext: Seq<u8>) -> bool {
    &&& data.len() >= NONCE_LEN
    &&& data.subrange(NONCE_LEN as int, data.len() as int) == aead_seal(
        key,
        data.subrange(0, NONCE_LEN as int),
        plaintext,
    )
}

/// Encrypts the serialized cookies for the vault: `nonce ‖ AES-256-GCM(key, nonce, plaintext)`.
pub fn seal_vault(key: &Vec<u8>, nonce: &Vec<u8>, plaintext: &Vec<u8>) -> (r: Result<Vec<u8>, NebulaError>)
    ensures
        key@.len() != KEY_LEN || nonce@.len() != NONCE_LEN ==> r is Err && r->Err_0 is Internal,
        key@.len() == KEY_LEN && nonce@.len() == NONCE_LEN ==> (r is Ok <==> plaintext@.len()
            <= MAX_PLAINTEXT),
        r is Ok ==> r->Ok_0@ == vault_blob(key@, nonce@, plaintext@),
        r is Ok ==> r->Ok_0@.len() == NONCE_LEN + plaintext@.len() + 16,
{
    if key.len() != KEY_LEN || nonce.len() != NONCE_LEN {
        return Err(NebulaError::Internal(owned("创建加密器失败: 密钥或随机数长度无效")));
    }
    match aes_seal(key, nonce, plaintext) {
        Ok(sealed) => {
            let mut data: Vec<u8> = Vec::new();
            let mut i: usize = 0;
            while i < nonce.len()
                invariant
                    i <= nonce@.len(),
                    data@ == nonce@.subrange(0, i as int),
                decreases nonce@.len() - i,
            {
                data.push(nonce[i]);
                i += 1;
                assert(data@ =~= nonce@.subrange(0, i as int));
            }
            let mut j: usize = 0;
            while j < sealed.len()
                invariant
                    nonce@.len() == NONCE_LEN,
                    j <= sealed@.len(),
                    data@ == nonce@ + sealed@.subrange(0, j as int),
                decreases sealed@.len() - j,
            {
                data.push(sealed[j]);
                j += 1;
                assert(data@ =~= nonce@ + sealed@.subrange(0, j as int));
            }
            assert(sealed@.subrange(0, sealed@.len() as int) =~= sealed@);
            assert(nonce@.subrange(0, nonce@.len() as int) =~= nonce@);
            Ok(data)
        },
        Err(_) => Err(NebulaError::Internal(owned("加密失败"))),
    }
}

fn byte_range(v: &Vec<u8>, from: usize, to: usize) -> (r: Vec<u8>)
    requires
        from <= to <= v@.len(),
    ensures
        r@ == v@.subrange(from as int, to as int),
{
    let mut r: Vec<u8> = Vec::new();
    let mut i = from;
    while i < to
        invariant
            from <= i <= to <= v@.len(),
            r@ == v@.subrange(from as int, i as int),
        decreases to - i,
    {
        r.push(v[i]);
        i += 1;
        assert(r@ =~= v@.subrange(from as int, i as int));
    }
    r
}

/// Decrypts a vault blob: `None` when it is too short to hold a nonce; the plaintext of
/// every blob that `seal_vault` made under the same key.
pub fn open_vault(key: &Vec<u8>, data: &Vec<u8>) -> (r: Result<Option<Vec<u8>>, NebulaError>)
    ensures
        key@.len() != KEY_LEN ==> r is Err && r->Err_0 is Internal,
        key@.len() == KEY_LEN && data@.len() < NONCE_LEN ==> r == Ok::<
            Option<Vec<u8>>,
            NebulaError,
        >(None),
        key@.len() == KEY_LEN ==> forall|p: Seq<u8>|
            p.len() <= MAX_PLAINTEXT && sealed_by(key@, data@, p) ==> r is Ok && r->Ok_0 is Some
                && r->Ok_0->0@ == p,
{
    if key.len() != KEY_LEN {
        return Err(NebulaError::Internal(owned("创建解密器失败: 密钥长度无效")));
    }
    if data.len() < NONCE_LEN {
        return Ok(None);
    }
    let nonce = byte_range(data, 0, NONCE_LEN);
    let sealed = byte_range(data, NONCE_LEN, data.len());
    match aes_open(key, &nonce, &sealed) {
        Ok(p) => Ok(Some(p)),
        Err(_) => Err(NebulaError::Internal(owned("解密失败"))),
    }
}

/// The vault round trip: a blob made by sealing a plaintext (of at most 2^36 bytes) under a
/// key and a 12-byte nonce is sealed by that key for that plaintext, so `open_vault` gives
/// back exactly what `seal_vault` encrypted.
pub proof fn lemma_vault_round_trip(key: Seq<u8>, nonce: Seq<u8>, plaintext: Seq<u8>)
    requires
        nonce.len() == NONCE_LEN,
    ensures
        sealed_by(key, vault_blob(key, nonce, plaintext), plaintext),
{
    let blob = vault_blob(key, nonce, plaintext);
    assert(blob.subrange(0, NONCE_LEN as int) =~= nonce);
    assert(blob.subrange(NONCE_LEN as int, blob.len() as int) =~= aead_seal(key, nonce, plaintext));
}

/// Where the vault keeps its files under a data directory.
#[derive(Debug, Clone, PartialEq, Eq)]
pub struct BilibiliAuth {
    /// The data directory.
    pub data_dir: String,
}

impl BilibiliAuth {
    pub fn new(data_dir: String) -> (r: BilibiliAuth)
        ensures
            r.data_dir == data_dir,
    {
        BilibiliAuth { data_dir }
    }

    /// The encrypted cookies: `<data_dir>/bilibili_cookies.enc`.
    pub fn cookie_path(&self) -> (r: String)
        ensures
            r@ == path_join_of(self.data_dir@, "bilibili_cookies.enc"@),
    {
        crate::http::destination(self.data_dir.as_str(), true, "bilibili_cookies.enc")
    }

    /// The key: `<data_dir>/bilibili_key.bin`.
    pub fn key_path(&self) -> (r: String)
        ensures
            r@ == path_join_of(self.data_dir@, "bilibili_key.bin"@),
    {
        crate::http::destination(self.data_dir.as_str(), true, "bilibili_key.bin")
    }

    /// The Netscape export: `<data_dir>/bilibili_cookies.txt`.
    pub fn export_path(&self) -> (r: String)
        ensures
            r@ == path_join_of(self.data_dir@, "bilibili_cookies.txt"@),
    {
        crate::http::destination(self.data_dir.as_str(), true, "bilibili_cookies.txt")
    }
}

} // verus!
