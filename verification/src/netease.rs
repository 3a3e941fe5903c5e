//! The NetEase API client's own logic: endpoints, the eapi request encoding,
//! the request payloads, and reading the API replies.
use vstd::prelude::*;
use vstd::string::*;
use vstd::utf8::{encode_scalar, encode_utf8};
use crate::error::DownloadError;
use crate::json::{
    JsonValue, clone_opt_string, field, first_of, get_field, get_first, get_i64, get_items, get_str,
    get_u64, i64_of, items_of, str_of, text_or, text_or_default, text_or_empty, u64_of,
};
use crate::text::{
    hex_encode, hex_spec, i64_to_string, is_upper_hex_digit, lemma_hex_upper_digits,
    signed_decimal_spec,
};
use crate::types::{Album, AlbumInfo, AlbumInfoView, AlbumView, Artist, Song, SongView};

verus! {

/// The API host used when none is configured.
pub open spec fn default_api_base() -> Seq<char> {
    "https://interface3.music.163.com"@
}

#[derive(Clone, Debug)]
pub struct NeteaseClient {
    pub proxy_url: Option<String>,
    pub api_base: String,
}

/// `s` without its trailing `/` characters.
pub open spec fn trim_trailing_slashes(s: Seq<char>) -> Seq<char>
    decreases s.len(),
{
    if s.len() > 0 && s.last() == '/' {
        trim_trailing_slashes(s.drop_last())
    } else {
        s
    }
}

impl NeteaseClient {
    /// A client without a proxy, talking to `api_base` when it is given
    /// (the program takes it from `NETEASE_API_BASE`), else to the default
    /// host.
    pub fn new(api_base: Option<String>) -> (r: NeteaseClient)
        ensures
            r.proxy_url is None,
            r.api_base@ == match api_base {
                Some(b) => b@,
                None => default_api_base(),
            },
    {
        let base = match api_base {
            Some(b) => b,
            None => String::from_str("https://interface3.music.163.com"),
        };
        NeteaseClient { proxy_url: None, api_base: base }
    }

    /// The full URL of an API path: the base without trailing `/`, then `path`.
    pub fn api_endpoint(&self, path: &str) -> (r: String)
        ensures
            r@ == trim_trailing_slashes(self.api_base@) + path@,
    {
        let base = self.api_base.as_str();
        let mut n = base.unicode_len();
        assert(base@.subrange(0, n as int) =~= base@);
        while n > 0 && base.get_char(n - 1) == '/'
            invariant
                n <= base@.len(),
                trim_trailing_slashes(base@) == trim_trailing_slashes(base@.subrange(0, n as int)),
            decreases n,
        {
            assert(base@.subrange(0, n as int).drop_last() =~= base@.subrange(0, n - 1));
            n -= 1;
        }
        let mut r = String::from_str(base.substring_char(0, n));
        r.append(path);
        r
    }

    /// Uses `proxy_url` for the requests that follow.
    pub fn set_proxy(&mut self, proxy_url: Option<String>)
        ensures
            final(self).proxy_url == proxy_url,
            final(self).api_base == old(self).api_base,
    {
        self.proxy_url = proxy_url;
    }
}

// ---------------------------------------------------------------- eapi

/// The MD5 digest of `data`, as the `md5` crate computes it.
pub uninterp spec fn md5_digest(data: Seq<u8>) -> Seq<u8>;

/// `"1234567890"` eight times over: 80 bytes, more than one 64-byte block.
pub open spec fn md5_digits_80() -> Seq<u8> {
    Seq::new(80, |i: int| (if i % 10 == 9 { 48int } else { 49 + i % 10 }) as u8)
}

/// `"0123456789"` repeated to 64 bytes: exactly one block.
pub open spec fn md5_digits_64() -> Seq<u8> {
    Seq::new(64, |i: int| (48 + i % 10) as u8)
}

/// `n` zero bytes.
pub open spec fn md5_zeros(n: nat) -> Seq<u8> {
    Seq::new(n, |i: int| 0u8)
}

/// Calls `md5::compute(data)` and hands back the 16 bytes of the digest.
/// The result is the MD5 digest (RFC 1321) of all the bytes, a function of
/// them alone; a `Digest` holds exactly 16 bytes. The known digests below
/// are those the `md5` crate's own tests check: two messages from the RFC
/// 1321 test suite, one of them longer than a block, and two runs of zero
/// bytes (2^29 and 2^32 of them) that agree on every byte of their first
/// block and differ in digest.
#[verifier::external_body]
fn md5_compute(data: &[u8]) -> (r: Vec<u8>)
    ensures
        r@ == md5_digest(data@),
        r@.len() == 16,
        data@ == Seq::<u8>::empty() ==> r@ == seq![
            0xd4u8, 0x1d, 0x8c, 0xd9, 0x8f, 0x00, 0xb2, 0x04, 0xe9, 0x80, 0x09, 0x98, 0xec, 0xf8,
            0x42, 0x7e,
        ],
        data@ == md5_digits_64() ==> r@ == seq![
            0x7fu8, 0x7b, 0xfd, 0x34, 0x87, 0x09, 0xde, 0xea, 0xac, 0xe1, 0x9e, 0x3f, 0x53, 0x5f,
            0x8c, 0x54,
        ],
        data@ == md5_digits_80() ==> r@ == seq![
            0x57u8, 0xed, 0xf4, 0xa2, 0x2b, 0xe3, 0xc9, 0x55, 0xac, 0x49, 0xda, 0x2e, 0x21, 0x07,
            0xb6, 0x7a,
        ],
        data@ == md5_zeros(536870912) ==> r@ == seq![
            0xaau8, 0x55, 0x9b, 0x4e, 0x35, 0x23, 0xa6, 0xc9, 0x31, 0xf0, 0x8f, 0x4d, 0xf5, 0x2d,
            0x58, 0xf2,
        ],
        data@ == md5_zeros(4294967296) ==> r@ == seq![
            0xc9u8, 0xa5, 0xa6, 0x87, 0x8d, 0x97, 0xb4, 0x8c, 0xc9, 0x65, 0xc1, 0xe4, 0x18, 0x59,
            0xf0, 0x34,
        ],
{
    md5::compute(data).0.to_vec()
}

/// AES-128 in ECB mode with PKCS#7 padding, as OpenSSL computes it.
pub uninterp spec fn aes128_ecb_encrypt(key: Seq<u8>, data: Seq<u8>) -> Seq<u8>;

#[verifier::external_type_specification]
#[verifier::external_body]
pub struct ExErrorStack(openssl::error::ErrorStack);

/// Calls `openssl::symm::encrypt` with `Cipher::aes_128_ecb()`, no IV, and
/// padding on. When OpenSSL succeeds the bytes are the encryption of `data`
/// under `key`, a function of the two alone; when it reports an error (a key
/// of the wrong length, for one) nothing is claimed of which error. Lengths
/// above `i32::MAX` make the crate panic, hence the bounds.
#[verifier::external_body]
fn aes_128_ecb_encrypt(key: &[u8], data: &[u8]) -> (r: Result<
    Vec<u8>,
    openssl::error::ErrorStack,
>)
    requires
        key@.len() <= 0x7fff_ffff,
        data@.len() <= 0x7fff_ffff,
    ensures
        r matches Ok(v) ==> v@ == aes128_ecb_encrypt(key@, data@),
{
    openssl::symm::encrypt(openssl::symm::Cipher::aes_128_ecb(), key, None, data)
}

/// Eight bytes from `rand::random::<[u8; 8]>()`, the thread-local generator;
/// nothing is claimed of their values.
#[verifier::external_body]
fn random_bytes() -> (r: Vec<u8>)
    ensures
        r@.len() == 8,
{
    rand::random::<[u8; 8]>().to_vec()
}

pub open spec fn eapi_key() -> Seq<char> {
    "e82ckenh8dichen8"@
}

/// The text whose MD5 digest signs an eapi request.
pub open spec fn eapi_message(path: Seq<char>, text: Seq<char>) -> Seq<char> {
    "nobody"@ + path + "use"@ + text + "md5forencrypt"@
}

/// The plaintext of an eapi request: path, payload and signature.
pub open spec fn eapi_plaintext_spec(path: Seq<char>, text: Seq<char>, digest: Seq<u8>) -> Seq<char> {
    path + "-36cd479b6b5-"@ + text + "-36cd479b6b5-"@ + hex_spec(digest, false)
}

/// The `params` value of an eapi request for API `path` and JSON payload
/// `text`.
pub open spec fn eapi_params_spec(path: Seq<char>, text: Seq<char>) -> Seq<char> {
    hex_spec(
        aes128_ecb_encrypt(
            encode_utf8(eapi_key()),
            encode_utf8(
                eapi_plaintext_spec(path, text, md5_digest(encode_utf8(eapi_message(path, text)))),
            ),
        ),
        true,
    )
}

pub proof fn lemma_encode_utf8_len(s: Seq<char>)
    ensures
        encode_utf8(s).len() <= 4 * s.len(),
    decreases s.len(),
{
    if s.len() > 0 {
        lemma_encode_utf8_len(s.drop_first());
        assert(encode_scalar(s[0] as u32).len() <= 4);
    }
}

pub proof fn lemma_encode_utf8_concat(a: Seq<char>, b: Seq<char>)
    ensures
        encode_utf8(a + b) == encode_utf8(a) + encode_utf8(b),
    decreases a.len(),
{
    if a.len() > 0 {
        lemma_encode_utf8_concat(a.drop_first(), b);
        assert((a + b).drop_first() =~= a.drop_first() + b);
        assert(encode_scalar(a[0] as u32) + (encode_utf8(a.drop_first()) + encode_utf8(b))
            =~= encode_scalar(a[0] as u32) + encode_utf8(a.drop_first()) + encode_utf8(b));
    } else {
        assert(a + b =~= b);
    }
}

fn text_bytes(s: &String) -> (r: Vec<u8>)
    ensures
        r@ == encode_utf8(s@),
{
    let b = s.as_str().as_bytes();
    let mut v: Vec<u8> = Vec::new();
    let n = b.len();
    let mut i: usize = 0;
    while i < n
        invariant
            i <= n,
            n == b@.len(),
            b@ == encode_utf8(s@),
            v@ == b@.take(i as int),
        decreases n - i,
    {
        v.push(b[i]);
        assert(b@.take(i + 1) =~= b@.take(i as int).push(b@[i as int]));
        i += 1;
    }
    assert(b@.take(n as int) =~= b@);
    v
}

/// The plaintext of an eapi request, given the digest that signs it.
pub fn eapi_plaintext(path: &str, text: &str, digest: &[u8]) -> (r: String)
    ensures
        r@ == eapi_plaintext_spec(path@, text@, digest@),
{
    let mut data = String::from_str(path);
    data.append("-36cd479b6b5-");
    data.append(text);
    data.append("-36cd479b6b5-");
    let hex = hex_encode(digest, false);
    data.append(hex.as_str());
    assert(data@ =~= eapi_plaintext_spec(path@, text@, digest@));
    data
}

/// The `params` value from the encrypted plaintext: upper-case hex.
pub fn eapi_params(encrypted: &[u8]) -> (r: String)
    ensures
        r@ == hex_spec(encrypted@, true),
{
    hex_encode(encrypted, true)
}

impl NeteaseClient {
    /// Encodes an eapi request: the payload is signed with an MD5 digest,
    /// encrypted with AES-128-ECB under the eapi key, and written as
    /// upper-case hex. Fails only when OpenSSL reports an error.
    pub fn eapi(path: &str, text: &str) -> (r: Result<String, DownloadError>)
        requires
            encode_utf8(path@).len() + encode_utf8(text@).len() <= 0x7fff_ffff - 58,
        ensures
            r matches Ok(p) ==> p@ == eapi_params_spec(path@, text@),
            r matches Err(e) ==> e == DownloadError::Encryption,
    {
        let mut message = String::from_str("nobody");
        message.append(path);
        message.append("use");
        message.append(text);
        message.append("md5forencrypt");
        assert(message@ =~= eapi_message(path@, text@));
        let message_bytes = text_bytes(&message);
        let digest = md5_compute(message_bytes.as_slice());
        let data = eapi_plaintext(path, text, digest.as_slice());
        proof {
            let sep = "-36cd479b6b5-"@;
            let hex = hex_spec(digest@, false);
            reveal_strlit("-36cd479b6b5-");
            reveal_strlit("e82ckenh8dichen8");
            crate::text::lemma_hex_spec_len(digest@, false);
            crate::text::lemma_hex_spec_ascii(digest@, false);
            vstd::utf8::is_ascii_chars_encode_utf8(hex);
            assert(vstd::utf8::is_ascii_chars(sep));
            vstd::utf8::is_ascii_chars_encode_utf8(sep);
            lemma_encode_utf8_len(eapi_key());
            lemma_encode_utf8_concat(path@ + sep + text@ + sep, hex);
            lemma_encode_utf8_concat(path@ + sep + text@, sep);
            lemma_encode_utf8_concat(path@ + sep, text@);
            lemma_encode_utf8_concat(path@, sep);
        }
        let data_bytes = text_bytes(&data);
        let key = String::from_str("e82ckenh8dichen8");
        let key_bytes = text_bytes(&key);
        match aes_128_ecb_encrypt(key_bytes.as_slice(), data_bytes.as_slice()) {
            Ok(encrypted) => Ok(eapi_params(encrypted.as_slice())),
            Err(_) => Err(DownloadError::Encryption),
        }
    }

    /// A fresh device id: eight random bytes as sixteen upper-case hex digits.
    pub fn random_device_id() -> (r: String)
        ensures
            exists|bytes: Seq<u8>| bytes.len() == 8 && r@ == hex_spec(bytes, true),
            r@.len() == 16,
            forall|i: int| 0 <= i < r@.len() ==> is_upper_hex_digit(#[trigger] r@[i]),
    {
        let bytes = random_bytes();
        proof {
            lemma_hex_upper_digits(bytes@);
        }
        hex_encode(bytes.as_slice(), true)
    }
}


/// The eapi `params` are upper-case hex: an even number of digits, each
/// `0-9` or `A-F`.
pub proof fn lemma_eapi_params_are_hex(path: Seq<char>, text: Seq<char>)
    ensures
        eapi_params_spec(path, text).len() % 2 == 0,
        forall|i: int|
            0 <= i < eapi_params_spec(path, text).len() ==> is_upper_hex_digit(
                #[trigger] eapi_params_spec(path, text)[i],
            ),
{
    lemma_hex_upper_digits(
        aes128_ecb_encrypt(
            encode_utf8(eapi_key()),
            encode_utf8(
                eapi_plaintext_spec(path, text, md5_digest(encode_utf8(eapi_message(path, text)))),
            ),
        ),
    );
}

/// An endpoint's base never ends with `/`, so no `//` is formed with a path.
pub proof fn lemma_endpoint_base_trimmed(base: Seq<char>)
    ensures
        trim_trailing_slashes(base).len() > 0 ==> trim_trailing_slashes(base).last() != '/',
    decreases base.len(),
{
    if base.len() > 0 && base.last() == '/' {
        lemma_endpoint_base_trimmed(base.drop_last());
    }
}

// ---------------------------------------------------------------- requests

/// An eapi request: the API path that is signed, the path of the endpoint
/// it is posted to, and its JSON payload.
#[derive(Debug)]
pub struct EapiRequest {
    pub api_path: String,
    pub endpoint_path: String,
    pub payload: JsonValue,
}

pub open spec fn is_text(v: JsonValue, t: Seq<char>) -> bool {
    v matches JsonValue::Str(s) && s@ == t
}

pub open spec fn is_member(m: (String, JsonValue), key: Seq<char>, t: Seq<char>) -> bool {
    m.0@ == key && is_text(m.1, t)
}

/// The `header` object every request carries: `os`, `appver`, `deviceId`.
pub open spec fn is_device_header(v: JsonValue, device_id: Seq<char>) -> bool {
    v matches JsonValue::Object(m) && m@.len() == 3 && is_member(m@[0], "os"@, "iOS"@) && is_member(
        m@[1],
        "appver"@,
        "2.5.1"@,
    ) && is_member(m@[2], "deviceId"@, device_id)
}

pub open spec fn is_int_member(m: (String, JsonValue), key: Seq<char>, i: i64) -> bool {
    m.0@ == key && (m.1 matches JsonValue::Number(n) && n.as_i64 == Some(i) && n.as_u64 == (if i
        >= 0 {
        Some(i as u64)
    } else {
        None
    }))
}

fn text_value(t: &str) -> (r: JsonValue)
    ensures
        is_text(r, t@),
{
    JsonValue::Str(String::from_str(t))
}

fn int_value(i: i64) -> (r: JsonValue)
    ensures
        r matches JsonValue::Number(n) && n.as_i64 == Some(i) && n.as_u64 == (if i >= 0 {
            Some(i as u64)
        } else {
            None
        }),
{
    let u = if i >= 0 {
        Some(i as u64)
    } else {
        None
    };
    JsonValue::Number(crate::json::JsonNumber { as_u64: u, as_i64: Some(i) })
}

fn device_header(device_id: &str) -> (r: JsonValue)
    ensures
        is_device_header(r, device_id@),
{
    let mut m: Vec<(String, JsonValue)> = Vec::new();
    m.push((String::from_str("os"), text_value("iOS")));
    m.push((String::from_str("appver"), text_value("2.5.1")));
    m.push((String::from_str("deviceId"), text_value(device_id)));
    JsonValue::Object(m)
}

/// The id list of a song-detail request, `[{"id": id}]`, which is sent as
/// JSON text inside the payload.
pub fn song_detail_id_list(id: &str) -> (r: JsonValue)
    ensures
        r matches JsonValue::Array(a) && a@.len() == 1 && (a@[0] matches JsonValue::Object(m)
            && m@.len() == 1 && is_member(m@[0], "id"@, id@)),
{
    let mut m: Vec<(String, JsonValue)> = Vec::new();
    m.push((String::from_str("id"), text_value(id)));
    let mut a: Vec<JsonValue> = Vec::new();
    a.push(JsonValue::Object(m));
    JsonValue::Array(a)
}

/// The song-detail request, given the id list as JSON text.
pub fn song_detail_request(id_list_json: &str, device_id: &str) -> (r: EapiRequest)
    ensures
        r.api_path@ == "/api/v3/song/detail"@,
        r.endpoint_path@ == "/eapi/v3/song/detail"@,
        r.payload matches JsonValue::Object(m) && m@.len() == 2 && is_member(
            m@[0],
            "c"@,
            id_list_json@,
        ) && m@[1].0@ == "header"@ && is_device_header(m@[1].1, device_id@),
{
    let mut m: Vec<(String, JsonValue)> = Vec::new();
    m.push((String::from_str("c"), text_value(id_list_json)));
    m.push((String::from_str("header"), device_header(device_id)));
    EapiRequest {
        api_path: String::from_str("/api/v3/song/detail"),
        endpoint_path: String::from_str("/eapi/v3/song/detail"),
        payload: JsonValue::Object(m),
    }
}

/// The request for a DJ program's details.
pub fn program_detail_request(program_id: &str, device_id: &str) -> (r: EapiRequest)
    ensures
        r.api_path@ == "/api/dj/program/detail"@,
        r.endpoint_path@ == "/eapi/dj/program/detail"@,
        r.payload matches JsonValue::Object(m) && m@.len() == 2 && is_member(
            m@[0],
            "id"@,
            program_id@,
        ) && m@[1].0@ == "header"@ && is_device_header(m@[1].1, device_id@),
{
    let mut m: Vec<(String, JsonValue)> = Vec::new();
    m.push((String::from_str("id"), text_value(program_id)));
    m.push((String::from_str("header"), device_header(device_id)));
    EapiRequest {
        api_path: String::from_str("/api/dj/program/detail"),
        endpoint_path: String::from_str("/eapi/dj/program/detail"),
        payload: JsonValue::Object(m),
    }
}

/// The request for an album: `/api/v1/album/<id>`.
pub fn album_request(album_id: &str, device_id: &str) -> (r: EapiRequest)
    ensures
        r.api_path@ == "/api/v1/album/"@ + album_id@,
        r.endpoint_path@ == "/eapi/v1/album/"@ + album_id@,
        r.payload matches JsonValue::Object(m) && m@.len() == 1 && m@[0].0@ == "header"@
            && is_device_header(m@[0].1, device_id@),
{
    let mut m: Vec<(String, JsonValue)> = Vec::new();
    m.push((String::from_str("header"), device_header(device_id)));
    EapiRequest {
        api_path: String::from_str("/api/v1/album/").concat(album_id),
        endpoint_path: String::from_str("/eapi/v1/album/").concat(album_id),
        payload: JsonValue::Object(m),
    }
}

/// The request for a song's player URL at quality `level`.
pub fn song_url_request(id: &str, level: &str, device_id: &str) -> (r: EapiRequest)
    ensures
        r.api_path@ == "/api/song/enhance/player/url/v1"@,
        r.endpoint_path@ == "/eapi/song/enhance/player/url/v1"@,
        r.payload matches JsonValue::Object(m) && m@.len() == 4 && m@[0].0@ == "ids"@ && (m@[0].1
            matches JsonValue::Array(ids) && ids@.len() == 1 && is_text(ids@[0], id@)) && is_member(
            m@[1],
            "level"@,
            level@,
        ) && is_member(m@[2], "encodeType"@, "aac"@) && m@[3].0@ == "header"@ && is_device_header(
            m@[3].1,
            device_id@,
        ),
{
    let mut ids: Vec<JsonValue> = Vec::new();
    ids.push(text_value(id));
    let mut m: Vec<(String, JsonValue)> = Vec::new();
    m.push((String::from_str("ids"), JsonValue::Array(ids)));
    m.push((String::from_str("level"), text_value(level)));
    m.push((String::from_str("encodeType"), text_value("aac")));
    m.push((String::from_str("header"), device_header(device_id)));
    EapiRequest {
        api_path: String::from_str("/api/song/enhance/player/url/v1"),
        endpoint_path: String::from_str("/eapi/song/enhance/player/url/v1"),
        payload: JsonValue::Object(m),
    }
}

/// The request for a song's lyrics.
pub fn lyric_request(id: &str, device_id: &str) -> (r: EapiRequest)
    ensures
        r.api_path@ == "/api/song/lyric/v1"@,
        r.endpoint_path@ == "/eapi/song/lyric/v1"@,
        r.payload matches JsonValue::Object(m) && m@.len() == 5 && is_member(m@[0], "id"@, id@)
            && is_int_member(m@[1], "lv"@, 1) && is_int_member(m@[2], "kv"@, 1) && is_int_member(
            m@[3],
            "tv"@,
            -1i64,
        ) && m@[4].0@ == "header"@ && is_device_header(m@[4].1, device_id@),
{
    let mut m: Vec<(String, JsonValue)> = Vec::new();
    m.push((String::from_str("id"), text_value(id)));
    m.push((String::from_str("lv"), int_value(1)));
    m.push((String::from_str("kv"), int_value(1)));
    m.push((String::from_str("tv"), int_value(-1)));
    m.push((String::from_str("header"), device_header(device_id)));
    EapiRequest {
        api_path: String::from_str("/api/song/lyric/v1"),
        endpoint_path: String::from_str("/eapi/song/lyric/v1"),
        payload: JsonValue::Object(m),
    }
}

/// The headers every API request carries, in order: user agent, referer,
/// origin and content type.
pub fn request_headers() -> (r: Vec<(String, String)>)
    ensures
        r@.len() == 4,
        r@[0].0@ == "user-agent"@ && r@[0].1@ == "NeteaseMusic/2.5.1 (iPhone; iOS 16.6; Scale/3.00)"@,
        r@[1].0@ == "referer"@ && r@[1].1@ == "https://music.163.com/"@,
        r@[2].0@ == "origin"@ && r@[2].1@ == "https://music.163.com"@,
        r@[3].0@ == "content-type"@ && r@[3].1@ == "application/x-www-form-urlencoded"@,
{
    let mut h: Vec<(String, String)> = Vec::new();
    h.push(
        (
            String::from_str("user-agent"),
            String::from_str("NeteaseMusic/2.5.1 (iPhone; iOS 16.6; Scale/3.00)"),
        ),
    );
    h.push((String::from_str("referer"), String::from_str("https://music.163.com/")));
    h.push((String::from_str("origin"), String::from_str("https://music.163.com")));
    h.push(
        (String::from_str("content-type"), String::from_str("application/x-www-form-urlencoded")),
    );
    h
}

/// The form body that carries the encoded request: `params=<params>`.
pub fn eapi_form_body(params: &str) -> (r: String)
    ensures
        r@ == "params="@ + params@,
{
    String::from_str("params=").concat(params)
}

// ---------------------------------------------------------------- replies

/// A song's name with its first alias, if that alias is not empty:
/// `name (alias)`.
pub open spec fn display_name_spec(name: Seq<char>, alias: Option<Seq<char>>) -> Seq<char> {
    match alias {
        Some(a) => if a.len() == 0 {
            name
        } else {
            name + " ("@ + a + ")"@
        },
        None => name,
    }
}

pub open spec fn song_name_spec(s: JsonValue) -> Seq<char> {
    display_name_spec(
        text_or(str_of(field(Some(s), "name"@)), "Unknown Song"@),
        str_of(first_of(items_of(field(Some(s), "alia"@)))),
    )
}

pub open spec fn artist_name_spec(x: JsonValue) -> Seq<char> {
    text_or(str_of(field(Some(x), "name"@)), "Unknown Artist"@)
}

/// The names of the song's artists (`ar`), or a single unknown artist when
/// the song lists none.
pub open spec fn artists_spec(s: JsonValue) -> Seq<Seq<char>> {
    match items_of(field(Some(s), "ar"@)) {
        Some(arr) => arr.map_values(|x: JsonValue| artist_name_spec(x)),
        None => seq!["Unknown Artist"@],
    }
}

/// The song id as decimal text (0 when the reply has none).
pub open spec fn song_id_spec(s: JsonValue) -> Seq<char> {
    signed_decimal_spec(
        match i64_of(field(Some(s), "id"@)) {
            Some(i) => i as int,
            None => 0,
        },
    )
}

/// The album a song detail names in `al`.
pub open spec fn song_album_spec(s: JsonValue) -> Option<AlbumView> {
    match field(Some(s), "al"@) {
        Some(a) => Some(
            AlbumView {
                name: text_or(str_of(field(Some(a), "name"@)), seq![]),
                pic_url: str_of(field(Some(a), "picUrl"@)),
            },
        ),
        None => None,
    }
}

/// A song read from its JSON object, with the album given.
pub open spec fn song_spec(s: JsonValue, album: Option<AlbumView>) -> SongView {
    SongView {
        id: song_id_spec(s),
        name: song_name_spec(s),
        artists: artists_spec(s),
        album: album,
        duration: u64_of(field(Some(s), "dt"@)),
        publish_time: u64_of(field(Some(s), "publishTime"@)),
    }
}

/// The song of a song-detail reply: the first element of `songs`.
pub open spec fn song_detail_spec(v: JsonValue) -> Option<SongView> {
    match first_of(items_of(field(Some(v), "songs"@))) {
        Some(s) => Some(song_spec(s, song_album_spec(s))),
        None => None,
    }
}




fn song_artists(s: &JsonValue) -> (r: Vec<Artist>)
    ensures
        Seq::new(r@.len(), |i: int| r@[i]@) == artists_spec(*s),
{
    match get_items(get_field(Some(s), "ar")) {
        Some(arr) => {
            let mut out: Vec<Artist> = Vec::new();
            let n = arr.len();
            let mut i: usize = 0;
            while i < n
                invariant
                    i <= n,
                    n == arr@.len(),
                    items_of(field(Some(*s), "ar"@)) == Some(arr@),
                    out@.len() == i,
                    forall|k: int| 0 <= k < i ==> #[trigger] out@[k]@ == artist_name_spec(arr@[k]),
                decreases n - i,
            {
                let name = text_or_default(
                    get_str(get_field(Some(&arr[i]), "name")),
                    "Unknown Artist",
                );
                out.push(Artist { name });
                i += 1;
            }
            assert(Seq::new(out@.len(), |k: int| out@[k]@) =~= arr@.map_values(
                |x: JsonValue| artist_name_spec(x),
            ));
            out
        },
        None => {
            let mut out: Vec<Artist> = Vec::new();
            out.push(Artist { name: String::from_str("Unknown Artist") });
            assert(Seq::new(out@.len(), |k: int| out@[k]@) =~= seq!["Unknown Artist"@]);
            out
        },
    }
}

fn song_display_name(s: &JsonValue) -> (r: String)
    ensures
        r@ == song_name_spec(*s),
{
    let name = text_or_default(get_str(get_field(Some(s), "name")), "Unknown Song");
    match get_str(get_first(get_items(get_field(Some(s), "alia")))) {
        Some(a) => {
            if a.as_str().unicode_len() == 0 {
                name
            } else {
                let mut full = name;
                full.append(" (");
                full.append(a.as_str());
                full.append(")");
                full
            }
        },
        None => name,
    }
}

/// Reads a song from its JSON object, with the album given.
fn song_with_album(s: &JsonValue, album: Option<Album>) -> (r: Song)
    ensures
        r@ == song_spec(
            *s,
            match album {
                Some(a) => Some(a@),
                None => None,
            },
        ),
{
    let id = match get_i64(get_field(Some(s), "id")) {
        Some(i) => i64_to_string(i),
        None => i64_to_string(0),
    };
    let name = song_display_name(s);
    let artists = song_artists(s);
    let duration = get_u64(get_field(Some(s), "dt"));
    let publish_time = get_u64(get_field(Some(s), "publishTime"));
    Song { id, name, artists, album, duration, publish_time }
}

/// Reads the song from a song-detail reply; an error names the id when the
/// reply holds no song.
pub fn song_from_detail(v: &JsonValue, id: &str) -> (r: Result<Song, DownloadError>)
    ensures
        match song_detail_spec(*v) {
            Some(sv) => r matches Ok(song) && song@ == sv,
            None => r matches Err(DownloadError::SongNotFound(x)) && x@ == id@,
        },
{
    match get_first(get_items(get_field(Some(v), "songs"))) {
        Some(s) => {
            let album = match get_field(Some(s), "al") {
                Some(a) => Some(
                    Album {
                        name: text_or_empty(get_str(get_field(Some(a), "name"))),
                        pic_url: clone_opt_string(get_str(get_field(Some(a), "picUrl"))),
                    },
                ),
                None => None,
            };
            Ok(song_with_album(s, album))
        },
        None => Err(DownloadError::SongNotFound(String::from_str(id))),
    }
}

/// The main song of a DJ program reply: `program.mainSong.id` as decimal.
pub open spec fn program_song_id_spec(v: JsonValue) -> Option<Seq<char>> {
    match i64_of(field(field(field(Some(v), "program"@), "mainSong"@), "id"@)) {
        Some(i) => Some(signed_decimal_spec(i as int)),
        None => None,
    }
}

/// Reads the id of a program's main song; the error names the program.
pub fn program_main_song_id(v: &JsonValue, program_id: &str) -> (r: Result<String, DownloadError>)
    ensures
        match program_song_id_spec(*v) {
            Some(id) => r matches Ok(s) && s@ == id,
            None => r matches Err(DownloadError::ProgramSongMissing(x)) && x@ == program_id@,
        },
{
    match get_i64(get_field(get_field(get_field(Some(v), "program"), "mainSong"), "id")) {
        Some(i) => Ok(i64_to_string(i)),
        None => Err(DownloadError::ProgramSongMissing(String::from_str(program_id))),
    }
}

pub open spec fn code_is_200(v: JsonValue) -> bool {
    i64_of(field(Some(v), "code"@)) == Some(200i64)
}

fn has_code_200(v: &JsonValue) -> (r: bool)
    ensures
        r == code_is_200(*v),
{
    match get_i64(get_field(Some(v), "code")) {
        Some(c) => c == 200,
        None => false,
    }
}

/// The audio URL of a player-URL reply: `data[0].url` when `code` is 200.
pub open spec fn song_url_spec(v: JsonValue) -> Option<Seq<char>> {
    if code_is_200(v) {
        str_of(field(first_of(items_of(field(Some(v), "data"@))), "url"@))
    } else {
        None
    }
}

/// Reads the audio URL from a player-URL reply.
pub fn song_url_from_reply(v: &JsonValue) -> (r: Option<String>)
    ensures
        r.deep_view() == song_url_spec(*v),
{
    if !has_code_200(v) {
        return None;
    }
    clone_opt_string(get_str(get_field(get_first(get_items(get_field(Some(v), "data"))), "url")))
}

/// The lyrics of a lyric reply: `lrc.lyric` when `code` is 200.
pub open spec fn lyrics_spec(v: JsonValue) -> Option<Seq<char>> {
    if code_is_200(v) {
        str_of(field(field(Some(v), "lrc"@), "lyric"@))
    } else {
        None
    }
}

/// Reads the lyrics from a lyric reply.
pub fn lyrics_from_reply(v: &JsonValue) -> (r: Option<String>)
    ensures
        r.deep_view() == lyrics_spec(*v),
{
    if !has_code_200(v) {
        return None;
    }
    clone_opt_string(get_str(get_field(get_field(Some(v), "lrc"), "lyric")))
}

/// `parts` joined with `sep` between them.
pub open spec fn join_spec(parts: Seq<Seq<char>>, sep: Seq<char>) -> Seq<char>
    decreases parts.len(),
{
    if parts.len() == 0 {
        seq![]
    } else if parts.len() == 1 {
        parts[0]
    } else {
        join_spec(parts.drop_last(), sep) + sep + parts.last()
    }
}

/// The names of an album's artists, those that are strings.
pub open spec fn album_artist_names(arr: Seq<JsonValue>) -> Seq<Seq<char>> {
    arr.filter_map(|x: JsonValue| str_of(field(Some(x), "name"@)))
}

/// The artist line of an album: the names joined by `,`, or `Unknown Artist`
/// when that is empty.
pub open spec fn album_artist_spec(album: JsonValue) -> Seq<char> {
    match items_of(field(Some(album), "artists"@)) {
        Some(arr) => if join_spec(album_artist_names(arr), ","@).len() == 0 {
            "Unknown Artist"@
        } else {
            join_spec(album_artist_names(arr), ","@)
        },
        None => "Unknown Artist"@,
    }
}

/// The message of a failed album reply.
pub open spec fn album_error_message(v: JsonValue) -> Seq<char> {
    text_or(str_of(field(Some(v), "message"@)), "unknown api error"@)
}

/// The album of a successful album reply, its songs tagged with it.
pub open spec fn album_info_spec(v: JsonValue, album: JsonValue) -> AlbumInfoView {
    let name = text_or(str_of(field(Some(album), "name"@)), seq![]);
    let pic = str_of(field(Some(album), "picUrl"@));
    AlbumInfoView {
        songs: match items_of(field(Some(v), "songs"@)) {
            Some(arr) => arr.map_values(
                |s: JsonValue| song_spec(s, Some(AlbumView { name: name, pic_url: pic })),
            ),
            None => seq![],
        },
        album_name: name,
        artist_name: album_artist_spec(album),
        pic_url: pic,
        publish_time: u64_of(field(Some(album), "publishTime"@)),
    }
}

/// The album's songs are the reply's `songs` list, one for one and in
/// order: the `k`-th song is read from the `k`-th element, tagged with the
/// album's name and cover.
pub proof fn lemma_album_songs_in_reply_order(v: JsonValue, album: JsonValue, arr: Seq<JsonValue>)
    requires
        items_of(field(Some(v), "songs"@)) == Some(arr),
    ensures
        album_info_spec(v, album).songs.len() == arr.len(),
        forall|k: int|
            0 <= k < arr.len() ==> #[trigger] album_info_spec(v, album).songs[k] == song_spec(
                arr[k],
                Some(
                    AlbumView {
                        name: album_info_spec(v, album).album_name,
                        pic_url: album_info_spec(v, album).pic_url,
                    },
                ),
            ),
        forall|k: int|
            0 <= k < arr.len() ==> #[trigger] album_info_spec(v, album).songs[k].id == song_id_spec(
                arr[k],
            ),
{
}

fn album_artist_line(album: &JsonValue) -> (r: String)
    ensures
        r@ == album_artist_spec(*album),
{
    match get_items(get_field(Some(album), "artists")) {
        Some(arr) => {
            let ghost f = |x: JsonValue| str_of(field(Some(x), "name"@));
            let mut line = String::new();
            let mut any = false;
            let n = arr.len();
            let mut i: usize = 0;
            assert(arr@.take(0) =~= Seq::<JsonValue>::empty());
            while i < n
                invariant
                    i <= n,
                    n == arr@.len(),
                    items_of(field(Some(*album), "artists"@)) == Some(arr@),
                    f == (|x: JsonValue| str_of(field(Some(x), "name"@))),
                    any == (arr@.take(i as int).filter_map(f).len() > 0),
                    line@ == join_spec(arr@.take(i as int).filter_map(f), ","@),
                decreases n - i,
            {
                let ghost names = arr@.take(i as int).filter_map(f);
                assert(arr@.take(i + 1).drop_last() =~= arr@.take(i as int));
                match get_str(get_field(Some(&arr[i]), "name")) {
                    Some(name) => {
                        if any {
                            line.append(",");
                        }
                        line.append(name.as_str());
                        assert(arr@.take(i + 1).filter_map(f) == names + seq![name@]);
                        assert((names + seq![name@]).drop_last() =~= names);
                        if !any {
                            assert(line@ =~= join_spec(names + seq![name@], ","@));
                        }
                        any = true;
                    },
                    None => {
                        assert(arr@.take(i + 1).filter_map(f) == names);
                    },
                }
                i += 1;
            }
            assert(arr@.take(n as int) =~= arr@);
            if line.as_str().unicode_len() == 0 {
                String::from_str("Unknown Artist")
            } else {
                line
            }
        },
        None => String::from_str("Unknown Artist"),
    }
}

/// Reads an album reply: refused unless `code` is 200, then the `album`
/// object and the `songs` list.
pub fn album_info_from_reply(v: &JsonValue) -> (r: Result<AlbumInfo, DownloadError>)
    ensures
        !code_is_200(*v) ==> (r matches Err(DownloadError::AlbumApi(m)) && m@
            == album_error_message(*v)),
        code_is_200(*v) && field(Some(*v), "album"@) is None ==> r
            matches Err(DownloadError::AlbumPayloadMissing),
        code_is_200(*v) && field(Some(*v), "album"@) is Some ==> (r matches Ok(info) && info@
            == album_info_spec(*v, field(Some(*v), "album"@).unwrap())),
{
    if !has_code_200(v) {
        let msg = text_or_default(get_str(get_field(Some(v), "message")), "unknown api error");
        return Err(DownloadError::AlbumApi(msg));
    }
    let album = match get_field(Some(v), "album") {
        Some(a) => a,
        None => {
            return Err(DownloadError::AlbumPayloadMissing);
        },
    };
    let album_name = text_or_empty(get_str(get_field(Some(album), "name")));
    let pic_url = clone_opt_string(get_str(get_field(Some(album), "picUrl")));
    let publish_time = get_u64(get_field(Some(album), "publishTime"));
    let artist_name = album_artist_line(album);
    let ghost name = album_name@;
    let ghost pic = pic_url.deep_view();
    let mut songs: Vec<Song> = Vec::new();
    match get_items(get_field(Some(v), "songs")) {
        Some(arr) => {
            let n = arr.len();
            let mut i: usize = 0;
            while i < n
                invariant
                    i <= n,
                    n == arr@.len(),
                    name == album_name@,
                    pic == pic_url.deep_view(),
                    songs@.len() == i,
                    forall|k: int|
                        0 <= k < i ==> #[trigger] songs@[k]@ == song_spec(
                            arr@[k],
                            Some(AlbumView { name: name, pic_url: pic }),
                        ),
                decreases n - i,
            {
                let a = Album {
                    name: album_name.clone(),
                    pic_url: clone_opt_string(
                        match &pic_url {
                            Some(p) => Some(p),
                            None => None,
                        },
                    ),
                };
                songs.push(song_with_album(&arr[i], Some(a)));
                i += 1;
            }
            assert(Seq::new(songs@.len(), |k: int| songs@[k]@) =~= arr@.map_values(
                |s: JsonValue| song_spec(s, Some(AlbumView { name: name, pic_url: pic })),
            ));
        },
        None => {
            assert(Seq::new(songs@.len(), |k: int| songs@[k]@) =~= Seq::<SongView>::empty());
        },
    }
    Ok(AlbumInfo { songs, album_name, artist_name, pic_url, publish_time })
}

} // verus!
