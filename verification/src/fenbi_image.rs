//! The checks and framing around a Fenbi image that the content page asks to
//! have made transparent: which URLs may be fetched, which responses are
//! accepted, how much visible content a processed image must keep, and the
//! `data:` URL the result is handed back in.

use vstd::prelude::*;
use base64::Engine;
use crate::text::{str_equal, starts_with, has_prefix, opt_view, push_decimal, signed_decimal};
use crate::web_url::{parse_url, url_parse};

verus! {

/// Downloaded images larger than this many bytes are refused.
pub const FENBI_IMAGE_MAX_BYTES: usize = 3 * 1024 * 1024;

/// The eight bytes every PNG file starts with.
pub open spec fn png_signature() -> Seq<u8> {
    seq![0x89u8, 0x50u8, 0x4eu8, 0x47u8, 0x0du8, 0x0au8, 0x1au8, 0x0au8]
}

/// The hosts images may be fetched from.
pub open spec fn allowed_image_host(host: Seq<char>) -> bool {
    ||| host == "fb.fbstatic.cn"@
    ||| host == "fb.fenbike.cn"@
    ||| host == "nodestatic.fbstatic.cn"@
    ||| host == "userprofile.fbstatic.cn"@
}

/// Whether images may be fetched from `host`.
pub fn is_allowed_fenbi_image_host(host: &str) -> (res: bool)
    ensures
        res == allowed_image_host(host@),
{
    str_equal(host, "fb.fbstatic.cn") || str_equal(host, "fb.fenbike.cn") || str_equal(
        host,
        "nodestatic.fbstatic.cn",
    ) || str_equal(host, "userprofile.fbstatic.cn")
}

/// Why an image URL may not be fetched, if it may not: it does not parse,
/// is not `https`, or names a host outside the allowed ones (no host counts
/// as the empty host).
pub open spec fn image_url_refusal(image_url: Seq<char>) -> Option<Seq<char>> {
    match url_parse(image_url) {
        Err(e) => Some(e),
        Ok((_, scheme, host)) => if scheme != "https"@ {
            Some("only https images are allowed"@)
        } else if !allowed_image_host(
            match host {
                Some(h) => h,
                None => Seq::<char>::empty(),
            },
        ) {
            Some("image host is not allowed"@)
        } else {
            None
        },
    }
}

/// Checks that an image URL may be fetched.
pub fn check_fenbi_image_url(image_url: &str) -> (res: Result<(), String>)
    ensures
        match image_url_refusal(image_url@) {
            Some(reason) => res matches Err(e) && e@ == reason,
            None => res is Ok,
        },
{
    let parsed = parse_url(image_url)?;
    if !str_equal(parsed.scheme.as_str(), "https") {
        return Err(String::from_str("only https images are allowed"));
    }
    let host = match parsed.host {
        Some(h) => h,
        None => String::new(),
    };
    if !is_allowed_fenbi_image_host(host.as_str()) {
        return Err(String::from_str("image host is not allowed"));
    }
    Ok(())
}

/// The `Referer` header sent with the image request: the page's address
/// when it is an `https://` address, none otherwise.
pub fn fenbi_image_referer(referer: Option<String>) -> (res: Option<String>)
    ensures
        opt_view(res) == match opt_view(referer) {
            Some(r) => if has_prefix(r, "https://"@) {
                Some(r)
            } else {
                None
            },
            None => None,
        },
{
    match referer {
        Some(r) => if starts_with(r.as_str(), "https://") {
            Some(r)
        } else {
            None
        },
        None => None,
    }
}

/// Why a downloaded image is refused, if it is: a status outside 200..300,
/// a body larger than `FENBI_IMAGE_MAX_BYTES`, or a body that is not a PNG.
pub open spec fn image_response_refusal(status: int, body: Seq<u8>) -> Option<Seq<char>> {
    if !(200 <= status < 300) {
        Some("image request failed with status "@ + signed_decimal(status))
    } else if body.len() > FENBI_IMAGE_MAX_BYTES {
        Some("image is too large"@)
    } else if !(body.len() >= 8 && body.subrange(0, 8) == png_signature()) {
        Some("only png images are supported for now"@)
    } else {
        None
    }
}

/// Checks the status and body of the image download.
pub fn check_image_response(status: i32, body: &[u8]) -> (res: Result<(), String>)
    ensures
        match image_response_refusal(status as int, body@) {
            Some(reason) => res matches Err(e) && e@ == reason,
            None => res is Ok,
        },
{
    if !(200 <= status && status < 300) {
        let mut message = String::from_str("image request failed with status ");
        let ghost prefix = message@;
        if status < 0 {
            crate::text::push_char(&mut message, '-');
            let magnitude: u64 = (0i64 - status as i64) as u64;
            push_decimal(&mut message, magnitude);
            assert(message@ =~= prefix + signed_decimal(status as int));
        } else {
            push_decimal(&mut message, status as u64);
        }
        return Err(message);
    }
    if body.len() > FENBI_IMAGE_MAX_BYTES {
        return Err(String::from_str("image is too large"));
    }
    let signature: [u8; 8] = [0x89, 0x50, 0x4e, 0x47, 0x0d, 0x0a, 0x1a, 0x0a];
    let mut is_png = body.len() >= 8;
    let mut i: usize = 0;
    while is_png && i < 8
        invariant
            is_png ==> body@.len() >= 8,
            i <= 8,
            signature@ == png_signature(),
            is_png ==> forall|k: int| 0 <= k < i ==> body@[k] == png_signature()[k],
            !is_png ==> !(body@.len() >= 8 && body@.subrange(0, 8) == png_signature()),
        decreases 8 - i + (if is_png {
            1int
        } else {
            0
        }),
    {
        if body[i] != signature[i] {
            assert(body@.subrange(0, 8)[i as int] != png_signature()[i as int]);
            is_png = false;
        } else {
            i = i + 1;
        }
    }
    if is_png {
        assert(body@.subrange(0, 8) =~= png_signature());
    }
    if !is_png {
        return Err(String::from_str("only png images are supported for now"));
    }
    Ok(())
}

/// The fewest visible pixels a processed image must keep: one per 600
/// pixels of the image (at least one pixel is counted), rounded down.
pub open spec fn visible_floor(width: u32, height: u32) -> int {
    let pixels = width * height;
    (if pixels == 0 {
        1
    } else {
        pixels
    }) / 600
}

/// Checks that a processed image kept enough visible pixels.
pub fn check_visible_content(visible: u64, width: u32, height: u32) -> (res: Result<(), String>)
    ensures
        if visible < visible_floor(width, height) {
            res matches Err(e) && e@ == "processed image has too little visible content"@
        } else {
            res is Ok
        },
{
    assert(width as u64 * height as u64 <= u32::MAX as u64 * u32::MAX as u64) by (nonlinear_arith);
    let pixels = width as u64 * height as u64;
    let floor = if pixels == 0 {
        1
    } else {
        pixels
    };
    if visible < floor / 600 {
        return Err(String::from_str("processed image has too little visible content"));
    }
    Ok(())
}

/// The base64 alphabet of RFC 4648 (`+` and `/` for 62 and 63).
pub open spec fn base64_char(v: int) -> char {
    if v < 26 {
        (65 + v) as char
    } else if v < 52 {
        (97 + v - 26) as char
    } else if v < 62 {
        (48 + v - 52) as char
    } else if v == 62 {
        '+'
    } else {
        '/'
    }
}

/// Standard base64 with `=` padding: each three bytes become four characters.
pub open spec fn base64_standard(b: Seq<u8>) -> Seq<char>
    decreases b.len(),
{
    if b.len() == 0 {
        seq![]
    } else if b.len() == 1 {
        seq![base64_char(b[0] as int / 4), base64_char((b[0] as int % 4) * 16), '=', '=']
    } else if b.len() == 2 {
        seq![
            base64_char(b[0] as int / 4),
            base64_char((b[0] as int % 4) * 16 + b[1] / 16),
            base64_char((b[1] as int % 16) * 4),
            '=',
        ]
    } else {
        seq![
            base64_char(b[0] as int / 4),
            base64_char((b[0] as int % 4) * 16 + b[1] / 16),
            base64_char((b[1] as int % 16) * 4 + b[2] / 64),
            base64_char(b[2] as int % 64),
        ] + base64_standard(b.subrange(3, b.len() as int))
    }
}

/// Calls `base64::engine::general_purpose::STANDARD.encode`. Claimed: the
/// result is the padded standard base64 text of the bytes. The engine panics
/// when the output length overflows `usize`, which `requires` rules out.
#[verifier::external_body]
fn encode_base64(bytes: &[u8]) -> (res: String)
    requires
        bytes@.len() / 3 * 4 + 4 <= usize::MAX,
    ensures
        res@ == base64_standard(bytes@),
{
    base64::engine::general_purpose::STANDARD.encode(bytes)
}

/// The `data:` URL that hands a PNG back to the page.
pub fn png_data_url(png: &[u8]) -> (res: String)
    requires
        png@.len() / 3 * 4 + 4 <= usize::MAX,
    ensures
        res@ == "data:image/png;base64,"@ + base64_standard(png@),
{
    let encoded = encode_base64(png);
    String::from_str("data:image/png;base64,").concat(encoded.as_str())
}

} // verus!
