//! URL handling with the `url` crate: normalising the address typed into the
//! content window and recognising Fenbi pages.

use vstd::prelude::*;
use crate::text::{trim, trimmed, ends_with, has_suffix, str_equal, opt_view};

verus! {

/// The page the content window opens when no usable address is given.
pub const DEFAULT_URL: &'static str = "https://www.fenbi.com";

/// What `url::Url::parse` makes of `input`: the URL's serialization, its
/// scheme and its host (when it has one), or the text of the parse error.
pub uninterp spec fn url_parse(input: Seq<char>) -> Result<
    (Seq<char>, Seq<char>, Option<Seq<char>>),
    Seq<char>,
>;

/// The parts of a parsed URL that the library reads.
pub struct ParsedUrl {
    pub serialization: String,
    pub scheme: String,
    pub host: Option<String>,
}

/// The parsed URL as plain values.
pub open spec fn parsed_view(u: ParsedUrl) -> (Seq<char>, Seq<char>, Option<Seq<char>>) {
    (u.serialization@, u.scheme@, opt_view(u.host))
}

/// Calls `url::Url::parse` and reads `to_string()`, `scheme()` and
/// `host_str()` of the result. Claimed: the outcome is the function
/// `url_parse` of the input.
#[verifier::external_body]
pub(crate) fn parse_url(input: &str) -> (res: Result<ParsedUrl, String>)
    ensures
        match res {
            Ok(u) => url_parse(input@) == Ok::<_, Seq<char>>(parsed_view(u)),
            Err(e) => url_parse(input@) == Err::<(Seq<char>, Seq<char>, Option<Seq<char>>), _>(e@),
        },
{
    let url = url::Url::parse(input).map_err(|error| error.to_string())?;
    Ok(ParsedUrl {
        serialization: url.to_string(),
        scheme: url.scheme().to_string(),
        host: url.host_str().map(str::to_string),
    })
}

/// The address the content window opens for `raw`: the trimmed input as the
/// URL parser serializes it, else the trimmed input with `https://` in front,
/// else the default page; the default page also for no or blank input.
pub open spec fn normalized_url(raw: Option<Seq<char>>) -> Seq<char> {
    match raw {
        None => DEFAULT_URL@,
        Some(r) => {
            let v = trimmed(r);
            if v.len() == 0 {
                DEFAULT_URL@
            } else {
                match url_parse(v) {
                    Ok(parts) => parts.0,
                    Err(_) => match url_parse("https://"@ + v) {
                        Ok(parts) => parts.0,
                        Err(_) => DEFAULT_URL@,
                    },
                }
            }
        },
    }
}

/// Normalises the address typed into the content window (see `normalized_url`).
pub fn normalize_url(raw_url: Option<String>) -> (res: String)
    ensures
        res@ == normalized_url(opt_view(raw_url)),
{
    let value = match raw_url {
        None => return String::from_str(DEFAULT_URL),
        Some(raw) => trim(raw.as_str()),
    };
    if value.unicode_len() == 0 {
        return String::from_str(DEFAULT_URL);
    }
    if let Ok(url) = parse_url(value.as_str()) {
        return url.serialization;
    }
    let with_scheme = String::from_str("https://").concat(value.as_str());
    if let Ok(url) = parse_url(with_scheme.as_str()) {
        return url.serialization;
    }
    String::from_str(DEFAULT_URL)
}

/// Whether `host` is `www.fenbi.com` or a subdomain of `fenbi.com`.
pub open spec fn is_fenbi_host(host: Seq<char>) -> bool {
    host == "www.fenbi.com"@ || has_suffix(host, ".fenbi.com"@)
}

/// Whether `target_url` parses to a URL on a Fenbi host.
pub open spec fn is_fenbi_address(target_url: Seq<char>) -> bool {
    match url_parse(target_url) {
        Ok((_, _, Some(host))) => is_fenbi_host(host),
        _ => false,
    }
}

/// Whether a page address is on a Fenbi host.
pub fn is_fenbi_url(target_url: &str) -> (res: bool)
    ensures
        res == is_fenbi_address(target_url@),
{
    match parse_url(target_url) {
        Ok(url) => match url.host {
            Some(host) => str_equal(host.as_str(), "www.fenbi.com") || ends_with(
                host.as_str(),
                ".fenbi.com",
            ),
            None => false,
        },
        Err(_) => false,
    }
}

} // verus!
