//! Subscription URL checks and the default subscription name derived from a URL.

use vstd::prelude::*;
use crate::config::strip_yaml_suffix_spec;
use crate::config::strip_yaml_suffix;
use crate::text::{trim, trim_string};

verus! {

/// The parts of a parsed URL that the library reads.
#[derive(Debug)]
pub struct UrlParts {
    /// Lower-case scheme, e.g. `https`.
    pub scheme: String,
    /// Host, when the URL has one.
    pub host: Option<String>,
    /// Path segments (split on `/`), when the URL has a hierarchical path.
    pub path_segments: Option<Vec<String>>,
}

/// Abstract view of [`UrlParts`].
pub struct UrlPartsView {
    pub scheme: Seq<char>,
    pub host: Option<Seq<char>>,
    pub path_segments: Option<Seq<Seq<char>>>,
}

/// The characters of each string in `v`.
pub open spec fn strings_view(v: Seq<String>) -> Seq<Seq<char>> {
    Seq::new(v.len(), |i: int| v[i]@)
}

impl View for UrlParts {
    type V = UrlPartsView;

    open spec fn view(&self) -> UrlPartsView {
        UrlPartsView {
            scheme: self.scheme@,
            host: match self.host {
                Some(h) => Some(h@),
                None => None,
            },
            path_segments: match self.path_segments {
                Some(v) => Some(strings_view(v@)),
                None => None,
            },
        }
    }
}

/// What `url::Url::parse` makes of `raw`: `None` when it rejects the text,
/// else the scheme, host and path segments of the parsed URL.
pub uninterp spec fn url_parse_spec(raw: Seq<char>) -> Option<UrlPartsView>;

/// Parses `raw` with `reqwest::Url::parse` (the `url` crate) and reads back
/// `scheme()`, `host_str()` and `path_segments()`. The contract only names the
/// result (`url_parse_spec`); URL syntax itself is not restated here.
#[verifier::external_body]
fn parse_url(raw: &str) -> (res: Option<UrlParts>)
    ensures
        match res {
            Some(p) => url_parse_spec(raw@) == Some(p@),
            None => url_parse_spec(raw@) is None,
        },
{
    let url = reqwest::Url::parse(raw).ok()?;
    Some(UrlParts {
        scheme: url.scheme().to_string(),
        host: url.host_str().map(|h| h.to_string()),
        path_segments: url.path_segments().map(|ps| ps.map(|p| p.to_string()).collect()),
    })
}

/// Why a subscription URL was refused.
#[derive(Debug)]
pub enum UrlError {
    /// The text is not a URL.
    Invalid,
    /// The scheme (carried) is neither `http` nor `https`.
    UnsupportedScheme(String),
}

/// Whether a scheme is accepted for subscriptions.
pub open spec fn scheme_allowed(scheme: Seq<char>) -> bool {
    scheme == "http"@ || scheme == "https"@
}

/// Accepts parsed URL parts whose scheme is `http` or `https`.
pub fn check_url_scheme(parsed: Option<UrlParts>) -> (res: Result<UrlParts, UrlError>)
    ensures
        match parsed {
            None => res matches Err(UrlError::Invalid),
            Some(p) => if scheme_allowed(p.scheme@) {
                res matches Ok(q) && q@ == p@
            } else {
                res matches Err(UrlError::UnsupportedScheme(s)) && s@ == p.scheme@
            },
        },
{
    match parsed {
        None => Err(UrlError::Invalid),
        Some(p) => {
            let http = String::from_str("http");
            let https = String::from_str("https");
            if p.scheme == http || p.scheme == https {
                Ok(p)
            } else {
                Err(UrlError::UnsupportedScheme(p.scheme))
            }
        },
    }
}

/// Parses a subscription URL and accepts it only with an `http`/`https` scheme.
pub fn validate_subscription_url(raw_url: &str) -> (res: Result<UrlParts, UrlError>)
    ensures
        match url_parse_spec(raw_url@) {
            None => res matches Err(UrlError::Invalid),
            Some(p) => if scheme_allowed(p.scheme) {
                res matches Ok(q) && q@ == p
            } else {
                res matches Err(UrlError::UnsupportedScheme(s)) && s@ == p.scheme
            },
        },
{
    check_url_scheme(parse_url(raw_url))
}

/// The last non-empty path segment, or the empty string.
pub open spec fn last_nonempty(segs: Seq<Seq<char>>) -> Seq<char>
    decreases segs.len(),
{
    if segs.len() == 0 {
        Seq::empty()
    } else if segs.last().len() > 0 {
        segs.last()
    } else {
        last_nonempty(segs.drop_last())
    }
}

/// The display name derived from a parsed URL: the last non-empty path
/// segment without `.yaml`/`.yml`, trimmed; else the trimmed host; else
/// `subscription`.
pub open spec fn name_from_url_parts(p: UrlPartsView) -> Seq<char> {
    let last = match p.path_segments {
        Some(segs) => last_nonempty(segs),
        None => Seq::empty(),
    };
    let candidate = trim(strip_yaml_suffix_spec(last));
    let fallback = trim(
        match p.host {
            Some(h) => h,
            None => "subscription"@,
        },
    );
    if candidate.len() > 0 {
        candidate
    } else if fallback.len() > 0 {
        fallback
    } else {
        "subscription"@
    }
}

/// The display name a subscription gets from its parsed URL.
pub fn name_from_url(parts: &UrlParts) -> (name: String)
    ensures
        name@ == name_from_url_parts(parts@),
{
    let mut last = String::new();
    match &parts.path_segments {
        Some(segs) => {
            let mut i: usize = segs.len();
            assert(segs@.subrange(0, i as int) =~= segs@);
            while i > 0 && segs[i - 1].unicode_len() == 0
                invariant
                    i <= segs.len(),
                    last_nonempty(strings_view(segs@)) == last_nonempty(
                        strings_view(segs@.subrange(0, i as int)),
                    ),
                decreases i,
            {
                proof {
                    let pre = strings_view(segs@.subrange(0, i as int));
                    assert(pre.drop_last() =~= strings_view(segs@.subrange(0, i - 1)));
                }
                i = i - 1;
            }
            proof {
                assert(strings_view(segs@.subrange(0, segs.len() as int)) =~= strings_view(segs@));
            }
            if i > 0 {
                last = segs[i - 1].clone();
                proof {
                    let pre = strings_view(segs@.subrange(0, i as int));
                    assert(pre.last() == segs@[i - 1]@);
                }
            } else {
                proof {
                    assert(strings_view(segs@.subrange(0, 0)) =~= Seq::<Seq<char>>::empty());
                }
            }
        },
        None => {},
    }
    let candidate = trim_string(strip_yaml_suffix(last.as_str()).as_str());
    let host_or_default = match &parts.host {
        Some(h) => h.clone(),
        None => String::from_str("subscription"),
    };
    let fallback = trim_string(host_or_default.as_str());
    if candidate.unicode_len() > 0 {
        candidate
    } else if fallback.unicode_len() > 0 {
        fallback
    } else {
        String::from_str("subscription")
    }
}

/// The default display name of a subscription added without `--name`.
pub fn default_subscription_name_from_url(raw_url: &str) -> (res: Result<String, UrlError>)
    ensures
        match url_parse_spec(raw_url@) {
            None => res matches Err(UrlError::Invalid),
            Some(p) => if scheme_allowed(p.scheme) {
                res matches Ok(n) && n@ == name_from_url_parts(p)
            } else {
                res matches Err(UrlError::UnsupportedScheme(s)) && s@ == p.scheme
            },
        },
{
    let parts = validate_subscription_url(raw_url)?;
    Ok(name_from_url(&parts))
}

} // verus!
