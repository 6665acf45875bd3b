use vstd::prelude::*;
use crate::text::{concat, str_eq, trim, trim_spec};

verus! {

/// The parts of a parsed URL that feed validation reads.
pub struct UrlParts {
    pub scheme: Seq<char>,
    pub has_host: bool,
    pub serialization: Seq<char>,
}

/// A URL as `url::Url::parse` gives it: its scheme, whether it has a host, and its serialization.
pub struct ParsedUrl {
    pub scheme: String,
    pub has_host: bool,
    pub serialization: String,
}

impl View for ParsedUrl {
    type V = UrlParts;

    open spec fn view(&self) -> UrlParts {
        UrlParts { scheme: self.scheme@, has_host: self.has_host, serialization: self.serialization@ }
    }
}

/// What `url::Url::parse` gives for `input`: the parts of the URL, or the text of its error.
pub uninterp spec fn url_parse_result(input: Seq<char>) -> Result<UrlParts, Seq<char>>;

/// `url::Url::parse(input)`, read through `scheme()`, `host_str().is_some()` and `to_string()`;
/// or the error's text. The result is named `url_parse_result`. As the crate's source shows,
/// the serialization starts with `scheme()` and a ':'.
#[verifier::external_body]
fn parse_url(input: &str) -> (r: Result<ParsedUrl, String>)
    ensures
        match r {
            Ok(p) => url_parse_result(input@) == Ok::<UrlParts, Seq<char>>(p@) && p@.scheme.len()
                < p@.serialization.len() && p@.serialization.take(p@.scheme.len() as int + 1) == p@.scheme.push(':'),
            Err(e) => url_parse_result(input@) == Err::<UrlParts, Seq<char>>(e@),
        },
{
    match url::Url::parse(input) {
        Ok(u) => Ok(ParsedUrl {
            scheme: u.scheme().to_string(),
            has_host: u.host_str().is_some(),
            serialization: u.to_string(),
        }),
        Err(e) => Err(e.to_string()),
    }
}

/// Why a feed URL was refused.
#[derive(Debug, Clone, PartialEq, Eq)]
pub enum UrlError {
    /// Nothing but white space was given.
    Empty,
    /// The URL parser refused the (trimmed) text, for the reason given.
    Invalid { input: String, reason: String },
    /// The scheme is neither http nor https.
    NotHttp,
    /// The URL names no host.
    NoHost,
}

/// The plain content of a `UrlError`.
pub enum UrlErrorKind {
    Empty,
    Invalid { input: Seq<char>, reason: Seq<char> },
    NotHttp,
    NoHost,
}

impl View for UrlError {
    type V = UrlErrorKind;

    open spec fn view(&self) -> UrlErrorKind {
        match self {
            UrlError::Empty => UrlErrorKind::Empty,
            UrlError::Invalid { input, reason } => UrlErrorKind::Invalid { input: input@, reason: reason@ },
            UrlError::NotHttp => UrlErrorKind::NotHttp,
            UrlError::NoHost => UrlErrorKind::NoHost,
        }
    }
}

/// The decision on a non-empty trimmed text `t` that the URL parser read as `p`: a parse error
/// makes it invalid; otherwise the scheme must be http or https and there must be a host; the
/// result is the URL's serialization.
pub open spec fn decide_url(t: Seq<char>, p: Result<UrlParts, Seq<char>>) -> Result<Seq<char>, UrlErrorKind> {
    match p {
        Err(reason) => Err(UrlErrorKind::Invalid { input: t, reason: reason }),
        Ok(u) => if u.scheme != "http"@ && u.scheme != "https"@ {
            Err(UrlErrorKind::NotHttp)
        } else if !u.has_host {
            Err(UrlErrorKind::NoHost)
        } else {
            Ok(u.serialization)
        },
    }
}

/// What `validate_feed_url` gives for `input`: the trimmed text must not be empty, and then
/// `decide_url` on what the URL parser makes of it.
pub open spec fn validate_feed_url_spec(input: Seq<char>) -> Result<Seq<char>, UrlErrorKind> {
    let t = trim_spec(input);
    if t.len() == 0 {
        Err(UrlErrorKind::Empty)
    } else {
        decide_url(t, url_parse_result(t))
    }
}

/// The plain content of what the URL parser gave.
pub open spec fn parsed_view(p: Result<ParsedUrl, String>) -> Result<UrlParts, Seq<char>> {
    match p {
        Ok(u) => Ok(u@),
        Err(e) => Err(e@),
    }
}

/// Decides on the trimmed text `trimmed` from what the URL parser made of it (see
/// `decide_url`).
pub fn decide_parsed_url(trimmed: String, parsed: Result<ParsedUrl, String>) -> (r: Result<String, UrlError>)
    ensures
        match (r, decide_url(trimmed@, parsed_view(parsed))) {
            (Ok(u), Ok(v)) => u@ == v,
            (Err(e), Err(k)) => e@ == k,
            _ => false,
        },
{
    let parsed = match parsed {
        Ok(p) => p,
        Err(reason) => return Err(UrlError::Invalid { input: trimmed, reason: reason }),
    };
    if !str_eq(parsed.scheme.as_str(), "http") && !str_eq(parsed.scheme.as_str(), "https") {
        return Err(UrlError::NotHttp);
    }
    if !parsed.has_host {
        return Err(UrlError::NoHost);
    }
    Ok(parsed.serialization)
}

/// Checks a feed URL: trimmed, it must parse, use http or https and name a host. Returns the
/// URL as the parser writes it, which starts with "http:" or "https:".
pub fn validate_feed_url(input: &str) -> (r: Result<String, UrlError>)
    ensures
        match (r, validate_feed_url_spec(input@)) {
            (Ok(u), Ok(v)) => u@ == v,
            (Err(e), Err(k)) => e@ == k,
            _ => false,
        },
        r matches Ok(u) ==> (u@.take(5) == "http:"@ || u@.take(6) == "https:"@),
{
    let trimmed = trim(input);
    if trimmed.as_str().is_empty() {
        return Err(UrlError::Empty);
    }
    let parsed = parse_url(trimmed.as_str());
    let ghost pv = parsed_view(parsed);
    proof {
        assert(pv == url_parse_result(trimmed@));
        if pv is Ok {
            assert(parsed matches Ok(p) && p@ == pv->Ok_0);
        }
    }
    let r = decide_parsed_url(trimmed, parsed);
    proof {
        if r is Ok {
            reveal_strlit("http");
            reveal_strlit("https");
            reveal_strlit("http:");
            reveal_strlit("https:");
            let u = pv->Ok_0;
            let sc = u.scheme;
            let se = u.serialization;
            assert(se.take(sc.len() as int + 1) == sc.push(':'));
            if sc == "http"@ {
                assert(se.take(5) =~= "http:"@);
            } else {
                assert(se.take(6) =~= "https:"@);
            }
        }
    }
    r
}

impl UrlError {
    /// The error's message, as the reader shows it.
    pub fn message(&self) -> (r: String)
        ensures
            r@ == url_error_message(self@),
    {
        match self {
            UrlError::Empty => "feed URL cannot be empty".to_string(),
            UrlError::Invalid { input, reason: _ } => concat("invalid URL: ", input.as_str()),
            UrlError::NotHttp => "feed URL must use http or https".to_string(),
            UrlError::NoHost => "feed URL must include a host".to_string(),
        }
    }
}

/// The message of a feed URL error.
pub open spec fn url_error_message(e: UrlErrorKind) -> Seq<char> {
    match e {
        UrlErrorKind::Empty => "feed URL cannot be empty"@,
        UrlErrorKind::Invalid { input, reason: _ } => "invalid URL: "@ + input,
        UrlErrorKind::NotHttp => "feed URL must use http or https"@,
        UrlErrorKind::NoHost => "feed URL must include a host"@,
    }
}

} // verus!
