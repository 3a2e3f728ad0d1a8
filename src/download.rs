//! What a drawing download sends and how its response is judged: bearer
//! tokens taken out of the query string, the local file name, and the
//! failure kinds.
use vstd::prelude::*;
use crate::model::owned;
use crate::text::{contains_text, decimal, decimal_text, has_infix};

verus! {

/// A decoded query string: name/value pairs in order.
pub open spec fn pairs_view(p: Seq<(String, String)>) -> Seq<(Seq<char>, Seq<char>)> {
    p.map_values(|x: (String, String)| (x.0@, x.1@))
}

/// Name of the decoded query pairs of a URL, `None` when it does not parse.
pub uninterp spec fn url_query_pairs(s: Seq<char>) -> Option<Seq<(Seq<char>, Seq<char>)>>;

/// Name of a URL re-serialised with its query string removed.
pub uninterp spec fn url_without_query(s: Seq<char>) -> Seq<char>;

/// Name of a URL re-serialised with its query string replaced by the
/// form-encoded `pairs`.
pub uninterp spec fn url_with_query(s: Seq<char>, pairs: Seq<(Seq<char>, Seq<char>)>) -> Seq<
    char,
>;

/// Relies on `url::Url::parse` and `url::Url::query_pairs`: the decoded
/// name/value pairs of the query string, in order, or `None` when `input`
/// does not parse.
#[verifier::external_body]
fn parse_query_pairs(input: &str) -> (r: Option<Vec<(String, String)>>)
    ensures
        match url_query_pairs(input@) {
            Some(p) => r is Some && pairs_view((r->0)@) == p,
            None => r is None,
        },
{
    url::Url::parse(input).ok().map(|u| u.query_pairs().into_owned().collect())
}

/// Relies on `url::Url::parse` and `url::Url::set_query` with `None`:
/// `input` re-serialised without its query string. Parsing depends on
/// `input` alone, so it succeeds exactly when it does for the query pairs.
#[verifier::external_body]
fn strip_url_query(input: &str) -> (r: Option<String>)
    ensures
        (r is Some) == (url_query_pairs(input@) is Some),
        r is Some ==> (r->0)@ == url_without_query(input@),
{
    match url::Url::parse(input) {
        Ok(mut u) => {
            u.set_query(None);
            Some(u.as_str().to_string())
        },
        Err(_) => None,
    }
}

/// Relies on `url::Url::parse` and `url::Url::query_pairs_mut` (`clear`,
/// then `extend_pairs`): `input` re-serialised with its query string
/// replaced by `pairs`, form-encoded in order. Parsing depends on `input`
/// alone, so it succeeds exactly when it does for the query pairs.
#[verifier::external_body]
fn replace_url_query(input: &str, pairs: &Vec<(String, String)>) -> (r: Option<String>)
    ensures
        (r is Some) == (url_query_pairs(input@) is Some),
        r is Some ==> (r->0)@ == url_with_query(input@, pairs_view(pairs@)),
{
    match url::Url::parse(input) {
        Ok(mut u) => {
            u.query_pairs_mut().clear().extend_pairs(
                pairs.iter().map(|(k, v)| (k.as_str(), v.as_str())),
            );
            Some(u.as_str().to_string())
        },
        Err(_) => None,
    }
}

/// The GET request to issue for a download.
pub struct RequestPlan {
    pub url: String,
    /// Value of the `Authorization` header, if one is sent.
    pub authorization: Option<String>,
}

pub open spec fn bearer(token: Seq<char>) -> Seq<char> {
    "Bearer "@ + token
}

/// `Bearer <token>`.
pub fn bearer_header(token: &str) -> (r: String)
    ensures
        r@ == bearer(token@),
{
    let mut h = owned("Bearer ");
    h.append(token);
    h
}

/// Value of the first query pair named `token`.
pub open spec fn first_token(pairs: Seq<(Seq<char>, Seq<char>)>) -> Option<Seq<char>>
    decreases pairs.len(),
{
    if pairs.len() == 0 {
        None
    } else if pairs[0].0 == "token"@ {
        Some(pairs[0].1)
    } else {
        first_token(pairs.drop_first())
    }
}

/// The query pairs other than those named `token`, in order.
pub open spec fn without_token(pairs: Seq<(Seq<char>, Seq<char>)>) -> Seq<(Seq<char>, Seq<char>)>
    decreases pairs.len(),
{
    if pairs.len() == 0 {
        seq![]
    } else {
        let a = without_token(pairs.drop_last());
        if pairs.last().0 == "token"@ {
            a
        } else {
            a.push(pairs.last())
        }
    }
}

/// The URL `s`, whose query holds `pairs`, with every `token` pair taken
/// out: without a query string when nothing else remains.
pub open spec fn token_free_url(s: Seq<char>, pairs: Seq<(Seq<char>, Seq<char>)>) -> Seq<char> {
    if without_token(pairs).len() == 0 {
        url_without_query(s)
    } else {
        url_with_query(s, without_token(pairs))
    }
}

/// The value of the first pair named `token`.
pub fn find_token(pairs: &Vec<(String, String)>) -> (r: Option<String>)
    ensures
        match first_token(pairs_view(pairs@)) {
            Some(t) => r is Some && r->0@ == t,
            None => r is None,
        },
{
    let ghost pv = pairs_view(pairs@);
    let n = pairs.len();
    let name = owned("token");
    let mut i: usize = 0;
    proof {
        assert(pv.subrange(0, n as int) =~= pv);
    }
    while i < n
        invariant
            pv == pairs_view(pairs@),
            n == pv.len(),
            i <= n,
            name@ == "token"@,
            first_token(pv) == first_token(pv.subrange(i as int, n as int)),
        decreases n - i,
    {
        proof {
            assert(pv.subrange(i as int, n as int)[0] == pv[i as int]);
            assert(pv[i as int] == (pairs@[i as int].0@, pairs@[i as int].1@));
            assert(pv.subrange(i as int, n as int).drop_first() =~= pv.subrange(i + 1, n as int));
        }
        if pairs[i].0 == name {
            return Some(pairs[i].1.clone());
        }
        i = i + 1;
    }
    None
}

/// The pairs other than those named `token`, in order.
pub fn drop_token_pairs(pairs: &Vec<(String, String)>) -> (r: Vec<(String, String)>)
    ensures
        pairs_view(r@) == without_token(pairs_view(pairs@)),
{
    let ghost pv = pairs_view(pairs@);
    let name = owned("token");
    let mut out: Vec<(String, String)> = Vec::new();
    let mut i: usize = 0;
    proof {
        assert(pv.subrange(0, 0) =~= Seq::<(Seq<char>, Seq<char>)>::empty());
    }
    while i < pairs.len()
        invariant
            pv == pairs_view(pairs@),
            i <= pv.len(),
            name@ == "token"@,
            pairs_view(out@) == without_token(pv.subrange(0, i as int)),
        decreases pv.len() - i,
    {
        proof {
            assert(pv.subrange(0, i + 1).drop_last() =~= pv.subrange(0, i as int));
            assert(pv.subrange(0, i + 1).last() == (pairs@[i as int].0@, pairs@[i as int].1@));
        }
        if pairs[i].0 != name {
            let k = pairs[i].0.clone();
            let v = pairs[i].1.clone();
            let ghost before = out@;
            out.push((k, v));
            proof {
                assert(pairs_view(out@) =~= pairs_view(before).push(
                    (pairs@[i as int].0@, pairs@[i as int].1@),
                ));
            }
        }
        i = i + 1;
    }
    proof {
        assert(pv.subrange(0, pv.len() as int) =~= pv);
    }
    out
}

/// The request for `url` given its decoded query pairs and its form with
/// the `token` pairs taken out: with a `token` pair, the token moves into a
/// bearer header and `stripped` is fetched; without one, `url` is fetched
/// as is.
pub fn plan_from_query(url: &str, pairs: &Vec<(String, String)>, stripped: String) -> (r:
    RequestPlan)
    ensures
        match first_token(pairs_view(pairs@)) {
            Some(t) => r.url@ == stripped@ && r.authorization is Some && r.authorization->0@
                == bearer(t),
            None => r.url@ == url@ && r.authorization is None,
        },
{
    match find_token(pairs) {
        Some(t) => RequestPlan { url: stripped, authorization: Some(bearer_header(t.as_str())) },
        None => RequestPlan { url: owned(url), authorization: None },
    }
}

/// The request for `url`: a URL that mentions `token=`, parses and has a
/// `token` query pair is fetched with its `token` pairs taken out, the
/// first token sent as a bearer header; any other URL is fetched as is.
pub fn plan_download_request(url: &str) -> (r: RequestPlan)
    ensures
        !has_infix(url@, "token="@) ==> r.url@ == url@ && r.authorization is None,
        has_infix(url@, "token="@) ==> match url_query_pairs(url@) {
            None => r.url@ == url@ && r.authorization is None,
            Some(p) => match first_token(p) {
                Some(t) => r.url@ == token_free_url(url@, p) && r.authorization is Some
                    && r.authorization->0@ == bearer(t),
                None => r.url@ == url@ && r.authorization is None,
            },
        },
{
    if contains_text(url, "token=") {
        match parse_query_pairs(url) {
            Some(pairs) => {
                let rest = drop_token_pairs(&pairs);
                assert(pairs_view(rest@).len() == rest@.len());
                let stripped = if rest.len() == 0 {
                    strip_url_query(url)
                } else {
                    replace_url_query(url, &rest)
                };
                match stripped {
                    Some(s) => plan_from_query(url, &pairs, s),
                    None => RequestPlan { url: owned(url), authorization: None },
                }
            },
            None => RequestPlan { url: owned(url), authorization: None },
        }
    } else {
        RequestPlan { url: owned(url), authorization: None }
    }
}

/// The request for `url` with a token the caller supplies: the URL is kept
/// and the token, if any, is sent as a bearer header.
pub fn plan_with_token(url: &str, auth_token: Option<String>) -> (r: RequestPlan)
    ensures
        r.url@ == url@,
        match auth_token {
            Some(t) => r.authorization is Some && r.authorization->0@ == bearer(t@),
            None => r.authorization is None,
        },
{
    let authorization = match auth_token {
        Some(t) => Some(bearer_header(t.as_str())),
        None => None,
    };
    RequestPlan { url: owned(url), authorization }
}

/// File type guessed from the text of a URL: the drawings API serves DXF.
pub open spec fn inferred_extension(url: Seq<char>) -> Seq<char> {
    if has_infix(url, ".dxf"@) || has_infix(url, "drawings/"@) {
        "dxf"@
    } else if has_infix(url, ".dwg"@) {
        "dwg"@
    } else {
        "dxf"@
    }
}

/// The extension, without dot, of the file a URL is taken to serve.
pub fn get_extension_from_url(url: &str) -> (r: String)
    ensures
        r@ == inferred_extension(url@),
{
    if contains_text(url, ".dxf") || contains_text(url, "drawings/") {
        owned("dxf")
    } else if contains_text(url, ".dwg") {
        owned("dwg")
    } else {
        owned("dxf")
    }
}

pub open spec fn drawing_file_name_spec(drawing_id: Option<u32>, url: Seq<char>) -> Seq<char> {
    match drawing_id {
        Some(id) => "drawing_"@ + decimal(id as nat) + "."@ + inferred_extension(url),
        None => "temp_drawing."@ + inferred_extension(url),
    }
}

/// Name of the temporary file a download from `url` is saved under:
/// `drawing_<id>.<ext>` for a known drawing, `temp_drawing.<ext>` otherwise.
pub fn drawing_file_name(drawing_id: Option<u32>, url: &str) -> (r: String)
    ensures
        r@ == drawing_file_name_spec(drawing_id, url@),
{
    let ext = get_extension_from_url(url);
    match drawing_id {
        Some(id) => {
            let mut name = owned("drawing_");
            let digits = decimal_text(id);
            name.append(digits.as_str());
            name.append(".");
            name.append(ext.as_str());
            name
        },
        None => {
            let mut name = owned("temp_drawing.");
            name.append(ext.as_str());
            name
        },
    }
}

/// Why a download failed.
#[derive(Debug)]
pub enum DownloadError {
    /// The request could not be sent or its body not read.
    Network(String),
    /// The server answered with a status outside 200..=299.
    HttpStatus { status: u16, body: String },
    /// The server answered with success and an empty body.
    EmptyBody,
    /// The temporary file could not be created.
    CreateFile(String),
    /// The temporary file could not be written.
    WriteFile(String),
}

pub open spec fn is_success_spec(status: u16) -> bool {
    200 <= status && status < 300
}

/// Whether an HTTP status counts as success.
pub fn is_success_status(status: u16) -> (r: bool)
    ensures
        r == is_success_spec(status),
{
    200 <= status && status < 300
}

/// Judges a response from its status, the text of an error body and the
/// length of a success body.
pub fn check_response(status: u16, error_text: String, body_len: usize) -> (r: Result<
    (),
    DownloadError,
>)
    ensures
        !is_success_spec(status) ==> (r matches Err(DownloadError::HttpStatus { status: s, body: b })
            && s == status && b@ == error_text@),
        is_success_spec(status) && body_len == 0 ==> r matches Err(DownloadError::EmptyBody),
        is_success_spec(status) && body_len > 0 ==> r is Ok,
{
    if !is_success_status(status) {
        Err(DownloadError::HttpStatus { status, body: error_text })
    } else if body_len == 0 {
        Err(DownloadError::EmptyBody)
    } else {
        Ok(())
    }
}

impl DownloadError {
    pub open spec fn message_spec(&self) -> Seq<char> {
        match self {
            DownloadError::Network(e) => "network request failed: "@ + e@,
            DownloadError::HttpStatus { status, body } => "HTTP error: "@ + decimal(
                *status as nat,
            ) + " - "@ + body@,
            DownloadError::EmptyBody => "downloaded file is empty"@,
            DownloadError::CreateFile(e) => "failed to create temporary file: "@ + e@,
            DownloadError::WriteFile(e) => "failed to write file: "@ + e@,
        }
    }

    /// A message that names the stage that failed and the reason given.
    pub fn message(&self) -> (r: String)
        ensures
            r@ == self.message_spec(),
    {
        match self {
            DownloadError::Network(e) => {
                let mut m = owned("network request failed: ");
                m.append(e.as_str());
                m
            },
            DownloadError::HttpStatus { status, body } => {
                let mut m = owned("HTTP error: ");
                let digits = decimal_text(*status as u32);
                m.append(digits.as_str());
                m.append(" - ");
                m.append(body.as_str());
                m
            },
            DownloadError::EmptyBody => owned("downloaded file is empty"),
            DownloadError::CreateFile(e) => {
                let mut m = owned("failed to create temporary file: ");
                m.append(e.as_str());
                m
            },
            DownloadError::WriteFile(e) => {
                let mut m = owned("failed to write file: ");
                m.append(e.as_str());
                m
            },
        }
    }
}

} // verus!
