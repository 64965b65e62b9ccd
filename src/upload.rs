//! Uploader decisions: the pipeline's configuration, the request planned for
//! each candidate path, and the classification of what the transport returned.
use vstd::prelude::*;
use vstd::string::*;
use crate::filter::{lower_of, normalize_allow_list, qualifies, qualifies_of, views_of};
use crate::route::{join_segments, joined, relative_segments, routing_of, PathError};

verus! {

/// The orthogonal options of one pipeline.
#[derive(Debug, Clone)]
pub struct PipelineConfig {
    /// The canonical watch root.
    pub root: String,
    /// Whether nested subdirectories are watched too.
    pub recursive: bool,
    /// The destination endpoint.
    pub url: String,
    /// A fixed suffix appended to `url`, where the endpoint expects one.
    pub url_suffix: Option<String>,
    /// The lower-cased extension allow-list; with none, every file passes.
    pub allow_list: Option<Vec<String>>,
    /// Whether the routing segments are sent as the `path` part.
    pub routing: bool,
}

/// The endpoint that uploads are posted to.
pub open spec fn upload_url_of(c: PipelineConfig) -> Seq<char> {
    match c.url_suffix {
        None => c.url@,
        Some(s) => c.url@ + s@,
    }
}

impl PipelineConfig {
    /// A configuration whose allow-list entries are lower-cased, so that
    /// extensions compare case-insensitively.
    pub fn new(
        root: String,
        recursive: bool,
        url: String,
        url_suffix: Option<String>,
        extensions: Option<Vec<String>>,
        routing: bool,
    ) -> (r: PipelineConfig)
        ensures
            r.root == root,
            r.recursive == recursive,
            r.url == url,
            r.url_suffix == url_suffix,
            r.routing == routing,
            extensions is None <==> r.allow_list is None,
            extensions is Some ==> ({
                let e = extensions->0@;
                let l = r.allow_list->0@;
                &&& l.len() == e.len()
                &&& forall|k: int| 0 <= k < e.len() ==> #[trigger] l[k]@ == lower_of(e[k]@)
            }),
    {
        let allow_list = match &extensions {
            None => None,
            Some(e) => Some(normalize_allow_list(e)),
        };
        PipelineConfig { root, recursive, url, url_suffix, allow_list, routing }
    }
}

/// One upload to perform: the file to send, the endpoint, and the text of the
/// `path` part when routing is configured.
#[derive(Debug, Clone, PartialEq, Eq)]
pub struct UploadRequest {
    pub file: String,
    pub url: String,
    pub path_field: Option<String>,
}

/// Why a candidate is not uploaded.
#[derive(Debug, Clone, Copy, PartialEq, Eq, Structural)]
pub enum SkipReason {
    /// Not a regular file, or its extension is not allowed.
    NotQualifying,
    /// Routing is configured and the path could not be canonicalised.
    Unresolvable,
    /// Routing is configured and the canonical path is outside the root.
    OutsideRoot,
}

/// How a delivery ended.
#[derive(Debug, Clone, PartialEq, Eq)]
pub enum UploadOutcome {
    /// The endpoint answered with a 2xx status.
    Success,
    /// The endpoint answered with another status, recorded here.
    ServerRejected(u16),
    /// No response came back; the transport's cause is recorded.
    TransportError(String),
    /// The candidate was not sent.
    Skipped(SkipReason),
}

/// Whether `plan_upload` sends a candidate: it qualifies and, where routing is
/// configured, its canonical form lies under the root.
pub open spec fn sends(c: PipelineConfig, path: Seq<char>, is_file: bool, canonical: Option<String>) -> bool {
    &&& qualifies_of(path, c.allow_list, is_file)
    &&& c.routing ==> canonical is Some && routing_of(c.root@, canonical->0@) is Some
}

/// The request for one candidate `path` of a settled batch. `is_file` says
/// whether it is a regular file now; `canonical` is its canonical form, where
/// that could be computed.
pub fn plan_upload(c: &PipelineConfig, path: &str, is_file: bool, canonical: Option<String>) -> (r: Result<UploadRequest, SkipReason>)
    ensures
        r is Ok <==> sends(*c, path@, is_file, canonical),
        !qualifies_of(path@, c.allow_list, is_file) ==> r == Err::<UploadRequest, SkipReason>(SkipReason::NotQualifying),
        qualifies_of(path@, c.allow_list, is_file) && c.routing && canonical is None
            ==> r == Err::<UploadRequest, SkipReason>(SkipReason::Unresolvable),
        qualifies_of(path@, c.allow_list, is_file) && c.routing && canonical is Some
            && routing_of(c.root@, canonical->0@) is None
            ==> r == Err::<UploadRequest, SkipReason>(SkipReason::OutsideRoot),
        r is Ok ==> ({
            let q = r->Ok_0;
            &&& q.file@ == path@
            &&& q.url@ == upload_url_of(*c)
            &&& c.routing ==> q.path_field is Some
                && q.path_field->0@ == joined(routing_of(c.root@, canonical->0@)->0)
            &&& !c.routing ==> q.path_field is None
        }),
{
    if !qualifies(path, &c.allow_list, is_file) {
        return Err(SkipReason::NotQualifying);
    }
    let path_field = if c.routing {
        match &canonical {
            None => {
                return Err(SkipReason::Unresolvable);
            },
            Some(abs) => match relative_segments(c.root.as_str(), abs.as_str()) {
                Err(_) => {
                    return Err(SkipReason::OutsideRoot);
                },
                Ok(segs) => Some(join_segments(&segs)),
            },
        }
    } else {
        None
    };
    let mut url = c.url.clone();
    match &c.url_suffix {
        None => {},
        Some(s) => url.append(s.as_str()),
    }
    Ok(UploadRequest { file: String::from_str(path), url, path_field })
}

/// Relies on `reqwest::StatusCode::from_u16`, which refuses codes outside
/// 100..=999, and `StatusCode::is_success`, which holds for 200..=299.
#[verifier::external_body]
fn status_is_success(code: u16) -> (r: bool)
    ensures
        r == (200 <= code && code < 300),
{
    match reqwest::StatusCode::from_u16(code) {
        Ok(status) => status.is_success(),
        Err(_) => false,
    }
}

/// Classifies what the transport returned for one POST: the response's status
/// code, or the cause of a transport-level failure.
pub fn classify_response(response: &Result<u16, String>) -> (r: UploadOutcome)
    ensures
        match response {
            Ok(code) => if 200 <= *code && *code < 300 {
                r == UploadOutcome::Success
            } else {
                r == UploadOutcome::ServerRejected(*code)
            },
            Err(cause) => r is TransportError && r->TransportError_0@ == cause@,
        },
{
    match response {
        Ok(code) => if status_is_success(*code) {
            UploadOutcome::Success
        } else {
            UploadOutcome::ServerRejected(*code)
        },
        Err(cause) => UploadOutcome::TransportError(cause.clone()),
    }
}

} // verus!
