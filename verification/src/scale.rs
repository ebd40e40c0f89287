//! The scale of a workload: its replica count as an object of its own.
use vstd::prelude::*;
use vstd::string::StringExecFns;
use crate::access::{attributes, AttributesView, Decision, RequestAttributes};
use crate::error::{invalid_field, one_invalid_field, Error, ErrorView, FieldErrorKind};
use crate::json::{
    as_int, as_text, copy_text_of, get_in, int_of_json, lemma_json_view, low_32_bits, member,
    member_views, narrow, opt_member, outcome_of, put_member, take_inner, text_of_json, value_of,
    with_member, Json, JsonView,
};
use crate::json_text::{json_document, parse_document};
use crate::pod_patch::invalid_because;
use crate::resize::{after_write, Attempt};
use crate::text::{i64_text, join, joined, opt_text, same, signed_decimal, split, split_at_char, texts};
use crate::validation::non_empty;

verus! {

/// The scale of a workload.
#[derive(Debug)]
pub struct Scale {
    pub api_version: String,
    pub kind: String,
    pub metadata: ScaleMetadata,
    pub spec: ScaleSpec,
    pub status: ScaleStatus,
}

/// Which workload a scale belongs to.
#[derive(Debug)]
pub struct ScaleMetadata {
    pub name: String,
    pub namespace: String,
    pub resource_version: Option<String>,
    pub creation_timestamp: Option<String>,
}

/// How many replicas are wanted.
#[derive(Debug)]
pub struct ScaleSpec {
    pub replicas: i32,
}

/// How many replicas there are, and what selects them.
#[derive(Debug)]
pub struct ScaleStatus {
    pub replicas: i32,
    pub selector: Option<String>,
}

/// The content of a [`Scale`].
pub struct ScaleView {
    pub api_version: Seq<char>,
    pub kind: Seq<char>,
    pub name: Seq<char>,
    pub namespace: Seq<char>,
    pub resource_version: Option<Seq<char>>,
    pub creation_timestamp: Option<Seq<char>>,
    pub replicas: int,
    pub status_replicas: int,
    pub selector: Option<Seq<char>>,
}

impl View for Scale {
    type V = ScaleView;

    open spec fn view(&self) -> ScaleView {
        ScaleView {
            api_version: self.api_version@,
            kind: self.kind@,
            name: self.metadata.name@,
            namespace: self.metadata.namespace@,
            resource_version: opt_text(self.metadata.resource_version),
            creation_timestamp: opt_text(self.metadata.creation_timestamp),
            replicas: self.spec.replicas as int,
            status_replicas: self.status.replicas as int,
            selector: opt_text(self.status.selector),
        }
    }
}

/// The segments of a path: what stands between its slashes.
pub open spec fn segments_of(path: Seq<char>) -> Seq<Seq<char>> {
    non_empty(split_at_char(path, '/'), split_at_char(path, '/').len())
}

/// Group, version and resource in a path that ends in resource, name and `scale`.
pub open spec fn scale_target(path: Seq<char>) -> (Seq<char>, Seq<char>, Seq<char>) {
    let s = segments_of(path);
    let resource = if s.len() >= 3 {
        s[s.len() - 3]
    } else {
        "unknown"@
    };
    if s.len() >= 3 && s[0] == "apis"@ {
        (s[1], s[2], resource)
    } else {
        (
            ""@,
            if s.len() >= 2 {
                s[1]
            } else {
                "v1"@
            },
            resource,
        )
    }
}

fn segments(path: &str) -> (r: Vec<String>)
    ensures
        texts(r@) == segments_of(path@),
{
    let pieces: Vec<String> = split(path, '/');
    let ghost all = split_at_char(path@, '/');
    let mut out: Vec<String> = Vec::new();
    let mut i: usize = 0;
    assert(texts(out@) =~= non_empty(all, 0));
    while i < pieces.len()
        invariant
            i <= pieces@.len(),
            all == texts(pieces@),
            texts(out@) == non_empty(all, i as nat),
        decreases pieces.len() - i,
    {
        assert(all[i as int] == pieces@[i as int]@);
        let empty: bool = same(pieces[i].as_str(), "");
        proof {
            reveal_strlit("");
            if all[i as int].len() == 0 {
                assert(all[i as int] =~= ""@);
            }
        }
        if !empty {
            let piece: String = pieces[i].clone();
            assert(texts(out@.push(piece)) =~= texts(out@).push(piece@));
            out.push(piece);
        }
        i = i + 1;
    }
    out
}

/// Group, version and resource in the path of a scale.
pub fn parse_scale_uri(path: &str) -> (r: (String, String, String))
    ensures
        (r.0@, r.1@, r.2@) == scale_target(path@),
{
    let s: Vec<String> = segments(path);
    let ghost all = segments_of(path@);
    assert(forall|i: int| 0 <= i < s@.len() ==> all[i] == (#[trigger] s@[i])@);
    assert(all.len() == s@.len());
    let n: usize = s.len();
    let resource: String = if n >= 3 {
        s[n - 3].clone()
    } else {
        "unknown".to_owned()
    };
    if n >= 3 && same(s[0].as_str(), "apis") {
        (s[1].clone(), s[2].clone(), resource)
    } else {
        (
            "".to_owned(),
            if n >= 2 {
                s[1].clone()
            } else {
                "v1".to_owned()
            },
            resource,
        )
    }
}

/// The text of a value, empty for one that is no text.
pub open spec fn text_or_empty(j: JsonView) -> Seq<char> {
    match as_text(Some(j)) {
        Some(t) => t,
        None => ""@,
    }
}

/// Each member as `key=value`.
pub open spec fn label_pairs(m: Seq<(Seq<char>, JsonView)>) -> Seq<Seq<char>> {
    Seq::new(m.len(), |i: int| m[i].0 + "="@ + text_or_empty(m[i].1))
}

/// A selector as text: the labels that it names, or the text that it is. One
/// made of expressions alone has no text.
pub open spec fn selector_text(selector: Option<JsonView>) -> Option<Seq<char>> {
    match selector {
        Some(JsonView::Object(m)) => {
            let labels = member(JsonView::Object(m), "matchLabels"@);
            if labels is Some || member(JsonView::Object(m), "matchExpressions"@) is Some {
                match labels {
                    Some(JsonView::Object(inner)) => Some(joined(label_pairs(inner), ","@)),
                    _ => None,
                }
            } else {
                Some(joined(label_pairs(m), ","@))
            }
        },
        other => as_text(other),
    }
}

/// The scale of a stored workload.
pub open spec fn scale_of(resource: JsonView, namespace: Seq<char>, name: Seq<char>) -> Result<
    ScaleView,
    ErrorView,
> {
    let metadata = member(resource, "metadata"@);
    let spec = member(resource, "spec"@);
    let status = member(resource, "status"@);
    if metadata is None {
        Err(ErrorView::InvalidResource("Missing metadata"@))
    } else if spec is None {
        Err(ErrorView::InvalidResource("Missing spec"@))
    } else {
        Ok(
            ScaleView {
                api_version: "autoscaling/v1"@,
                kind: "Scale"@,
                name,
                namespace,
                resource_version: as_text(opt_member(metadata, "resourceVersion"@)),
                creation_timestamp: as_text(opt_member(metadata, "creationTimestamp"@)),
                replicas: match as_int(opt_member(spec, "replicas"@)) {
                    Some(n) => low_32_bits(n as int),
                    None => 1,
                },
                status_replicas: match as_int(opt_member(status, "replicas"@)) {
                    Some(n) => low_32_bits(n as int),
                    None => 0,
                },
                selector: selector_text(opt_member(spec, "selector"@)),
            },
        )
    }
}

fn join_labels(m: &Vec<(String, Json)>) -> (r: String)
    ensures
        r@ == joined(label_pairs(member_views(m@)), ","@),
{
    let mut parts: Vec<String> = Vec::new();
    let mut i: usize = 0;
    while i < m.len()
        invariant
            i <= m@.len(),
            parts@.len() == i,
            forall|j: int|
                0 <= j < i ==> (#[trigger] parts@[j])@ == m@[j].0@ + "="@ + text_or_empty(
                    m@[j].1@,
                ),
        decreases m.len() - i,
    {
        let mut part: String = m[i].0.clone();
        part.append("=");
        match text_of_json(Some(&m[i].1)) {
            Some(s) => {
                part.append(s.as_str());
            },
            None => {
                part.append("");
            },
        }
        parts.push(part);
        i = i + 1;
    }
    assert(texts(parts@) =~= label_pairs(member_views(m@)));
    join(&parts, ",")
}

fn read_selector(selector: Option<&Json>) -> (r: Option<String>)
    ensures
        opt_text(r) == selector_text(value_of(selector)),
{
    broadcast use lemma_json_view;

    match selector {
        Some(j) => match j {
            Json::Object(m) => {
                let labels: Option<&Json> = j.get("matchLabels");
                let expressions: Option<&Json> = j.get("matchExpressions");
                if labels.is_some() || expressions.is_some() {
                    match labels {
                        Some(l) => match l {
                            Json::Object(inner) => Some(join_labels(inner)),
                            _ => None,
                        },
                        None => None,
                    }
                } else {
                    Some(join_labels(m))
                }
            },
            _ => copy_text_of(selector),
        },
        None => None,
    }
}

/// Reads the scale of a stored workload.
pub fn extract_scale(resource: &Json, namespace: &str, name: &str) -> (r: Result<Scale, Error>)
    ensures
        match r {
            Ok(s) => scale_of(resource@, namespace@, name@) == Ok::<ScaleView, ErrorView>(s@),
            Err(e) => scale_of(resource@, namespace@, name@) == Err::<ScaleView, ErrorView>(e@),
        },
{
    let metadata: Option<&Json> = resource.get("metadata");
    let spec: Option<&Json> = resource.get("spec");
    let status: Option<&Json> = resource.get("status");
    if metadata.is_none() {
        return Err(Error::InvalidResource("Missing metadata".to_owned()));
    }
    if spec.is_none() {
        return Err(Error::InvalidResource("Missing spec".to_owned()));
    }
    let wanted: i32 = match int_of_json(get_in(spec, "replicas")) {
        Some(n) => narrow(n),
        None => 1,
    };
    let there: i32 = match int_of_json(get_in(status, "replicas")) {
        Some(n) => narrow(n),
        None => 0,
    };
    Ok(
        Scale {
            api_version: "autoscaling/v1".to_owned(),
            kind: "Scale".to_owned(),
            metadata: ScaleMetadata {
                name: name.to_owned(),
                namespace: namespace.to_owned(),
                resource_version: copy_text_of(get_in(metadata, "resourceVersion")),
                creation_timestamp: copy_text_of(get_in(metadata, "creationTimestamp")),
            },
            spec: ScaleSpec { replicas: wanted },
            status: ScaleStatus {
                replicas: there,
                selector: read_selector(get_in(spec, "selector")),
            },
        },
    )
}

/// What a negative replica count is refused with.
pub open spec fn negative_replicas(replicas: int) -> ErrorView {
    invalid_field(
        FieldErrorKind::Invalid,
        "spec.replicas"@,
        signed_decimal(replicas),
        "must be greater than or equal to 0"@,
    )
}

/// Refuses a negative replica count.
pub fn check_replicas(replicas: i32) -> (r: Result<(), Error>)
    ensures
        r is Ok <==> replicas >= 0,
        r matches Err(e) ==> e@ == negative_replicas(replicas as int),
{
    if replicas < 0 {
        Err(
            one_invalid_field(
                FieldErrorKind::Invalid,
                "spec.replicas",
                i64_text(replicas as i64),
                "must be greater than or equal to 0",
            ),
        )
    } else {
        Ok(())
    }
}

/// A workload with this replica count in its specification. One whose
/// specification is no object stays as it is.
pub open spec fn with_replicas(resource: JsonView, replicas: int) -> JsonView {
    match (resource, member(resource, "spec"@)) {
        (JsonView::Object(m), Some(JsonView::Object(spec))) => JsonView::Object(
            with_member(
                m,
                "spec"@,
                JsonView::Object(with_member(spec, "replicas"@, JsonView::Int(replicas))),
            ),
        ),
        _ => resource,
    }
}

/// Writes a replica count into the specification of a workload.
pub fn put_replicas(resource: Json, replicas: i32) -> (r: Json)
    ensures
        r@ == with_replicas(resource@, replicas as int),
{
    broadcast use lemma_json_view;

    match take_inner(resource, "spec") {
        Ok((outer, spec)) => {
            let put: Vec<(String, Json)> = put_member(
                spec,
                "replicas",
                Json::Int(replicas as i128),
            );
            Json::Object(put_member(outer, "spec", Json::Object(put)))
        },
        Err(other) => other,
    }
}

/// What is asked of a scale.
pub enum ScaleRequest {
    Get,
    /// Set this count.
    Update(i32),
    /// Apply this patch, or refuse the body for what the parser says of it.
    Patch(Result<Json, String>),
}

/// The request to patch a scale, from the body that was sent.
pub fn patch_request(body: &[u8]) -> (r: ScaleRequest)
    ensures
        r matches ScaleRequest::Patch(patch) && outcome_of(patch) == json_document(body@),
{
    ScaleRequest::Patch(parse_document(body))
}

/// The verb of a request.
pub open spec fn scale_verb(request: ScaleRequest) -> Seq<char> {
    match request {
        ScaleRequest::Get => "get"@,
        ScaleRequest::Update(_) => "update"@,
        ScaleRequest::Patch(_) => "patch"@,
    }
}

/// The attributes of a request on a scale.
pub fn scale_attributes(request: &ScaleRequest, path: &str, namespace: &str, name: &str) -> (r:
    RequestAttributes)
    ensures
        r@ == (AttributesView {
            verb: scale_verb(*request),
            resource: scale_target(path@).2,
            api_group: scale_target(path@).0,
            namespace: Some(namespace@),
            name: Some(name@),
            subresource: Some("scale"@),
        }),
{
    let (group, _version, resource) = parse_scale_uri(path);
    let verb: &str = match request {
        ScaleRequest::Get => "get",
        ScaleRequest::Update(_) => "update",
        ScaleRequest::Patch(_) => "patch",
    };
    attributes(
        verb,
        resource.as_str(),
        group.as_str(),
        Some(namespace),
        Some(name),
        Some("scale"),
    )
}

/// The media type in a content type: what stands before its parameters.
pub fn media_type(content_type: &str) -> (r: String)
    ensures
        r@ == split_at_char(content_type@, ';')[0],
{
    let pieces: Vec<String> = split(content_type, ';');
    let first: String = pieces[0].clone();
    assert(texts(pieces@)[0] == first@);
    first
}

/// How often a patch is written at most.
pub const SCALE_PATCH_MAX_TRIES: usize = 5;

/// How far a request on a scale has come: what to do next, or the outcome.
pub enum Scaling {
    /// Ask the authorizer.
    Authorize,
    /// Read the workload.
    Fetch { tries: usize },
    /// Apply the patch to this scale.
    Apply { resource: Json, scale: Scale, tries: usize },
    /// Write the workload.
    Write { resource: Json, tries: usize },
    Answer(Scale),
    Refused(Error),
}

/// What came of it.
pub enum ScaleReply {
    Authorized(Result<Decision, Error>),
    Fetched(Result<Json, Error>),
    Applied(Result<Json, String>),
    Written(Result<Json, Error>),
}

/// Whether `next` is what a workload's scale is answered with.
pub open spec fn answers(
    next: Scaling,
    resource: JsonView,
    namespace: Seq<char>,
    name: Seq<char>,
) -> bool {
    match scale_of(resource, namespace, name) {
        Ok(view) => next is Answer && next->Answer_0@ == view,
        Err(e) => next is Refused && next->Refused_0@ == e,
    }
}

/// Whether `next` is a refusal with this error.
pub open spec fn refused_with(next: Scaling, e: ErrorView) -> bool {
    next is Refused && next->Refused_0@ == e
}

/// Whether `next` writes the workload with this replica count, or refuses it.
pub open spec fn writes_replicas(
    next: Scaling,
    resource: JsonView,
    replicas: int,
    tries: usize,
) -> bool {
    if replicas < 0 {
        refused_with(next, negative_replicas(replicas))
    } else {
        &&& next is Write
        &&& next->Write_tries == tries
        &&& next->Write_resource@ == with_replicas(resource, replicas)
    }
}

/// Whether `next` follows when `reply` answers what `at` waits for.
pub open spec fn scales(
    request: ScaleRequest,
    namespace: Seq<char>,
    name: Seq<char>,
    at: Scaling,
    reply: ScaleReply,
    next: Scaling,
) -> bool {
    match (at, reply) {
        (Scaling::Authorize, ScaleReply::Authorized(Err(e))) => next == Scaling::Refused(e),
        (Scaling::Authorize, ScaleReply::Authorized(Ok(Decision::Deny(reason)))) => next
            == Scaling::Refused(Error::Forbidden(reason)),
        (Scaling::Authorize, ScaleReply::Authorized(Ok(Decision::Allow))) => match request {
            ScaleRequest::Get => next == (Scaling::Fetch { tries: 0 }),
            ScaleRequest::Update(n) => if n < 0 {
                refused_with(next, negative_replicas(n as int))
            } else {
                next == (Scaling::Fetch { tries: 0 })
            },
            ScaleRequest::Patch(Ok(_)) => next == (Scaling::Fetch { tries: 0 }),
            ScaleRequest::Patch(Err(m)) => refused_with(
                next,
                ErrorView::InvalidResource("Invalid patch body: "@ + m@),
            ),
        },
        (Scaling::Fetch { .. }, ScaleReply::Fetched(Err(e))) => next == Scaling::Refused(e),
        (Scaling::Fetch { tries }, ScaleReply::Fetched(Ok(resource))) => match request {
            ScaleRequest::Get => answers(next, resource@, namespace, name),
            ScaleRequest::Update(n) => writes_replicas(next, resource@, n as int, tries),
            ScaleRequest::Patch(_) => match scale_of(resource@, namespace, name) {
                Ok(view) => next matches Scaling::Apply { resource: r, scale, tries: t } && r
                    == resource && scale@ == view && t == tries,
                Err(e) => refused_with(next, e),
            },
        },
        (Scaling::Apply { .. }, ScaleReply::Applied(Err(m))) => refused_with(
            next,
            ErrorView::InvalidResource("Failed to apply scale patch: "@ + m@),
        ),
        (Scaling::Apply { resource, tries, .. }, ScaleReply::Applied(Ok(patched))) => match as_int(
            opt_member(member(patched@, "spec"@), "replicas"@),
        ) {
            Some(n) => writes_replicas(next, resource@, low_32_bits(n as int), tries),
            None => next == (Scaling::Write { resource, tries }),
        },
        (Scaling::Write { .. }, ScaleReply::Written(Ok(resource))) => if request is Patch
            && resource is Null {
            refused_with(next, ErrorView::Conflict("scale patch failed after retries"@))
        } else {
            answers(next, resource@, namespace, name)
        },
        (Scaling::Write { tries, .. }, ScaleReply::Written(Err(e))) => if request is Patch
            && e is Conflict && tries + 1 < SCALE_PATCH_MAX_TRIES {
            next == (Scaling::Fetch { tries: (tries + 1) as usize })
        } else {
            next == Scaling::Refused(e)
        },
        (other, _) => next == other,
    }
}

fn answer(resource: &Json, namespace: &str, name: &str) -> (next: Scaling)
    ensures
        answers(next, resource@, namespace@, name@),
{
    match extract_scale(resource, namespace, name) {
        Ok(s) => Scaling::Answer(s),
        Err(e) => Scaling::Refused(e),
    }
}

fn write_replicas(resource: Json, replicas: i32, tries: usize) -> (next: Scaling)
    ensures
        writes_replicas(next, resource@, replicas as int, tries),
{
    match check_replicas(replicas) {
        Err(e) => Scaling::Refused(e),
        Ok(_) => Scaling::Write { resource: put_replicas(resource, replicas), tries },
    }
}

/// One step of a request on the scale of a workload. Starts at
/// [`Scaling::Authorize`]; a reply that answers nothing changes nothing.
pub fn scale_step(
    request: &ScaleRequest,
    namespace: &str,
    name: &str,
    at: Scaling,
    reply: ScaleReply,
) -> (next: Scaling)
    ensures
        scales(*request, namespace@, name@, at, reply, next),
{
    match (at, reply) {
        (Scaling::Authorize, ScaleReply::Authorized(Err(e))) => Scaling::Refused(e),
        (Scaling::Authorize, ScaleReply::Authorized(Ok(Decision::Deny(reason)))) => Scaling::Refused(
            Error::Forbidden(reason),
        ),
        (Scaling::Authorize, ScaleReply::Authorized(Ok(Decision::Allow))) => match request {
            ScaleRequest::Get => Scaling::Fetch { tries: 0 },
            ScaleRequest::Update(n) => match check_replicas(*n) {
                Err(e) => Scaling::Refused(e),
                Ok(_) => Scaling::Fetch { tries: 0 },
            },
            ScaleRequest::Patch(Ok(_)) => Scaling::Fetch { tries: 0 },
            ScaleRequest::Patch(Err(m)) => Scaling::Refused(
                invalid_because("Invalid patch body: ", m.as_str()),
            ),
        },
        (Scaling::Fetch { .. }, ScaleReply::Fetched(Err(e))) => Scaling::Refused(e),
        (Scaling::Fetch { tries }, ScaleReply::Fetched(Ok(resource))) => match request {
            ScaleRequest::Get => answer(&resource, namespace, name),
            ScaleRequest::Update(n) => write_replicas(resource, *n, tries),
            ScaleRequest::Patch(_) => match extract_scale(&resource, namespace, name) {
                Ok(scale) => Scaling::Apply { resource, scale, tries },
                Err(e) => Scaling::Refused(e),
            },
        },
        (Scaling::Apply { .. }, ScaleReply::Applied(Err(m))) => Scaling::Refused(
            invalid_because("Failed to apply scale patch: ", m.as_str()),
        ),
        (Scaling::Apply { resource, tries, .. }, ScaleReply::Applied(Ok(patched))) => {
            match int_of_json(get_in(patched.get("spec"), "replicas")) {
                Some(n) => write_replicas(resource, narrow(n), tries),
                None => Scaling::Write { resource, tries },
            }
        },
        (Scaling::Write { .. }, ScaleReply::Written(Ok(resource))) => {
            let is_patch: bool = matches!(request, ScaleRequest::Patch(_));
            let is_null: bool = matches!(&resource, Json::Null);
            if is_patch && is_null {
                Scaling::Refused(Error::Conflict("scale patch failed after retries".to_owned()))
            } else {
                answer(&resource, namespace, name)
            }
        },
        (Scaling::Write { tries, .. }, ScaleReply::Written(Err(e))) => match request {
            ScaleRequest::Patch(_) => {
                let outcome: Attempt<()> = after_write(tries, SCALE_PATCH_MAX_TRIES, Err(e));
                match outcome {
                    Attempt::Again => Scaling::Fetch { tries: tries + 1 },
                    Attempt::Failed(e) => Scaling::Refused(e),
                    Attempt::Done(_) => Scaling::Fetch { tries },
                }
            },
            _ => Scaling::Refused(e),
        },
        (other, _) => other,
    }
}

/// The replica count that was written is the one that is read back, and the
/// rest of the scale is as it was.
pub proof fn law_replicas_are_read_back(
    resource: JsonView,
    replicas: i32,
    namespace: Seq<char>,
    name: Seq<char>,
)
    requires
        scale_of(resource, namespace, name) is Ok,
        member(resource, "spec"@)->0 is Object,
    ensures
        scale_of(with_replicas(resource, replicas as int), namespace, name) == Ok::<
            ScaleView,
            ErrorView,
        >(
            (ScaleView {
                replicas: replicas as int,
                ..scale_of(resource, namespace, name)->Ok_0
            }),
        ),
{
    reveal_strlit("metadata");
    reveal_strlit("spec");
    reveal_strlit("status");
    reveal_strlit("replicas");
    reveal_strlit("selector");
    let m = resource->Object_0;
    let spec = member(resource, "spec"@)->0->Object_0;
    let count = JsonView::Int(replicas as int);
    let put = JsonView::Object(with_member(spec, "replicas"@, count));
    assert("spec"@.len() == 4 && "metadata"@.len() == 8 && "status"@.len() == 6);
    crate::json::law_member_is_read_back(m, "spec"@, put, "metadata"@);
    crate::json::law_member_is_read_back(m, "spec"@, put, "status"@);
    assert("replicas"@[0] != "selector"@[0]);
    crate::json::law_member_is_read_back(spec, "replicas"@, count, "selector"@);
    crate::json::lemma_low_32_bits(replicas as int);
}

/// Without permission a workload is neither read nor written: from the question
/// to the authorizer only its consent leads on.
pub proof fn law_scale_needs_permission(
    request: ScaleRequest,
    namespace: Seq<char>,
    name: Seq<char>,
    reply: ScaleReply,
    next: Scaling,
)
    requires
        scales(request, namespace, name, Scaling::Authorize, reply, next),
        !(next is Refused || next is Authorize),
    ensures
        reply == ScaleReply::Authorized(Ok(Decision::Allow)),
        next is Fetch,
{
}

/// After a write only a patch that met a conflict is tried again, and each try
/// leaves one less.
pub proof fn law_scale_tries_run_out(
    request: ScaleRequest,
    namespace: Seq<char>,
    name: Seq<char>,
    at: Scaling,
    reply: ScaleReply,
    next: Scaling,
)
    requires
        scales(request, namespace, name, at, reply, next),
        at is Write,
        next is Fetch,
    ensures
        request is Patch,
        reply is Written && reply->Written_0 is Err && reply->Written_0->Err_0 is Conflict,
        next->Fetch_tries == at->Write_tries + 1,
        next->Fetch_tries < SCALE_PATCH_MAX_TRIES,
{
}

} // verus!
