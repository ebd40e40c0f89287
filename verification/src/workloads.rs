//! What is particular to replication controllers and stateful sets.
use vstd::prelude::*;
use vstd::utf8::encode_utf8;
use crate::collections::StringMap;
use crate::error::{Error, ErrorView};
use crate::json::{as_text, copy_text_of, member, outcome_of, Json, JsonView};
use crate::json_text::{json_document, parse_document};
use crate::model::{copy_map, opt_map, ObjectMeta, ObjectMetaView};
use crate::pod_create::{decode_failure, decodes_leniently, is_duplicate_field};
use crate::resources::Resource;
use crate::text::{hex_char, opt_text, same};
use crate::watch::{param, param_copy};

verus! {

/// What a replication controller keeps running. Of the pod template only the
/// labels are held.
pub struct ReplicationControllerSpec {
    pub replicas: Option<i32>,
    pub selector: Option<StringMap>,
    pub template_labels: Option<StringMap>,
}

/// A replication controller.
pub struct ReplicationController {
    pub metadata: ObjectMeta,
    pub spec: ReplicationControllerSpec,
}

/// The content of a [`ReplicationController`].
pub struct ReplicationControllerView {
    pub metadata: ObjectMetaView,
    pub replicas: Option<i32>,
    pub selector: Option<Map<Seq<char>, Seq<char>>>,
    pub template_labels: Option<Map<Seq<char>, Seq<char>>>,
}

impl View for ReplicationController {
    type V = ReplicationControllerView;

    open spec fn view(&self) -> ReplicationControllerView {
        ReplicationControllerView {
            metadata: self.metadata@,
            replicas: self.spec.replicas,
            selector: opt_map(self.spec.selector),
            template_labels: opt_map(self.spec.template_labels),
        }
    }
}

/// Whether there are no labels.
pub open spec fn no_labels(labels: Option<Map<Seq<char>, Seq<char>>>) -> bool {
    labels is None || labels->0 == Map::<Seq<char>, Seq<char>>::empty()
}

/// A replication controller with its defaults: one replica; and the labels of
/// its template, where there are any, as its selector where it has none, and as
/// its own labels where it has none.
pub open spec fn with_rc_defaults(rc: ReplicationControllerView) -> ReplicationControllerView {
    let labels = rc.template_labels;
    ReplicationControllerView {
        replicas: if rc.replicas is None {
            Some(1i32)
        } else {
            rc.replicas
        },
        selector: if !no_labels(labels) && rc.selector is None {
            labels
        } else {
            rc.selector
        },
        metadata: if !no_labels(labels) && no_labels(rc.metadata.labels) {
            ObjectMetaView { labels, ..rc.metadata }
        } else {
            rc.metadata
        },
        ..rc
    }
}

fn lacks_labels(labels: &Option<StringMap>) -> (r: bool)
    ensures
        r == no_labels(opt_map(*labels)),
{
    match labels {
        Some(m) => m.is_empty(),
        None => true,
    }
}

/// Fills in the defaults of a replication controller.
pub fn apply_replicationcontroller_defaults(rc: &mut ReplicationController)
    ensures
        final(rc)@ == with_rc_defaults(old(rc)@),
{
    if rc.spec.replicas.is_none() {
        rc.spec.replicas = Some(1);
    }
    if !lacks_labels(&rc.spec.template_labels) {
        if rc.spec.selector.is_none() {
            rc.spec.selector = copy_map(&rc.spec.template_labels);
        }
        if lacks_labels(&rc.metadata.labels) {
            rc.metadata.labels = copy_map(&rc.spec.template_labels);
        }
    }
}

/// Defaults are filled in once: a second time changes nothing.
pub proof fn law_rc_defaults_settle(rc: ReplicationControllerView)
    ensures
        with_rc_defaults(with_rc_defaults(rc)) == with_rc_defaults(rc),
{
}

/// What the client has set stays as it is.
pub proof fn law_rc_explicit_values_stay(rc: ReplicationControllerView)
    ensures
        rc.replicas is Some ==> with_rc_defaults(rc).replicas == rc.replicas,
        rc.selector is Some ==> with_rc_defaults(rc).selector == rc.selector,
        !no_labels(rc.metadata.labels) ==> with_rc_defaults(rc).metadata == rc.metadata,
        with_rc_defaults(rc).template_labels == rc.template_labels,
{
}

/// The body of a replication controller: as it decodes, or as it decodes
/// leniently where a field stands twice. A failure is told by its first message.
pub fn decode_rc_body<T>(first: Result<T, String>, leniently: Option<T>) -> (r: Result<T, Error>)
    ensures
        match first {
            Ok(x) => r == Ok::<T, Error>(x),
            Err(m) => if is_duplicate_field(m@) && leniently is Some {
                r == Ok::<T, Error>(leniently->0)
            } else {
                r matches Err(e) && e@ == ErrorView::BadRequest("failed to decode: "@ + m@)
            },
        },
{
    match first {
        Ok(x) => Ok(x),
        Err(m) => {
            if decodes_leniently(m.as_str()) {
                if let Some(x) = leniently {
                    return Ok(x);
                }
            }
            Err(decode_failure(m.as_str()))
        },
    }
}

/// The propagation policy in delete options; none where they are no JSON.
pub open spec fn policy_in_options(options: Result<JsonView, Seq<char>>) -> Option<Seq<char>> {
    match options {
        Ok(j) => as_text(member(j, "propagationPolicy"@)),
        Err(_) => None,
    }
}

/// The propagation policy in delete options.
pub fn options_policy(options: &Result<Json, String>) -> (r: Option<String>)
    ensures
        opt_text(r) == policy_in_options(outcome_of(*options)),
{
    match options {
        Ok(j) => copy_text_of(j.get("propagationPolicy")),
        Err(_) => None,
    }
}

/// The propagation policy that the body of a request asks for.
pub open spec fn policy_in_body(body: Seq<u8>) -> Option<Seq<char>> {
    if body.len() == 0 {
        None
    } else {
        policy_in_options(json_document(body))
    }
}

/// What becomes of dependents: the policy of the query, else that of the body.
pub open spec fn policy_of(query: Option<Seq<char>>, body: Option<Seq<char>>) -> Option<Seq<char>> {
    match query {
        Some(p) => Some(p),
        None => body,
    }
}

/// Chooses the policy of the query, else that of the body.
pub fn choose_policy(query: Option<String>, body: Option<String>) -> (r: Option<String>)
    ensures
        opt_text(r) == policy_of(opt_text(query), opt_text(body)),
{
    match query {
        Some(p) => Some(p),
        None => body,
    }
}

/// What becomes of dependents by the options of a request: its query comes before
/// its body.
pub fn propagation_policy(params: &StringMap, body: &[u8]) -> (r: Option<String>)
    ensures
        opt_text(r) == policy_of(param(params@, "propagationPolicy"@), policy_in_body(body@)),
{
    let in_body: Option<String> = if body.len() == 0 {
        None
    } else {
        options_policy(&parse_document(body))
    };
    choose_policy(param_copy(params, "propagationPolicy"), in_body)
}

/// What becomes of the dependents of an object that is deleted. Replication
/// controllers, claims and slices look into query and body, stateful sets into
/// the query; for the others the request names no policy.
pub fn removal_policy(r: Resource, params: &StringMap, body: &[u8]) -> (p: Option<String>)
    ensures
        opt_text(p) == match r {
            Resource::ReplicationController
            | Resource::ResourceClaim
            | Resource::ResourceSlice => policy_of(
                param(params@, "propagationPolicy"@),
                policy_in_body(body@),
            ),
            Resource::StatefulSet => param(params@, "propagationPolicy"@),
            _ => None,
        },
{
    match r {
        Resource::ReplicationController
        | Resource::ResourceClaim
        | Resource::ResourceSlice => propagation_policy(params, body),
        Resource::StatefulSet => param_copy(params, "propagationPolicy"),
        _ => None,
    }
}

/// What becomes of the dependents of the objects of a collection that is
/// deleted: the options of the request count for claims and slices.
pub fn collection_policy(r: Resource, params: &StringMap, body: &[u8]) -> (p: Option<String>)
    ensures
        opt_text(p) == match r {
            Resource::ResourceClaim | Resource::ResourceSlice => policy_of(
                param(params@, "propagationPolicy"@),
                policy_in_body(body@),
            ),
            _ => None,
        },
{
    match r {
        Resource::ResourceClaim | Resource::ResourceSlice => propagation_policy(params, body),
        _ => None,
    }
}

/// The SHA-256 hash of some bytes.
pub uninterp spec fn sha256(bytes: Seq<u8>) -> Seq<u8>;

/// Calls `sha2::Sha256::digest`: 32 bytes, which depend on `bytes` alone. Which
/// bytes they are is left to the name.
#[verifier::external_body]
fn sha256_digest(bytes: &[u8]) -> (r: Vec<u8>)
    ensures
        r@ == sha256(bytes@),
        r@.len() == 32,
{
    <sha2::Sha256 as sha2::Digest>::digest(bytes).to_vec()
}

/// The number that the first `n` bytes write, the most significant first.
pub open spec fn big_endian(bytes: Seq<u8>, n: nat) -> nat
    decreases n,
{
    if n == 0 || n > bytes.len() {
        0
    } else {
        big_endian(bytes, (n - 1) as nat) * 256 + bytes[n - 1] as nat
    }
}

/// The last `width` hexadecimal digits of `n`.
pub open spec fn hex_digits(n: nat, width: nat) -> Seq<char>
    decreases width,
{
    if width == 0 {
        Seq::empty()
    } else {
        hex_digits(n / 16, (width - 1) as nat).push(hex_char(n % 16))
    }
}

/// How many hexadecimal digits `n` has.
pub open spec fn hex_width(n: nat) -> nat
    decreases n,
{
    if n < 16 {
        1
    } else {
        1 + hex_width(n / 16)
    }
}

/// `n` in hexadecimal digits, ten at least.
pub open spec fn hex_of_ten(n: nat) -> Seq<char> {
    hex_digits(
        n,
        if hex_width(n) < 10 {
            10
        } else {
            hex_width(n)
        },
    )
}

/// The revision that a hash names: its first eight bytes as a number.
pub open spec fn revision_of(hash: Seq<u8>) -> Seq<char> {
    hex_of_ten(big_endian(hash, 8))
}

fn push_hex(out: &mut String, n: u64, width: usize)
    ensures
        final(out)@ == old(out)@ + hex_digits(n as nat, width as nat),
    decreases width,
{
    if width > 0 {
        push_hex(out, n / 16, width - 1);
        let d: u8 = (n % 16) as u8;
        let c: char = if d < 10 {
            (48 + d) as char
        } else {
            (87 + d) as char
        };
        assert(c == hex_char((n % 16) as nat));
        out.push(c);
    }
    assert(out@ =~= old(out)@ + hex_digits(n as nat, width as nat));
}

fn count_hex(n: u64) -> (r: usize)
    ensures
        r == hex_width(n as nat),
        1 <= r <= 16,
{
    let mut rest: u64 = n;
    let mut r: usize = 1;
    let mut room: u64 = u64::MAX;
    assert(u64::MAX == 0xffff_ffff_ffff_ffff);
    while rest >= 16
        invariant
            1 <= r <= 16,
            hex_width(n as nat) == r - 1 + hex_width(rest as nat),
            rest <= room,
            r == 1 ==> room == 0xffff_ffff_ffff_ffff,
            r == 2 ==> room == 0xfff_ffff_ffff_ffff,
            r == 3 ==> room == 0xff_ffff_ffff_ffff,
            r == 4 ==> room == 0xf_ffff_ffff_ffff,
            r == 5 ==> room == 0xffff_ffff_ffff,
            r == 6 ==> room == 0xfff_ffff_ffff,
            r == 7 ==> room == 0xff_ffff_ffff,
            r == 8 ==> room == 0xf_ffff_ffff,
            r == 9 ==> room == 0xffff_ffff,
            r == 10 ==> room == 0xfff_ffff,
            r == 11 ==> room == 0xff_ffff,
            r == 12 ==> room == 0xf_ffff,
            r == 13 ==> room == 0xffff,
            r == 14 ==> room == 0xfff,
            r == 15 ==> room == 0xff,
            r == 16 ==> room == 0xf,
        decreases rest,
    {
        rest = rest / 16;
        room = room / 16;
        r = r + 1;
    }
    r
}

proof fn lemma_big_endian(bytes: Seq<u8>, n: nat)
    requires
        n <= 8,
    ensures
        n == 0 ==> big_endian(bytes, n) < 1,
        n == 1 ==> big_endian(bytes, n) < 0x100,
        n == 2 ==> big_endian(bytes, n) < 0x1_0000,
        n == 3 ==> big_endian(bytes, n) < 0x100_0000,
        n == 4 ==> big_endian(bytes, n) < 0x1_0000_0000,
        n == 5 ==> big_endian(bytes, n) < 0x100_0000_0000,
        n == 6 ==> big_endian(bytes, n) < 0x1_0000_0000_0000,
        n == 7 ==> big_endian(bytes, n) < 0x100_0000_0000_0000,
        n == 8 ==> big_endian(bytes, n) < 0x1_0000_0000_0000_0000,
    decreases n,
{
    if n > 0 {
        lemma_big_endian(bytes, (n - 1) as nat);
    }
}

/// The revision that a hash names.
pub fn revision_text(hash: &[u8]) -> (r: String)
    requires
        hash@.len() >= 8,
    ensures
        r@ == revision_of(hash@),
{
    let mut n: u64 = 0;
    let mut i: usize = 0;
    while i < 8
        invariant
            i <= 8,
            hash@.len() >= 8,
            n == big_endian(hash@, i as nat),
        decreases 8 - i,
    {
        proof {
            lemma_big_endian(hash@, i as nat);
            lemma_big_endian(hash@, (i + 1) as nat);
        }
        n = n * 256 + hash[i] as u64;
        i = i + 1;
    }
    let width: usize = count_hex(n);
    let mut out: String = String::new();
    push_hex(
        &mut out,
        n,
        if width < 10 {
            10
        } else {
            width
        },
    );
    assert(out@ =~= hex_of_ten(n as nat));
    out
}

/// The revision of a pod template, given as JSON text.
pub fn template_revision(template: &str) -> (r: String)
    ensures
        r@ == revision_of(sha256(encode_utf8(template@))),
{
    let hash: Vec<u8> = sha256_digest(template.as_bytes());
    revision_text(hash.as_slice())
}

/// The state of a stateful set, without its conditions.
pub struct StatefulSetStatus {
    pub replicas: i32,
    pub ready_replicas: Option<i32>,
    pub current_replicas: Option<i32>,
    pub updated_replicas: Option<i32>,
    pub available_replicas: Option<i32>,
    pub collision_count: Option<i32>,
    pub observed_generation: Option<i64>,
    pub current_revision: Option<String>,
    pub update_revision: Option<String>,
}

/// The content of a [`StatefulSetStatus`].
pub struct StatefulSetStatusView {
    pub replicas: i32,
    pub ready_replicas: Option<i32>,
    pub current_replicas: Option<i32>,
    pub updated_replicas: Option<i32>,
    pub available_replicas: Option<i32>,
    pub collision_count: Option<i32>,
    pub observed_generation: Option<i64>,
    pub current_revision: Option<Seq<char>>,
    pub update_revision: Option<Seq<char>>,
}

impl View for StatefulSetStatus {
    type V = StatefulSetStatusView;

    open spec fn view(&self) -> StatefulSetStatusView {
        StatefulSetStatusView {
            replicas: self.replicas,
            ready_replicas: self.ready_replicas,
            current_replicas: self.current_replicas,
            updated_replicas: self.updated_replicas,
            available_replicas: self.available_replicas,
            collision_count: self.collision_count,
            observed_generation: self.observed_generation,
            current_revision: opt_text(self.current_revision),
            update_revision: opt_text(self.update_revision),
        }
    }
}

/// The state of a stateful set of which nothing is known.
pub open spec fn no_stateful_status() -> StatefulSetStatusView {
    StatefulSetStatusView {
        replicas: 0,
        ready_replicas: None,
        current_replicas: None,
        updated_replicas: None,
        available_replicas: None,
        collision_count: None,
        observed_generation: None,
        current_revision: None,
        update_revision: None,
    }
}

/// The state after an update: the new revision is the one to update to, and the
/// current one where there was none.
pub open spec fn with_revision(
    status: Option<StatefulSetStatusView>,
    revision: Seq<char>,
) -> StatefulSetStatusView {
    let s = match status {
        Some(s) => s,
        None => no_stateful_status(),
    };
    StatefulSetStatusView {
        update_revision: Some(revision),
        current_revision: if s.current_revision is None {
            Some(revision)
        } else {
            s.current_revision
        },
        ..s
    }
}

/// Notes a revision in the state of a stateful set.
pub fn note_revision(status: Option<StatefulSetStatus>, revision: String) -> (r: StatefulSetStatus)
    ensures
        r@ == with_revision(
            match status {
                Some(s) => Some(s@),
                None => None,
            },
            revision@,
        ),
{
    let mut s: StatefulSetStatus = match status {
        Some(s) => s,
        None => StatefulSetStatus {
            replicas: 0,
            ready_replicas: None,
            current_replicas: None,
            updated_replicas: None,
            available_replicas: None,
            collision_count: None,
            observed_generation: None,
            current_revision: None,
            update_revision: None,
        },
    };
    if s.current_revision.is_none() {
        s.current_revision = Some(revision.clone());
    }
    s.update_revision = Some(revision);
    s
}

/// The state of a stateful set once its template has been updated.
pub fn update_revision(status: Option<StatefulSetStatus>, template: &str) -> (r: StatefulSetStatus)
    ensures
        r@ == with_revision(
            match status {
                Some(s) => Some(s@),
                None => None,
            },
            revision_of(sha256(encode_utf8(template@))),
        ),
{
    note_revision(status, template_revision(template))
}

/// A template that did not change keeps the revision, and the current revision
/// stays the one that it was.
pub proof fn law_same_template_same_revision(
    status: Option<StatefulSetStatusView>,
    hash: Seq<u8>,
    other: Seq<u8>,
)
    ensures
        with_revision(Some(with_revision(status, revision_of(hash))), revision_of(hash))
            == with_revision(status, revision_of(hash)),
        with_revision(Some(with_revision(status, revision_of(hash))), revision_of(other)).current_revision
            == with_revision(status, revision_of(hash)).current_revision,
{
}

proof fn lemma_hex_digits(n: nat, width: nat)
    ensures
        hex_digits(n, width).len() == width,
        forall|i: int|
            0 <= i < width ==> crate::identity::is_hex_digit(#[trigger] hex_digits(n, width)[i]),
    decreases width,
{
    if width > 0 {
        lemma_hex_digits(n / 16, (width - 1) as nat);
        assert(crate::identity::is_hex_digit(hex_char(n % 16)));
    }
}

/// A revision has ten or more hexadecimal digits.
pub proof fn law_revision_is_short_hex(hash: Seq<u8>)
    ensures
        10 <= revision_of(hash).len(),
        forall|i: int|
            0 <= i < revision_of(hash).len() ==> crate::identity::is_hex_digit(
                #[trigger] revision_of(hash)[i],
            ),
{
    let n = big_endian(hash, 8);
    lemma_hex_digits(
        n,
        if hex_width(n) < 10 {
            10
        } else {
            hex_width(n)
        },
    );
}

/// Kind and version of an object, with these values where they are empty.
pub fn fill_type(kind: String, api_version: String, default_kind: &str, default_version: &str) -> (r: (
    String,
    String,
))
    ensures
        r.0@ == (if kind@.len() == 0 {
            default_kind@
        } else {
            kind@
        }),
        r.1@ == (if api_version@.len() == 0 {
            default_version@
        } else {
            api_version@
        }),
{
    let no_kind: bool = same(kind.as_str(), "");
    let no_version: bool = same(api_version.as_str(), "");
    proof {
        reveal_strlit("");
        if kind@.len() == 0 {
            assert(kind@ =~= ""@);
        }
        if api_version@.len() == 0 {
            assert(api_version@ =~= ""@);
        }
    }
    (
        if no_kind {
            default_kind.to_owned()
        } else {
            kind
        },
        if no_version {
            default_version.to_owned()
        } else {
            api_version
        },
    )
}

} // verus!
