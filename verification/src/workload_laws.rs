//! What defaults and revisions of workloads and volumes are.
use vstd::prelude::*;
use crate::identity::identified;
use crate::model::ObjectMetaView;
use crate::objects::placed;
use crate::text::hex_char;
use crate::volumes::{with_modes, FileSource, Volume};
use crate::workloads::{
    big_endian, hex_digits, hex_width, policy_of, revision_of, with_rc_defaults, with_revision,
    ReplicationControllerView, StatefulSetStatusView,
};

verus! {

/// Whether labels hold anything.
pub open spec fn labels_something(labels: Option<Map<Seq<char>, Seq<char>>>) -> bool {
    match labels {
        Some(m) => exists|k: Seq<char>| #[trigger] m.dom().contains(k),
        None => false,
    }
}

/// A replication controller without a count wants one pod; without a selector
/// it selects, and without labels it bears, the labels of its template, where
/// that has any. All it says itself stays.
pub proof fn law_controller_follows_its_template(rc: ReplicationControllerView)
    ensures
        ({
            let r = with_rc_defaults(rc);
            let filled = labels_something(rc.template_labels);
            &&& rc.replicas is None ==> r.replicas == Some(1i32)
            &&& rc.replicas is Some ==> r.replicas == rc.replicas
            &&& rc.selector is None && filled ==> r.selector == rc.template_labels
            &&& rc.selector is Some || !filled ==> r.selector == rc.selector
            &&& !labels_something(rc.metadata.labels) && filled ==> r.metadata.labels
                == rc.template_labels
            &&& labels_something(rc.metadata.labels) || !filled ==> r.metadata.labels
                == rc.metadata.labels
            &&& r.metadata == (ObjectMetaView { labels: r.metadata.labels, ..rc.metadata })
            &&& r.template_labels == rc.template_labels
        }),
{
    lemma_labels(rc.template_labels);
    lemma_labels(rc.metadata.labels);
}

proof fn lemma_labels(labels: Option<Map<Seq<char>, Seq<char>>>)
    ensures
        labels_something(labels) == !crate::workloads::no_labels(labels),
{
    if labels is Some && !labels_something(labels) {
        assert(labels->0 =~= Map::<Seq<char>, Seq<char>>::empty());
    }
}

/// Whether a source of files is what defaults make of it: with mode 0644 where
/// it has none.
pub open spec fn has_mode_of(before: Option<FileSource>, after: Option<FileSource>) -> bool {
    &&& before is None <==> after is None
    &&& before is Some && before->0.default_mode is Some ==> after == before
    &&& before is Some && before->0.default_mode is None ==> after->0.default_mode == Some(420i32)
}

/// Every source of files of a volume gets mode 0644 where it has none, and no
/// source appears or goes.
pub proof fn law_volume_files_have_a_mode(v: Volume)
    ensures
        has_mode_of(v.secret, with_modes(v).secret),
        has_mode_of(v.config_map, with_modes(v).config_map),
        has_mode_of(v.downward_api, with_modes(v).downward_api),
        has_mode_of(v.projected, with_modes(v).projected),
{
}

/// A new revision is noted as the one to update to; it becomes the current one
/// only where there is none, and nothing else of the status changes.
pub proof fn law_revision_is_noted(
    status: Option<StatefulSetStatusView>,
    revision: Seq<char>,
)
    ensures
        with_revision(status, revision).update_revision == Some(revision),
        status is Some && status->0.current_revision is Some ==> with_revision(
            status,
            revision,
        ).current_revision == status->0.current_revision,
        status is None || status->0.current_revision is None ==> with_revision(
            status,
            revision,
        ).current_revision == Some(revision),
        status is Some ==> with_revision(status, revision) == (StatefulSetStatusView {
            update_revision: Some(revision),
            current_revision: with_revision(status, revision).current_revision,
            ..status->0
        }),
        status is None ==> with_revision(status, revision).replicas == 0 && with_revision(
            status,
            revision,
        ).observed_generation is None,
{
}

/// The value that hexadecimal digits write.
pub open spec fn hex_value(s: Seq<char>) -> nat
    decreases s.len(),
{
    if s.len() == 0 {
        0
    } else {
        let c = s.last();
        let d: nat = if '0' <= c <= '9' {
            (c as nat - '0' as nat) as nat
        } else if 'a' <= c <= 'f' {
            (c as nat - 'a' as nat + 10) as nat
        } else {
            16
        };
        16 * hex_value(s.drop_last()) + d
    }
}

proof fn lemma_hex_value(n: nat, width: nat)
    requires
        width >= hex_width(n),
    ensures
        hex_value(hex_digits(n, width)) == n,
        hex_digits(n, width).len() == width,
    decreases width,
{
    let s = hex_digits(n, width);
    assert(s.drop_last() =~= hex_digits(n / 16, (width - 1) as nat));
    assert(s.last() == hex_char(n % 16));
    if n < 16 {
        lemma_hex_zero((width - 1) as nat);
        assert(n / 16 == 0);
    } else {
        lemma_hex_value(n / 16, (width - 1) as nat);
    }
}

proof fn lemma_hex_zero(width: nat)
    ensures
        hex_value(hex_digits(0, width)) == 0,
        hex_digits(0, width).len() == width,
    decreases width,
{
    if width > 0 {
        lemma_hex_zero((width - 1) as nat);
        let s = hex_digits(0, width);
        assert(s.drop_last() =~= hex_digits(0, (width - 1) as nat));
        assert(s.last() == hex_char(0));
    }
}

/// A revision writes, in ten or more lower case hexadecimal digits, the number
/// that the first eight bytes of the hash make, the first byte highest.
pub proof fn law_revision_is_the_start_of_the_hash(hash: Seq<u8>)
    requires
        hash.len() >= 8,
    ensures
        hex_value(revision_of(hash)) == ((((((hash[0] as nat * 256 + hash[1] as nat) * 256 + hash[2]
            as nat) * 256 + hash[3] as nat) * 256 + hash[4] as nat) * 256 + hash[5] as nat) * 256
            + hash[6] as nat) * 256 + hash[7] as nat,
        revision_of(hash).len() >= 10,
{
    let n = big_endian(hash, 8);
    reveal_with_fuel(big_endian, 9);
    let w = if hex_width(n) < 10 {
        10
    } else {
        hex_width(n)
    };
    lemma_hex_value(n, w);
}

/// The policy of the query counts before that of the body.
pub proof fn law_policy_of_the_query_counts(query: Seq<char>, body: Option<Seq<char>>)
    ensures
        policy_of(Some(query), body) == Some(query),
        policy_of(None, body) == body,
{
}

/// An object that is identified gets an identifier and a time of creation where
/// it has none, and the namespace of the request where there is one; nothing
/// else of its metadata changes.
pub proof fn law_identity_is_given_once(
    m: ObjectMetaView,
    namespace: Option<Seq<char>>,
    uid: Seq<char>,
    now: Seq<char>,
)
    ensures
        ({
            let r = identified(m, namespace, uid, now);
            &&& m.uid.len() == 0 ==> r.uid == uid
            &&& m.uid.len() > 0 ==> r.uid == m.uid
            &&& m.creation_timestamp is None ==> r.creation_timestamp == Some(now)
            &&& m.creation_timestamp is Some ==> r.creation_timestamp == m.creation_timestamp
            &&& namespace is Some ==> r.namespace == namespace
            &&& namespace is None ==> r.namespace == m.namespace
            &&& r == (ObjectMetaView {
                uid: r.uid,
                creation_timestamp: r.creation_timestamp,
                namespace: r.namespace,
                ..m
            })
        }),
{
}

/// An object goes under the name and the namespace of the request, whatever it
/// says itself; nothing else of its metadata changes.
pub proof fn law_objects_go_where_the_request_says(
    m: ObjectMetaView,
    name: Seq<char>,
    namespace: Option<Seq<char>>,
)
    ensures
        ({
            let r = placed(m, name, namespace);
            &&& r.name == name
            &&& namespace is Some ==> r.namespace == namespace
            &&& namespace is None ==> r.namespace == m.namespace
            &&& r == (ObjectMetaView { name: r.name, namespace: r.namespace, ..m })
        }),
{
}

} // verus!
