//! What the subresources of pods and workloads do: connections, bindings,
//! evictions as they are asked for, and scales.
use vstd::prelude::*;
use vstd::utf8::{encode_utf8, is_ascii_chars};
use crate::access::Decision;
use crate::binding::{binds, bound_node, BindReply, Binding};
use crate::connect::{
    connecting_after, decoded_from, exec_query, exec_query_of, forwards, percent_decoded, ports_in,
    ports_of, Admission, ConnectReply, ConnectRequest, ConnectingView, ForwardReply, ForwardRequest,
    Forwarding, NodeConn, Stream,
};
use crate::error::{Error, ErrorView};
use crate::eviction::{check_uid, is_eviction};
use crate::json::{as_int, as_text, member, opt_member, JsonView};
use crate::model::{Pod, PodSpecView, PodView};
use crate::scale::{
    label_pairs, media_type, scale_of, scale_target, scales, segments_of, selector_text, with_replicas,
    ScaleReply, ScaleRequest, Scaling,
};
use crate::selector_laws::{blanks, lemma_trim};
use crate::text::{
    decimal, find_char, find_char_from, joined, split_at_char, split_once_at, trimmed,
    unsigned_value,
};

verus! {

proof fn lemma_find(s: Seq<char>, c: char, i: int)
    requires
        0 <= i,
    ensures
        match find_char_from(s, c, i) {
            Some(k) => i <= k < s.len() && s[k] == c && forall|j: int|
                i <= j < k ==> #[trigger] s[j] != c,
            None => forall|j: int| i <= j < s.len() ==> #[trigger] s[j] != c,
        },
    decreases s.len() - i,
{
    if i < s.len() && s[i] != c {
        lemma_find(s, c, i + 1);
    }
}

proof fn lemma_find_is(s: Seq<char>, c: char, i: int, k: int)
    requires
        0 <= i <= k < s.len(),
        s[k] == c,
        forall|j: int| i <= j < k ==> #[trigger] s[j] != c,
    ensures
        find_char_from(s, c, i) == Some(k),
    decreases k - i,
{
    if i < k {
        assert(s[i] != c);
        lemma_find_is(s, c, i + 1, k);
    }
}

proof fn lemma_find_not(s: Seq<char>, c: char)
    requires
        !s.contains(c),
    ensures
        find_char(s, c) is None,
{
    lemma_find(s, c, 0);
    if find_char(s, c) is Some {
        let k = find_char(s, c)->0;
        assert(s[k] == c);
    }
}

/// One more piece behind a separator is one more piece.
pub proof fn lemma_split_more(s: Seq<char>, c: char, t: Seq<char>)
    requires
        !t.contains(c),
    ensures
        split_at_char(s + seq![c] + t, c) == split_at_char(s, c).push(t),
    decreases s.len(),
{
    let all = s + seq![c] + t;
    lemma_find(s, c, 0);
    match find_char(s, c) {
        Some(k) => {
            assert forall|j: int| 0 <= j < k implies #[trigger] all[j] != c by {
                assert(all[j] == s[j]);
            }
            assert(all[k] == c);
            lemma_find_is(all, c, 0, k);
            let rest = s.skip(k + 1);
            lemma_split_more(rest, c, t);
            assert(all.take(k) =~= s.take(k));
            assert(all.skip(k + 1) =~= rest + seq![c] + t);
            let later = split_at_char(rest, c);
            let first = seq![s.take(k)];
            assert(split_at_char(s, c) == first + later);
            assert(split_at_char(all, c) == first + later.push(t));
            assert(first + later.push(t) =~= (first + later).push(t));
        },
        None => {
            let k = s.len() as int;
            assert forall|j: int| 0 <= j < k implies #[trigger] all[j] != c by {
                assert(all[j] == s[j]);
            }
            assert(all[k] == c);
            lemma_find_is(all, c, 0, k);
            assert(all.take(k) =~= s);
            assert(all.skip(k + 1) =~= t);
            lemma_find_not(t, c);
            assert(split_at_char(t, c) == seq![t]);
            assert(split_at_char(s, c) == seq![s]);
            assert(split_at_char(all, c) == seq![s] + seq![t]);
            assert(seq![s] + seq![t] =~= seq![s].push(t));
        },
    }
}

proof fn lemma_split_one(t: Seq<char>, c: char)
    requires
        !t.contains(c),
    ensures
        split_at_char(t, c) == seq![t],
{
    lemma_find_not(t, c);
}

proof fn lemma_cut(key: Seq<char>, value: Seq<char>)
    requires
        !key.contains('='),
    ensures
        split_once_at(key + seq!['='] + value, '=') == Some((key, value)),
{
    let s = key + seq!['='] + value;
    let k = key.len() as int;
    assert forall|j: int| 0 <= j < k implies #[trigger] s[j] != '=' by {
        assert(s[j] == key[j]);
    }
    assert(s[k] == '=');
    lemma_find_is(s, '=', 0, k);
    assert(s.take(k) =~= key);
    assert(s.skip(k + 1) =~= value);
}

proof fn lemma_exec_prefix(a: Seq<Seq<char>>, t: Seq<char>, n: nat)
    requires
        n <= a.len(),
    ensures
        exec_query_of(a.push(t), n) == exec_query_of(a, n),
    decreases n,
{
    if n > 0 {
        lemma_exec_prefix(a, t, (n - 1) as nat);
        assert(a.push(t)[n - 1] == a[n - 1]);
    }
}

/// Each pair of an exec query says one thing: a `command` is one more argument,
/// behind those before it; a `container` is named; the streams and the terminal
/// are switched on by `true` and `1`, off by anything else; and other keys say
/// nothing.
pub proof fn law_exec_query_pair(raw: Seq<char>, key: Seq<char>, value: Seq<char>)
    requires
        !key.contains('='),
        !key.contains('&'),
        !value.contains('&'),
    ensures
        ({
            let q = exec_query(raw);
            let r = exec_query(raw + seq!['&'] + (key + seq!['='] + value));
            let v = percent_decoded(value);
            let on = v == "true"@ || v == "1"@;
            &&& r.command == if key == "command"@ {
                q.command.push(v)
            } else {
                q.command
            }
            &&& r.container == if key == "container"@ {
                Some(v)
            } else {
                q.container
            }
            &&& r.stdin == if key == "stdin"@ {
                on
            } else {
                q.stdin
            }
            &&& r.stdout == if key == "stdout"@ {
                on
            } else {
                q.stdout
            }
            &&& r.stderr == if key == "stderr"@ {
                on
            } else {
                q.stderr
            }
            &&& r.tty == if key == "tty"@ {
                on
            } else {
                q.tty
            }
        }),
{
    let pair = key + seq!['='] + value;
    assert(!pair.contains('&')) by {
        if pair.contains('&') {
            let j = choose|j: int| 0 <= j < pair.len() && pair[j] == '&';
            if j < key.len() {
                assert(key[j] == '&');
            } else if j > key.len() {
                assert(value[j - key.len() - 1] == '&');
            }
        }
    }
    lemma_split_more(raw, '&', pair);
    let a = split_at_char(raw, '&');
    lemma_exec_prefix(a, pair, a.len());
    lemma_cut(key, value);
    assert(a.push(pair)[a.len() as int] == pair);
    reveal_strlit("command");
    reveal_strlit("container");
    reveal_strlit("stdin");
    reveal_strlit("stdout");
    reveal_strlit("stderr");
    reveal_strlit("tty");
    assert("command"@.len() == 7 && "container"@.len() == 9 && "stdin"@.len() == 5
        && "stdout"@.len() == 6 && "stderr"@.len() == 6 && "tty"@.len() == 3);
    assert("stdout"@[3] == 'o' && "stderr"@[3] == 'e');
}

/// A query without pairs asks for nothing.
pub proof fn law_empty_exec_query(raw: Seq<char>)
    requires
        !raw.contains('='),
        !raw.contains('&'),
    ensures
        exec_query(raw).command.len() == 0,
        exec_query(raw).container is None,
        !exec_query(raw).stdin && !exec_query(raw).stdout && !exec_query(raw).stderr && !exec_query(
            raw,
        ).tty,
{
    lemma_split_one(raw, '&');
    lemma_find_not(raw, '=');
    let a = split_at_char(raw, '&');
    assert(a[0] == raw);
    assert(exec_query_of(a, 0) == crate::connect::no_exec_query());
    assert(exec_query_of(a, 1) == crate::connect::with_pair(crate::connect::no_exec_query(), raw));
}

proof fn lemma_decoded_plus(b: Seq<u8>, i: int)
    requires
        0 <= i <= b.len(),
        forall|k: int| 0 <= k < b.len() ==> #[trigger] b[k] != 0x25,
    ensures
        decoded_from(b, i) == Seq::new(
            (b.len() - i) as nat,
            |k: int|
                if b[i + k] == 0x2b {
                    0x20u8
                } else {
                    b[i + k]
                },
        ),
    decreases b.len() - i,
{
    if i < b.len() {
        lemma_decoded_plus(b, i + 1);
        assert(b[i] != 0x25);
    }
    assert(decoded_from(b, i) =~= Seq::new(
        (b.len() - i) as nat,
        |k: int|
            if b[i + k] == 0x2b {
                0x20u8
            } else {
                b[i + k]
            },
    ));
}

/// In a text without percent signs a plus sign stands for a blank, and every
/// other character for itself.
pub proof fn law_plus_is_a_blank(s: Seq<char>, i: int)
    requires
        is_ascii_chars(s),
        forall|k: int| 0 <= k < s.len() ==> #[trigger] s[k] != '%',
        0 <= i < s.len(),
    ensures
        percent_decoded(s).len() == s.len(),
        percent_decoded(s)[i] == if s[i] == '+' {
            ' '
        } else {
            s[i]
        },
{
    vstd::utf8::is_ascii_chars_encode_utf8(s);
    let b = encode_utf8(s);
    assert forall|k: int| 0 <= k < b.len() implies #[trigger] b[k] != 0x25 by {
        assert(b[k] == s[k] as u8);
        assert(s[k] != '%');
    }
    lemma_decoded_plus(b, 0);
    assert(b[i] == s[i] as u8);
}

proof fn lemma_ports_prefix(a: Seq<Seq<char>>, t: Seq<char>, n: nat)
    requires
        n <= a.len(),
    ensures
        ports_in(a.push(t), n) == ports_in(a, n),
    decreases n,
{
    if n > 0 {
        lemma_ports_prefix(a, t, (n - 1) as nat);
        assert(a.push(t)[n - 1] == a[n - 1]);
    }
}

/// One more number behind a comma, with blanks around it or not, is one more
/// port behind the others; a number beyond 65535 and what is no number add
/// nothing.
pub proof fn law_ports_are_read_in_order(
    s: Seq<char>,
    before: nat,
    n: nat,
    after: nat,
    other: Seq<char>,
)
    requires
        !other.contains(','),
        unsigned_value(trimmed(other), 0xffff) is None,
    ensures
        ports_of(Some(s + seq![','] + (blanks(before) + decimal(n) + blanks(after)))) == if n
            <= 65535 {
            ports_of(Some(s)).push(n as u16)
        } else {
            ports_of(Some(s))
        },
        ports_of(Some(s + seq![','] + other)) == ports_of(Some(s)),
        ports_of(Some(blanks(before) + decimal(n) + blanks(after))) == if n <= 65535 {
            seq![n as u16]
        } else {
            Seq::empty()
        },
        ports_of(None).len() == 0,
{
    let t = blanks(before) + decimal(n) + blanks(after);
    let d = decimal(n);
    crate::text::lemma_decimal(n);
    assert(crate::text::is_digit(d[0]) && crate::text::is_digit(d.last()));
    assert(!t.contains(',')) by {
        if t.contains(',') {
            let j = choose|j: int| 0 <= j < t.len() && t[j] == ',';
            if before <= j < before + d.len() {
                assert(crate::text::is_digit(d[j - before]));
            }
        }
    }
    lemma_trim(before, d, after);
    crate::text_laws::law_number_is_read_back(n, 0xffff);
    let a = split_at_char(s, ',');
    lemma_split_more(s, ',', t);
    lemma_ports_prefix(a, t, a.len());
    assert(a.push(t)[a.len() as int] == t);
    lemma_split_more(s, ',', other);
    lemma_ports_prefix(a, other, a.len());
    assert(a.push(other)[a.len() as int] == other);
    lemma_split_one(t, ',');
    let one = split_at_char(t, ',');
    assert(one[0] == t);
    assert(ports_in(one, 0) =~= Seq::empty());
    assert(Seq::<u16>::empty().push(n as u16) =~= seq![n as u16]);
}

/// Ports are carried over SPDY where the client offers it, else over a web
/// socket where it offers that; without either it has to ask for an upgrade,
/// and without ports the request is refused. A denial forbids it.
pub proof fn law_how_ports_are_carried(
    req: ForwardRequest,
    at: Forwarding,
    reply: ForwardReply,
    next: Forwarding,
)
    requires
        forwards(req, at, reply, next),
    ensures
        ({
            let ports = ports_of(
                if req.query.ports is Some {
                    Some(req.query.ports->0@)
                } else {
                    None
                },
            );
            let asked = at is ReadPod && reply is Found;
            &&& asked && ports.len() == 0 ==> next is Failed && next->Failed_0@ is InvalidResource
            &&& asked && ports.len() > 0 && (req.is_spdy || req.is_websocket) ==> next is Carry
                && next->ports@ == ports && (next->upgrade is Spdy <==> req.is_spdy)
            &&& asked && ports.len() > 0 && !req.is_spdy && !req.is_websocket ==> next
                is AskForUpgrade
        }),
        at is Authorize && reply is Decided && reply->Decided_0 is Deny ==> next
            == Forwarding::Failed(Error::Forbidden(reply->Decided_0->Deny_0)),
        (at is Authorize || at is ReadPod) && reply is Error ==> next == Forwarding::Failed(
            reply->Error_0,
        ),
        at is Authorize && reply == ForwardReply::Decided(Decision::Allow) ==> next is ReadPod,
        at is Carry || at is AskForUpgrade || at is Failed ==> next == at,
{
}

/// A connection goes to the node of the pod, and to the container that the
/// client names or else the first; a pod without a node, or without containers
/// where none is named, is refused.
pub proof fn law_connections_go_to_the_pods_node(
    req: ConnectRequest,
    pod: Pod,
)
    ensures
        ({
            let next = connecting_after(req, ConnectingView::ReadingPod, ConnectReply::Pod(pod));
            let p = pod@;
            let bound = p.spec is Some && p.spec->0.node_name is Some && p.spec->0.node_name->0.len()
                > 0;
            let some = req.container is Some || (p.spec is Some && p.spec->0.containers.len() > 0);
            &&& bound && some ==> next == (ConnectingView::ReadingNode {
                node: p.spec->0.node_name->0,
                container: if req.container is Some {
                    req.container->0@
                } else {
                    p.spec->0.containers[0].name
                },
            })
            &&& !bound || !some ==> next is Failed && next->Failed_0 is InvalidResource
            &&& !some && (req.kind == Stream::Logs || bound) ==> next == ConnectingView::Failed(
                ErrorView::InvalidResource("Pod has no containers"@),
            )
        }),
{
    reveal_strlit("");
}

/// The request is passed on to the kubelet of the node, under the name of the
/// stream, the namespace, the pod and the container, with the query as it came.
pub proof fn law_where_a_connection_is_passed_on(
    req: ConnectRequest,
    node: Seq<char>,
    container: Seq<char>,
    conn: NodeConn,
)
    ensures
        ({
            let next = connecting_after(
                req,
                (ConnectingView::ReadingNode { node, container }),
                ConnectReply::Node(conn),
            );
            let kind = if req.kind == Stream::Logs {
                "containerLogs"@
            } else if req.kind == Stream::Exec {
                "exec"@
            } else {
                "attach"@
            };
            let path = conn.scheme@ + "://"@ + conn.host@ + ":"@ + decimal(conn.port as nat) + ("/"@
                + kind + "/"@ + req.namespace@ + "/"@ + req.name@ + "/"@ + container);
            &&& next is Proxying
            &&& req.raw_query@.len() == 0 ==> next->url == path
            &&& req.raw_query@.len() > 0 ==> next->url == path + "?"@ + req.raw_query@
        }),
{
}

/// Logs need permission; to execute and to attach need permission and that the
/// webhooks let it pass.
pub proof fn law_connections_need_permission(
    req: ConnectRequest,
    at: ConnectingView,
    reply: ConnectReply,
)
    ensures
        ({
            let next = connecting_after(req, at, reply);
            &&& at is Authorizing && reply is Decided && reply->Decided_0 is Deny ==> next
                == ConnectingView::Failed(ErrorView::Forbidden(reply->Decided_0->Deny_0@))
            &&& at is Authorizing && reply == ConnectReply::Decided(Decision::Allow) ==> (next
                is ReadingPod <==> req.kind == Stream::Logs) && (next is Admitting <==> req.kind
                != Stream::Logs)
            &&& at is Admitting && reply is Admitted && reply->Admitted_0 is Deny ==> next
                is Failed && next->Failed_0 is Forbidden
            &&& at is Admitting && reply == ConnectReply::Admitted(Admission::Allow) ==> next
                is ReadingPod
            &&& next is ReadingPod && !(at is ReadingPod) ==> (at is Authorizing && reply
                == ConnectReply::Decided(Decision::Allow) && req.kind == Stream::Logs) || (at
                is Admitting && reply == ConnectReply::Admitted(Admission::Allow))
            &&& next is Proxying && !(at is Proxying) ==> at is ReadingNode && reply is Node
            &&& next is ReadingNode && !(at is ReadingNode) ==> at is ReadingPod && reply is Pod
            &&& reply is Error && !(at is Proxying) && !(at is Failed) ==> next
                == ConnectingView::Failed(reply->Error_0@)
        }),
{
}

/// A binding names its node as the target's name; its target is a node, or of
/// no kind that is named.
pub proof fn law_node_that_a_binding_names(j: JsonView)
    ensures
        ({
            let target = member(j, "target"@);
            let kind = as_text(opt_member(target, "kind"@));
            let name = as_text(opt_member(target, "name"@));
            let fits = kind is None || kind->0.len() == 0 || kind->0 == "Node"@;
            &&& bound_node(Ok(j)) is Ok <==> fits && name is Some
            &&& bound_node(Ok(j)) is Ok ==> bound_node(Ok(j))->Ok_0 == name->0
            &&& bound_node(Ok(j)) is Err ==> bound_node(Ok(j))->Err_0 is InvalidResource
        }),
        forall|m: Seq<char>|
            #[trigger] bound_node(Err(m)) == Err::<Seq<char>, ErrorView>(
                ErrorView::InvalidResource("Invalid binding format: "@ + m),
            ),
{
}

/// A pod is bound to the node that the binding names if and only if it has a
/// specification and no node yet; nothing else of it changes.
pub proof fn law_pod_is_bound_to_the_named_node(
    name: Seq<char>,
    copies: bool,
    node: String,
    pod: Pod,
    next: Binding,
)
    requires
        binds(name, copies, Binding::ReadPod { node }, BindReply::Pod(pod), next),
    ensures
        ({
            let p = pod@;
            let free = p.spec is Some && (p.spec->0.node_name is None || p.spec->0.node_name->0.len()
                == 0);
            let want = PodView {
                spec: Some(PodSpecView { node_name: Some(node@), ..p.spec->0 }),
                ..p
            };
            &&& free && copies ==> (next matches Binding::ReadNode { pod: q, node: n } && n == node
                && q@ == want)
            &&& free && !copies ==> (next matches Binding::Write { pod: q, node: n } && n == node
                && q@ == want)
            &&& !free ==> next is Failed
            &&& p.spec is None ==> next->Failed_0@ is InvalidResource
            &&& p.spec is Some && !free ==> next->Failed_0@ is Conflict
        }),
{
    reveal_strlit("");
}

/// A binding is made with permission; the labels of a node that cannot be read
/// are not copied, and any other error ends it.
pub proof fn law_bindings_need_permission(
    name: Seq<char>,
    copies: bool,
    at: Binding,
    reply: BindReply,
    next: Binding,
)
    requires
        binds(name, copies, at, reply, next),
    ensures
        match at {
            Binding::Authorize { target } => {
                &&& reply == BindReply::Decided(Decision::Allow) && target is Ok ==> next == (
                Binding::ReadPod { node: target->Ok_0 })
                &&& reply == BindReply::Decided(Decision::Allow) && target is Err ==> next
                    == Binding::Failed(target->Err_0)
                &&& reply is Decided && reply->Decided_0 is Deny ==> next == Binding::Failed(
                    Error::Forbidden(reply->Decided_0->Deny_0),
                )
                &&& !(reply is Decided) && !(reply is Error) ==> next == at
            },
            Binding::ReadNode { pod, node } => {
                &&& reply is Error ==> next == (Binding::Write { pod, node })
                &&& reply is Node && reply->Node_0 is None ==> (next matches Binding::Write {
                    pod: q,
                    node: n,
                } && q@ == pod@ && n == node)
                &&& reply is Node ==> (next matches Binding::Write { pod: q, node: n } && q@.spec
                    == pod@.spec && q@.status == pod@.status && n == node)
            },
            Binding::Write { pod, node } => {
                &&& reply is Written ==> next == (Binding::Bound { node })
                &&& reply is Error ==> next == Binding::Failed(reply->Error_0)
            },
            Binding::ReadPod { node } => reply is Error ==> next == Binding::Failed(reply->Error_0),
            _ => next == at,
        },
{
}

/// An eviction is read from its body: it is of the policy group or names no
/// version, its grace period is not negative, and it is a dry run if and only
/// if the options list `All`.
pub proof fn law_what_an_eviction_asks_for(
    j: JsonView,
    r: Result<crate::eviction::EvictionRequest, Error>,
)
    requires
        is_eviction(Ok(j), r),
    ensures
        ({
            let version = as_text(member(j, "apiVersion"@));
            let options = member(j, "deleteOptions"@);
            let grace = as_int(opt_member(options, "gracePeriodSeconds"@));
            let known = version is None || version->0.len() == 0 || version->0 == "policy/v1"@
                || version->0 == "policy/v1beta1"@;
            let dry = opt_member(options, "dryRun"@);
            &&& r is Ok <==> known && (grace is None || grace->0 >= 0)
            &&& r is Err && !known ==> r->Err_0@ is InvalidResource
            &&& r is Err && known ==> r->Err_0@ is Invalid
            &&& r is Ok ==> r->Ok_0.grace_period_seconds == grace
            &&& r is Ok ==> (r->Ok_0.dry_run <==> dry is Some && dry->0 is Array && exists|i: int|
                0 <= i < dry->0->Array_0.len() && #[trigger] dry->0->Array_0[i] == JsonView::Text(
                    "All"@,
                ))
            &&& r is Ok ==> {
                let uid = as_text(opt_member(opt_member(options, "preconditions"@), "uid"@));
                &&& r->Ok_0.uid is Some <==> uid is Some
                &&& uid is Some ==> r->Ok_0.uid->0@ == uid->0
            }
        }),
{
    let options = member(j, "deleteOptions"@);
    let dry = opt_member(options, "dryRun"@);
    if dry is Some && dry->0 is Array {
        let items = dry->0->Array_0;
        if crate::eviction::lists_text(items, "All"@) {
            let i = choose|i: int|
                0 <= i < items.len() && as_text(Some(#[trigger] items[i])) == Some("All"@);
            assert(items[i] == JsonView::Text("All"@));
        }
        if exists|i: int|
            0 <= i < items.len() && #[trigger] items[i] == JsonView::Text("All"@) {
            let i = choose|i: int|
                0 <= i < items.len() && #[trigger] items[i] == JsonView::Text("All"@);
            assert(as_text(Some(items[i])) == Some("All"@));
        }
    }
}

proof fn lemma_non_empty_more(a: Seq<Seq<char>>, t: Seq<char>, n: nat)
    requires
        n <= a.len(),
    ensures
        crate::validation::non_empty(a.push(t), n) == crate::validation::non_empty(a, n),
    decreases n,
{
    if n > 0 {
        lemma_non_empty_more(a, t, (n - 1) as nat);
        assert(a.push(t)[n - 1] == a[n - 1]);
    }
}

/// One more part behind a slash is one more segment of a path; slashes alone
/// make none.
pub proof fn law_path_has_its_segments(path: Seq<char>, part: Seq<char>)
    requires
        part.len() > 0,
        !part.contains('/'),
    ensures
        segments_of(path + seq!['/'] + part) == segments_of(path).push(part),
        segments_of(Seq::empty()).len() == 0,
        segments_of(path + seq!['/']) == segments_of(path),
{
    let a = split_at_char(path, '/');
    lemma_split_more(path, '/', part);
    lemma_non_empty_more(a, part, a.len());
    assert(a.push(part)[a.len() as int] == part);
    let none = Seq::<char>::empty();
    lemma_split_more(path, '/', none);
    lemma_non_empty_more(a, none, a.len());
    assert(a.push(none)[a.len() as int] == none);
    assert(path + seq!['/'] + none =~= path + seq!['/']);
    lemma_split_one(none, '/');
    let one = split_at_char(none, '/');
    assert(one[0] == none);
    assert(crate::validation::non_empty(one, 0) =~= Seq::empty());
    assert(crate::validation::non_empty(one, 1) =~= Seq::empty());
}

/// The path of a scale says what it scales: the resource is the third segment
/// from the end; under `apis` group and version are the segments behind it, and
/// elsewhere the group is empty and the version the second segment.
pub proof fn law_path_of_a_scale(path: Seq<char>)
    requires
        segments_of(path).len() >= 3,
    ensures
        ({
            let s = segments_of(path);
            &&& scale_target(path).2 == s[s.len() - 3]
            &&& s[0] == "apis"@ ==> scale_target(path).0 == s[1] && scale_target(path).1 == s[2]
            &&& s[0] != "apis"@ ==> scale_target(path).0.len() == 0 && scale_target(path).1 == s[1]
        }),
{
    reveal_strlit("");
}

/// The scale of a workload has its name and version, the replicas that it asks
/// for, one where it does not say, and those that there are, none where that is
/// not known.
pub proof fn law_scale_of_a_workload(resource: JsonView, namespace: Seq<char>, name: Seq<char>)
    ensures
        ({
            let meta = member(resource, "metadata"@);
            let spec = member(resource, "spec"@);
            let status = member(resource, "status"@);
            let r = scale_of(resource, namespace, name);
            let asked = as_int(opt_member(spec, "replicas"@));
            let there = as_int(opt_member(status, "replicas"@));
            &&& r is Ok <==> meta is Some && spec is Some
            &&& r is Err ==> r->Err_0 is InvalidResource
            &&& r is Ok ==> {
                let s = r->Ok_0;
                &&& s.api_version == "autoscaling/v1"@
                &&& s.kind == "Scale"@
                &&& s.name == name
                &&& s.namespace == namespace
                &&& s.resource_version == as_text(opt_member(meta, "resourceVersion"@))
                &&& s.creation_timestamp == as_text(opt_member(meta, "creationTimestamp"@))
                &&& asked is None ==> s.replicas == 1
                &&& asked is Some && i32::MIN <= asked->0 <= i32::MAX ==> s.replicas == asked->0
                &&& there is None ==> s.status_replicas == 0
                &&& there is Some && i32::MIN <= there->0 <= i32::MAX ==> s.status_replicas
                    == there->0
                &&& s.selector == selector_text(opt_member(spec, "selector"@))
            }
        }),
{
    let spec = member(resource, "spec"@);
    let status = member(resource, "status"@);
    let asked = as_int(opt_member(spec, "replicas"@));
    let there = as_int(opt_member(status, "replicas"@));
    if asked is Some {
        crate::json_laws::law_lower_bits(asked->0 as int);
    }
    if there is Some {
        crate::json_laws::law_lower_bits(there->0 as int);
    }
}

/// A selector of labels is written as `key=value` with commas between, of its
/// `matchLabels` where it has these; a text stands for itself.
pub proof fn law_text_of_a_selector(m: Seq<(Seq<char>, JsonView)>, i: int, t: Seq<char>)
    requires
        0 <= i < m.len(),
    ensures
        label_pairs(m).len() == m.len(),
        m[i].1 is Text ==> label_pairs(m)[i] == m[i].0 + "="@ + m[i].1->Text_0,
        member(JsonView::Object(m), "matchLabels"@) is None && member(
            JsonView::Object(m),
            "matchExpressions"@,
        ) is None ==> selector_text(Some(JsonView::Object(m))) == Some(
            joined(label_pairs(m), ","@),
        ),
        member(JsonView::Object(m), "matchLabels"@) is Some && member(
            JsonView::Object(m),
            "matchLabels"@,
        )->0 is Object ==> selector_text(Some(JsonView::Object(m))) == Some(
            joined(
                label_pairs(member(JsonView::Object(m), "matchLabels"@)->0->Object_0),
                ","@,
            ),
        ),
        selector_text(Some(JsonView::Text(t))) == Some(t),
        selector_text(None) is None,
{
}

/// Setting the replicas of a workload sets that one number: every other field
/// of it and of its specification stays.
pub proof fn law_only_the_replicas_are_set(
    resource: JsonView,
    replicas: int,
    key: Seq<char>,
    field: Seq<char>,
)
    requires
        resource is Object,
        member(resource, "spec"@) is Some,
        member(resource, "spec"@)->0 is Object,
        key != "spec"@,
        field != "replicas"@,
    ensures
        ({
            let after = with_replicas(resource, replicas);
            let spec = member(after, "spec"@);
            &&& after is Object
            &&& opt_member(spec, "replicas"@) == Some(JsonView::Int(replicas))
            &&& opt_member(spec, field) == opt_member(member(resource, "spec"@), field)
            &&& member(after, key) == member(resource, key)
        }),
{
    let m = resource->Object_0;
    let spec = member(resource, "spec"@)->0->Object_0;
    let set = crate::json::with_member(spec, "replicas"@, JsonView::Int(replicas));
    crate::json::law_member_is_read_back(spec, "replicas"@, JsonView::Int(replicas), field);
    crate::json::law_member_is_read_back(m, "spec"@, JsonView::Object(set), key);
}

/// A scale is set to the count that the request asks for, or that the patched
/// scale has; a negative one is refused, and nothing is written then.
pub proof fn law_scale_is_set_as_asked(
    request: ScaleRequest,
    namespace: Seq<char>,
    name: Seq<char>,
    at: Scaling,
    reply: ScaleReply,
    next: Scaling,
)
    requires
        scales(request, namespace, name, at, reply, next),
    ensures
        at is Fetch && reply is Fetched && reply->Fetched_0 is Ok && request is Update ==> {
            let n = request->Update_0;
            &&& n < 0 ==> next is Refused && next->Refused_0@ is Invalid
            &&& n >= 0 ==> next is Write && next->Write_resource@ == with_replicas(
                reply->Fetched_0->Ok_0@,
                n as int,
            ) && next->Write_tries == at->Fetch_tries
        },
        at is Fetch && reply is Fetched && reply->Fetched_0 is Ok && request is Get ==> {
            let r = scale_of(reply->Fetched_0->Ok_0@, namespace, name);
            &&& r is Ok ==> next is Answer && next->Answer_0@ == r->Ok_0
            &&& r is Err ==> next is Refused && next->Refused_0@ == r->Err_0
        },
        at is Fetch && reply is Fetched && reply->Fetched_0 is Err ==> next == Scaling::Refused(
            reply->Fetched_0->Err_0,
        ),
        at is Apply && reply is Applied && reply->Applied_0 is Ok ==> {
            let n = as_int(opt_member(member(reply->Applied_0->Ok_0@, "spec"@), "replicas"@));
            &&& n is Some && 0 <= n->0 <= i32::MAX ==> next is Write && next->Write_resource@
                == with_replicas(at->Apply_resource@, n->0 as int) && next->Write_tries
                == at->Apply_tries
            &&& n is Some && i32::MIN <= n->0 < 0 ==> next is Refused && next->Refused_0@
                is Invalid
            &&& n is None ==> next is Write && next->Write_resource == at->Apply_resource
        },
        at is Apply && reply is Applied && reply->Applied_0 is Err ==> next is Refused
            && next->Refused_0@ is InvalidResource,
        at is Authorize && reply is Authorized && reply->Authorized_0 is Ok
            && reply->Authorized_0->Ok_0 is Deny ==> next == Scaling::Refused(
            Error::Forbidden(reply->Authorized_0->Ok_0->Deny_0),
        ),
        at is Authorize && reply == ScaleReply::Authorized(Ok(Decision::Allow)) && request is Update
            && request->Update_0 < 0 ==> next is Refused && next->Refused_0@ is Invalid,
        at is Authorize && reply == ScaleReply::Authorized(Ok(Decision::Allow)) && (request is Get
            || (request is Update && request->Update_0 >= 0) || (request is Patch
            && request->Patch_0 is Ok)) ==> next == (Scaling::Fetch { tries: 0 }),
        at is Authorize && reply == ScaleReply::Authorized(Ok(Decision::Allow)) && request is Patch
            && request->Patch_0 is Err ==> next is Refused && next->Refused_0@
            is InvalidResource,
        at is Write && reply is Written && reply->Written_0 is Err ==> {
            let e = reply->Written_0->Err_0;
            let again = request is Patch && e is Conflict && at->Write_tries < 4;
            &&& again ==> next == (Scaling::Fetch { tries: (at->Write_tries + 1) as usize })
            &&& !again ==> next == Scaling::Refused(e)
        },
        at is Write && reply is Written && reply->Written_0 is Ok && request is Patch
            && reply->Written_0->Ok_0 is Null ==> next is Refused && next->Refused_0@
            is Conflict,
        at is Write && reply is Written && reply->Written_0 is Ok && !(request is Patch
            && reply->Written_0->Ok_0 is Null) ==> {
            let r = scale_of(reply->Written_0->Ok_0@, namespace, name);
            &&& r is Ok ==> next is Answer && next->Answer_0@ == r->Ok_0
            &&& r is Err ==> next is Refused && next->Refused_0@ == r->Err_0
        },
{
    if at is Apply && reply is Applied && reply->Applied_0 is Ok {
        let n = as_int(opt_member(member(reply->Applied_0->Ok_0@, "spec"@), "replicas"@));
        if n is Some {
            crate::json_laws::law_lower_bits(n->0 as int);
        }
    }
}

/// The value of a hexadecimal digit, in either case.
pub open spec fn hex_worth(b: u8) -> Option<int> {
    if 0x30 <= b <= 0x39 {
        Some(b - 0x30)
    } else if 0x61 <= b <= 0x66 {
        Some(b - 0x61 + 10)
    } else if 0x41 <= b <= 0x46 {
        Some(b - 0x41 + 10)
    } else {
        None
    }
}

/// A percent sign with two hexadecimal digits stands for one byte; with
/// anything else, but for a plus sign before a digit, it stands for itself.
pub proof fn law_percent_signs(b: Seq<u8>, i: int)
    requires
        0 <= i,
        i + 3 <= b.len(),
        b[i] == 0x25,
    ensures
        hex_worth(b[i + 1]) is Some && hex_worth(b[i + 2]) is Some ==> decoded_from(b, i) == seq![
            (16 * hex_worth(b[i + 1])->0 + hex_worth(b[i + 2])->0) as u8,
        ] + decoded_from(b, i + 3),
        hex_worth(b[i + 2]) is None || (hex_worth(b[i + 1]) is None && b[i + 1] != 0x2b)
            ==> decoded_from(b, i) == seq![0x25u8, b[i + 1], b[i + 2]] + decoded_from(b, i + 3),
{
}

/// An eviction with a precondition fails where the pod is another one, and only
/// there.
pub proof fn law_evictions_check_the_pod(wanted: Option<String>, uid: &str, r: Result<(), Error>)
    requires
        call_ensures(check_uid, (&wanted, uid), r),
    ensures
        r is Err <==> wanted is Some && wanted->0@.len() > 0 && wanted->0@ != uid@,
        r is Err ==> r->Err_0@ is Conflict,
{
}

/// The media type of a patch is what stands before the first semicolon.
pub proof fn law_media_type_of_a_patch(content_type: &str, r: String)
    requires
        call_ensures(media_type, (content_type,), r),
    ensures
        !r@.contains(';'),
        r@ == content_type@ || exists|rest: Seq<char>| content_type@ == #[trigger] (r@ + seq![';'] + rest),
{
    let s = content_type@;
    crate::text_laws::law_pieces_make_the_text(s, ';');
    lemma_find(s, ';', 0);
    match find_char(s, ';') {
        Some(k) => {
            assert(split_at_char(s, ';')[0] == s.take(k));
            assert(s =~= s.take(k) + seq![';'] + s.skip(k + 1));
        },
        None => {
            assert(split_at_char(s, ';')[0] == s);
        },
    }
}

} // verus!
