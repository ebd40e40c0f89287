//! Connecting to a pod: logs, exec, attach, port forwarding.
use vstd::prelude::*;
use vstd::string::StrSliceExecFns;
use vstd::string::StringExecFns;
use vstd::utf8::{encode_utf8, is_ascii_chars};
use crate::access::{attributes, AttributesView, Decision, RequestAttributes};
use crate::error::{Error, ErrorView};
use crate::model::{container_views, copy_text, Pod, PodView};
use crate::pod_rules::{node_of, pod_node};
use crate::text::{
    decimal, opt_text, parse_unsigned, push_decimal, same, split, split_at_char, split_once,
    split_once_at, text_of_single_bytes, texts, trim, trimmed, unsigned_value,
};

verus! {

/// The value of a hexadecimal digit.
pub open spec fn hex_digit(b: u8) -> Option<u8> {
    if 0x30 <= b <= 0x39 {
        Some((b - 0x30) as u8)
    } else if 0x41 <= b <= 0x46 {
        Some((b - 0x37) as u8)
    } else if 0x61 <= b <= 0x66 {
        Some((b - 0x57) as u8)
    } else {
        None
    }
}

/// The byte that two characters write in base sixteen. A plus sign may stand
/// in place of the first digit.
pub open spec fn hex_pair(hi: u8, lo: u8) -> Option<u8> {
    match hex_digit(lo) {
        Some(l) => if hi == 0x2b {
            Some(l)
        } else {
            match hex_digit(hi) {
                Some(h) => Some((16 * h + l) as u8),
                None => None,
            }
        },
        None => None,
    }
}

/// The byte at `i`, or the digit zero past the end.
pub open spec fn byte_or_zero(b: Seq<u8>, i: int) -> u8 {
    if 0 <= i < b.len() {
        b[i]
    } else {
        0x30
    }
}

/// What an escape stands for: the byte that the two characters after the
/// percent sign write, or else the three bytes themselves.
pub open spec fn unescaped(hi: u8, lo: u8) -> Seq<u8> {
    match hex_pair(hi, lo) {
        Some(v) => seq![v],
        None => seq![0x25u8, hi, lo],
    }
}

/// The bytes from `i` on with their escapes resolved. A plus sign is a space.
pub open spec fn decoded_from(b: Seq<u8>, i: int) -> Seq<u8>
    decreases b.len() - i,
{
    if i < 0 || i >= b.len() {
        Seq::empty()
    } else if b[i] == 0x25 {
        unescaped(byte_or_zero(b, i + 1), byte_or_zero(b, i + 2)) + (if i + 3 <= b.len() {
            decoded_from(b, i + 3)
        } else {
            Seq::empty()
        })
    } else if b[i] == 0x2b {
        seq![0x20u8] + decoded_from(b, i + 1)
    } else {
        seq![b[i]] + decoded_from(b, i + 1)
    }
}

/// A query value with its escapes resolved. Every byte comes out as one
/// character.
pub open spec fn percent_decoded(s: Seq<char>) -> Seq<char> {
    decoded_from(encode_utf8(s), 0).map_values(|b: u8| b as char)
}

fn hex_value(b: u8) -> (r: Option<u8>)
    ensures
        r == hex_digit(b),
        r matches Some(v) ==> v < 16,
{
    if 0x30 <= b && b <= 0x39 {
        Some(b - 0x30)
    } else if 0x41 <= b && b <= 0x46 {
        Some(b - 0x37)
    } else if 0x61 <= b && b <= 0x66 {
        Some(b - 0x57)
    } else {
        None
    }
}

/// Resolves the escapes of a query value.
pub fn percent_decode_str(s: &str) -> (r: String)
    ensures
        r@ == percent_decoded(s@),
{
    let bytes: &[u8] = s.as_bytes();
    let len: usize = bytes.len();
    let ghost b = bytes@;
    let mut out: Vec<u8> = Vec::new();
    let mut i: usize = 0;
    assert(out@ + decoded_from(b, 0) =~= decoded_from(b, 0));
    while i < len
        invariant
            b == bytes@,
            len == b.len(),
            i <= len,
            out@ + decoded_from(b, i as int) == decoded_from(b, 0),
        decreases len - i,
    {
        let ghost before = out@;
        let c: u8 = bytes[i];
        if c == 0x25 {
            let hi: u8 = if len - i > 1 {
                bytes[i + 1]
            } else {
                0x30
            };
            let lo: u8 = if len - i > 2 {
                bytes[i + 2]
            } else {
                0x30
            };
            let high: Option<u8> = if hi == 0x2b {
                Some(0)
            } else {
                hex_value(hi)
            };
            match (high, hex_value(lo)) {
                (Some(h), Some(l)) => {
                    out.push(16 * h + l);
                },
                _ => {
                    out.push(0x25);
                    out.push(hi);
                    out.push(lo);
                },
            }
            let ghost rest = if i + 3 <= len {
                decoded_from(b, i + 3)
            } else {
                Seq::empty()
            };
            assert(out@ =~= before + unescaped(hi, lo));
            assert(before + (unescaped(hi, lo) + rest) =~= out@ + rest);
            i = if len - i >= 3 {
                i + 3
            } else {
                len
            };
        } else if c == 0x2b {
            out.push(0x20);
            assert(before + (seq![0x20u8] + decoded_from(b, i + 1)) =~= out@ + decoded_from(b, i + 1));
            i = i + 1;
        } else {
            out.push(c);
            assert(before + (seq![c] + decoded_from(b, i + 1)) =~= out@ + decoded_from(
                b,
                i + 1,
            ));
            i = i + 1;
        }
    }
    assert(out@ + Seq::<u8>::empty() =~= out@);
    text_of_single_bytes(out.as_slice())
}

proof fn lemma_plain_bytes(b: Seq<u8>, i: int)
    requires
        0 <= i <= b.len(),
        forall|k: int| 0 <= k < b.len() ==> (#[trigger] b[k]) != 0x25 && b[k] != 0x2b,
    ensures
        decoded_from(b, i) == b.skip(i),
    decreases b.len() - i,
{
    if i < b.len() {
        lemma_plain_bytes(b, i + 1);
    }
    assert(decoded_from(b, i) =~= b.skip(i));
}

/// An ASCII text comes out of its bytes again.
proof fn lemma_ascii_bytes(s: Seq<char>)
    requires
        is_ascii_chars(s),
    ensures
        encode_utf8(s).map_values(|b: u8| b as char) == s,
{
    vstd::utf8::is_ascii_chars_encode_utf8(s);
    vstd::utf8::is_ascii_chars_nat_bound(s);
    let w = encode_utf8(s).map_values(|b: u8| b as char);
    assert forall|i: int| 0 <= i < s.len() implies w[i] == s[i] by {
        assert(s[i] as u8 == encode_utf8(s)[i]);
        vstd::utf8::char_u32_cast(s[i], s[i] as u32);
    }
    assert(w =~= s);
}

/// An ASCII text without percent and plus signs stays as it is.
pub proof fn law_plain_text_is_not_decoded(s: Seq<char>)
    requires
        is_ascii_chars(s),
        forall|k: int| 0 <= k < s.len() ==> (#[trigger] s[k]) != '%' && s[k] != '+',
    ensures
        percent_decoded(s) == s,
{
    let b = encode_utf8(s);
    vstd::utf8::is_ascii_chars_encode_utf8(s);
    vstd::utf8::is_ascii_chars_nat_bound(s);
    assert forall|k: int| 0 <= k < b.len() implies (#[trigger] b[k]) != 0x25 && b[k] != 0x2b by {
        assert(s[k] as u8 == b[k]);
    }
    lemma_plain_bytes(b, 0);
    assert(b.skip(0) =~= b);
    lemma_ascii_bytes(s);
}

/// The digit that writes a number below sixteen.
pub open spec fn hex_byte(d: nat) -> u8 {
    if d < 10 {
        (0x30 + d) as u8
    } else {
        (0x37 + d) as u8
    }
}

/// Some bytes, each as a percent sign and two digits.
pub open spec fn percent_encoded(b: Seq<u8>) -> Seq<u8>
    decreases b.len(),
{
    if b.len() == 0 {
        Seq::empty()
    } else {
        seq![0x25u8, hex_byte(b[0] as nat / 16), hex_byte(b[0] as nat % 16)] + percent_encoded(
            b.skip(1),
        )
    }
}

proof fn lemma_encoded_bytes(w: Seq<u8>, i: int, b: Seq<u8>)
    requires
        0 <= i <= w.len(),
        w.skip(i) == percent_encoded(b),
    ensures
        decoded_from(w, i) == b,
    decreases b.len(),
{
    let t = w.skip(i);
    if b.len() == 0 {
        assert(t.len() == 0);
        assert(b =~= Seq::<u8>::empty());
    } else {
        let rest = percent_encoded(b.skip(1));
        let hi = hex_byte(b[0] as nat / 16);
        let lo = hex_byte(b[0] as nat % 16);
        assert(t == seq![0x25u8, hi, lo] + rest);
        assert(t.len() == 3 + rest.len());
        assert(t[0] == 0x25 && t[1] == hi && t[2] == lo);
        assert(w[i] == t[0] && w[i + 1] == t[1] && w[i + 2] == t[2]);
        assert(hex_digit(hi) == Some((b[0] / 16) as u8));
        assert(hex_digit(lo) == Some((b[0] % 16) as u8));
        assert(hex_pair(hi, lo) == Some(b[0]));
        assert(w.skip(i + 3) =~= rest) by {
            assert(w.skip(i + 3) =~= t.skip(3));
            assert(t.skip(3) =~= rest);
        }
        lemma_encoded_bytes(w, i + 3, b.skip(1));
        assert(seq![b[0]] + b.skip(1) =~= b);
    }
}

/// Bytes that are all written as escapes come back one by one; so an ASCII text
/// is read back.
pub proof fn law_escaped_bytes_are_read_back(b: Seq<u8>, written: Seq<char>)
    requires
        encode_utf8(written) == percent_encoded(b),
    ensures
        percent_decoded(written) == b.map_values(|c: u8| c as char),
        forall|s: Seq<char>|
            is_ascii_chars(s) && b == #[trigger] encode_utf8(s) ==> percent_decoded(written) == s,
{
    let w = encode_utf8(written);
    assert(w.skip(0) =~= w);
    lemma_encoded_bytes(w, 0, b);
    assert forall|s: Seq<char>| is_ascii_chars(s) && b == #[trigger] encode_utf8(s) implies
        percent_decoded(written) == s by {
        lemma_ascii_bytes(s);
    }
}

/// What an exec request asks for.
pub struct ExecQuery {
    pub container: Option<String>,
    pub command: Vec<String>,
    pub stdin: bool,
    pub stdout: bool,
    pub stderr: bool,
    pub tty: bool,
}

/// What an attach request asks for.
pub struct AttachQuery {
    pub container: Option<String>,
    pub stdin: bool,
    pub stdout: bool,
    pub stderr: bool,
    pub tty: bool,
}

/// What a port forwarding request asks for.
pub struct PortForwardQuery {
    pub ports: Option<String>,
}

/// The content of an [`ExecQuery`].
pub struct ExecQueryView {
    pub container: Option<Seq<char>>,
    pub command: Seq<Seq<char>>,
    pub stdin: bool,
    pub stdout: bool,
    pub stderr: bool,
    pub tty: bool,
}

impl View for ExecQuery {
    type V = ExecQueryView;

    open spec fn view(&self) -> ExecQueryView {
        ExecQueryView {
            container: opt_text(self.container),
            command: texts(self.command@),
            stdin: self.stdin,
            stdout: self.stdout,
            stderr: self.stderr,
            tty: self.tty,
        }
    }
}

/// A request that asks for nothing.
pub open spec fn no_exec_query() -> ExecQueryView {
    ExecQueryView {
        container: None,
        command: Seq::empty(),
        stdin: false,
        stdout: false,
        stderr: false,
        tty: false,
    }
}

/// Whether a query value switches a stream on.
pub open spec fn switches_on(v: Seq<char>) -> bool {
    v == "true"@ || v == "1"@
}

/// What one pair of the query adds. A later pair of the same name wins, but
/// for the words of the command, which all count.
pub open spec fn with_pair(q: ExecQueryView, pair: Seq<char>) -> ExecQueryView {
    match split_once_at(pair, '=') {
        None => q,
        Some((key, raw)) => {
            let v = percent_decoded(raw);
            if key == "command"@ {
                ExecQueryView { command: q.command.push(v), ..q }
            } else if key == "container"@ {
                ExecQueryView { container: Some(v), ..q }
            } else if key == "stdin"@ {
                ExecQueryView { stdin: switches_on(v), ..q }
            } else if key == "stdout"@ {
                ExecQueryView { stdout: switches_on(v), ..q }
            } else if key == "stderr"@ {
                ExecQueryView { stderr: switches_on(v), ..q }
            } else if key == "tty"@ {
                ExecQueryView { tty: switches_on(v), ..q }
            } else {
                q
            }
        },
    }
}

/// What the first `n` pairs ask for.
pub open spec fn exec_query_of(pairs: Seq<Seq<char>>, n: nat) -> ExecQueryView
    decreases n,
{
    if n == 0 || n > pairs.len() {
        no_exec_query()
    } else {
        with_pair(exec_query_of(pairs, (n - 1) as nat), pairs[n - 1])
    }
}

/// What a query string asks of exec.
pub open spec fn exec_query(raw: Seq<char>) -> ExecQueryView {
    exec_query_of(split_at_char(raw, '&'), split_at_char(raw, '&').len())
}

fn is_on(v: &str) -> (r: bool)
    ensures
        r == switches_on(v@),
{
    same(v, "true") || same(v, "1")
}

/// Reads the query string of an exec request.
pub fn parse_exec_query(raw_query: &str) -> (q: ExecQuery)
    ensures
        q@ == exec_query(raw_query@),
{
    let pairs: Vec<String> = split(raw_query, '&');
    let ghost all = split_at_char(raw_query@, '&');
    let mut q: ExecQuery = ExecQuery {
        container: None,
        command: Vec::new(),
        stdin: false,
        stdout: false,
        stderr: false,
        tty: false,
    };
    assert(texts(q.command@) =~= Seq::<Seq<char>>::empty());
    let mut i: usize = 0;
    while i < pairs.len()
        invariant
            i <= pairs@.len(),
            texts(pairs@) == all,
            q@ == exec_query_of(all, i as nat),
        decreases pairs.len() - i,
    {
        assert(all[i as int] == pairs@[i as int]@);
        if let Some((key, raw)) = split_once(pairs[i].as_str(), '=') {
            let v: String = percent_decode_str(raw.as_str());
            if same(key.as_str(), "command") {
                let ghost before = texts(q.command@);
                let ghost word = v@;
                q.command.push(v);
                assert(texts(q.command@) =~= before.push(word));
            } else if same(key.as_str(), "container") {
                q.container = Some(v);
            } else if same(key.as_str(), "stdin") {
                q.stdin = is_on(v.as_str());
            } else if same(key.as_str(), "stdout") {
                q.stdout = is_on(v.as_str());
            } else if same(key.as_str(), "stderr") {
                q.stderr = is_on(v.as_str());
            } else if same(key.as_str(), "tty") {
                q.tty = is_on(v.as_str());
            }
        }
        i = i + 1;
    }
    q
}

/// The value of the first of the pairs from `i` on that names a container,
/// as it stands in the query.
pub open spec fn container_pair_from(pairs: Seq<Seq<char>>, i: int) -> Option<Seq<char>>
    decreases pairs.len() - i,
{
    if i < 0 || i >= pairs.len() {
        None
    } else {
        match split_once_at(pairs[i], '=') {
            Some((key, v)) => if key == "container"@ {
                Some(v)
            } else {
                container_pair_from(pairs, i + 1)
            },
            None => container_pair_from(pairs, i + 1),
        }
    }
}

/// The container that a query string of a log request names.
pub fn log_container(raw_query: &str) -> (r: Option<String>)
    ensures
        opt_text(r) == container_pair_from(split_at_char(raw_query@, '&'), 0),
{
    let pairs: Vec<String> = split(raw_query, '&');
    let ghost all = split_at_char(raw_query@, '&');
    let mut i: usize = 0;
    while i < pairs.len()
        invariant
            i <= pairs@.len(),
            texts(pairs@) == all,
            all == split_at_char(raw_query@, '&'),
            container_pair_from(all, 0) == container_pair_from(all, i as int),
        decreases pairs.len() - i,
    {
        assert(all[i as int] == pairs@[i as int]@);
        if let Some((key, v)) = split_once(pairs[i].as_str(), '=') {
            if same(key.as_str(), "container") {
                return Some(v);
            }
        }
        i = i + 1;
    }
    None
}

/// The container to connect to: the one that is asked for, or the first.
pub open spec fn container_to_use(p: PodView, asked: Option<Seq<char>>) -> Option<Seq<char>> {
    match asked {
        Some(c) => Some(c),
        None => match p.spec {
            Some(s) => if s.containers.len() > 0 {
                Some(s.containers[0].name)
            } else {
                None
            },
            None => None,
        },
    }
}

/// What is said of a pod that runs nowhere.
pub open spec fn unassigned(namespace: Seq<char>, name: Seq<char>) -> ErrorView {
    ErrorView::InvalidResource(
        "pod "@ + namespace + "/"@ + name + " has not been assigned to a node"@,
    )
}

/// What is said of a pod without containers.
pub open spec fn no_containers() -> ErrorView {
    ErrorView::InvalidResource("Pod has no containers"@)
}

/// What a client can connect to.
#[derive(Clone, Copy, Debug, PartialEq, Eq, Structural)]
pub enum Stream {
    Logs,
    Exec,
    Attach,
}

/// Node and container of a connection, or why there is none. Logs look for
/// the container first, the others for the node.
pub open spec fn endpoint(
    kind: Stream,
    p: PodView,
    namespace: Seq<char>,
    name: Seq<char>,
    asked: Option<Seq<char>>,
) -> Result<(Seq<char>, Seq<char>), ErrorView> {
    let container = container_to_use(p, asked);
    let bound = node_of(p).len() > 0;
    if kind == Stream::Logs && container is None {
        Err(no_containers())
    } else if !bound {
        Err(unassigned(namespace, name))
    } else if container is None {
        Err(no_containers())
    } else {
        Ok((node_of(p), container->0))
    }
}

/// Finds the node and container of a connection.
pub fn find_endpoint(
    kind: Stream,
    pod: &Pod,
    namespace: &str,
    name: &str,
    asked: Option<String>,
) -> (r: Result<(String, String), Error>)
    ensures
        match (r, endpoint(kind, pod@, namespace@, name@, opt_text(asked))) {
            (Ok((n, c)), Ok((node, container))) => n@ == node && c@ == container,
            (Err(e), Err(why)) => e@ == why,
            _ => false,
        },
{
    let container: Option<String> = match asked {
        Some(c) => Some(c),
        None => match &pod.spec {
            Some(s) => {
                if s.containers.len() > 0 {
                    assert(container_views(s.containers@)[0] == s.containers@[0]@);
                    Some(s.containers[0].name.clone())
                } else {
                    None
                }
            },
            None => None,
        },
    };
    let node: &str = pod_node(pod);
    if container.is_none() && kind == Stream::Logs {
        return Err(Error::InvalidResource("Pod has no containers".to_owned()));
    }
    if node.is_empty() {
        let mut m: String = "pod ".to_owned();
        m.append(namespace);
        m.append("/");
        m.append(name);
        m.append(" has not been assigned to a node");
        return Err(Error::InvalidResource(m));
    }
    match container {
        Some(c) => Ok((node.to_owned(), c)),
        None => Err(Error::InvalidResource("Pod has no containers".to_owned())),
    }
}

/// How a node's kubelet is reached.
pub struct NodeConn {
    pub host: String,
    pub port: u16,
    pub scheme: String,
}

/// The path under which the kubelet serves a stream.
pub open spec fn stream_path(
    kind: Seq<char>,
    ns: Seq<char>,
    pod: Seq<char>,
    container: Seq<char>,
) -> Seq<char> {
    "/"@ + kind + "/"@ + ns + "/"@ + pod + "/"@ + container
}

/// The URL under which the kubelet serves a stream, with the query as it came.
pub open spec fn stream_url(
    conn: NodeConn,
    kind: Seq<char>,
    ns: Seq<char>,
    pod: Seq<char>,
    container: Seq<char>,
    raw_query: Seq<char>,
) -> Seq<char> {
    let base = conn.scheme@ + "://"@ + conn.host@ + ":"@ + decimal(conn.port as nat) + stream_path(
        kind,
        ns,
        pod,
        container,
    );
    if raw_query.len() == 0 {
        base
    } else {
        base + "?"@ + raw_query
    }
}

/// Builds the URL under which the kubelet serves a stream.
pub fn build_kubelet_stream_url(
    conn: &NodeConn,
    kind: &str,
    ns: &str,
    pod: &str,
    container: &str,
    raw_query: &str,
) -> (url: String)
    ensures
        url@ == stream_url(*conn, kind@, ns@, pod@, container@, raw_query@),
{
    let mut path: String = "/".to_owned();
    path.append(kind);
    path.append("/");
    path.append(ns);
    path.append("/");
    path.append(pod);
    path.append("/");
    path.append(container);
    let mut url: String = conn.scheme.clone();
    url.append("://");
    url.append(conn.host.as_str());
    url.append(":");
    push_decimal(&mut url, conn.port as u64);
    url.append(path.as_str());
    if !raw_query.is_empty() {
        url.append("?");
        url.append(raw_query);
    }
    url
}

/// The name under which the kubelet serves a stream.
pub open spec fn kubelet_name(kind: Stream) -> Seq<char> {
    match kind {
        Stream::Logs => "containerLogs"@,
        Stream::Exec => "exec"@,
        Stream::Attach => "attach"@,
    }
}

/// The name under which the kubelet serves a stream.
pub fn stream_name(kind: Stream) -> (n: &'static str)
    ensures
        n@ == kubelet_name(kind),
{
    match kind {
        Stream::Logs => "containerLogs",
        Stream::Exec => "exec",
        Stream::Attach => "attach",
    }
}

/// The subresource that a stream is.
pub open spec fn stream_subresource(kind: Stream) -> Seq<char> {
    match kind {
        Stream::Logs => "log"@,
        Stream::Exec => "exec"@,
        Stream::Attach => "attach"@,
    }
}

/// What the authorizer is asked for a stream: reading for logs, creating for the others.
pub fn stream_attributes(kind: Stream, namespace: &str, name: &str) -> (r: RequestAttributes)
    ensures
        r@ == (AttributesView {
            verb: if kind == Stream::Logs {
                "get"@
            } else {
                "create"@
            },
            resource: "pods"@,
            api_group: ""@,
            namespace: Some(namespace@),
            name: Some(name@),
            subresource: Some(stream_subresource(kind)),
        }),
{
    let verb: &str = match kind {
        Stream::Logs => "get",
        _ => "create",
    };
    let sub: &str = match kind {
        Stream::Logs => "log",
        Stream::Exec => "exec",
        Stream::Attach => "attach",
    };
    attributes(verb, "pods", "", Some(namespace), Some(name), Some(sub))
}

/// The answer of the admission webhooks.
pub enum Admission {
    Allow,
    Deny(String),
}

/// Where a connection stands while it is set up.
pub enum Connecting {
    Authorizing,
    Admitting,
    ReadingPod,
    ReadingNode { node: String, container: String },
    /// The request is passed on to this URL.
    Proxying { url: String },
    Failed(Error),
}

/// The content of [`Connecting`].
pub enum ConnectingView {
    Authorizing,
    Admitting,
    ReadingPod,
    ReadingNode { node: Seq<char>, container: Seq<char> },
    Proxying { url: Seq<char> },
    Failed(ErrorView),
}

impl View for Connecting {
    type V = ConnectingView;

    open spec fn view(&self) -> ConnectingView {
        match self {
            Connecting::Authorizing => ConnectingView::Authorizing,
            Connecting::Admitting => ConnectingView::Admitting,
            Connecting::ReadingPod => ConnectingView::ReadingPod,
            Connecting::ReadingNode { node, container } => ConnectingView::ReadingNode {
                node: node@,
                container: container@,
            },
            Connecting::Proxying { url } => ConnectingView::Proxying { url: url@ },
            Connecting::Failed(e) => ConnectingView::Failed(e@),
        }
    }
}

/// What happens while a connection is set up.
pub enum ConnectReply {
    Decided(Decision),
    Admitted(Admission),
    Pod(Pod),
    Node(NodeConn),
    Error(Error),
}

/// What a client wants to connect to.
pub struct ConnectRequest {
    pub kind: Stream,
    pub namespace: String,
    pub name: String,
    pub raw_query: String,
    /// The container that the client names, if it does.
    pub container: Option<String>,
}

/// What follows `at` on `reply`. An answer that was not asked for changes nothing.
pub open spec fn connecting_after(
    req: ConnectRequest,
    at: ConnectingView,
    reply: ConnectReply,
) -> ConnectingView {
    match (at, reply) {
        (ConnectingView::Proxying { url }, _) => at,
        (ConnectingView::Failed(e), _) => at,
        (_, ConnectReply::Error(e)) => ConnectingView::Failed(e@),
        (ConnectingView::Authorizing, ConnectReply::Decided(d)) => match d {
            Decision::Deny(reason) => ConnectingView::Failed(ErrorView::Forbidden(reason@)),
            Decision::Allow => if req.kind == Stream::Logs {
                ConnectingView::ReadingPod
            } else {
                ConnectingView::Admitting
            },
        },
        (ConnectingView::Admitting, ConnectReply::Admitted(a)) => match a {
            Admission::Deny(reason) => ConnectingView::Failed(
                ErrorView::Forbidden("admission webhook denied the request: "@ + reason@),
            ),
            Admission::Allow => ConnectingView::ReadingPod,
        },
        (ConnectingView::ReadingPod, ConnectReply::Pod(pod)) => match endpoint(
            req.kind,
            pod@,
            req.namespace@,
            req.name@,
            opt_text(req.container),
        ) {
            Ok((node, container)) => ConnectingView::ReadingNode { node, container },
            Err(e) => ConnectingView::Failed(e),
        },
        (
            ConnectingView::ReadingNode { node, container },
            ConnectReply::Node(conn),
        ) => ConnectingView::Proxying {
            url: stream_url(
                conn,
                kubelet_name(req.kind),
                req.namespace@,
                req.name@,
                container,
                req.raw_query@,
            ),
        },
        _ => at,
    }
}

/// Takes one answer into account.
pub fn connect_step(req: &ConnectRequest, at: Connecting, reply: ConnectReply) -> (next: Connecting)
    ensures
        next@ == connecting_after(*req, at@, reply),
{
    match at {
        Connecting::Proxying { url } => {
            return Connecting::Proxying { url };
        },
        Connecting::Failed(e) => {
            return Connecting::Failed(e);
        },
        _ => {},
    }
    match (at, reply) {
        (_, ConnectReply::Error(e)) => Connecting::Failed(e),
        (Connecting::Authorizing, ConnectReply::Decided(d)) => match d {
            Decision::Deny(reason) => Connecting::Failed(Error::Forbidden(reason)),
            Decision::Allow => {
                if req.kind == Stream::Logs {
                    Connecting::ReadingPod
                } else {
                    Connecting::Admitting
                }
            },
        },
        (Connecting::Admitting, ConnectReply::Admitted(a)) => match a {
            Admission::Deny(reason) => {
                let mut m: String = "admission webhook denied the request: ".to_owned();
                m.append(reason.as_str());
                Connecting::Failed(Error::Forbidden(m))
            },
            Admission::Allow => Connecting::ReadingPod,
        },
        (Connecting::ReadingPod, ConnectReply::Pod(pod)) => match find_endpoint(
            req.kind,
            &pod,
            req.namespace.as_str(),
            req.name.as_str(),
            copy_text(&req.container),
        ) {
            Ok((node, container)) => Connecting::ReadingNode { node, container },
            Err(e) => Connecting::Failed(e),
        },
        (
            Connecting::ReadingNode { node: _, container },
            ConnectReply::Node(conn),
        ) => Connecting::Proxying {
            url: build_kubelet_stream_url(
                &conn,
                stream_name(req.kind),
                req.namespace.as_str(),
                req.name.as_str(),
                container.as_str(),
                req.raw_query.as_str(),
            ),
        },
        (other, _) => other,
    }
}

/// The ports that the first `n` pieces write. What is no port is passed over.
pub open spec fn ports_in(pieces: Seq<Seq<char>>, n: nat) -> Seq<u16>
    decreases n,
{
    if n == 0 || n > pieces.len() {
        Seq::empty()
    } else {
        let before = ports_in(pieces, (n - 1) as nat);
        match unsigned_value(trimmed(pieces[n - 1]), 0xffff) {
            Some(p) => before.push(p as u16),
            None => before,
        }
    }
}

/// The ports that a query asks to forward.
pub open spec fn ports_of(ports: Option<Seq<char>>) -> Seq<u16> {
    match ports {
        Some(s) => ports_in(split_at_char(s, ','), split_at_char(s, ',').len()),
        None => Seq::empty(),
    }
}

/// The ports to forward; a request without any is refused.
pub fn forward_ports(query: &PortForwardQuery) -> (r: Result<Vec<u16>, Error>)
    ensures
        match r {
            Ok(v) => v@ == ports_of(opt_text(query.ports)) && v@.len() > 0,
            Err(e) => ports_of(opt_text(query.ports)).len() == 0 && e@
                == ErrorView::InvalidResource("No ports specified for port forwarding"@),
        },
{
    let mut ports: Vec<u16> = Vec::new();
    if let Some(s) = &query.ports {
        let pieces: Vec<String> = split(s.as_str(), ',');
        let ghost all = split_at_char(s@, ',');
        let mut i: usize = 0;
        while i < pieces.len()
            invariant
                i <= pieces@.len(),
                texts(pieces@) == all,
                ports@ == ports_in(all, i as nat),
            decreases pieces.len() - i,
        {
            assert(all[i as int] == pieces@[i as int]@);
            if let Some(p) = parse_unsigned(trim(pieces[i].as_str()), 0xffff) {
                ports.push(p as u16);
            }
            i = i + 1;
        }
        assert(ports@ == ports_of(opt_text(query.ports)));
    }
    if ports.len() == 0 {
        Err(Error::InvalidResource("No ports specified for port forwarding".to_owned()))
    } else {
        Ok(ports)
    }
}

/// How a client asks to carry forwarded ports.
#[derive(Clone, Copy, Debug, PartialEq, Eq, Structural)]
pub enum Upgrade {
    Spdy,
    WebSocket,
}

/// The way a port forwarding request is upgraded: SPDY before WebSocket; a
/// request that asks for neither cannot be served.
pub fn forward_upgrade(is_spdy: bool, is_websocket: bool) -> (r: Option<Upgrade>)
    ensures
        r == if is_spdy {
            Some(Upgrade::Spdy)
        } else if is_websocket {
            Some(Upgrade::WebSocket)
        } else {
            None
        },
{
    if is_spdy {
        Some(Upgrade::Spdy)
    } else if is_websocket {
        Some(Upgrade::WebSocket)
    } else {
        None
    }
}

/// How far a port forwarding request has come: what to do next, or the outcome.
pub enum Forwarding {
    /// Ask the authorizer.
    Authorize,
    /// Read the pod.
    ReadPod,
    /// Carry these ports.
    Carry { ports: Vec<u16>, upgrade: Upgrade },
    /// Tell the client that it has to ask for an upgrade.
    AskForUpgrade,
    Failed(Error),
}

/// What came of it.
pub enum ForwardReply {
    Decided(Decision),
    /// The pod is there.
    Found,
    Error(Error),
}

/// What a client that forwards ports asks for.
pub struct ForwardRequest {
    pub query: PortForwardQuery,
    pub is_spdy: bool,
    pub is_websocket: bool,
}

/// Whether `next` follows when `reply` answers what `at` waits for.
pub open spec fn forwards(
    req: ForwardRequest,
    at: Forwarding,
    reply: ForwardReply,
    next: Forwarding,
) -> bool {
    match (at, reply) {
        (Forwarding::Authorize, ForwardReply::Error(e)) => next == Forwarding::Failed(e),
        (Forwarding::Authorize, ForwardReply::Decided(Decision::Deny(reason))) => next
            == Forwarding::Failed(Error::Forbidden(reason)),
        (Forwarding::Authorize, ForwardReply::Decided(Decision::Allow)) => next
            == Forwarding::ReadPod,
        (Forwarding::ReadPod, ForwardReply::Error(e)) => next == Forwarding::Failed(e),
        (Forwarding::ReadPod, ForwardReply::Found) => {
            let wanted = ports_of(opt_text(req.query.ports));
            if wanted.len() == 0 {
                next matches Forwarding::Failed(e) && e@ == ErrorView::InvalidResource(
                    "No ports specified for port forwarding"@,
                )
            } else if req.is_spdy || req.is_websocket {
                next matches Forwarding::Carry { ports, upgrade } && ports@ == wanted && upgrade
                    == (if req.is_spdy {
                    Upgrade::Spdy
                } else {
                    Upgrade::WebSocket
                })
            } else {
                next == Forwarding::AskForUpgrade
            }
        },
        (other, _) => next == other,
    }
}

/// One step of a port forwarding request. Starts at [`Forwarding::Authorize`]; a
/// reply that answers nothing changes nothing.
pub fn forward_step(req: &ForwardRequest, at: Forwarding, reply: ForwardReply) -> (next: Forwarding)
    ensures
        forwards(*req, at, reply, next),
{
    match (at, reply) {
        (Forwarding::Authorize, ForwardReply::Error(e)) => Forwarding::Failed(e),
        (
            Forwarding::Authorize,
            ForwardReply::Decided(Decision::Deny(reason)),
        ) => Forwarding::Failed(Error::Forbidden(reason)),
        (Forwarding::Authorize, ForwardReply::Decided(Decision::Allow)) => Forwarding::ReadPod,
        (Forwarding::ReadPod, ForwardReply::Error(e)) => Forwarding::Failed(e),
        (Forwarding::ReadPod, ForwardReply::Found) => match forward_ports(&req.query) {
            Err(e) => Forwarding::Failed(e),
            Ok(ports) => match forward_upgrade(req.is_spdy, req.is_websocket) {
                Some(upgrade) => Forwarding::Carry { ports, upgrade },
                None => Forwarding::AskForUpgrade,
            },
        },
        (other, _) => other,
    }
}

/// Ports are carried only with permission, and at least one of them.
pub proof fn law_ports_are_carried_with_permission(
    req: ForwardRequest,
    at: Forwarding,
    reply: ForwardReply,
    next: Forwarding,
)
    requires
        forwards(req, at, reply, next),
    ensures
        next is Carry && !(at is Carry) ==> at is ReadPod && next->ports@.len() > 0,
        next is ReadPod && !(at is ReadPod) ==> reply == ForwardReply::Decided(Decision::Allow),
{
}

} // verus!
