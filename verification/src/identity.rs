//! What the server gives an object: an identifier and a time of creation.
use vstd::prelude::*;
use crate::access::opt_str;
use crate::eviction::{disruption_booked, record_disruption, BudgetStatus, EvictionReply};
use crate::model::{ObjectMeta, ObjectMetaView, Pod};
use crate::pod_delete::DeleteReply;

verus! {

/// Whether `c` is a hexadecimal digit in lower case.
pub open spec fn is_hex_digit(c: char) -> bool {
    '0' <= c <= '9' || 'a' <= c <= 'f'
}

/// Whether a text is a random UUID in its usual form: lower case digits in
/// groups of 8, 4, 4, 4 and 12, the third starting with the version, the fourth
/// with the variant.
pub open spec fn is_random_uuid(s: Seq<char>) -> bool {
    &&& s.len() == 36
    &&& forall|i: int|
        0 <= i < 36 ==> if i == 8 || i == 13 || i == 18 || i == 23 {
            #[trigger] s[i] == '-'
        } else {
            is_hex_digit(s[i])
        }
    &&& s[14] == '4'
    &&& s[19] == '8' || s[19] == '9' || s[19] == 'a' || s[19] == 'b'
}

/// Calls `uuid::Uuid::new_v4` and its `to_string`: a random UUID, as text with
/// hyphens. Which one is up to chance. It panics where the system gives no
/// randomness.
#[verifier::external_body]
fn fresh_uid() -> (r: String)
    ensures
        is_random_uuid(r@),
{
    uuid::Uuid::new_v4().to_string()
}

/// Whether all the characters are decimal digits.
pub open spec fn all_digits(s: Seq<char>) -> bool {
    forall|i: int| 0 <= i < s.len() ==> '0' <= #[trigger] s[i] <= '9'
}

/// The number that the two digits at `i` write, if it is one from `least` to
/// `most`.
pub open spec fn two_digits(s: Seq<char>, i: int, least: int, most: int) -> bool {
    &&& '0' <= s[i] <= '9'
    &&& '0' <= s[i + 1] <= '9'
    &&& least <= 10 * (s[i] as int - '0' as int) + (s[i + 1] as int - '0' as int) <= most
}

/// Whether a text is a year: four digits, or a plus sign and more than four.
pub open spec fn is_year(s: Seq<char>) -> bool {
    if s.len() == 4 {
        all_digits(s)
    } else {
        s.len() > 5 && s[0] == '+' && all_digits(s.skip(1))
    }
}

/// Whether a text is the rest of a date and a time of day, such as
/// `-02-28T23:59:59`.
pub open spec fn is_day_and_time(s: Seq<char>) -> bool {
    &&& s.len() == 15
    &&& s[0] == '-' && two_digits(s, 1, 1, 12)
    &&& s[3] == '-' && two_digits(s, 4, 1, 31)
    &&& s[6] == 'T' && two_digits(s, 7, 0, 23)
    &&& s[9] == ':' && two_digits(s, 10, 0, 59)
    &&& s[12] == ':' && two_digits(s, 13, 0, 60)
}

/// Whether a text is a part of a second: nothing, or a point and three, six or
/// nine digits.
pub open spec fn is_second_part(s: Seq<char>) -> bool {
    s.len() == 0 || (s[0] == '.' && all_digits(s.skip(1)) && (s.len() == 4 || s.len() == 7 || s.len()
        == 10))
}

/// Whether a text is a time in UTC, in the form of RFC 3339 with a final `Z`.
pub open spec fn is_utc_time(s: Seq<char>) -> bool {
    exists|year: Seq<char>, rest: Seq<char>, part: Seq<char>|
        #![trigger year + rest + part]
        s == year + rest + part + seq!['Z'] && is_year(year) && is_day_and_time(rest)
            && is_second_part(part)
}

/// Calls `chrono::Utc::now`, and `to_rfc3339_opts` for its text: a time in UTC
/// with as many digits of the second as it needs. Which time it is, is up to the
/// clock. It panics where the clock stands before the Unix epoch.
#[verifier::external_body]
fn current_time() -> (r: String)
    ensures
        is_utc_time(r@),
{
    chrono::Utc::now().to_rfc3339_opts(chrono::SecondsFormat::AutoSi, true)
}

/// Metadata once the server has completed it: in the namespace of the request,
/// with an identifier and a time of creation where it had none.
pub open spec fn identified(
    m: ObjectMetaView,
    namespace: Option<Seq<char>>,
    uid: Seq<char>,
    now: Seq<char>,
) -> ObjectMetaView {
    ObjectMetaView {
        namespace: match namespace {
            Some(n) => Some(n),
            None => m.namespace,
        },
        uid: if m.uid.len() == 0 {
            uid
        } else {
            m.uid
        },
        creation_timestamp: match m.creation_timestamp {
            Some(t) => Some(t),
            None => Some(now),
        },
        ..m
    }
}

/// Completes metadata with this identifier and this time.
pub fn identify_with(meta: ObjectMeta, namespace: Option<&str>, uid: String, now: String) -> (r:
    ObjectMeta)
    ensures
        r@ == identified(meta@, opt_str(namespace), uid@, now@),
{
    let mut out: ObjectMeta = meta;
    if let Some(n) = namespace {
        out.namespace = Some(n.to_owned());
    }
    let empty: bool = crate::text::same(out.uid.as_str(), "");
    proof {
        reveal_strlit("");
        if meta.uid@.len() == 0 {
            assert(meta.uid@ =~= ""@);
        }
    }
    if empty {
        out.uid = uid;
    }
    if out.creation_timestamp.is_none() {
        out.creation_timestamp = Some(now);
    }
    out
}

/// Completes the metadata of a new object. `namespace` is that of the request,
/// where it has one.
pub fn identify(meta: ObjectMeta, namespace: Option<&str>) -> (r: ObjectMeta)
    ensures
        exists|uid: Seq<char>, now: Seq<char>|
            is_random_uuid(uid) && is_utc_time(now) && r@ == #[trigger] identified(
                meta@,
                opt_str(namespace),
                uid,
                now,
            ),
{
    let uid: String = fresh_uid();
    let now: String = current_time();
    let ghost u = uid@;
    let ghost t = now@;
    let r: ObjectMeta = identify_with(meta, namespace, uid, now);
    assert(r@ == identified(meta@, opt_str(namespace), u, t));
    r
}

/// Completed metadata has an identifier and a time of creation, and completing
/// it again changes neither.
pub proof fn law_identity_is_kept(
    m: ObjectMetaView,
    namespace: Option<Seq<char>>,
    uid: Seq<char>,
    now: Seq<char>,
    other: Seq<char>,
    later: Seq<char>,
)
    requires
        is_random_uuid(uid),
    ensures
        identified(m, namespace, uid, now).uid.len() > 0,
        identified(m, namespace, uid, now).creation_timestamp is Some,
        identified(identified(m, namespace, uid, now), namespace, other, later) == identified(
            m,
            namespace,
            uid,
            now,
        ),
{
}

/// A time in UTC is a text of at least twenty characters that ends in `Z`.
pub proof fn law_time_has_its_form(s: Seq<char>)
    requires
        is_utc_time(s),
    ensures
        s.len() >= 20,
        s.last() == 'Z',
{
    let (year, rest, part) = choose|year: Seq<char>, rest: Seq<char>, part: Seq<char>|
        #![trigger year + rest + part]
        s == year + rest + part + seq!['Z'] && is_year(year) && is_day_and_time(rest)
            && is_second_part(part);
    assert(s.len() == year.len() + rest.len() + part.len() + 1);
}

/// A pod that was read in order to delete it, with the time at which that was.
pub fn read_for_deletion(pod: Pod) -> (r: DeleteReply)
    ensures
        r matches DeleteReply::Pod(p, now) && p == pod && is_utc_time(now@),
{
    DeleteReply::Pod(pod, current_time())
}

/// A pod that was read in order to evict it, with the time at which that was.
pub fn read_for_eviction(pod: Pod) -> (r: EvictionReply)
    ensures
        r matches EvictionReply::Pod(p, now) && p == pod && is_utc_time(now@),
{
    EvictionReply::Pod(pod, current_time())
}

/// Books the disruption of a pod at the present time.
pub fn record_disruption_now(status: Option<BudgetStatus>, pod_name: &str, allowed: i64) -> (r:
    BudgetStatus)
    requires
        allowed > i64::MIN,
    ensures
        exists|now: Seq<char>|
            is_utc_time(now) && #[trigger] disruption_booked(status, pod_name@, now, allowed, r),
{
    let now: String = current_time();
    let ghost t = now@;
    let r: BudgetStatus = record_disruption(status, pod_name, now, allowed);
    assert(disruption_booked(status, pod_name@, t, allowed, r));
    r
}

} // verus!
