//! Volumes, claims and storage classes: their defaults, and who refuses a claim.
use vstd::prelude::*;
use vstd::string::StringExecFns;
use crate::error::{Error, ErrorView};

verus! {

/// The mode of the files in a volume where the client names none: read and
/// write for the owner, read for the others.
pub const DEFAULT_VOLUME_FILE_MODE: i32 = 0o644;

/// Where the files of a volume come from, and with which mode.
pub struct FileSource {
    pub default_mode: Option<i32>,
}

/// A volume of a pod, as far as its files have a mode.
pub struct Volume {
    pub secret: Option<FileSource>,
    pub config_map: Option<FileSource>,
    pub downward_api: Option<FileSource>,
    pub projected: Option<FileSource>,
}

/// A source of files whose mode is filled in where it was missing.
pub open spec fn with_mode(source: Option<FileSource>) -> Option<FileSource> {
    match source {
        Some(s) => Some(
            FileSource {
                default_mode: if s.default_mode is None {
                    Some(DEFAULT_VOLUME_FILE_MODE)
                } else {
                    s.default_mode
                },
            },
        ),
        None => None,
    }
}

/// A volume whose modes are filled in where they were missing.
pub open spec fn with_modes(v: Volume) -> Volume {
    Volume {
        secret: with_mode(v.secret),
        config_map: with_mode(v.config_map),
        downward_api: with_mode(v.downward_api),
        projected: with_mode(v.projected),
    }
}

fn fill_mode(source: Option<FileSource>) -> (r: Option<FileSource>)
    ensures
        r == with_mode(source),
{
    match source {
        Some(s) => Some(
            FileSource {
                default_mode: match s.default_mode {
                    Some(m) => Some(m),
                    None => Some(DEFAULT_VOLUME_FILE_MODE),
                },
            },
        ),
        None => None,
    }
}

/// Fills in the mode of the files of each volume. A mode that is given stays,
/// zero too.
pub fn apply_volume_mode_defaults(volumes: Option<Vec<Volume>>) -> (r: Option<Vec<Volume>>)
    ensures
        match volumes {
            Some(v) => r matches Some(w) && w@ == v@.map_values(|x: Volume| with_modes(x)),
            None => r is None,
        },
{
    match volumes {
        None => None,
        Some(v) => {
            let mut out: Vec<Volume> = Vec::new();
            for x in it: v
                invariant
                    out@.len() == it.index(),
                    it.seq() == v@,
                    forall|i: int| 0 <= i < it.index() ==> #[trigger] out@[i] == with_modes(v@[i]),
            {
                out.push(
                    Volume {
                        secret: fill_mode(x.secret),
                        config_map: fill_mode(x.config_map),
                        downward_api: fill_mode(x.downward_api),
                        projected: fill_mode(x.projected),
                    },
                );
            }
            assert(out@ =~= v@.map_values(|x: Volume| with_modes(x)));
            Some(out)
        },
    }
}

/// Filling in modes a second time changes nothing, and a mode that is given
/// stays.
pub proof fn law_modes_settle(v: Volume)
    ensures
        with_modes(with_modes(v)) == with_modes(v),
        v.secret matches Some(s) && s.default_mode is Some ==> with_modes(v).secret == v.secret,
        v.config_map matches Some(s) && s.default_mode is Some ==> with_modes(v).config_map
            == v.config_map,
        v.downward_api matches Some(s) && s.default_mode is Some ==> with_modes(v).downward_api
            == v.downward_api,
        v.projected matches Some(s) && s.default_mode is Some ==> with_modes(v).projected
            == v.projected,
{
}

/// What becomes of a volume that its claim has released.
#[derive(Clone, Copy, Debug, PartialEq, Eq, Structural)]
pub enum ReclaimPolicy {
    Retain,
    Recycle,
    Delete,
}

/// How a volume is used.
#[derive(Clone, Copy, Debug, PartialEq, Eq, Structural)]
pub enum VolumeMode {
    Filesystem,
    Block,
}

/// When a volume is bound.
#[derive(Clone, Copy, Debug, PartialEq, Eq, Structural)]
pub enum BindingMode {
    Immediate,
    WaitForFirstConsumer,
}

/// Where a volume stands.
#[derive(Clone, Copy, Debug, PartialEq, Eq, Structural)]
pub enum VolumePhase {
    Pending,
    Available,
    Bound,
    Released,
    Failed,
}

/// A persistent volume, as far as it has defaults. Of its status only the phase
/// is held.
#[derive(Clone, Copy, Debug, PartialEq, Eq, Structural)]
pub struct PersistentVolume {
    pub phase: Option<VolumePhase>,
    pub reclaim_policy: Option<ReclaimPolicy>,
    pub volume_mode: Option<VolumeMode>,
}

/// The value, or this one where there is none.
pub open spec fn or_default<T>(v: Option<T>, default: T) -> Option<T> {
    match v {
        Some(x) => Some(x),
        None => Some(default),
    }
}

/// Fills in the defaults of a persistent volume: it is pending, its data are
/// kept, and it holds files.
pub fn apply_pv_defaults(pv: PersistentVolume) -> (r: PersistentVolume)
    ensures
        r.phase == or_default(pv.phase, VolumePhase::Pending),
        r.reclaim_policy == or_default(pv.reclaim_policy, ReclaimPolicy::Retain),
        r.volume_mode == or_default(pv.volume_mode, VolumeMode::Filesystem),
{
    PersistentVolume {
        phase: match pv.phase {
            Some(x) => Some(x),
            None => Some(VolumePhase::Pending),
        },
        reclaim_policy: match pv.reclaim_policy {
            Some(x) => Some(x),
            None => Some(ReclaimPolicy::Retain),
        },
        volume_mode: match pv.volume_mode {
            Some(x) => Some(x),
            None => Some(VolumeMode::Filesystem),
        },
    }
}

/// A storage class, as far as it has defaults.
#[derive(Clone, Copy, Debug, PartialEq, Eq, Structural)]
pub struct StorageClass {
    pub reclaim_policy: Option<ReclaimPolicy>,
    pub volume_binding_mode: Option<BindingMode>,
}

/// Fills in the defaults of a storage class: data are deleted, and volumes are
/// bound at once.
pub fn apply_storageclass_defaults(sc: StorageClass) -> (r: StorageClass)
    ensures
        r.reclaim_policy == or_default(sc.reclaim_policy, ReclaimPolicy::Delete),
        r.volume_binding_mode == or_default(sc.volume_binding_mode, BindingMode::Immediate),
{
    StorageClass {
        reclaim_policy: match sc.reclaim_policy {
            Some(x) => Some(x),
            None => Some(ReclaimPolicy::Delete),
        },
        volume_binding_mode: match sc.volume_binding_mode {
            Some(x) => Some(x),
            None => Some(BindingMode::Immediate),
        },
    }
}

/// What a claim outside the limits of its namespace is refused with.
pub open spec fn limit_message(namespace: Seq<char>, name: Seq<char>) -> Seq<char> {
    "PVC "@ + namespace + "/"@ + name + " violates a LimitRange constraint"@
}

/// Decides on a claim once the limits of its namespace were looked at. `within`
/// is nothing where they could not be read: then they do not hold the claim up.
pub fn check_claim_limits(within: Option<bool>, namespace: &str, name: &str) -> (r: Result<(), Error>)
    ensures
        r is Err <==> within == Some(false),
        r matches Err(e) ==> e@ == ErrorView::Forbidden(limit_message(namespace@, name@)),
{
    match within {
        Some(false) => {
            let mut m: String = "PVC ".to_owned();
            m.append(namespace);
            m.append("/");
            m.append(name);
            m.append(" violates a LimitRange constraint");
            Err(Error::Forbidden(m))
        },
        _ => Ok(()),
    }
}

} // verus!
