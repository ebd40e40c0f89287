//! The resources that are served alike: their names, groups and kinds.
use vstd::prelude::*;
use vstd::string::StringExecFns;
use crate::access::{attributes, opt_str, AttributesView, RequestAttributes};

verus! {

/// A resource.
#[derive(Clone, Copy, Debug, PartialEq, Eq, Structural)]
pub enum Resource {
    Pod,
    Role,
    RoleBinding,
    ClusterRole,
    ClusterRoleBinding,
    ReplicationController,
    ReplicaSet,
    StatefulSet,
    Secret,
    PersistentVolume,
    PersistentVolumeClaim,
    ResourceClaim,
    ResourceSlice,
    ServiceCidr,
    StorageClass,
}

/// The name under which a resource is served.
pub open spec fn plural_of(r: Resource) -> Seq<char> {
    match r {
        Resource::Pod => "pods"@,
        Resource::Role => "roles"@,
        Resource::RoleBinding => "rolebindings"@,
        Resource::ClusterRole => "clusterroles"@,
        Resource::ClusterRoleBinding => "clusterrolebindings"@,
        Resource::ReplicationController => "replicationcontrollers"@,
        Resource::ReplicaSet => "replicasets"@,
        Resource::StatefulSet => "statefulsets"@,
        Resource::Secret => "secrets"@,
        Resource::PersistentVolume => "persistentvolumes"@,
        Resource::PersistentVolumeClaim => "persistentvolumeclaims"@,
        Resource::ResourceClaim => "resourceclaims"@,
        Resource::ResourceSlice => "resourceslices"@,
        Resource::ServiceCidr => "servicecidrs"@,
        Resource::StorageClass => "storageclasses"@,
    }
}

/// The API group of a resource, empty for the core group.
pub open spec fn group_of(r: Resource) -> Seq<char> {
    match r {
        Resource::Role
        | Resource::RoleBinding
        | Resource::ClusterRole
        | Resource::ClusterRoleBinding => "rbac.authorization.k8s.io"@,
        Resource::ReplicaSet | Resource::StatefulSet => "apps"@,
        Resource::ResourceClaim | Resource::ResourceSlice => "resource.k8s.io"@,
        Resource::ServiceCidr => "networking.k8s.io"@,
        Resource::StorageClass => "storage.k8s.io"@,
        _ => ""@,
    }
}

/// The kind of the objects of a resource.
pub open spec fn resource_kind(r: Resource) -> Seq<char> {
    match r {
        Resource::Pod => "Pod"@,
        Resource::Role => "Role"@,
        Resource::RoleBinding => "RoleBinding"@,
        Resource::ClusterRole => "ClusterRole"@,
        Resource::ClusterRoleBinding => "ClusterRoleBinding"@,
        Resource::ReplicationController => "ReplicationController"@,
        Resource::ReplicaSet => "ReplicaSet"@,
        Resource::StatefulSet => "StatefulSet"@,
        Resource::Secret => "Secret"@,
        Resource::PersistentVolume => "PersistentVolume"@,
        Resource::PersistentVolumeClaim => "PersistentVolumeClaim"@,
        Resource::ResourceClaim => "ResourceClaim"@,
        Resource::ResourceSlice => "ResourceSlice"@,
        Resource::ServiceCidr => "ServiceCIDR"@,
        Resource::StorageClass => "StorageClass"@,
    }
}

/// Whether the objects of a resource live in namespaces.
pub open spec fn is_namespaced(r: Resource) -> bool {
    match r {
        Resource::ClusterRole
        | Resource::ClusterRoleBinding
        | Resource::PersistentVolume
        | Resource::ResourceSlice
        | Resource::ServiceCidr
        | Resource::StorageClass => false,
        _ => true,
    }
}

/// The version of a resource, with its group where it has one.
pub open spec fn api_version_of(r: Resource) -> Seq<char> {
    if group_of(r).len() == 0 {
        "v1"@
    } else {
        group_of(r) + "/v1"@
    }
}

impl Resource {
    /// The name under which the resource is served.
    pub fn plural(self) -> (s: &'static str)
        ensures
            s@ == plural_of(self),
    {
        match self {
            Resource::Pod => "pods",
            Resource::Role => "roles",
            Resource::RoleBinding => "rolebindings",
            Resource::ClusterRole => "clusterroles",
            Resource::ClusterRoleBinding => "clusterrolebindings",
            Resource::ReplicationController => "replicationcontrollers",
            Resource::ReplicaSet => "replicasets",
            Resource::StatefulSet => "statefulsets",
            Resource::Secret => "secrets",
            Resource::PersistentVolume => "persistentvolumes",
            Resource::PersistentVolumeClaim => "persistentvolumeclaims",
            Resource::ResourceClaim => "resourceclaims",
            Resource::ResourceSlice => "resourceslices",
            Resource::ServiceCidr => "servicecidrs",
            Resource::StorageClass => "storageclasses",
        }
    }

    /// The API group of the resource, empty for the core group.
    pub fn group(self) -> (s: &'static str)
        ensures
            s@ == group_of(self),
    {
        match self {
            Resource::Role
            | Resource::RoleBinding
            | Resource::ClusterRole
            | Resource::ClusterRoleBinding => "rbac.authorization.k8s.io",
            Resource::ReplicaSet | Resource::StatefulSet => "apps",
            Resource::ResourceClaim | Resource::ResourceSlice => "resource.k8s.io",
            Resource::ServiceCidr => "networking.k8s.io",
            Resource::StorageClass => "storage.k8s.io",
            _ => "",
        }
    }

    /// The kind of the objects of the resource.
    pub fn kind(self) -> (s: &'static str)
        ensures
            s@ == resource_kind(self),
    {
        match self {
            Resource::Pod => "Pod",
            Resource::Role => "Role",
            Resource::RoleBinding => "RoleBinding",
            Resource::ClusterRole => "ClusterRole",
            Resource::ClusterRoleBinding => "ClusterRoleBinding",
            Resource::ReplicationController => "ReplicationController",
            Resource::ReplicaSet => "ReplicaSet",
            Resource::StatefulSet => "StatefulSet",
            Resource::Secret => "Secret",
            Resource::PersistentVolume => "PersistentVolume",
            Resource::PersistentVolumeClaim => "PersistentVolumeClaim",
            Resource::ResourceClaim => "ResourceClaim",
            Resource::ResourceSlice => "ResourceSlice",
            Resource::ServiceCidr => "ServiceCIDR",
            Resource::StorageClass => "StorageClass",
        }
    }

    /// Whether the objects of the resource live in namespaces.
    pub fn namespaced(self) -> (r: bool)
        ensures
            r == is_namespaced(self),
    {
        match self {
            Resource::ClusterRole
            | Resource::ClusterRoleBinding
            | Resource::PersistentVolume
            | Resource::ResourceSlice
            | Resource::ServiceCidr
            | Resource::StorageClass => false,
            _ => true,
        }
    }

    /// Whether watches of the resource read their flags in the lenient way of query
    /// parameters.
    pub fn has_lenient_flags(self) -> (r: bool)
        ensures
            r == ({
                ||| self is Secret
                ||| self is ReplicaSet
                ||| self is ResourceClaim
                ||| self is ResourceSlice
            }),
    {
        match self {
            Resource::Secret
            | Resource::ReplicaSet
            | Resource::ResourceClaim
            | Resource::ResourceSlice => true,
            _ => false,
        }
    }

    /// Whether a stored object gets the defaults of its type before an update is
    /// compared with it.
    pub fn is_defaulted_when_read(self) -> (r: bool)
        ensures
            r == ({
                ||| self is StatefulSet
                ||| self is PersistentVolumeClaim
            }),
    {
        match self {
            Resource::StatefulSet
            | Resource::PersistentVolumeClaim => true,
            _ => false,
        }
    }

    /// Whether lists of the resource can be shown as tables.
    pub fn has_table(self) -> (r: bool)
        ensures
            r == ({
                ||| self is Pod
                ||| self is ReplicaSet
                ||| self is ReplicationController
            }),
    {
        match self {
            Resource::Pod
            | Resource::ReplicaSet
            | Resource::ReplicationController => true,
            _ => false,
        }
    }

    /// Whether watches of the resource pass objects on as they are stored.
    pub fn is_watched_raw(self) -> (r: bool)
        ensures
            r == ({
                ||| self is ResourceClaim
                ||| self is ResourceSlice
            }),
    {
        match self {
            Resource::ResourceClaim
            | Resource::ResourceSlice => true,
            _ => false,
        }
    }

    /// Whether the deletion of a collection passes over an object that another request
    /// removed in the meantime.
    pub fn passes_over_lost(self) -> (r: bool)
        ensures
            r == ({
                ||| self is StatefulSet
                ||| self is PersistentVolume
                ||| self is PersistentVolumeClaim
                ||| self is ResourceClaim
                ||| self is ResourceSlice
                ||| self is ServiceCidr
            }),
    {
        match self {
            Resource::StatefulSet
            | Resource::PersistentVolume
            | Resource::PersistentVolumeClaim
            | Resource::ResourceClaim
            | Resource::ResourceSlice
            | Resource::ServiceCidr => true,
            _ => false,
        }
    }

    /// The version of the resource, with its group where it has one.
    pub fn api_version(self) -> (s: String)
        ensures
            s@ == api_version_of(self),
    {
        let core: bool = crate::text::same(self.group(), "");
        proof {
            reveal_strlit("");
            if group_of(self).len() == 0 {
                assert(group_of(self) =~= ""@);
            }
        }
        if core {
            "v1".to_owned()
        } else {
            let mut s: String = self.group().to_owned();
            s.append("/v1");
            s
        }
    }

    /// The kind of a list of the resource's objects.
    pub fn list_kind(self) -> (s: String)
        ensures
            s@ == resource_kind(self) + "List"@,
    {
        let mut s: String = self.kind().to_owned();
        s.append("List");
        s
    }

    /// The attributes of a request on the resource.
    pub fn request_attributes(self, verb: &str, namespace: Option<&str>, name: Option<&str>) -> (r:
        RequestAttributes)
        ensures
            r@ == (AttributesView {
                verb: verb@,
                resource: plural_of(self),
                api_group: group_of(self),
                namespace: opt_str(namespace),
                name: opt_str(name),
                subresource: None,
            }),
    {
        attributes(verb, self.plural(), self.group(), namespace, name, None)
    }
}

/// What a new object is refused with where one of its name is there already.
pub open spec fn exists_message(r: Resource, name: Seq<char>) -> Seq<char> {
    plural_of(r) + " \""@ + name + "\" already exists"@
}

/// Says that an object of this name is there already.
pub fn already_exists_message(r: Resource, name: &str) -> (m: String)
    ensures
        m@ == exists_message(r, name@),
{
    let mut m: String = r.plural().to_owned();
    m.append(" \"");
    m.append(name);
    m.append("\" already exists");
    m
}

} // verus!
