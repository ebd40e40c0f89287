//! The kind and API version behind a resource's plural name.
use vstd::prelude::*;
use vstd::string::StrSliceExecFns;
use vstd::string::StringExecFns;
use crate::text::same;

verus! {

/// The kind of a built-in resource.
pub open spec fn known_kind(resource_type: Seq<char>) -> Option<Seq<char>> {
    if resource_type == "pods"@ {
        Some("Pod"@)
    } else if resource_type == "services"@ {
        Some("Service"@)
    } else if resource_type == "deployments"@ {
        Some("Deployment"@)
    } else if resource_type == "replicasets"@ {
        Some("ReplicaSet"@)
    } else if resource_type == "statefulsets"@ {
        Some("StatefulSet"@)
    } else if resource_type == "daemonsets"@ {
        Some("DaemonSet"@)
    } else if resource_type == "jobs"@ {
        Some("Job"@)
    } else if resource_type == "cronjobs"@ {
        Some("CronJob"@)
    } else if resource_type == "configmaps"@ {
        Some("ConfigMap"@)
    } else if resource_type == "secrets"@ {
        Some("Secret"@)
    } else if resource_type == "serviceaccounts"@ {
        Some("ServiceAccount"@)
    } else if resource_type == "namespaces"@ {
        Some("Namespace"@)
    } else if resource_type == "nodes"@ {
        Some("Node"@)
    } else if resource_type == "persistentvolumes"@ {
        Some("PersistentVolume"@)
    } else if resource_type == "persistentvolumeclaims"@ {
        Some("PersistentVolumeClaim"@)
    } else if resource_type == "endpoints"@ {
        Some("Endpoints"@)
    } else if resource_type == "endpointslices"@ {
        Some("EndpointSlice"@)
    } else if resource_type == "events"@ {
        Some("Event"@)
    } else if resource_type == "ingresses"@ {
        Some("Ingress"@)
    } else if resource_type == "networkpolicies"@ {
        Some("NetworkPolicy"@)
    } else if resource_type == "leases"@ {
        Some("Lease"@)
    } else if resource_type == "clusterroles"@ {
        Some("ClusterRole"@)
    } else if resource_type == "clusterrolebindings"@ {
        Some("ClusterRoleBinding"@)
    } else if resource_type == "roles"@ {
        Some("Role"@)
    } else if resource_type == "rolebindings"@ {
        Some("RoleBinding"@)
    } else if resource_type == "storageclasses"@ {
        Some("StorageClass"@)
    } else if resource_type == "customresourcedefinitions"@ {
        Some("CustomResourceDefinition"@)
    } else if resource_type == "poddisruptionbudgets"@ {
        Some("PodDisruptionBudget"@)
    } else if resource_type == "ipaddresses"@ {
        Some("IPAddress"@)
    } else if resource_type == "limitranges"@ {
        Some("LimitRange"@)
    } else if resource_type == "resourcequotas"@ {
        Some("ResourceQuota"@)
    } else if resource_type == "runtimeclasses"@ {
        Some("RuntimeClass"@)
    } else if resource_type == "ingressclasses"@ {
        Some("IngressClass"@)
    } else if resource_type == "priorityclasses"@ {
        Some("PriorityClass"@)
    } else if resource_type == "validatingwebhookconfigurations"@ {
        Some("ValidatingWebhookConfiguration"@)
    } else if resource_type == "mutatingwebhookconfigurations"@ {
        Some("MutatingWebhookConfiguration"@)
    } else if resource_type == "validatingadmissionpolicies"@ {
        Some("ValidatingAdmissionPolicy"@)
    } else if resource_type == "validatingadmissionpolicybindings"@ {
        Some("ValidatingAdmissionPolicyBinding"@)
    } else if resource_type == "certificatesigningrequests"@ {
        Some("CertificateSigningRequest"@)
    } else if resource_type == "flowschemas"@ {
        Some("FlowSchema"@)
    } else if resource_type == "prioritylevelconfigurations"@ {
        Some("PriorityLevelConfiguration"@)
    } else if resource_type == "servicecidrs"@ {
        Some("ServiceCIDR"@)
    } else if resource_type == "replicationcontrollers"@ {
        Some("ReplicationController"@)
    } else if resource_type == "horizontalpodautoscalers"@ {
        Some("HorizontalPodAutoscaler"@)
    } else if resource_type == "controllerrevisions"@ {
        Some("ControllerRevision"@)
    } else if resource_type == "csistoragecapacities"@ {
        Some("CSIStorageCapacity"@)
    } else if resource_type == "csidrivers"@ {
        Some("CSIDriver"@)
    } else if resource_type == "csinodes"@ {
        Some("CSINode"@)
    } else if resource_type == "apiservices"@ {
        Some("APIService"@)
    } else if resource_type == "podtemplates"@ {
        Some("PodTemplate"@)
    } else if resource_type == "volumeattachments"@ {
        Some("VolumeAttachment"@)
    } else if resource_type == "volumeattributesclasses"@ {
        Some("VolumeAttributesClass"@)
    } else if resource_type == "resourceslices"@ {
        Some("ResourceSlice"@)
    } else if resource_type == "resourceclaims"@ {
        Some("ResourceClaim"@)
    } else if resource_type == "resourceclaimtemplates"@ {
        Some("ResourceClaimTemplate"@)
    } else if resource_type == "deviceclasses"@ {
        Some("DeviceClass"@)
    } else {
        None
    }
}

/// `s` without one `s` at its end.
pub open spec fn singular(s: Seq<char>) -> Seq<char> {
    if s.len() > 0 && s.last() == 's' {
        s.drop_last()
    } else {
        s
    }
}

/// The upper case of an ASCII letter; any other ASCII character itself.
pub open spec fn ascii_upper(c: char) -> char {
    if 'a' <= c && c <= 'z' {
        (c as u32 - 32) as char
    } else {
        c
    }
}

/// A guess at the kind of a resource that is not built in: the singular with
/// its first letter in upper case.
pub open spec fn guessed_kind(resource_type: Seq<char>) -> Seq<char> {
    let s = singular(resource_type);
    seq![ascii_upper(s[0])] + s.skip(1)
}

/// The kind of a resource.
pub open spec fn kind_of(resource_type: Seq<char>) -> Seq<char> {
    match known_kind(resource_type) {
        Some(kind) => kind,
        None => guessed_kind(resource_type),
    }
}

/// Version 1 of an API group; the core group has no name.
pub open spec fn group_version(api_group: Seq<char>) -> Seq<char> {
    if api_group.len() == 0 {
        "v1"@
    } else {
        api_group + "/v1"@
    }
}

/// Whether a kind can be found: the resource is built in, or its singular
/// starts with an ASCII character.
pub open spec fn has_kind(resource_type: Seq<char>) -> bool {
    known_kind(resource_type) is Some || (singular(resource_type).len() > 0 && singular(
        resource_type,
    )[0] as u32 <= 0x7f)
}

/// The kind of a built-in resource.
fn find_kind(resource_type: &str) -> (r: Option<&'static str>)
    ensures
        match r {
            Some(kind) => known_kind(resource_type@) == Some(kind@),
            None => known_kind(resource_type@) is None,
        },
{
    if same(resource_type, "pods") {
        Some("Pod")
    } else if same(resource_type, "services") {
        Some("Service")
    } else if same(resource_type, "deployments") {
        Some("Deployment")
    } else if same(resource_type, "replicasets") {
        Some("ReplicaSet")
    } else if same(resource_type, "statefulsets") {
        Some("StatefulSet")
    } else if same(resource_type, "daemonsets") {
        Some("DaemonSet")
    } else if same(resource_type, "jobs") {
        Some("Job")
    } else if same(resource_type, "cronjobs") {
        Some("CronJob")
    } else if same(resource_type, "configmaps") {
        Some("ConfigMap")
    } else if same(resource_type, "secrets") {
        Some("Secret")
    } else if same(resource_type, "serviceaccounts") {
        Some("ServiceAccount")
    } else if same(resource_type, "namespaces") {
        Some("Namespace")
    } else if same(resource_type, "nodes") {
        Some("Node")
    } else if same(resource_type, "persistentvolumes") {
        Some("PersistentVolume")
    } else if same(resource_type, "persistentvolumeclaims") {
        Some("PersistentVolumeClaim")
    } else if same(resource_type, "endpoints") {
        Some("Endpoints")
    } else if same(resource_type, "endpointslices") {
        Some("EndpointSlice")
    } else if same(resource_type, "events") {
        Some("Event")
    } else if same(resource_type, "ingresses") {
        Some("Ingress")
    } else if same(resource_type, "networkpolicies") {
        Some("NetworkPolicy")
    } else if same(resource_type, "leases") {
        Some("Lease")
    } else if same(resource_type, "clusterroles") {
        Some("ClusterRole")
    } else if same(resource_type, "clusterrolebindings") {
        Some("ClusterRoleBinding")
    } else if same(resource_type, "roles") {
        Some("Role")
    } else if same(resource_type, "rolebindings") {
        Some("RoleBinding")
    } else if same(resource_type, "storageclasses") {
        Some("StorageClass")
    } else if same(resource_type, "customresourcedefinitions") {
        Some("CustomResourceDefinition")
    } else if same(resource_type, "poddisruptionbudgets") {
        Some("PodDisruptionBudget")
    } else if same(resource_type, "ipaddresses") {
        Some("IPAddress")
    } else if same(resource_type, "limitranges") {
        Some("LimitRange")
    } else if same(resource_type, "resourcequotas") {
        Some("ResourceQuota")
    } else if same(resource_type, "runtimeclasses") {
        Some("RuntimeClass")
    } else if same(resource_type, "ingressclasses") {
        Some("IngressClass")
    } else if same(resource_type, "priorityclasses") {
        Some("PriorityClass")
    } else if same(resource_type, "validatingwebhookconfigurations") {
        Some("ValidatingWebhookConfiguration")
    } else if same(resource_type, "mutatingwebhookconfigurations") {
        Some("MutatingWebhookConfiguration")
    } else if same(resource_type, "validatingadmissionpolicies") {
        Some("ValidatingAdmissionPolicy")
    } else if same(resource_type, "validatingadmissionpolicybindings") {
        Some("ValidatingAdmissionPolicyBinding")
    } else if same(resource_type, "certificatesigningrequests") {
        Some("CertificateSigningRequest")
    } else if same(resource_type, "flowschemas") {
        Some("FlowSchema")
    } else if same(resource_type, "prioritylevelconfigurations") {
        Some("PriorityLevelConfiguration")
    } else if same(resource_type, "servicecidrs") {
        Some("ServiceCIDR")
    } else if same(resource_type, "replicationcontrollers") {
        Some("ReplicationController")
    } else if same(resource_type, "horizontalpodautoscalers") {
        Some("HorizontalPodAutoscaler")
    } else if same(resource_type, "controllerrevisions") {
        Some("ControllerRevision")
    } else if same(resource_type, "csistoragecapacities") {
        Some("CSIStorageCapacity")
    } else if same(resource_type, "csidrivers") {
        Some("CSIDriver")
    } else if same(resource_type, "csinodes") {
        Some("CSINode")
    } else if same(resource_type, "apiservices") {
        Some("APIService")
    } else if same(resource_type, "podtemplates") {
        Some("PodTemplate")
    } else if same(resource_type, "volumeattachments") {
        Some("VolumeAttachment")
    } else if same(resource_type, "volumeattributesclasses") {
        Some("VolumeAttributesClass")
    } else if same(resource_type, "resourceslices") {
        Some("ResourceSlice")
    } else if same(resource_type, "resourceclaims") {
        Some("ResourceClaim")
    } else if same(resource_type, "resourceclaimtemplates") {
        Some("ResourceClaimTemplate")
    } else if same(resource_type, "deviceclasses") {
        Some("DeviceClass")
    } else {
        None
    }
}

/// The kind and API version of the objects of a resource.
pub fn resource_type_to_kind_and_version(resource_type: &str, api_group: &str) -> (r: (
    String,
    String,
))
    requires
        has_kind(resource_type@),
    ensures
        r.0@ == kind_of(resource_type@),
        r.1@ == group_version(api_group@),
{
    let kind: String = match find_kind(resource_type) {
        Some(known) => known.to_owned(),
        None => {
            let n: usize = resource_type.unicode_len();
            let end: usize = if resource_type.get_char(n - 1) == 's' {
                n - 1
            } else {
                n
            };
            assert(resource_type@.subrange(0, end as int) =~= singular(resource_type@));
            let base: &str = resource_type.substring_char(0, end);
            let first: char = base.get_char(0);
            let upper: char = if 'a' <= first && first <= 'z' {
                ((first as u8) - 32) as char
            } else {
                first
            };
            assert(base@.subrange(1, end as int) =~= base@.skip(1));
            let mut guess: String = String::new();
            guess.push(upper);
            guess.append(base.substring_char(1, end));
            assert(guess@ =~= guessed_kind(resource_type@));
            guess
        },
    };
    let version: String = if api_group.is_empty() {
        "v1".to_owned()
    } else {
        let mut v: String = api_group.to_owned();
        v.append("/v1");
        v
    };
    (kind, version)
}

} // verus!
