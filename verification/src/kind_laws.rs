//! How the names of kinds and resources go together.
use vstd::prelude::*;
use crate::kinds::{ascii_upper, group_version, kind_of, known_kind};
use crate::resources::{
    api_version_of, group_of, is_namespaced, plural_of, resource_kind, Resource,
};
use crate::watch_routes::WatchRoute;
use crate::watch_stream::WatchScope;

verus! {

/// The lower case of an ASCII letter; any other character itself.
pub open spec fn small(c: char) -> char {
    if 'A' <= c && c <= 'Z' {
        (c as u32 + 32) as char
    } else {
        c
    }
}

/// A text in lower case.
pub open spec fn in_small(s: Seq<char>) -> Seq<char> {
    Seq::new(s.len(), |i: int| small(s[i]))
}

/// Whether a name is a plural of a kind in lower case: with `s`, with `es`,
/// with `ies` for `y`, or the kind itself where that is a plural.
pub open spec fn is_plural(kind: Seq<char>, plural: Seq<char>) -> bool {
    ||| plural == in_small(kind) + seq!['s']
    ||| plural == in_small(kind) + seq!['e', 's']
    ||| (kind.len() > 0 && kind.last() == 'y' && plural == in_small(kind.drop_last()) + seq![
        'i',
        'e',
        's',
    ])
    ||| (kind.len() > 0 && kind.last() == 's' && plural == in_small(kind))
}

proof fn lemma_plurals_0()
    ensures
        is_plural("Pod"@, "pods"@),
        is_plural("Service"@, "services"@),
        is_plural("Deployment"@, "deployments"@),
        is_plural("ReplicaSet"@, "replicasets"@),
        is_plural("StatefulSet"@, "statefulsets"@),
        is_plural("DaemonSet"@, "daemonsets"@),
{
    reveal_strlit("Pod");
    reveal_strlit("pods");
    assert("pods"@ =~= in_small("Pod"@) + seq!['s']);
    reveal_strlit("Service");
    reveal_strlit("services");
    assert("services"@ =~= in_small("Service"@) + seq!['s']);
    reveal_strlit("Deployment");
    reveal_strlit("deployments");
    assert("deployments"@ =~= in_small("Deployment"@) + seq!['s']);
    reveal_strlit("ReplicaSet");
    reveal_strlit("replicasets");
    assert("replicasets"@ =~= in_small("ReplicaSet"@) + seq!['s']);
    reveal_strlit("StatefulSet");
    reveal_strlit("statefulsets");
    assert("statefulsets"@ =~= in_small("StatefulSet"@) + seq!['s']);
    reveal_strlit("DaemonSet");
    reveal_strlit("daemonsets");
    assert("daemonsets"@ =~= in_small("DaemonSet"@) + seq!['s']);
}

proof fn lemma_plurals_1()
    ensures
        is_plural("Job"@, "jobs"@),
        is_plural("CronJob"@, "cronjobs"@),
        is_plural("ConfigMap"@, "configmaps"@),
        is_plural("Secret"@, "secrets"@),
        is_plural("ServiceAccount"@, "serviceaccounts"@),
        is_plural("Namespace"@, "namespaces"@),
{
    reveal_strlit("Job");
    reveal_strlit("jobs");
    assert("jobs"@ =~= in_small("Job"@) + seq!['s']);
    reveal_strlit("CronJob");
    reveal_strlit("cronjobs");
    assert("cronjobs"@ =~= in_small("CronJob"@) + seq!['s']);
    reveal_strlit("ConfigMap");
    reveal_strlit("configmaps");
    assert("configmaps"@ =~= in_small("ConfigMap"@) + seq!['s']);
    reveal_strlit("Secret");
    reveal_strlit("secrets");
    assert("secrets"@ =~= in_small("Secret"@) + seq!['s']);
    reveal_strlit("ServiceAccount");
    reveal_strlit("serviceaccounts");
    assert("serviceaccounts"@ =~= in_small("ServiceAccount"@) + seq!['s']);
    reveal_strlit("Namespace");
    reveal_strlit("namespaces");
    assert("namespaces"@ =~= in_small("Namespace"@) + seq!['s']);
}

proof fn lemma_plurals_2()
    ensures
        is_plural("Node"@, "nodes"@),
        is_plural("PersistentVolume"@, "persistentvolumes"@),
        is_plural("PersistentVolumeClaim"@, "persistentvolumeclaims"@),
        is_plural("Endpoints"@, "endpoints"@),
        is_plural("EndpointSlice"@, "endpointslices"@),
        is_plural("Event"@, "events"@),
{
    reveal_strlit("Node");
    reveal_strlit("nodes");
    assert("nodes"@ =~= in_small("Node"@) + seq!['s']);
    reveal_strlit("PersistentVolume");
    reveal_strlit("persistentvolumes");
    assert("persistentvolumes"@ =~= in_small("PersistentVolume"@) + seq!['s']);
    reveal_strlit("PersistentVolumeClaim");
    reveal_strlit("persistentvolumeclaims");
    assert("persistentvolumeclaims"@ =~= in_small("PersistentVolumeClaim"@) + seq!['s']);
    reveal_strlit("Endpoints");
    reveal_strlit("endpoints");
    assert("endpoints"@ =~= in_small("Endpoints"@));
    reveal_strlit("EndpointSlice");
    reveal_strlit("endpointslices");
    assert("endpointslices"@ =~= in_small("EndpointSlice"@) + seq!['s']);
    reveal_strlit("Event");
    reveal_strlit("events");
    assert("events"@ =~= in_small("Event"@) + seq!['s']);
}

proof fn lemma_plurals_3()
    ensures
        is_plural("Ingress"@, "ingresses"@),
        is_plural("NetworkPolicy"@, "networkpolicies"@),
        is_plural("Lease"@, "leases"@),
        is_plural("ClusterRole"@, "clusterroles"@),
        is_plural("ClusterRoleBinding"@, "clusterrolebindings"@),
        is_plural("Role"@, "roles"@),
{
    reveal_strlit("Ingress");
    reveal_strlit("ingresses");
    assert("ingresses"@ =~= in_small("Ingress"@) + seq!['e', 's']);
    reveal_strlit("NetworkPolicy");
    reveal_strlit("networkpolicies");
    assert("networkpolicies"@ =~= in_small("NetworkPolicy"@.drop_last()) + seq!['i', 'e', 's']);
    reveal_strlit("Lease");
    reveal_strlit("leases");
    assert("leases"@ =~= in_small("Lease"@) + seq!['s']);
    reveal_strlit("ClusterRole");
    reveal_strlit("clusterroles");
    assert("clusterroles"@ =~= in_small("ClusterRole"@) + seq!['s']);
    reveal_strlit("ClusterRoleBinding");
    reveal_strlit("clusterrolebindings");
    assert("clusterrolebindings"@ =~= in_small("ClusterRoleBinding"@) + seq!['s']);
    reveal_strlit("Role");
    reveal_strlit("roles");
    assert("roles"@ =~= in_small("Role"@) + seq!['s']);
}

proof fn lemma_plurals_4()
    ensures
        is_plural("RoleBinding"@, "rolebindings"@),
        is_plural("StorageClass"@, "storageclasses"@),
        is_plural("CustomResourceDefinition"@, "customresourcedefinitions"@),
        is_plural("PodDisruptionBudget"@, "poddisruptionbudgets"@),
        is_plural("IPAddress"@, "ipaddresses"@),
        is_plural("LimitRange"@, "limitranges"@),
{
    reveal_strlit("RoleBinding");
    reveal_strlit("rolebindings");
    assert("rolebindings"@ =~= in_small("RoleBinding"@) + seq!['s']);
    reveal_strlit("StorageClass");
    reveal_strlit("storageclasses");
    assert("storageclasses"@ =~= in_small("StorageClass"@) + seq!['e', 's']);
    reveal_strlit("CustomResourceDefinition");
    reveal_strlit("customresourcedefinitions");
    assert("customresourcedefinitions"@ =~= in_small("CustomResourceDefinition"@) + seq!['s']);
    reveal_strlit("PodDisruptionBudget");
    reveal_strlit("poddisruptionbudgets");
    assert("poddisruptionbudgets"@ =~= in_small("PodDisruptionBudget"@) + seq!['s']);
    reveal_strlit("IPAddress");
    reveal_strlit("ipaddresses");
    assert("ipaddresses"@ =~= in_small("IPAddress"@) + seq!['e', 's']);
    reveal_strlit("LimitRange");
    reveal_strlit("limitranges");
    assert("limitranges"@ =~= in_small("LimitRange"@) + seq!['s']);
}

proof fn lemma_plurals_5()
    ensures
        is_plural("ResourceQuota"@, "resourcequotas"@),
        is_plural("RuntimeClass"@, "runtimeclasses"@),
        is_plural("IngressClass"@, "ingressclasses"@),
        is_plural("PriorityClass"@, "priorityclasses"@),
        is_plural("ValidatingWebhookConfiguration"@, "validatingwebhookconfigurations"@),
        is_plural("MutatingWebhookConfiguration"@, "mutatingwebhookconfigurations"@),
{
    reveal_strlit("ResourceQuota");
    reveal_strlit("resourcequotas");
    assert("resourcequotas"@ =~= in_small("ResourceQuota"@) + seq!['s']);
    reveal_strlit("RuntimeClass");
    reveal_strlit("runtimeclasses");
    assert("runtimeclasses"@ =~= in_small("RuntimeClass"@) + seq!['e', 's']);
    reveal_strlit("IngressClass");
    reveal_strlit("ingressclasses");
    assert("ingressclasses"@ =~= in_small("IngressClass"@) + seq!['e', 's']);
    reveal_strlit("PriorityClass");
    reveal_strlit("priorityclasses");
    assert("priorityclasses"@ =~= in_small("PriorityClass"@) + seq!['e', 's']);
    reveal_strlit("ValidatingWebhookConfiguration");
    reveal_strlit("validatingwebhookconfigurations");
    assert("validatingwebhookconfigurations"@ =~= in_small("ValidatingWebhookConfiguration"@) + seq!['s']);
    reveal_strlit("MutatingWebhookConfiguration");
    reveal_strlit("mutatingwebhookconfigurations");
    assert("mutatingwebhookconfigurations"@ =~= in_small("MutatingWebhookConfiguration"@) + seq!['s']);
}

proof fn lemma_plurals_6()
    ensures
        is_plural("ValidatingAdmissionPolicy"@, "validatingadmissionpolicies"@),
        is_plural("ValidatingAdmissionPolicyBinding"@, "validatingadmissionpolicybindings"@),
        is_plural("CertificateSigningRequest"@, "certificatesigningrequests"@),
        is_plural("FlowSchema"@, "flowschemas"@),
        is_plural("PriorityLevelConfiguration"@, "prioritylevelconfigurations"@),
        is_plural("ServiceCIDR"@, "servicecidrs"@),
{
    reveal_strlit("ValidatingAdmissionPolicy");
    reveal_strlit("validatingadmissionpolicies");
    assert("validatingadmissionpolicies"@ =~= in_small("ValidatingAdmissionPolicy"@.drop_last()) + seq!['i', 'e', 's']);
    reveal_strlit("ValidatingAdmissionPolicyBinding");
    reveal_strlit("validatingadmissionpolicybindings");
    assert("validatingadmissionpolicybindings"@ =~= in_small("ValidatingAdmissionPolicyBinding"@) + seq!['s']);
    reveal_strlit("CertificateSigningRequest");
    reveal_strlit("certificatesigningrequests");
    assert("certificatesigningrequests"@ =~= in_small("CertificateSigningRequest"@) + seq!['s']);
    reveal_strlit("FlowSchema");
    reveal_strlit("flowschemas");
    assert("flowschemas"@ =~= in_small("FlowSchema"@) + seq!['s']);
    reveal_strlit("PriorityLevelConfiguration");
    reveal_strlit("prioritylevelconfigurations");
    assert("prioritylevelconfigurations"@ =~= in_small("PriorityLevelConfiguration"@) + seq!['s']);
    reveal_strlit("ServiceCIDR");
    reveal_strlit("servicecidrs");
    assert("servicecidrs"@ =~= in_small("ServiceCIDR"@) + seq!['s']);
}

proof fn lemma_plurals_7()
    ensures
        is_plural("ReplicationController"@, "replicationcontrollers"@),
        is_plural("HorizontalPodAutoscaler"@, "horizontalpodautoscalers"@),
        is_plural("ControllerRevision"@, "controllerrevisions"@),
        is_plural("CSIStorageCapacity"@, "csistoragecapacities"@),
        is_plural("CSIDriver"@, "csidrivers"@),
        is_plural("CSINode"@, "csinodes"@),
{
    reveal_strlit("ReplicationController");
    reveal_strlit("replicationcontrollers");
    assert("replicationcontrollers"@ =~= in_small("ReplicationController"@) + seq!['s']);
    reveal_strlit("HorizontalPodAutoscaler");
    reveal_strlit("horizontalpodautoscalers");
    assert("horizontalpodautoscalers"@ =~= in_small("HorizontalPodAutoscaler"@) + seq!['s']);
    reveal_strlit("ControllerRevision");
    reveal_strlit("controllerrevisions");
    assert("controllerrevisions"@ =~= in_small("ControllerRevision"@) + seq!['s']);
    reveal_strlit("CSIStorageCapacity");
    reveal_strlit("csistoragecapacities");
    assert("csistoragecapacities"@ =~= in_small("CSIStorageCapacity"@.drop_last()) + seq!['i', 'e', 's']);
    reveal_strlit("CSIDriver");
    reveal_strlit("csidrivers");
    assert("csidrivers"@ =~= in_small("CSIDriver"@) + seq!['s']);
    reveal_strlit("CSINode");
    reveal_strlit("csinodes");
    assert("csinodes"@ =~= in_small("CSINode"@) + seq!['s']);
}

proof fn lemma_plurals_8()
    ensures
        is_plural("APIService"@, "apiservices"@),
        is_plural("PodTemplate"@, "podtemplates"@),
        is_plural("VolumeAttachment"@, "volumeattachments"@),
        is_plural("VolumeAttributesClass"@, "volumeattributesclasses"@),
        is_plural("ResourceSlice"@, "resourceslices"@),
        is_plural("ResourceClaim"@, "resourceclaims"@),
{
    reveal_strlit("APIService");
    reveal_strlit("apiservices");
    assert("apiservices"@ =~= in_small("APIService"@) + seq!['s']);
    reveal_strlit("PodTemplate");
    reveal_strlit("podtemplates");
    assert("podtemplates"@ =~= in_small("PodTemplate"@) + seq!['s']);
    reveal_strlit("VolumeAttachment");
    reveal_strlit("volumeattachments");
    assert("volumeattachments"@ =~= in_small("VolumeAttachment"@) + seq!['s']);
    reveal_strlit("VolumeAttributesClass");
    reveal_strlit("volumeattributesclasses");
    assert("volumeattributesclasses"@ =~= in_small("VolumeAttributesClass"@) + seq!['e', 's']);
    reveal_strlit("ResourceSlice");
    reveal_strlit("resourceslices");
    assert("resourceslices"@ =~= in_small("ResourceSlice"@) + seq!['s']);
    reveal_strlit("ResourceClaim");
    reveal_strlit("resourceclaims");
    assert("resourceclaims"@ =~= in_small("ResourceClaim"@) + seq!['s']);
}

proof fn lemma_plurals_9()
    ensures
        is_plural("ResourceClaimTemplate"@, "resourceclaimtemplates"@),
        is_plural("DeviceClass"@, "deviceclasses"@),
{
    reveal_strlit("ResourceClaimTemplate");
    reveal_strlit("resourceclaimtemplates");
    assert("resourceclaimtemplates"@ =~= in_small("ResourceClaimTemplate"@) + seq!['s']);
    reveal_strlit("DeviceClass");
    reveal_strlit("deviceclasses");
    assert("deviceclasses"@ =~= in_small("DeviceClass"@) + seq!['e', 's']);
}

/// Every built-in kind is served under its plural in lower case.
pub proof fn law_kinds_are_served_under_their_plural(resource_type: Seq<char>)
    ensures
        known_kind(resource_type) is Some ==> is_plural(
            known_kind(resource_type)->0,
            resource_type,
        ) && kind_of(resource_type) == known_kind(resource_type)->0,
{
    lemma_plurals_0();
    lemma_plurals_1();
    lemma_plurals_2();
    lemma_plurals_3();
    lemma_plurals_4();
    lemma_plurals_5();
    lemma_plurals_6();
    lemma_plurals_7();
    lemma_plurals_8();
    lemma_plurals_9();
}

/// The kind of a resource that is not built in is its name without the `s` of
/// the plural and with a capital.
pub proof fn law_other_kinds_are_guessed(c: char, rest: Seq<char>)
    requires
        known_kind(seq![c] + rest + seq!['s']) is None,
    ensures
        kind_of(seq![c] + rest + seq!['s']) == seq![ascii_upper(c)] + rest,
        'a' <= c <= 'z' ==> small(ascii_upper(c)) == c && 'A' <= ascii_upper(c) <= 'Z',
{
    let s = seq![c] + rest + seq!['s'];
    assert(s.last() == 's');
    assert(s.drop_last() =~= seq![c] + rest);
    assert(s.drop_last()[0] == c);
    assert(s.drop_last().skip(1) =~= rest);
}

/// The version of a resource is `v1`, in its group where it has one.
pub proof fn law_versions_are_of_the_group(r: Resource, group: Seq<char>)
    ensures
        group.len() == 0 ==> group_version(group) == "v1"@,
        group.len() > 0 ==> group_version(group) == group + "/v1"@,
        api_version_of(r) == group_version(group_of(r)),
{
}

/// A resource is served under the plural of its kind.
pub proof fn law_resources_are_named_by_their_kind(r: Resource)
    ensures
        is_plural(resource_kind(r), plural_of(r)),
{
    lemma_plurals_0();
    lemma_plurals_1();
    lemma_plurals_2();
    lemma_plurals_3();
    lemma_plurals_4();
    lemma_plurals_5();
    lemma_plurals_6();
    lemma_plurals_7();
    lemma_plurals_8();
    lemma_plurals_9();
}

/// The kind that a route watches.
pub open spec fn watched_kind(route: WatchRoute) -> Seq<char> {
    match route {
        WatchRoute::Pod => "Pod"@,
        WatchRoute::Service => "Service"@,
        WatchRoute::Deployment => "Deployment"@,
        WatchRoute::ConfigMap => "ConfigMap"@,
        WatchRoute::Secret => "Secret"@,
        WatchRoute::Node => "Node"@,
        WatchRoute::Namespace => "Namespace"@,
        WatchRoute::Endpoints => "Endpoints"@,
        WatchRoute::EndpointSlice => "EndpointSlice"@,
        WatchRoute::StatefulSet => "StatefulSet"@,
        WatchRoute::ReplicaSet => "ReplicaSet"@,
        WatchRoute::DaemonSet => "DaemonSet"@,
        WatchRoute::Job => "Job"@,
        WatchRoute::CronJob => "CronJob"@,
        WatchRoute::Event => "Event"@,
        WatchRoute::ServiceAccount => "ServiceAccount"@,
        WatchRoute::PersistentVolume => "PersistentVolume"@,
        WatchRoute::PersistentVolumeClaim => "PersistentVolumeClaim"@,
        WatchRoute::RuntimeClass => "RuntimeClass"@,
        WatchRoute::ResourceQuota => "ResourceQuota"@,
        WatchRoute::ResourceQuotaEverywhere => "ResourceQuota"@,
        WatchRoute::ServiceCIDR => "ServiceCIDR"@,
        WatchRoute::IPAddress => "IPAddress"@,
        WatchRoute::CustomResourceDefinition => "CustomResourceDefinition"@,
        WatchRoute::ValidatingWebhookConfiguration => "ValidatingWebhookConfiguration"@,
        WatchRoute::MutatingWebhookConfiguration => "MutatingWebhookConfiguration"@,
        WatchRoute::ValidatingAdmissionPolicy => "ValidatingAdmissionPolicy"@,
        WatchRoute::ValidatingAdmissionPolicyBinding => "ValidatingAdmissionPolicyBinding"@,
        WatchRoute::PodDisruptionBudget => "PodDisruptionBudget"@,
        WatchRoute::PodDisruptionBudgetEverywhere => "PodDisruptionBudget"@,
        WatchRoute::LimitRange => "LimitRange"@,
        WatchRoute::ReplicationController => "ReplicationController"@,
        WatchRoute::PriorityClass => "PriorityClass"@,
        WatchRoute::StorageClass => "StorageClass"@,
        WatchRoute::HorizontalPodAutoscaler => "HorizontalPodAutoscaler"@,
        WatchRoute::ClusterRole => "ClusterRole"@,
        WatchRoute::ClusterRoleBinding => "ClusterRoleBinding"@,
        WatchRoute::Role => "Role"@,
        WatchRoute::RoleBinding => "RoleBinding"@,
        WatchRoute::Lease => "Lease"@,
        WatchRoute::Ingress => "Ingress"@,
        WatchRoute::NetworkPolicy => "NetworkPolicy"@,
        WatchRoute::CertificateSigningRequest => "CertificateSigningRequest"@,
        WatchRoute::FlowSchema => "FlowSchema"@,
        WatchRoute::PriorityLevelConfiguration => "PriorityLevelConfiguration"@,
        WatchRoute::PodTemplate => "PodTemplate"@,
        WatchRoute::ControllerRevision => "ControllerRevision"@,
    }
}

/// A route watches the resource that is served under the plural of its kind.
pub proof fn law_routes_watch_their_kind(route: WatchRoute)
    ensures
        is_plural(watched_kind(route), route.plural_name()),
{
    lemma_plurals_0();
    lemma_plurals_1();
    lemma_plurals_2();
    lemma_plurals_3();
    lemma_plurals_4();
    lemma_plurals_5();
    lemma_plurals_6();
    lemma_plurals_7();
    lemma_plurals_8();
    lemma_plurals_9();
}

/// The routes of each API group: workloads, jobs, networks, policies, roles and
/// the rest, each in the group that defines it; the core group has no name.
pub proof fn law_groups_of_routes(route: WatchRoute)
    ensures
        route is Pod || route is Service || route is ConfigMap || route is Secret || route is Node
            || route is Namespace || route is Endpoints || route is Event
            || route is ServiceAccount || route is PersistentVolume
            || route is PersistentVolumeClaim || route is ResourceQuota
            || route is ResourceQuotaEverywhere || route is LimitRange
            || route is ReplicationController
            || route is PodTemplate ==> route.group_name().len() == 0,
        route is Deployment || route is StatefulSet || route is ReplicaSet || route is DaemonSet
            || route is ControllerRevision ==> route.group_name() == "apps"@,
        route is EndpointSlice ==> route.group_name() == "discovery.k8s.io"@,
        route is Job || route is CronJob ==> route.group_name() == "batch"@,
        route is RuntimeClass ==> route.group_name() == "node.k8s.io"@,
        route is ServiceCIDR || route is IPAddress || route is Ingress
            || route is NetworkPolicy ==> route.group_name() == "networking.k8s.io"@,
        route is CustomResourceDefinition ==> route.group_name() == "apiextensions.k8s.io"@,
        route is ValidatingWebhookConfiguration || route is MutatingWebhookConfiguration
            || route is ValidatingAdmissionPolicy
            || route is ValidatingAdmissionPolicyBinding ==> route.group_name() == "admissionregistration.k8s.io"@,
        route is PodDisruptionBudget
            || route is PodDisruptionBudgetEverywhere ==> route.group_name() == "policy"@,
        route is PriorityClass ==> route.group_name() == "scheduling.k8s.io"@,
        route is StorageClass ==> route.group_name() == "storage.k8s.io"@,
        route is HorizontalPodAutoscaler ==> route.group_name() == "autoscaling"@,
        route is ClusterRole || route is ClusterRoleBinding || route is Role
            || route is RoleBinding ==> route.group_name() == "rbac.authorization.k8s.io"@,
        route is Lease ==> route.group_name() == "coordination.k8s.io"@,
        route is CertificateSigningRequest ==> route.group_name() == "certificates.k8s.io"@,
        route is FlowSchema
            || route is PriorityLevelConfiguration ==> route.group_name() == "flowcontrol.apiserver.k8s.io"@,
{
    reveal_strlit("");
}

/// Nodes, namespaces, volumes, classes, definitions, webhooks, policies, roles
/// of the cluster and what flows by priority are watched in the cluster, as are
/// quotas and budgets of all namespaces; all else in a namespace.
pub proof fn law_scopes_of_routes(route: WatchRoute)
    ensures
        route.watched_scope() == WatchScope::Cluster <==> route is Node || route is Namespace
            || route is PersistentVolume || route is RuntimeClass
            || route is ResourceQuotaEverywhere || route is ServiceCIDR || route is IPAddress
            || route is CustomResourceDefinition || route is ValidatingWebhookConfiguration
            || route is MutatingWebhookConfiguration || route is ValidatingAdmissionPolicy
            || route is ValidatingAdmissionPolicyBinding || route is PodDisruptionBudgetEverywhere
            || route is PriorityClass || route is StorageClass || route is ClusterRole
            || route is ClusterRoleBinding || route is CertificateSigningRequest
            || route is FlowSchema || route is PriorityLevelConfiguration,
{
}

/// The resources of each API group.
pub proof fn law_groups_of_resources(r: Resource)
    ensures
        r is Role || r is RoleBinding || r is ClusterRole || r is ClusterRoleBinding ==> group_of(r)
            == "rbac.authorization.k8s.io"@,
        r is ReplicaSet || r is StatefulSet ==> group_of(r) == "apps"@,
        r is ResourceClaim || r is ResourceSlice ==> group_of(r) == "resource.k8s.io"@,
        r is ServiceCidr ==> group_of(r) == "networking.k8s.io"@,
        r is StorageClass ==> group_of(r) == "storage.k8s.io"@,
        r is Pod || r is Secret || r is ReplicationController || r is PersistentVolume || r
            is PersistentVolumeClaim ==> group_of(r).len() == 0,
{
    reveal_strlit("");
}

/// A resource that has a route is served in the group of the route, and lives
/// in namespaces if and only if the route watches one.
pub proof fn law_resources_and_routes_agree(r: Resource, route: WatchRoute)
    requires
        (r is Pod && route is Pod) || (r is Role && route is Role)
            || (r is RoleBinding && route is RoleBinding)
            || (r is ClusterRole && route is ClusterRole)
            || (r is ClusterRoleBinding && route is ClusterRoleBinding)
            || (r is ReplicationController && route is ReplicationController)
            || (r is ReplicaSet && route is ReplicaSet)
            || (r is StatefulSet && route is StatefulSet) || (r is Secret && route is Secret)
            || (r is PersistentVolume && route is PersistentVolume)
            || (r is PersistentVolumeClaim && route is PersistentVolumeClaim)
            || (r is StorageClass && route is StorageClass)
            || (r is ServiceCidr && route is ServiceCIDR),
    ensures
        group_of(r) == route.group_name(),
        plural_of(r) == route.plural_name(),
        is_namespaced(r) <==> route.watched_scope() == WatchScope::Namespaced,
{
}

} // verus!
