//! The resources that have a watch of their own, and what each is watched as.
use vstd::prelude::*;
use crate::kinds::{has_kind, known_kind};
use crate::watch_stream::WatchScope;

verus! {

/// A resource with a watch of its own.
#[derive(Clone, Copy, Debug, PartialEq, Eq, Structural)]
pub enum WatchRoute {
    Pod,
    Service,
    Deployment,
    ConfigMap,
    Secret,
    Node,
    Namespace,
    Endpoints,
    EndpointSlice,
    StatefulSet,
    ReplicaSet,
    DaemonSet,
    Job,
    CronJob,
    Event,
    ServiceAccount,
    PersistentVolume,
    PersistentVolumeClaim,
    RuntimeClass,
    ResourceQuota,
    /// [`WatchRoute::ResourceQuota`] of all namespaces.
    ResourceQuotaEverywhere,
    ServiceCIDR,
    IPAddress,
    CustomResourceDefinition,
    ValidatingWebhookConfiguration,
    MutatingWebhookConfiguration,
    ValidatingAdmissionPolicy,
    ValidatingAdmissionPolicyBinding,
    PodDisruptionBudget,
    /// [`WatchRoute::PodDisruptionBudget`] of all namespaces.
    PodDisruptionBudgetEverywhere,
    LimitRange,
    ReplicationController,
    PriorityClass,
    StorageClass,
    HorizontalPodAutoscaler,
    ClusterRole,
    ClusterRoleBinding,
    Role,
    RoleBinding,
    Lease,
    Ingress,
    NetworkPolicy,
    CertificateSigningRequest,
    FlowSchema,
    PriorityLevelConfiguration,
    PodTemplate,
    ControllerRevision,
}

impl WatchRoute {
    /// The plural name of the resource.
    pub open spec fn plural_name(self) -> Seq<char> {
        match self {
            WatchRoute::Pod => "pods"@,
            WatchRoute::Service => "services"@,
            WatchRoute::Deployment => "deployments"@,
            WatchRoute::ConfigMap => "configmaps"@,
            WatchRoute::Secret => "secrets"@,
            WatchRoute::Node => "nodes"@,
            WatchRoute::Namespace => "namespaces"@,
            WatchRoute::Endpoints => "endpoints"@,
            WatchRoute::EndpointSlice => "endpointslices"@,
            WatchRoute::StatefulSet => "statefulsets"@,
            WatchRoute::ReplicaSet => "replicasets"@,
            WatchRoute::DaemonSet => "daemonsets"@,
            WatchRoute::Job => "jobs"@,
            WatchRoute::CronJob => "cronjobs"@,
            WatchRoute::Event => "events"@,
            WatchRoute::ServiceAccount => "serviceaccounts"@,
            WatchRoute::PersistentVolume => "persistentvolumes"@,
            WatchRoute::PersistentVolumeClaim => "persistentvolumeclaims"@,
            WatchRoute::RuntimeClass => "runtimeclasses"@,
            WatchRoute::ResourceQuota | WatchRoute::ResourceQuotaEverywhere => "resourcequotas"@,
            WatchRoute::ServiceCIDR => "servicecidrs"@,
            WatchRoute::IPAddress => "ipaddresses"@,
            WatchRoute::CustomResourceDefinition => "customresourcedefinitions"@,
            WatchRoute::ValidatingWebhookConfiguration => "validatingwebhookconfigurations"@,
            WatchRoute::MutatingWebhookConfiguration => "mutatingwebhookconfigurations"@,
            WatchRoute::ValidatingAdmissionPolicy => "validatingadmissionpolicies"@,
            WatchRoute::ValidatingAdmissionPolicyBinding => "validatingadmissionpolicybindings"@,
            WatchRoute::PodDisruptionBudget
            | WatchRoute::PodDisruptionBudgetEverywhere => "poddisruptionbudgets"@,
            WatchRoute::LimitRange => "limitranges"@,
            WatchRoute::ReplicationController => "replicationcontrollers"@,
            WatchRoute::PriorityClass => "priorityclasses"@,
            WatchRoute::StorageClass => "storageclasses"@,
            WatchRoute::HorizontalPodAutoscaler => "horizontalpodautoscalers"@,
            WatchRoute::ClusterRole => "clusterroles"@,
            WatchRoute::ClusterRoleBinding => "clusterrolebindings"@,
            WatchRoute::Role => "roles"@,
            WatchRoute::RoleBinding => "rolebindings"@,
            WatchRoute::Lease => "leases"@,
            WatchRoute::Ingress => "ingresses"@,
            WatchRoute::NetworkPolicy => "networkpolicies"@,
            WatchRoute::CertificateSigningRequest => "certificatesigningrequests"@,
            WatchRoute::FlowSchema => "flowschemas"@,
            WatchRoute::PriorityLevelConfiguration => "prioritylevelconfigurations"@,
            WatchRoute::PodTemplate => "podtemplates"@,
            WatchRoute::ControllerRevision => "controllerrevisions"@,
        }
    }

    /// The API group of the resource.
    pub open spec fn group_name(self) -> Seq<char> {
        match self {
            WatchRoute::Deployment
            | WatchRoute::StatefulSet
            | WatchRoute::ReplicaSet
            | WatchRoute::DaemonSet
            | WatchRoute::ControllerRevision => "apps"@,
            WatchRoute::EndpointSlice => "discovery.k8s.io"@,
            WatchRoute::Job | WatchRoute::CronJob => "batch"@,
            WatchRoute::RuntimeClass => "node.k8s.io"@,
            WatchRoute::ServiceCIDR
            | WatchRoute::IPAddress
            | WatchRoute::Ingress
            | WatchRoute::NetworkPolicy => "networking.k8s.io"@,
            WatchRoute::CustomResourceDefinition => "apiextensions.k8s.io"@,
            WatchRoute::ValidatingWebhookConfiguration
            | WatchRoute::MutatingWebhookConfiguration
            | WatchRoute::ValidatingAdmissionPolicy
            | WatchRoute::ValidatingAdmissionPolicyBinding => "admissionregistration.k8s.io"@,
            WatchRoute::PodDisruptionBudget
            | WatchRoute::PodDisruptionBudgetEverywhere => "policy"@,
            WatchRoute::PriorityClass => "scheduling.k8s.io"@,
            WatchRoute::StorageClass => "storage.k8s.io"@,
            WatchRoute::HorizontalPodAutoscaler => "autoscaling"@,
            WatchRoute::ClusterRole
            | WatchRoute::ClusterRoleBinding
            | WatchRoute::Role
            | WatchRoute::RoleBinding => "rbac.authorization.k8s.io"@,
            WatchRoute::Lease => "coordination.k8s.io"@,
            WatchRoute::CertificateSigningRequest => "certificates.k8s.io"@,
            WatchRoute::FlowSchema
            | WatchRoute::PriorityLevelConfiguration => "flowcontrol.apiserver.k8s.io"@,
            _ => ""@,
        }
    }

    /// Whether one namespace is watched or the whole cluster.
    pub open spec fn watched_scope(self) -> WatchScope {
        match self {
            WatchRoute::Node
            | WatchRoute::Namespace
            | WatchRoute::PersistentVolume
            | WatchRoute::RuntimeClass
            | WatchRoute::ResourceQuotaEverywhere
            | WatchRoute::ServiceCIDR
            | WatchRoute::IPAddress
            | WatchRoute::CustomResourceDefinition
            | WatchRoute::ValidatingWebhookConfiguration
            | WatchRoute::MutatingWebhookConfiguration
            | WatchRoute::ValidatingAdmissionPolicy
            | WatchRoute::ValidatingAdmissionPolicyBinding
            | WatchRoute::PodDisruptionBudgetEverywhere
            | WatchRoute::PriorityClass
            | WatchRoute::StorageClass
            | WatchRoute::ClusterRole
            | WatchRoute::ClusterRoleBinding
            | WatchRoute::CertificateSigningRequest
            | WatchRoute::FlowSchema
            | WatchRoute::PriorityLevelConfiguration => WatchScope::Cluster,
            _ => WatchScope::Namespaced,
        }
    }

    /// The plural name of the resource.
    pub fn resource_type(self) -> (r: &'static str)
        ensures
            r@ == self.plural_name(),
            has_kind(r@),
    {
        proof {
            law_routes_have_a_known_kind(self);
        }
        match self {
            WatchRoute::Pod => "pods",
            WatchRoute::Service => "services",
            WatchRoute::Deployment => "deployments",
            WatchRoute::ConfigMap => "configmaps",
            WatchRoute::Secret => "secrets",
            WatchRoute::Node => "nodes",
            WatchRoute::Namespace => "namespaces",
            WatchRoute::Endpoints => "endpoints",
            WatchRoute::EndpointSlice => "endpointslices",
            WatchRoute::StatefulSet => "statefulsets",
            WatchRoute::ReplicaSet => "replicasets",
            WatchRoute::DaemonSet => "daemonsets",
            WatchRoute::Job => "jobs",
            WatchRoute::CronJob => "cronjobs",
            WatchRoute::Event => "events",
            WatchRoute::ServiceAccount => "serviceaccounts",
            WatchRoute::PersistentVolume => "persistentvolumes",
            WatchRoute::PersistentVolumeClaim => "persistentvolumeclaims",
            WatchRoute::RuntimeClass => "runtimeclasses",
            WatchRoute::ResourceQuota | WatchRoute::ResourceQuotaEverywhere => "resourcequotas",
            WatchRoute::ServiceCIDR => "servicecidrs",
            WatchRoute::IPAddress => "ipaddresses",
            WatchRoute::CustomResourceDefinition => "customresourcedefinitions",
            WatchRoute::ValidatingWebhookConfiguration => "validatingwebhookconfigurations",
            WatchRoute::MutatingWebhookConfiguration => "mutatingwebhookconfigurations",
            WatchRoute::ValidatingAdmissionPolicy => "validatingadmissionpolicies",
            WatchRoute::ValidatingAdmissionPolicyBinding => "validatingadmissionpolicybindings",
            WatchRoute::PodDisruptionBudget
            | WatchRoute::PodDisruptionBudgetEverywhere => "poddisruptionbudgets",
            WatchRoute::LimitRange => "limitranges",
            WatchRoute::ReplicationController => "replicationcontrollers",
            WatchRoute::PriorityClass => "priorityclasses",
            WatchRoute::StorageClass => "storageclasses",
            WatchRoute::HorizontalPodAutoscaler => "horizontalpodautoscalers",
            WatchRoute::ClusterRole => "clusterroles",
            WatchRoute::ClusterRoleBinding => "clusterrolebindings",
            WatchRoute::Role => "roles",
            WatchRoute::RoleBinding => "rolebindings",
            WatchRoute::Lease => "leases",
            WatchRoute::Ingress => "ingresses",
            WatchRoute::NetworkPolicy => "networkpolicies",
            WatchRoute::CertificateSigningRequest => "certificatesigningrequests",
            WatchRoute::FlowSchema => "flowschemas",
            WatchRoute::PriorityLevelConfiguration => "prioritylevelconfigurations",
            WatchRoute::PodTemplate => "podtemplates",
            WatchRoute::ControllerRevision => "controllerrevisions",
        }
    }

    /// The API group of the resource.
    pub fn api_group(self) -> (r: &'static str)
        ensures
            r@ == self.group_name(),
    {
        match self {
            WatchRoute::Deployment
            | WatchRoute::StatefulSet
            | WatchRoute::ReplicaSet
            | WatchRoute::DaemonSet
            | WatchRoute::ControllerRevision => "apps",
            WatchRoute::EndpointSlice => "discovery.k8s.io",
            WatchRoute::Job | WatchRoute::CronJob => "batch",
            WatchRoute::RuntimeClass => "node.k8s.io",
            WatchRoute::ServiceCIDR
            | WatchRoute::IPAddress
            | WatchRoute::Ingress
            | WatchRoute::NetworkPolicy => "networking.k8s.io",
            WatchRoute::CustomResourceDefinition => "apiextensions.k8s.io",
            WatchRoute::ValidatingWebhookConfiguration
            | WatchRoute::MutatingWebhookConfiguration
            | WatchRoute::ValidatingAdmissionPolicy
            | WatchRoute::ValidatingAdmissionPolicyBinding => "admissionregistration.k8s.io",
            WatchRoute::PodDisruptionBudget | WatchRoute::PodDisruptionBudgetEverywhere => "policy",
            WatchRoute::PriorityClass => "scheduling.k8s.io",
            WatchRoute::StorageClass => "storage.k8s.io",
            WatchRoute::HorizontalPodAutoscaler => "autoscaling",
            WatchRoute::ClusterRole
            | WatchRoute::ClusterRoleBinding
            | WatchRoute::Role
            | WatchRoute::RoleBinding => "rbac.authorization.k8s.io",
            WatchRoute::Lease => "coordination.k8s.io",
            WatchRoute::CertificateSigningRequest => "certificates.k8s.io",
            WatchRoute::FlowSchema
            | WatchRoute::PriorityLevelConfiguration => "flowcontrol.apiserver.k8s.io",
            _ => "",
        }
    }

    /// Whether one namespace is watched or the whole cluster.
    pub fn scope(self) -> (r: WatchScope)
        ensures
            r == self.watched_scope(),
    {
        match self {
            WatchRoute::Node
            | WatchRoute::Namespace
            | WatchRoute::PersistentVolume
            | WatchRoute::RuntimeClass
            | WatchRoute::ResourceQuotaEverywhere
            | WatchRoute::ServiceCIDR
            | WatchRoute::IPAddress
            | WatchRoute::CustomResourceDefinition
            | WatchRoute::ValidatingWebhookConfiguration
            | WatchRoute::MutatingWebhookConfiguration
            | WatchRoute::ValidatingAdmissionPolicy
            | WatchRoute::ValidatingAdmissionPolicyBinding
            | WatchRoute::PodDisruptionBudgetEverywhere
            | WatchRoute::PriorityClass
            | WatchRoute::StorageClass
            | WatchRoute::ClusterRole
            | WatchRoute::ClusterRoleBinding
            | WatchRoute::CertificateSigningRequest
            | WatchRoute::FlowSchema
            | WatchRoute::PriorityLevelConfiguration => WatchScope::Cluster,
            _ => WatchScope::Namespaced,
        }
    }
}

/// The bookmarks of every one of these watches carry the kind of a built-in
/// resource, never a guess.
pub proof fn law_routes_have_a_known_kind(route: WatchRoute)
    ensures
        known_kind(route.plural_name()) is Some,
{
}

} // verus!
