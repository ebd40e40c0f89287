//! The decision logic of a Kubernetes-compatible API server.
pub mod access;
pub mod binding;
pub mod change_laws;
pub mod collection;
pub mod collections;
pub mod connect;
pub mod contract_laws;
pub mod create_laws;
pub mod error;
pub mod eviction;
pub mod eviction_laws;
pub mod field_laws;
pub mod grant_laws;
pub mod identity;
pub mod ip_allocator;
pub mod ip_laws;
pub mod json;
pub mod json_documents;
pub mod json_keys;
pub mod json_laws;
pub mod json_strings;
pub mod json_text;
pub mod kind_laws;
pub mod kinds;
pub mod model;
pub mod objects;
pub mod plan;
pub mod plan_laws;
pub mod pod_create;
pub mod pod_delete;
pub mod pod_list;
pub mod pod_patch;
pub mod pod_rules;
pub mod pod_update;
pub mod rbac;
pub mod request_laws;
pub mod resize;
pub mod resize_laws;
pub mod resources;
pub mod roles;
pub mod scale;
pub mod selector;
pub mod selector_laws;
pub mod step_laws;
pub mod subresource_laws;
pub mod text;
pub mod text_laws;
pub mod validation;
pub mod validation_laws;
pub mod volumes;
pub mod watch;
pub mod watch_laws;
pub mod watch_open;
pub mod watch_routes;
pub mod watch_stream;
pub mod workload_laws;
pub mod workloads;
