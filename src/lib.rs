//! Controller lineage in a Kubernetes cluster: from a Deployment to the
//! ReplicaSet generation that is live, and from it to the Pods it controls.
//!
//! `resolver` walks the requests a resolution makes of a cluster; the
//! decisions it takes on each answer are in `ownership`, `template`, `order`
//! and `lineage`.
pub mod kinds;
pub mod lineage;
pub mod order;
pub mod ownership;
pub mod resolver;
pub mod resource;
pub mod template;

pub use kinds::{deployment_kind_spec, replicaset_kind_spec, unique_label_key_spec};
pub use lineage::{resolve_live_pods, select_live_replicaset};
pub use resolver::{Action, Event, Resolution};
pub use resource::{Deployment, ObjectMeta, OwnerReference, Pod, PodTemplate, ReplicaSet};
