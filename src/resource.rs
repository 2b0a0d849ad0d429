//! The objects that lineage resolution reads, as plain values.
use vstd::prelude::*;

verus! {

/// A link from an object to one of its owners.
#[derive(Clone, Debug, PartialEq, Eq)]
pub struct OwnerReference {
    pub kind: String,
    pub name: String,
    pub uid: String,
    /// Whether this owner is the one that controls the object.
    pub controller: bool,
}

/// What lineage resolution reads of any object's metadata.
#[derive(Clone, Debug, PartialEq, Eq)]
pub struct ObjectMeta {
    pub name: String,
    pub namespace: Option<String>,
    /// Creation time in seconds since the Unix epoch, if the object has one.
    pub creation_timestamp: Option<i64>,
    pub owner_references: Vec<OwnerReference>,
}

/// The pod template that a controller stamps its Pods from.
#[derive(Clone, Debug, PartialEq, Eq)]
pub struct PodTemplate {
    /// The template's labels, one entry per key.
    pub labels: Vec<(String, String)>,
    /// Everything else in the template, in one canonical encoding.
    pub spec: String,
}

/// A top-level workload controller.
#[derive(Clone, Debug, PartialEq, Eq)]
pub struct Deployment {
    pub metadata: ObjectMeta,
    pub template: Option<PodTemplate>,
}

/// One generation of a Deployment's Pods.
#[derive(Clone, Debug, PartialEq, Eq)]
pub struct ReplicaSet {
    pub metadata: ObjectMeta,
    pub template: Option<PodTemplate>,
}

/// A leaf instance.
#[derive(Clone, Debug, PartialEq, Eq)]
pub struct Pod {
    pub metadata: ObjectMeta,
}

} // verus!
