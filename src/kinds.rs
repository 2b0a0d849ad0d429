//! Well-known names that come from the Kubernetes API definitions.
use k8s_openapi_ext::appsv1;
use k8s_openapi_ext::label::DEFAULT_DEPLOYMENT_UNIQUE_LABEL_KEY;
use k8s_openapi_ext::Resource;
use vstd::prelude::*;

verus! {

/// The kind string of a Deployment.
pub open spec fn deployment_kind_spec() -> Seq<char> {
    "Deployment"@
}

/// The kind string of a ReplicaSet.
pub open spec fn replicaset_kind_spec() -> Seq<char> {
    "ReplicaSet"@
}

/// The label that a Deployment adds to each ReplicaSet's template to tell
/// its generations apart.
pub open spec fn unique_label_key_spec() -> Seq<char> {
    "pod-template-hash"@
}

/// Relies on k8s_openapi's `Resource::KIND` for `apps/v1` Deployment.
#[verifier::external_body]
pub(crate) fn deployment_kind() -> (r: String)
    ensures
        r@ == deployment_kind_spec(),
{
    <appsv1::Deployment as Resource>::KIND.to_string()
}

/// Relies on k8s_openapi's `Resource::KIND` for `apps/v1` ReplicaSet.
#[verifier::external_body]
pub(crate) fn replicaset_kind() -> (r: String)
    ensures
        r@ == replicaset_kind_spec(),
{
    <appsv1::ReplicaSet as Resource>::KIND.to_string()
}

/// Relies on k8s_openapi_ext's `label::DEFAULT_DEPLOYMENT_UNIQUE_LABEL_KEY`.
#[verifier::external_body]
pub(crate) fn unique_label_key() -> (r: String)
    ensures
        r@ == unique_label_key_spec(),
{
    DEFAULT_DEPLOYMENT_UNIQUE_LABEL_KEY.to_string()
}

} // verus!
