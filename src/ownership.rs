//! Which object controls which.
use crate::kinds::{deployment_kind, deployment_kind_spec, replicaset_kind, replicaset_kind_spec};
use crate::resource::{Deployment, ObjectMeta, OwnerReference, Pod, ReplicaSet};
use vstd::prelude::*;

verus! {

/// `r` is a controller reference naming an owner of `kind` called `name`.
pub open spec fn is_controller_ref(r: OwnerReference, kind: Seq<char>, name: Seq<char>) -> bool {
    r.controller && r.kind@ == kind && r.name@ == name
}

/// `child` has a controlling owner of `kind` called `name`.
pub open spec fn controlled_by(child: ObjectMeta, kind: Seq<char>, name: Seq<char>) -> bool {
    exists|i: int|
        0 <= i < child.owner_references.len() && #[trigger] is_controller_ref(
            child.owner_references[i],
            kind,
            name,
        )
}

/// Whether `child` is controlled by `parent`, an object of kind `parent_kind`:
/// one of its controller references names that kind and `parent`'s name.
pub fn is_controlled_by(child: &ObjectMeta, parent_kind: &String, parent: &ObjectMeta) -> (r: bool)
    ensures
        r == controlled_by(*child, parent_kind@, parent.name@),
{
    let refs = &child.owner_references;
    let mut i: usize = 0;
    while i < refs.len()
        invariant
            i <= refs.len(),
            refs == child.owner_references,
            forall|j: int| 0 <= j < i ==> !is_controller_ref(#[trigger] refs[j], parent_kind@, parent.name@),
        decreases refs.len() - i,
    {
        let r = &refs[i];
        if r.controller && r.kind == *parent_kind && r.name == parent.name {
            assert(is_controller_ref(refs[i as int], parent_kind@, parent.name@));
            return true;
        }
        i = i + 1;
    }
    false
}

/// Where to find the owner of a given kind that controls an object.
#[derive(Clone, Debug, PartialEq, Eq)]
pub struct OwnerLookup {
    pub name: String,
    /// The namespace of the object whose owner this is.
    pub namespace: Option<String>,
}

/// `r` is a controller reference to an owner of `kind`.
pub open spec fn is_controller_of_kind(r: OwnerReference, kind: Seq<char>) -> bool {
    r.controller && r.kind@ == kind
}

/// The first controller reference of `child` whose kind is `kind`, as the
/// name and namespace to fetch that owner by; `None` if there is none.
pub fn controller_owner_of_kind(child: &ObjectMeta, kind: &String) -> (r: Option<OwnerLookup>)
    ensures
        r is None <==> forall|i: int|
            0 <= i < child.owner_references.len() ==> !is_controller_of_kind(
                #[trigger] child.owner_references[i],
                kind@,
            ),
        r is Some ==> exists|i: int|
            0 <= i < child.owner_references.len() && is_controller_of_kind(
                #[trigger] child.owner_references[i],
                kind@,
            ) && child.owner_references[i].name@ == r->Some_0.name@ && (forall|j: int|
                0 <= j < i ==> !is_controller_of_kind(#[trigger] child.owner_references[j], kind@)),
        r is Some ==> r->Some_0.namespace == child.namespace,
{
    let refs = &child.owner_references;
    let mut i: usize = 0;
    while i < refs.len()
        invariant
            i <= refs.len(),
            refs == child.owner_references,
            forall|j: int| 0 <= j < i ==> !is_controller_of_kind(#[trigger] refs[j], kind@),
        decreases refs.len() - i,
    {
        let r = &refs[i];
        if r.controller && r.kind == *kind {
            let found = OwnerLookup { name: r.name.clone(), namespace: child.namespace.clone() };
            assert(is_controller_of_kind(refs[i as int], kind@));
            return Some(found);
        }
        i = i + 1;
    }
    None
}

impl ReplicaSet {
    /// Whether this ReplicaSet is controlled by `deployment`.
    pub fn is_controlled_by(&self, deployment: &Deployment) -> (r: bool)
        ensures
            r == controlled_by(self.metadata, deployment_kind_spec(), deployment.metadata.name@),
    {
        is_controlled_by(&self.metadata, &deployment_kind(), &deployment.metadata)
    }
}

impl Pod {
    /// Whether this Pod is controlled by `replicaset`.
    pub fn is_controlled_by(&self, replicaset: &ReplicaSet) -> (r: bool)
        ensures
            r == controlled_by(self.metadata, replicaset_kind_spec(), replicaset.metadata.name@),
    {
        is_controlled_by(&self.metadata, &replicaset_kind(), &replicaset.metadata)
    }
}

/// An object none of whose owner references is flagged as its controller is
/// controlled by nothing, whatever owners those references name.
pub proof fn lemma_no_controller_flag_no_controller(child: ObjectMeta, kind: Seq<char>, name: Seq<char>)
    requires
        forall|i: int| 0 <= i < child.owner_references.len() ==> !(#[trigger] child.owner_references[i]).controller,
    ensures
        !controlled_by(child, kind, name),
{
}

} // verus!
