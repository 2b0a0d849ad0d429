//! Resolution as a sequence of store requests: each step takes what the
//! store answered and says what to ask next, or what the result is.
use crate::lineage::{live_index, pods_controlled_by, pods_of, select_live_replicaset};
use crate::resource::{Deployment, Pod, ReplicaSet};
use vstd::prelude::*;

verus! {

/// What the caller is to do next.
#[derive(Debug)]
pub enum Action {
    /// Fetch the named Deployment, answering with `Event::DeploymentFetched`.
    FetchDeployment { name: String, namespace: Option<String> },
    /// List the ReplicaSets of a namespace, answering with
    /// `Event::ReplicaSetsListed`.
    ListReplicaSets { namespace: Option<String> },
    /// List the Pods of a namespace, answering with `Event::PodsListed`.
    ListPods { namespace: Option<String> },
    /// Resolution is over, with this result.
    Done(Option<Vec<Pod>>),
}

/// What the store answered.
#[derive(Debug)]
pub enum Event {
    /// The Deployment, or `None` where it does not exist.
    DeploymentFetched(Option<Deployment>),
    ReplicaSetsListed(Vec<ReplicaSet>),
    PodsListed(Vec<Pod>),
}

/// How far a resolution has come.
#[derive(Debug)]
pub enum Resolution {
    AwaitingDeployment,
    AwaitingReplicaSets { deployment: Deployment },
    AwaitingPods { live: ReplicaSet, namespace: Option<String> },
    Finished,
}

impl Resolution {
    /// Whether `event` is the answer this state waits for.
    pub open spec fn accepts(&self, event: &Event) -> bool {
        match (self, event) {
            (Resolution::AwaitingDeployment, Event::DeploymentFetched(_)) => true,
            (Resolution::AwaitingReplicaSets { .. }, Event::ReplicaSetsListed(_)) => true,
            (Resolution::AwaitingPods { .. }, Event::PodsListed(_)) => true,
            _ => false,
        }
    }

    /// Whether `event` is the answer this state waits for.
    pub fn is_answered_by(&self, event: &Event) -> (r: bool)
        ensures
            r == self.accepts(event),
    {
        match (self, event) {
            (Resolution::AwaitingDeployment, Event::DeploymentFetched(_)) => true,
            (Resolution::AwaitingReplicaSets { .. }, Event::ReplicaSetsListed(_)) => true,
            (Resolution::AwaitingPods { .. }, Event::PodsListed(_)) => true,
            _ => false,
        }
    }

    /// Start resolving the Deployment called `name` in `namespace`: first
    /// fetch it.
    pub fn for_deployment_name(name: String, namespace: Option<String>) -> (r: (Resolution, Action))
        ensures
            r.0 is AwaitingDeployment,
            r.1 == (Action::FetchDeployment { name, namespace }),
    {
        (Resolution::AwaitingDeployment, Action::FetchDeployment { name, namespace })
    }

    /// Start resolving `deployment`: first list the ReplicaSets of its
    /// namespace.
    pub fn for_deployment(deployment: Deployment) -> (r: (Resolution, Action))
        ensures
            r.0 == (Resolution::AwaitingReplicaSets { deployment }),
            r.1 == (Action::ListReplicaSets { namespace: deployment.metadata.namespace }),
    {
        let namespace = deployment.metadata.namespace.clone();
        (Resolution::AwaitingReplicaSets { deployment }, Action::ListReplicaSets { namespace })
    }

    /// Take the store's answer and move on.
    /// - A Deployment that does not exist ends resolution with `None`, with
    ///   nothing listed.
    /// - A Deployment that exists leads to listing the ReplicaSets of its
    ///   namespace.
    /// - Without a live generation among the ReplicaSets, resolution ends
    ///   with `None`; with one, the Pods of the namespace are listed.
    /// - The Pods end resolution with those the live generation controls.
    pub fn step(self, event: Event) -> (r: (Resolution, Action))
        requires
            self.accepts(&event),
        ensures
            match (self, event) {
                (Resolution::AwaitingDeployment, Event::DeploymentFetched(None)) => {
                    r.0 is Finished && r.1 == Action::Done(None)
                },
                (Resolution::AwaitingDeployment, Event::DeploymentFetched(Some(d))) => {
                    &&& r.0 == (Resolution::AwaitingReplicaSets { deployment: d })
                    &&& r.1 == (Action::ListReplicaSets { namespace: d.metadata.namespace })
                },
                (Resolution::AwaitingReplicaSets { deployment }, Event::ReplicaSetsListed(rss)) => {
                    match live_index(deployment, rss@) {
                        None => r.0 is Finished && r.1 == Action::Done(None),
                        Some(i) => {
                            &&& r.0 == (Resolution::AwaitingPods {
                                live: rss@[i],
                                namespace: deployment.metadata.namespace,
                            })
                            &&& r.1 == (Action::ListPods { namespace: deployment.metadata.namespace })
                        },
                    }
                },
                (Resolution::AwaitingPods { live, .. }, Event::PodsListed(pods)) => {
                    &&& r.0 is Finished
                    &&& r.1 matches Action::Done(Some(found))
                    &&& found@ == pods_of(live, pods@)
                },
                _ => false,
            },
    {
        match (self, event) {
            (Resolution::AwaitingDeployment, Event::DeploymentFetched(None)) => {
                (Resolution::Finished, Action::Done(None))
            },
            (Resolution::AwaitingDeployment, Event::DeploymentFetched(Some(d))) => {
                Resolution::for_deployment(d)
            },
            (Resolution::AwaitingReplicaSets { deployment }, Event::ReplicaSetsListed(rss)) => {
                match select_live_replicaset(&deployment, &rss) {
                    None => (Resolution::Finished, Action::Done(None)),
                    Some(i) => {
                        let mut rss = rss;
                        let live = rss.remove(i);
                        let namespace = deployment.metadata.namespace.clone();
                        let listed = namespace.clone();
                        (Resolution::AwaitingPods { live, namespace }, Action::ListPods { namespace: listed })
                    },
                }
            },
            (Resolution::AwaitingPods { live, .. }, Event::PodsListed(pods)) => {
                let found = pods_controlled_by(&live, pods);
                (Resolution::Finished, Action::Done(Some(found)))
            },
            _ => (Resolution::Finished, Action::Done(None)),
        }
    }
}

} // verus!
