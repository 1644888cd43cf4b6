//! Reconciliation logic of the sample guest controllers.
//!
//! A controller reads the cluster's answer about one object and decides:
//! leave it, create it, or replace it. Cluster objects appear here as
//! plain models carrying exactly the fields the controllers read; the
//! API calls around the decision are the guest's I/O and live with the
//! embedder.

use vstd::prelude::*;

use crate::error::ErrorResponse;

verus! {

/// The desired state of a memcached fleet: how many replicas.
#[derive(Debug)]
pub struct MemcachedSpec {
    pub size: i32,
}

/// The observed state: the pod names serving the fleet.
#[derive(Debug)]
pub struct MemcachedStatus {
    pub nodes: Vec<String>,
}

/// The desired state of a simple pod: the image it runs.
#[derive(Debug)]
pub struct SimplePodSpec {
    pub image: String,
}

/// A deployment as the controllers read and write it; the template runs
/// one container.
#[derive(Debug)]
pub struct DeploymentModel {
    pub name: String,
    pub replicas: Option<i32>,
    pub labels: Vec<(String, String)>,
    pub container_name: Option<String>,
    pub image: Option<String>,
    pub command: Option<Vec<String>>,
}

/// A pod as the controllers read and write it.
#[derive(Debug)]
pub struct PodModel {
    pub name: String,
    pub container_name: String,
    pub image: Option<String>,
}

/// What a reconciliation step asks the cluster to do.
#[derive(Debug)]
pub enum ReconcileAction<T> {
    /// The object already matches the spec.
    DoNothing,
    /// The object is missing: create this one.
    Create(T),
    /// The object drifted: replace it with this one.
    Replace(T),
}

/// The deployment a memcached object of this name and size asks for:
/// labelled for the fleet, scaled to `size`, running the pinned
/// memcached image.
pub fn memcached_deployment(name: &String, size: i32) -> (d: DeploymentModel)
    ensures
        d.name@ == name@,
        d.replicas == Some(size),
        d.labels@.len() == 2,
        d.labels@[0].0@ == "memcached_cr"@ && d.labels@[0].1@ == name@,
        d.labels@[1].0@ == "app"@ && d.labels@[1].1@ == "memcached"@,
        d.container_name matches Some(n) && n@ == "memcached"@,
        d.image matches Some(i) && i@ == "memcached:1.4.36-alpine"@,
        d.command matches Some(c) && {
            &&& c@.len() == 5
            &&& c@[0]@ == "memcached"@
            &&& c@[1]@ == "-m=64"@
            &&& c@[2]@ == "-o"@
            &&& c@[3]@ == "modern"@
            &&& c@[4]@ == "-v"@
        },
{
    let mut labels: Vec<(String, String)> = Vec::new();
    labels.push(("memcached_cr".to_owned(), name.clone()));
    labels.push(("app".to_owned(), "memcached".to_owned()));
    let mut command: Vec<String> = Vec::new();
    command.push("memcached".to_owned());
    command.push("-m=64".to_owned());
    command.push("-o".to_owned());
    command.push("modern".to_owned());
    command.push("-v".to_owned());
    DeploymentModel {
        name: name.clone(),
        replicas: Some(size),
        labels,
        container_name: Some("memcached".to_owned()),
        image: Some("memcached:1.4.36-alpine".to_owned()),
        command: Some(command),
    }
}

/// One reconciliation step for a memcached object: scale the existing
/// deployment when it drifted, create it when the cluster answered
/// `404`, pass every other error on, and touch nothing when the scale is
/// already right.
pub fn reconcile(mem_name: &String, size: i32, found: Result<DeploymentModel, ErrorResponse>) -> (r:
    Result<ReconcileAction<DeploymentModel>, ErrorResponse>)
    ensures
        match r {
            Ok(a) => match a {
                ReconcileAction::DoNothing => (match found {
                    Ok(d) => d.replicas == Some(size),
                    Err(_) => false,
                }),
                ReconcileAction::Replace(d2) => (match found {
                    Ok(d) => d.replicas != Some(size) && d2.replicas == Some(size) && d2.name@
                        == d.name@ && d2.labels@ == d.labels@ && d2.container_name
                        == d.container_name && d2.image == d.image && d2.command == d.command,
                    Err(_) => false,
                }),
                ReconcileAction::Create(d2) => (match found {
                    Ok(_) => false,
                    Err(e) => e.code == 404 && d2.name@ == mem_name@ && d2.replicas == Some(
                        size,
                    ),
                }),
            },
            Err(e) => (match found {
                Ok(_) => false,
                Err(e0) => e0.code != 404 && e.code == e0.code && e.status@ == e0.status@
                    && e.message@ == e0.message@ && e.reason@ == e0.reason@,
            }),
        },
{
    match found {
        Ok(existing) => {
            let same = match existing.replicas {
                Some(r) => r == size,
                None => false,
            };
            if same {
                Ok(ReconcileAction::DoNothing)
            } else {
                Ok(
                    ReconcileAction::Replace(
                        DeploymentModel { replicas: Some(size), ..existing },
                    ),
                )
            }
        },
        Err(e) => {
            if e.code == 404 {
                Ok(ReconcileAction::Create(memcached_deployment(mem_name, size)))
            } else {
                Err(e)
            }
        },
    }
}

/// The pod a simple-pod object of this name and image asks for.
pub fn pod(name: &String, image: &String) -> (p: PodModel)
    ensures
        p.name@ == name@,
        p.container_name@ == "default-container"@,
        p.image matches Some(i) && i@ == image@,
{
    PodModel {
        name: name.clone(),
        container_name: "default-container".to_owned(),
        image: Some(image.clone()),
    }
}

/// One reconciliation step for a simple pod: replace the pod when its
/// image drifted, create it on `404`, pass other errors on, and touch
/// nothing when the image already matches. The cluster never hands back
/// a pod without an image; that case is outside this function.
pub fn reconcile_pod(name: &String, image: &String, found: Result<PodModel, ErrorResponse>) -> (r:
    Result<ReconcileAction<PodModel>, ErrorResponse>)
    requires
        found matches Ok(p) ==> p.image is Some,
    ensures
        match r {
            Ok(a) => match a {
                ReconcileAction::DoNothing => (match found {
                    Ok(p) => p.image matches Some(i) && i@ == image@,
                    Err(_) => false,
                }),
                ReconcileAction::Replace(p2) => (match found {
                    Ok(p) => {
                        &&& p.image matches Some(i) && i@ != image@
                        &&& p2.name@ == p.name@
                        &&& p2.container_name@ == p.container_name@
                        &&& p2.image matches Some(i2) && i2@ == image@
                    },
                    Err(_) => false,
                }),
                ReconcileAction::Create(p2) => (match found {
                    Ok(_) => false,
                    Err(e) => e.code == 404 && p2.name@ == name@ && (p2.image matches Some(i2)
                        && i2@ == image@),
                }),
            },
            Err(e) => (match found {
                Ok(_) => false,
                Err(e0) => e0.code != 404 && e.code == e0.code && e.status@ == e0.status@
                    && e.message@ == e0.message@ && e.reason@ == e0.reason@,
            }),
        },
{
    match found {
        Ok(existing) => {
            let existing_image = match &existing.image {
                Some(i) => i,
                None => {
                    return Ok(ReconcileAction::DoNothing);
                },
            };
            if existing_image.eq(image) {
                Ok(ReconcileAction::DoNothing)
            } else {
                Ok(
                    ReconcileAction::Replace(
                        PodModel { image: Some(image.clone()), ..existing },
                    ),
                )
            }
        },
        Err(e) => {
            if e.code == 404 {
                Ok(ReconcileAction::Create(pod(name, image)))
            } else {
                Err(e)
            }
        },
    }
}

} // verus!
