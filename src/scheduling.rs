//! What reconciling one RTResource decides: whether a failed fetch means
//! the resource is gone, how many pods to create or delete, what a new
//! managed pod looks like, and which node it is placed on.
use vstd::prelude::*;
use vstd::string::StringSliceAdditionalSpecFns;
use rand::Rng;
use crate::decimal::{decimal_chars, decimal_string, push_decimal};
use crate::labels::Labels;
use crate::rtresource::RTResource;

verus! {

pub const LABEL_ID: &'static str = "rtresource_id";

pub const LABEL_NAME: &'static str = "rtresource_name";

pub const LABEL_UID: &'static str = "rtresource_uid";

pub const LABEL_NAMESPACE: &'static str = "rtresource_namespace";

pub const LABEL_CRITICALITY: &'static str = "criticality";

/// Prefix of the node names; the nodes are numbered from 1.
pub const NODE_PREFIX: &'static str = "orionw";

/// Number of nodes the scheduler picks from.
pub const NODE_COUNT: u32 = 4;

/// How a fetch of the RTResource ended.
#[derive(Clone, Copy, Debug, PartialEq, Eq, Structural)]
pub enum FetchOutcome {
    /// The resource exists.
    Found,
    /// The API server answered 404: the resource was deleted.
    NotFound,
    /// Any other failure; the next event retries.
    Failed,
}

/// The text holds the status code 404.
pub open spec fn mentions_not_found(b: Seq<u8>) -> bool {
    exists|i: int| 0 <= i && i + 3 <= b.len() && b[i] == 52 && b[i + 1] == 48 && #[trigger] b[i + 2] == 52
}

/// Classifies a failed fetch by the text of its error.
pub fn classify_fetch_error(text: &str) -> (r: FetchOutcome)
    ensures
        r == if mentions_not_found(text.spec_bytes()) {
            FetchOutcome::NotFound
        } else {
            FetchOutcome::Failed
        },
{
    let b = text.as_bytes();
    let ghost all = b@;
    let mut i: usize = 0;
    while b.len() >= 3 && i <= b.len() - 3
        invariant
            b@ == all,
            i <= all.len(),
            all == text.spec_bytes(),
            forall|k: int|
                0 <= k < i && k + 3 <= all.len() ==> !(all[k] == 52 && all[k + 1] == 48
                    && #[trigger] all[k + 2] == 52),
        decreases all.len() - i,
    {
        if b[i] == 52u8 && b[i + 1] == 48u8 && b[i + 2] == 52u8 {
            return FetchOutcome::NotFound;
        }
        i = i + 1;
    }
    FetchOutcome::Failed
}

/// Pods to create, and how many of the listed pods to delete, counted
/// from the front of the list.
#[derive(Clone, Copy, Debug, PartialEq, Eq, Structural)]
pub struct ScalePlan {
    pub create: usize,
    pub delete: usize,
}

/// The plan that takes `have` pods to `want` (a negative `want` counts as
/// none).
pub open spec fn scale_plan_spec(want: int, have: int) -> (int, int) {
    if want > have {
        (want - have, 0)
    } else if want < have {
        (0, have - if want < 0 {
            0
        } else {
            want
        })
    } else {
        (0, 0)
    }
}

/// Plans the pods to create or delete so that `have` pods become `want`.
pub fn scale_plan(want: i32, have: usize) -> (r: ScalePlan)
    ensures
        (r.create as int, r.delete as int) == scale_plan_spec(want as int, have as int),
{
    if want < 0 {
        ScalePlan { create: 0, delete: have }
    } else if (want as usize) > have {
        ScalePlan { create: want as usize - have, delete: 0 }
    } else {
        ScalePlan { create: 0, delete: have - want as usize }
    }
}

/// Carrying a plan out leaves as many pods as wanted, so planning again
/// right away asks for nothing: reconciling twice acts once.
pub proof fn lemma_scale_plan_settles(want: int, have: int)
    requires
        have >= 0,
    ensures
        ({
            let p = scale_plan_spec(want, have);
            let after = have + p.0 - p.1;
            &&& after == if want < 0 {
                0
            } else {
                want
            }
            &&& scale_plan_spec(want, after) == (0int, 0int)
        }),
{
}

/// A resource that is gone counts as wanting no pod: every listed pod is
/// deleted and none created.
pub proof fn lemma_deleted_resource_plan(have: int)
    requires
        have >= 0,
    ensures
        scale_plan_spec(0, have) == (0int, have),
{
}

/// A pod to be submitted for a resource, before its spec is attached.
pub struct PodDraft {
    pub name: String,
    pub namespace: String,
    pub labels: Labels,
    pub annotations: Option<Labels>,
    pub node_name: Option<String>,
}

pub open spec fn labels_or_empty(l: Option<Labels>) -> Map<Seq<char>, Seq<char>> {
    match l {
        Some(l) => l.view(),
        None => Map::empty(),
    }
}

pub open spec fn text_or_empty(o: Option<String>) -> Seq<char> {
    match o {
        Some(s) => s@,
        None => Seq::empty(),
    }
}

pub open spec fn template_labels(r: RTResource) -> Map<Seq<char>, Seq<char>> {
    match r.spec.template.metadata {
        Some(m) => labels_or_empty(m.labels),
        None => Map::empty(),
    }
}

pub open spec fn template_annotations(r: RTResource) -> Map<Seq<char>, Seq<char>> {
    match r.spec.template.metadata {
        Some(m) => labels_or_empty(m.annotations),
        None => Map::empty(),
    }
}

pub open spec fn selector_labels(r: RTResource) -> Map<Seq<char>, Seq<char>> {
    match r.spec.selector {
        Some(s) => labels_or_empty(s.match_labels),
        None => Map::empty(),
    }
}

/// The labels of a managed pod: the template's, then the selector's, then
/// the resource's identity and criticality, each later one winning.
pub open spec fn managed_labels(r: RTResource, name: Seq<char>) -> Map<Seq<char>, Seq<char>> {
    let uid = text_or_empty(r.metadata.uid);
    template_labels(r).union_prefer_right(selector_labels(r)).insert(LABEL_ID@, uid).insert(
        LABEL_NAME@,
        name,
    ).insert(LABEL_UID@, uid).insert(LABEL_NAMESPACE@, text_or_empty(r.metadata.namespace)).insert(
        LABEL_CRITICALITY@,
        decimal_chars(r.spec.criticality as nat),
    )
}

/// The name of a pod created at `millis` milliseconds since the epoch.
pub open spec fn pod_name(name: Seq<char>, millis: nat) -> Seq<char> {
    name + "-"@ + decimal_chars(millis)
}

fn copy_labels(l: &Option<Labels>) -> (r: Labels)
    ensures
        r.view() == labels_or_empty(*l),
{
    match l {
        Some(l) => l.clone(),
        None => Labels::new(),
    }
}

/// Builds the pod that creating one replica of `resource` submits, named
/// after the resource and `millis`, the milliseconds since the epoch.
/// `None` when the resource has no name. The pod is not yet placed on a
/// node.
pub fn create_pod(resource: &RTResource, millis: u64) -> (r: Option<PodDraft>)
    ensures
        r is Some <==> resource.metadata.name is Some,
        r matches Some(p) ==> {
            let name = resource.metadata.name->0@;
            &&& p.name@ == pod_name(name, millis as nat)
            &&& p.namespace@ == resource.spec.namespace@
            &&& p.labels.view() == managed_labels(*resource, name)
            &&& match p.annotations {
                Some(a) => a.view() == template_annotations(*resource) && a.view()
                    != Map::<Seq<char>, Seq<char>>::empty(),
                None => template_annotations(*resource) == Map::<Seq<char>, Seq<char>>::empty(),
            }
            &&& p.node_name is None
        },
{
    let name = match &resource.metadata.name {
        Some(n) => n,
        None => return None,
    };
    let mut pod_name = name.clone();
    pod_name.append("-");
    push_decimal(&mut pod_name, millis);
    let (mut labels, annotations) = match &resource.spec.template.metadata {
        Some(m) => (copy_labels(&m.labels), copy_labels(&m.annotations)),
        None => (Labels::new(), Labels::new()),
    };
    match &resource.spec.selector {
        Some(s) => {
            let selected = copy_labels(&s.match_labels);
            labels.extend_from(&selected);
        },
        None => {
            let none = Labels::new();
            labels.extend_from(&none);
        },
    }
    let uid = match &resource.metadata.uid {
        Some(u) => u.clone(),
        None => String::new(),
    };
    let namespace = match &resource.metadata.namespace {
        Some(n) => n.clone(),
        None => String::new(),
    };
    labels.insert(String::from_str(LABEL_ID), uid.clone());
    labels.insert(String::from_str(LABEL_NAME), name.clone());
    labels.insert(String::from_str(LABEL_UID), uid);
    labels.insert(String::from_str(LABEL_NAMESPACE), namespace);
    labels.insert(
        String::from_str(LABEL_CRITICALITY),
        decimal_string(resource.spec.criticality as u64),
    );
    let annotations = if annotations.is_empty() {
        None
    } else {
        Some(annotations)
    };
    Some(
        PodDraft {
            name: pod_name,
            namespace: resource.spec.namespace.clone(),
            labels,
            annotations,
            node_name: None,
        },
    )
}

/// The node that choice `pick` stands for: node `pick` for a pick from 1
/// to `NODE_COUNT`, else node 1.
pub open spec fn node_name_spec(pick: u32) -> Seq<char> {
    if 1 <= pick <= NODE_COUNT {
        NODE_PREFIX@ + decimal_chars(pick as nat)
    } else {
        NODE_PREFIX@ + decimal_chars(1)
    }
}

/// Places `pod` on the node that `pick` stands for.
pub fn assign_node(pod: PodDraft, pick: u32) -> (r: PodDraft)
    ensures
        r.node_name matches Some(n) && n@ == node_name_spec(pick),
        r.name == pod.name,
        r.namespace == pod.namespace,
        r.labels == pod.labels,
        r.annotations == pod.annotations,
{
    let n: u64 = if 1 <= pick && pick <= NODE_COUNT {
        pick as u64
    } else {
        1
    };
    let mut node = String::from_str(NODE_PREFIX);
    push_decimal(&mut node, n);
    PodDraft { node_name: Some(node), ..pod }
}

/// Relies on rand's `thread_rng().gen_range(low..=high)`: a value drawn from
/// the inclusive range. It panics on an empty range, which `requires` rules
/// out.
#[verifier::external_body]
fn random_in_range(low: u32, high: u32) -> (r: u32)
    requires
        low <= high,
    ensures
        low <= r <= high,
{
    rand::thread_rng().gen_range(low..=high)
}

/// Places `pod` on a node drawn at random among the `NODE_COUNT` nodes.
pub fn scheduler(pod: PodDraft) -> (r: PodDraft)
    ensures
        exists|pick: u32|
            1 <= pick <= NODE_COUNT && (r.node_name matches Some(n) && n@ == #[trigger] node_name_spec(
                pick,
            )),
        r.name == pod.name,
        r.namespace == pod.namespace,
        r.labels == pod.labels,
        r.annotations == pod.annotations,
{
    let pick = random_in_range(1, NODE_COUNT);
    assign_node(pod, pick)
}

} // verus!
