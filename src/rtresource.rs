//! The RTResource custom resource as the controller reads it, and the
//! changes the controller makes to its status.
use vstd::prelude::*;
use crate::labels::Labels;

verus! {

pub const PROGRESSING: &'static str = "Progressing";

pub const READY: &'static str = "Ready";

pub const STATUS_TRUE: &'static str = "True";

pub const STATUS_FALSE: &'static str = "False";

/// Reason and message of the conditions when a reconciliation starts.
pub const SPEC_CHANGED: &'static str = "RTResource Spec changed!";

/// Reason and message of the conditions once every desired replica runs.
pub const ALL_RUNNING: &'static str = "All desired replicas are running!";

/// Identity and version of a resource, as its metadata holds them.
#[derive(Clone, Debug)]
pub struct ResourceMeta {
    pub name: Option<String>,
    pub namespace: Option<String>,
    pub uid: Option<String>,
    pub generation: Option<i64>,
}

/// Labels and annotations of the pod template. The template's pod spec
/// is carried beside the resource by the caller and copied verbatim.
#[derive(Clone, Debug)]
pub struct TemplateMeta {
    pub labels: Option<Labels>,
    pub annotations: Option<Labels>,
}

/// Pod template of an RTResource.
#[derive(Clone, Debug)]
pub struct Template {
    pub metadata: Option<TemplateMeta>,
}

/// Match expression of a selector.
#[derive(Clone, Debug)]
pub struct MatchExpression {
    pub key: String,
    pub operator: String,
    pub values: Option<Vec<String>>,
}

/// Selector of the pods related to a resource.
#[derive(Clone, Debug)]
pub struct Selector {
    pub match_labels: Option<Labels>,
    pub match_expressions: Option<Vec<MatchExpression>>,
}

/// Desired state of an RTResource.
#[derive(Clone, Debug)]
pub struct RTResourceSpec {
    /// Namespace where the pods are deployed.
    pub namespace: String,
    /// Number of replicas.
    pub replicas: i32,
    pub selector: Option<Selector>,
    /// Criticality level: 0 is the most critical.
    pub criticality: u32,
    pub template: Template,
}

/// A status condition.
#[derive(Clone, Debug)]
pub struct Condition {
    pub condition_type: String,
    pub status: String,
    pub last_transition_time: Option<String>,
    pub reason: Option<String>,
    pub message: Option<String>,
}

/// Observed state of an RTResource.
#[derive(Clone, Debug)]
pub struct RTResourceStatus {
    pub observed_generation: Option<i64>,
    pub desired_replicas: Option<i32>,
    pub replicas: Option<i32>,
    pub conditions: Option<Vec<Condition>>,
}

/// An RTResource: metadata, spec and status.
#[derive(Clone, Debug)]
pub struct RTResource {
    pub metadata: ResourceMeta,
    pub spec: RTResourceSpec,
    pub status: Option<RTResourceStatus>,
}

pub struct ConditionView {
    pub condition_type: Seq<char>,
    pub status: Seq<char>,
    pub last_transition_time: Option<Seq<char>>,
    pub reason: Option<Seq<char>>,
    pub message: Option<Seq<char>>,
}

pub struct StatusView {
    pub observed_generation: Option<i64>,
    pub desired_replicas: Option<i32>,
    pub replicas: Option<i32>,
    pub conditions: Option<Seq<ConditionView>>,
}

pub open spec fn opt_view(o: Option<String>) -> Option<Seq<char>> {
    match o {
        Some(s) => Some(s@),
        None => None,
    }
}

impl View for Condition {
    type V = ConditionView;

    open spec fn view(&self) -> ConditionView {
        ConditionView {
            condition_type: self.condition_type@,
            status: self.status@,
            last_transition_time: opt_view(self.last_transition_time),
            reason: opt_view(self.reason),
            message: opt_view(self.message),
        }
    }
}

impl View for RTResourceStatus {
    type V = StatusView;

    open spec fn view(&self) -> StatusView {
        StatusView {
            observed_generation: self.observed_generation,
            desired_replicas: self.desired_replicas,
            replicas: self.replicas,
            conditions: match self.conditions {
                Some(c) => Some(c@.map_values(|x: Condition| x@)),
                None => None,
            },
        }
    }
}

impl Default for RTResourceStatus {
    fn default() -> (r: RTResourceStatus)
        ensures
            r@ == empty_status(),
    {
        RTResourceStatus {
            observed_generation: None,
            desired_replicas: None,
            replicas: None,
            conditions: None,
        }
    }
}

pub open spec fn empty_status() -> StatusView {
    StatusView {
        observed_generation: None,
        desired_replicas: None,
        replicas: None,
        conditions: None,
    }
}

pub open spec fn status_or_empty(s: Option<RTResourceStatus>) -> StatusView {
    match s {
        Some(s) => s@,
        None => empty_status(),
    }
}

pub open spec fn conditions_or_empty(s: StatusView) -> Seq<ConditionView> {
    match s.conditions {
        Some(c) => c,
        None => Seq::empty(),
    }
}

/// A condition of type `ty` with the given status, reason, message and
/// transition time.
pub open spec fn condition_of(
    ty: Seq<char>,
    status: Seq<char>,
    text: Seq<char>,
    now: Seq<char>,
) -> ConditionView {
    ConditionView {
        condition_type: ty,
        status,
        last_transition_time: Some(now),
        reason: Some(text),
        message: Some(text),
    }
}

/// The conditions after setting the one of type `ty`: every condition of
/// that type is overwritten; when there is none, the condition is added at
/// the end.
pub open spec fn set_condition_spec(
    s: Seq<ConditionView>,
    ty: Seq<char>,
    status: Seq<char>,
    text: Seq<char>,
    now: Seq<char>,
) -> Seq<ConditionView> {
    if exists|i: int| 0 <= i < s.len() && (#[trigger] s[i]).condition_type == ty {
        s.map_values(
            |c: ConditionView|
                if c.condition_type == ty {
                    condition_of(ty, status, text, now)
                } else {
                    c
                },
        )
    } else {
        s.push(condition_of(ty, status, text, now))
    }
}

/// The status once a reconciliation starts: generation observed, desired
/// replicas recorded, `Progressing` true and `Ready` false.
pub open spec fn spec_changed_spec(
    old: StatusView,
    generation: Option<i64>,
    replicas: i32,
    now: Seq<char>,
) -> StatusView {
    let c1 = set_condition_spec(
        conditions_or_empty(old),
        PROGRESSING@,
        STATUS_TRUE@,
        SPEC_CHANGED@,
        now,
    );
    let c2 = set_condition_spec(c1, READY@, STATUS_FALSE@, SPEC_CHANGED@, now);
    StatusView {
        observed_generation: generation,
        desired_replicas: Some(replicas),
        replicas: old.replicas,
        conditions: Some(c2),
    }
}

/// The status after counting `running` running pods: the count is
/// recorded; when it reaches the desired count (0 when unset),
/// `Progressing` turns false and `Ready` true.
pub open spec fn replicas_observed_spec(old: StatusView, running: i32, now: Seq<char>) -> StatusView {
    let desired = match old.desired_replicas {
        Some(d) => d,
        None => 0,
    };
    let c0 = conditions_or_empty(old);
    let c = if running == desired {
        let c1 = set_condition_spec(c0, PROGRESSING@, STATUS_FALSE@, ALL_RUNNING@, now);
        set_condition_spec(c1, READY@, STATUS_TRUE@, ALL_RUNNING@, now)
    } else {
        c0
    };
    StatusView {
        observed_generation: old.observed_generation,
        desired_replicas: old.desired_replicas,
        replicas: Some(running),
        conditions: Some(c),
    }
}

/// Some condition has type `ty` and status `status`.
pub open spec fn has_condition(s: Seq<ConditionView>, ty: Seq<char>, status: Seq<char>) -> bool {
    exists|i: int|
        0 <= i < s.len() && (#[trigger] s[i]).condition_type == ty && s[i].status == status
}

pub open spec fn is_progressing_spec(s: Option<RTResourceStatus>) -> bool {
    match s {
        Some(st) => match st.conditions {
            Some(c) => has_condition(c@.map_values(|x: Condition| x@), PROGRESSING@, STATUS_TRUE@),
            None => false,
        },
        None => false,
    }
}

fn copy_text(o: &Option<String>) -> (r: Option<String>)
    ensures
        opt_view(r) == opt_view(*o),
{
    match o {
        Some(s) => Some(s.clone()),
        None => None,
    }
}

fn copy_condition(c: &Condition) -> (r: Condition)
    ensures
        r@ == c@,
{
    Condition {
        condition_type: c.condition_type.clone(),
        status: c.status.clone(),
        last_transition_time: copy_text(&c.last_transition_time),
        reason: copy_text(&c.reason),
        message: copy_text(&c.message),
    }
}

fn copy_conditions(c: &Vec<Condition>) -> (r: Vec<Condition>)
    ensures
        r@.map_values(|x: Condition| x@) == c@.map_values(|x: Condition| x@),
{
    let mut r: Vec<Condition> = Vec::new();
    let mut i: usize = 0;
    while i < c.len()
        invariant
            i <= c@.len(),
            r@.len() == i,
            forall|j: int| 0 <= j < i ==> (#[trigger] r@[j])@ == c@[j]@,
        decreases c@.len() - i,
    {
        r.push(copy_condition(&c[i]));
        i = i + 1;
    }
    assert(r@.map_values(|x: Condition| x@) =~= c@.map_values(|x: Condition| x@));
    r
}

fn make_condition(ty: &str, status: &str, text: &str, now: &String) -> (r: Condition)
    ensures
        r@ == condition_of(ty@, status@, text@, now@),
{
    Condition {
        condition_type: String::from_str(ty),
        status: String::from_str(status),
        last_transition_time: Some(now.clone()),
        reason: Some(String::from_str(text)),
        message: Some(String::from_str(text)),
    }
}

/// Sets the condition of type `ty` in `conds`, as `set_condition_spec`
/// says.
pub fn set_condition(conds: &mut Vec<Condition>, ty: &str, status: &str, text: &str, now: &String)
    ensures
        final(conds)@.map_values(|x: Condition| x@) == set_condition_spec(
            old(conds)@.map_values(|x: Condition| x@),
            ty@,
            status@,
            text@,
            now@,
        ),
{
    let ghost s = old(conds)@.map_values(|x: Condition| x@);
    let ghost target = s.map_values(
        |c: ConditionView|
            if c.condition_type == ty@ {
                condition_of(ty@, status@, text@, now@)
            } else {
                c
            },
    );
    let key = String::from_str(ty);
    let mut found = false;
    let mut i: usize = 0;
    let n = conds.len();
    while i < n
        invariant
            s == old(conds)@.map_values(|x: Condition| x@),
            target == s.map_values(
                |c: ConditionView|
                    if c.condition_type == ty@ {
                        condition_of(ty@, status@, text@, now@)
                    } else {
                        c
                    },
            ),
            n == s.len(),
            target.len() == n,
            conds@.len() == n,
            key@ == ty@,
            i <= n,
            forall|j: int| 0 <= j < i ==> (#[trigger] conds@[j])@ == target[j],
            forall|j: int| i <= j < n ==> (#[trigger] conds@[j])@ == s[j],
            found == exists|j: int| 0 <= j < i && (#[trigger] s[j]).condition_type == ty@,
        decreases n - i,
    {
        assert(conds@[i as int]@ == s[i as int]);
        if conds[i].condition_type == key {
            conds.set(i, make_condition(ty, status, text, now));
            found = true;
        }
        i = i + 1;
    }
    if found {
        assert(conds@.map_values(|x: Condition| x@) =~= target);
    } else {
        assert(conds@.map_values(|x: Condition| x@) =~= s);
        let ghost before = conds@;
        conds.push(make_condition(ty, status, text, now));
        assert(conds@.map_values(|x: Condition| x@) =~= s.push(
            condition_of(ty@, status@, text@, now@),
        ));
    }
}

fn copy_status(s: &Option<RTResourceStatus>) -> (r: RTResourceStatus)
    ensures
        r@ == status_or_empty(*s),
{
    match s {
        Some(st) => RTResourceStatus {
            observed_generation: st.observed_generation,
            desired_replicas: st.desired_replicas,
            replicas: st.replicas,
            conditions: match &st.conditions {
                Some(c) => Some(copy_conditions(c)),
                None => None,
            },
        },
        None => RTResourceStatus::default(),
    }
}

fn conditions_of(s: &RTResourceStatus) -> (r: Vec<Condition>)
    ensures
        r@.map_values(|x: Condition| x@) == conditions_or_empty(s@),
{
    match &s.conditions {
        Some(c) => copy_conditions(c),
        None => {
            let r: Vec<Condition> = Vec::new();
            assert(r@.map_values(|x: Condition| x@) =~= Seq::<ConditionView>::empty());
            r
        },
    }
}

/// The new status of a resource whose reconciliation starts, from its
/// current status, its generation and its desired replica count.
pub fn spec_changed_status(
    status: &Option<RTResourceStatus>,
    generation: Option<i64>,
    replicas: i32,
    now: &String,
) -> (r: RTResourceStatus)
    ensures
        r@ == spec_changed_spec(status_or_empty(*status), generation, replicas, now@),
{
    let base = copy_status(status);
    let mut conds = conditions_of(&base);
    set_condition(&mut conds, PROGRESSING, STATUS_TRUE, SPEC_CHANGED, now);
    set_condition(&mut conds, READY, STATUS_FALSE, SPEC_CHANGED, now);
    RTResourceStatus {
        observed_generation: generation,
        desired_replicas: Some(replicas),
        replicas: base.replicas,
        conditions: Some(conds),
    }
}

/// The new status of a resource of which `running` pods run.
pub fn replicas_observed_status(
    status: &Option<RTResourceStatus>,
    running: i32,
    now: &String,
) -> (r: RTResourceStatus)
    ensures
        r@ == replicas_observed_spec(status_or_empty(*status), running, now@),
{
    let base = copy_status(status);
    let mut conds = conditions_of(&base);
    let desired = match base.desired_replicas {
        Some(d) => d,
        None => 0,
    };
    if running == desired {
        set_condition(&mut conds, PROGRESSING, STATUS_FALSE, ALL_RUNNING, now);
        set_condition(&mut conds, READY, STATUS_TRUE, ALL_RUNNING, now);
    }
    RTResourceStatus {
        observed_generation: base.observed_generation,
        desired_replicas: base.desired_replicas,
        replicas: Some(running),
        conditions: Some(conds),
    }
}

fn has_progressing_true(c: &Vec<Condition>) -> (r: bool)
    ensures
        r == has_condition(c@.map_values(|x: Condition| x@), PROGRESSING@, STATUS_TRUE@),
{
    let ghost s = c@.map_values(|x: Condition| x@);
    let ty = String::from_str(PROGRESSING);
    let yes = String::from_str(STATUS_TRUE);
    let mut i: usize = 0;
    while i < c.len()
        invariant
            s == c@.map_values(|x: Condition| x@),
            ty@ == PROGRESSING@,
            yes@ == STATUS_TRUE@,
            i <= c@.len(),
            forall|j: int|
                0 <= j < i ==> !((#[trigger] s[j]).condition_type == PROGRESSING@ && s[j].status
                    == STATUS_TRUE@),
        decreases c@.len() - i,
    {
        assert(s[i as int] == c@[i as int]@);
        if c[i].condition_type == ty && c[i].status == yes {
            assert(s[i as int].condition_type == PROGRESSING@ && s[i as int].status
                == STATUS_TRUE@);
            return true;
        }
        i = i + 1;
    }
    false
}

/// Whether the status holds a `Progressing` condition that is `True`.
pub fn is_progressing(status: &Option<RTResourceStatus>) -> (r: bool)
    ensures
        r == is_progressing_spec(*status),
{
    match status {
        Some(st) => match &st.conditions {
            Some(c) => has_progressing_true(c),
            None => false,
        },
        None => false,
    }
}

/// Every condition of type `ty` is `c`, and there is at least one.
pub open spec fn conditions_set_to(s: Seq<ConditionView>, ty: Seq<char>, c: ConditionView) -> bool {
    &&& exists|i: int| 0 <= i < s.len() && (#[trigger] s[i]).condition_type == ty
    &&& forall|i: int| 0 <= i < s.len() && (#[trigger] s[i]).condition_type == ty ==> s[i] == c
}

proof fn lemma_set_condition_effect(
    s: Seq<ConditionView>,
    ty: Seq<char>,
    status: Seq<char>,
    text: Seq<char>,
    now: Seq<char>,
)
    ensures
        conditions_set_to(
            set_condition_spec(s, ty, status, text, now),
            ty,
            condition_of(ty, status, text, now),
        ),
{
    let t = set_condition_spec(s, ty, status, text, now);
    if exists|i: int| 0 <= i < s.len() && (#[trigger] s[i]).condition_type == ty {
        let i = choose|i: int| 0 <= i < s.len() && (#[trigger] s[i]).condition_type == ty;
        assert(t[i].condition_type == ty);
    } else {
        assert(t[s.len() as int].condition_type == ty);
        assert forall|i: int| 0 <= i < t.len() && (#[trigger] t[i]).condition_type == ty implies t[i]
            == condition_of(ty, status, text, now) by {
            if i < s.len() {
                assert(t[i] == s[i]);
            }
        }
    }
}

proof fn lemma_set_condition_keeps(
    s: Seq<ConditionView>,
    ty: Seq<char>,
    status: Seq<char>,
    text: Seq<char>,
    now: Seq<char>,
    other: Seq<char>,
    c: ConditionView,
)
    requires
        other != ty,
        conditions_set_to(s, other, c),
    ensures
        conditions_set_to(set_condition_spec(s, ty, status, text, now), other, c),
{
    let t = set_condition_spec(s, ty, status, text, now);
    let i = choose|i: int| 0 <= i < s.len() && (#[trigger] s[i]).condition_type == other;
    assert(t[i] == s[i]);
    assert forall|j: int| 0 <= j < t.len() && (#[trigger] t[j]).condition_type == other implies t[j]
        == c by {
        if j < s.len() {
            assert(t[j] == s[j]);
        }
    }
}

proof fn lemma_set_condition_again(
    s: Seq<ConditionView>,
    ty: Seq<char>,
    status: Seq<char>,
    text: Seq<char>,
    now: Seq<char>,
)
    requires
        conditions_set_to(s, ty, condition_of(ty, status, text, now)),
    ensures
        set_condition_spec(s, ty, status, text, now) == s,
{
    assert(set_condition_spec(s, ty, status, text, now) =~= s);
}

proof fn lemma_condition_names_differ()
    ensures
        PROGRESSING@ != READY@,
        STATUS_TRUE@ != STATUS_FALSE@,
{
    reveal_strlit("Progressing");
    reveal_strlit("Ready");
    reveal_strlit("True");
    reveal_strlit("False");
    assert(PROGRESSING@.len() != READY@.len());
    assert(STATUS_TRUE@.len() != STATUS_FALSE@.len());
}

/// Starting a reconciliation twice in a row, with the same generation,
/// replica count and time, leaves the status as starting it once does.
pub proof fn lemma_spec_changed_idempotent(
    old: StatusView,
    generation: Option<i64>,
    replicas: i32,
    now: Seq<char>,
)
    ensures
        spec_changed_spec(spec_changed_spec(old, generation, replicas, now), generation, replicas, now)
            == spec_changed_spec(old, generation, replicas, now),
{
    lemma_condition_names_differ();
    let c0 = conditions_or_empty(old);
    let c1 = set_condition_spec(c0, PROGRESSING@, STATUS_TRUE@, SPEC_CHANGED@, now);
    let c2 = set_condition_spec(c1, READY@, STATUS_FALSE@, SPEC_CHANGED@, now);
    lemma_set_condition_effect(c0, PROGRESSING@, STATUS_TRUE@, SPEC_CHANGED@, now);
    lemma_set_condition_effect(c1, READY@, STATUS_FALSE@, SPEC_CHANGED@, now);
    lemma_set_condition_keeps(
        c1,
        READY@,
        STATUS_FALSE@,
        SPEC_CHANGED@,
        now,
        PROGRESSING@,
        condition_of(PROGRESSING@, STATUS_TRUE@, SPEC_CHANGED@, now),
    );
    lemma_set_condition_again(c2, PROGRESSING@, STATUS_TRUE@, SPEC_CHANGED@, now);
    lemma_set_condition_again(c2, READY@, STATUS_FALSE@, SPEC_CHANGED@, now);
}

/// Once a reconciliation has started for `want` replicas and `want` pods
/// are seen running, the status records them, `Ready` is true, and no
/// `Progressing` condition is true any more.
pub proof fn lemma_reconciled_resource_settles(
    old: StatusView,
    generation: Option<i64>,
    want: i32,
    started: Seq<char>,
    seen: Seq<char>,
)
    ensures
        ({
            let s = replicas_observed_spec(
                spec_changed_spec(old, generation, want, started),
                want,
                seen,
            );
            let c = conditions_or_empty(s);
            &&& s.replicas == Some(want)
            &&& s.desired_replicas == Some(want)
            &&& has_condition(c, READY@, STATUS_TRUE@)
            &&& has_condition(c, PROGRESSING@, STATUS_FALSE@)
            &&& !has_condition(c, PROGRESSING@, STATUS_TRUE@)
        }),
{
    lemma_condition_names_differ();
    let c0 = conditions_or_empty(spec_changed_spec(old, generation, want, started));
    let c1 = set_condition_spec(c0, PROGRESSING@, STATUS_FALSE@, ALL_RUNNING@, seen);
    let c2 = set_condition_spec(c1, READY@, STATUS_TRUE@, ALL_RUNNING@, seen);
    lemma_set_condition_effect(c0, PROGRESSING@, STATUS_FALSE@, ALL_RUNNING@, seen);
    lemma_set_condition_effect(c1, READY@, STATUS_TRUE@, ALL_RUNNING@, seen);
    lemma_set_condition_keeps(
        c1,
        READY@,
        STATUS_TRUE@,
        ALL_RUNNING@,
        seen,
        PROGRESSING@,
        condition_of(PROGRESSING@, STATUS_FALSE@, ALL_RUNNING@, seen),
    );
    let i = choose|i: int| 0 <= i < c2.len() && (#[trigger] c2[i]).condition_type == READY@;
    assert(c2[i].status == STATUS_TRUE@);
    let j = choose|j: int| 0 <= j < c2.len() && (#[trigger] c2[j]).condition_type == PROGRESSING@;
    assert(c2[j].status == STATUS_FALSE@);
}

/// Relies on chrono's `Utc::now().to_rfc3339()`: the current time as RFC
/// 3339 text. Nothing is stated of its value, which depends on the clock.
#[verifier::external_body]
fn current_time() -> (r: String) {
    chrono::Utc::now().to_rfc3339()
}

/// The new status of a resource whose reconciliation starts now.
pub fn mark_spec_changed(status: &Option<RTResourceStatus>, generation: Option<i64>, replicas: i32) -> (r:
    RTResourceStatus)
    ensures
        exists|now: Seq<char>|
            r@ == #[trigger] spec_changed_spec(status_or_empty(*status), generation, replicas, now),
{
    let now = current_time();
    spec_changed_status(status, generation, replicas, &now)
}

/// The new status of a resource of which `running` pods run, as seen now.
pub fn mark_replicas_observed(status: &Option<RTResourceStatus>, running: i32) -> (r:
    RTResourceStatus)
    ensures
        exists|now: Seq<char>| r@ == #[trigger] replicas_observed_spec(status_or_empty(*status), running, now),
{
    let now = current_time();
    replicas_observed_status(status, running, &now)
}

} // verus!
