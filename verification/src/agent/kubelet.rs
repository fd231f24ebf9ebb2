//! Pod metadata from the node-local kubelet `/pods` endpoint.
//!
//! The request and the JSON decoding are the caller's; this module turns a
//! decoded pod into the metadata the agent records.

use vstd::prelude::*;
use vstd::string::*;
use crate::text::{
    chars_eq, chars_of, lemma_rfind, occurs_at, push_str, rfind, rfind_spec, slice_chars,
    string_of,
};
use crate::quantity::{cpu_millis_spec, mem_bytes_spec, parse_cpu_millis, parse_mem_bytes};

verus! {

pub struct PodMeta {
    pub uid: String,
    pub name: String,
    pub namespace: String,
    pub labels: Vec<(String, String)>,
    pub workload_kind: String,
    pub workload_name: String,
    pub qos_class: String,
    pub cpu_request_millis: u64,
    pub cpu_limit_millis: u64,
    pub mem_request_bytes: u64,
    pub mem_limit_bytes: u64,
}

/// An owner reference of a pod.
pub struct OwnerReference {
    pub kind: String,
    pub name: String,
    pub controller: bool,
}

/// The metadata of a pod as the kubelet reports it. `labels` holds each key once.
pub struct Metadata {
    pub name: String,
    pub namespace: String,
    pub uid: String,
    pub labels: Vec<(String, String)>,
    pub owner_references: Vec<OwnerReference>,
}

/// Requests and limits of a container, each key at most once.
pub struct Resources {
    pub requests: Vec<(String, String)>,
    pub limits: Vec<(String, String)>,
}

pub struct Container {
    pub resources: Resources,
}

pub struct Spec {
    pub containers: Vec<Container>,
}

pub struct Status {
    pub qos_class: Option<String>,
}

/// A pod from the kubelet's `/pods` list.
pub struct Pod {
    pub metadata: Metadata,
    pub spec: Spec,
    pub status: Status,
}

// ---------------------------------------------------------------------------
// Workload resolution
// ---------------------------------------------------------------------------

/// Index of the first owner reference marked as controller, at or after `i`.
pub open spec fn first_controller(refs: Seq<(String, String, bool)>, i: int) -> Option<int>
    decreases refs.len() - i,
{
    if i < 0 || i >= refs.len() {
        None
    } else if refs[i].2 {
        Some(i)
    } else {
        first_controller(refs, i + 1)
    }
}

/// The reference that decides the workload: the first controller, otherwise the first one.
pub open spec fn controlling_ref(refs: Seq<(String, String, bool)>) -> Option<int> {
    match first_controller(refs, 0) {
        Some(i) => Some(i),
        None => if refs.len() > 0 {
            Some(0)
        } else {
            None
        },
    }
}

/// The Deployment behind a ReplicaSet name: everything before the last `-`,
/// when that is not empty; otherwise the name itself.
pub open spec fn deployment_of(rs: Seq<char>) -> Seq<char> {
    match rfind_spec(rs, "-"@) {
        Some(k) => if k > 0 {
            rs.subrange(0, k)
        } else {
            rs
        },
        None => rs,
    }
}

/// What `resolve_workload` returns: `(kind, name)` of the controlling workload.
pub open spec fn workload_spec(refs: Seq<(String, String, bool)>, pod_name: Seq<char>) -> (
    Seq<char>,
    Seq<char>,
) {
    match controlling_ref(refs) {
        Some(i) => if refs[i].0@ == "ReplicaSet"@ {
            ("Deployment"@, deployment_of(refs[i].1@))
        } else {
            (refs[i].0@, refs[i].1@)
        },
        None => ("Pod"@, pod_name),
    }
}

/// Resolves the controlling workload from owner references.
/// ReplicaSets are mapped back to their Deployment by stripping the
/// pod-template-hash suffix from the ReplicaSet name.
pub fn resolve_workload(owner_refs: &[(String, String, bool)], pod_name: &str) -> (r: (
    String,
    String,
))
    ensures
        r.0@ == workload_spec(owner_refs@, pod_name@).0,
        r.1@ == workload_spec(owner_refs@, pod_name@).1,
{
    let mut i: usize = 0;
    while i < owner_refs.len() && !owner_refs[i].2
        invariant
            i <= owner_refs@.len(),
            first_controller(owner_refs@, 0) == first_controller(owner_refs@, i as int),
        decreases owner_refs.len() - i,
    {
        i += 1;
    }
    let idx: Option<usize> = if i < owner_refs.len() {
        Some(i)
    } else if owner_refs.len() > 0 {
        Some(0)
    } else {
        None
    };
    assert(match controlling_ref(owner_refs@) {
        Some(k) => idx == Some(k as usize) && 0 <= k < owner_refs@.len(),
        None => idx is None,
    });
    match idx {
        Some(k) => {
            let kind = &owner_refs[k].0;
            let name = &owner_refs[k].1;
            let replica_set = chars_of("ReplicaSet");
            let kind_chars = chars_of(kind.as_str());
            if chars_eq(&kind_chars, &replica_set) {
                let name_chars = chars_of(name.as_str());
                let dash = chars_of("-");
                let deployment = match rfind(&name_chars, &dash) {
                    Some(at) => if at > 0 {
                        string_of(&slice_chars(&name_chars, 0, at))
                    } else {
                        name.clone()
                    },
                    None => name.clone(),
                };
                (String::from_str("Deployment"), deployment)
            } else {
                (kind.clone(), name.clone())
            }
        },
        None => (String::from_str("Pod"), String::from_str(pod_name)),
    }
}

// ---------------------------------------------------------------------------
// Requests and limits
// ---------------------------------------------------------------------------

/// The value stored under `key`, looked up from index `i` on.
pub open spec fn lookup_from(entries: Seq<(String, String)>, key: Seq<char>, i: int) -> Option<
    Seq<char>,
>
    decreases entries.len() - i,
{
    if i < 0 || i >= entries.len() {
        None
    } else if entries[i].0@ == key {
        Some(entries[i].1@)
    } else {
        lookup_from(entries, key, i + 1)
    }
}

/// The value stored under `key`.
pub open spec fn lookup(entries: Seq<(String, String)>, key: Seq<char>) -> Option<Seq<char>> {
    lookup_from(entries, key, 0)
}

fn lookup_exec(entries: &Vec<(String, String)>, key: &[char]) -> (r: Option<Vec<char>>)
    ensures
        match lookup(entries@, key@) {
            Some(v) => r matches Some(x) && x@ == v,
            None => r is None,
        },
{
    let mut i: usize = 0;
    while i < entries.len()
        invariant
            i <= entries@.len(),
            lookup(entries@, key@) == lookup_from(entries@, key@, i as int),
        decreases entries.len() - i,
    {
        let k = chars_of(entries[i].0.as_str());
        if chars_eq(&k, key) {
            return Some(chars_of(entries[i].1.as_str()));
        }
        i += 1;
    }
    None
}

/// Which resource list of a container is summed.
#[derive(Clone, Copy, Debug, PartialEq, Eq, Structural)]
pub enum Section {
    Requests,
    Limits,
}

/// Which quantity parser applies.
#[derive(Clone, Copy, Debug, PartialEq, Eq, Structural)]
pub enum Unit {
    /// CPU, in millicores.
    Cpu,
    /// Memory, in bytes.
    Memory,
}

pub open spec fn section_of(c: Container, section: Section) -> Seq<(String, String)> {
    match section {
        Section::Requests => c.resources.requests@,
        Section::Limits => c.resources.limits@,
    }
}

pub open spec fn parse_unit(q: Seq<char>, unit: Unit) -> Option<u64> {
    match unit {
        Unit::Cpu => cpu_millis_spec(q),
        Unit::Memory => mem_bytes_spec(q),
    }
}

/// A container's parsed quantity under `key`; absent or unparsable count as 0.
pub open spec fn container_quantity(c: Container, section: Section, key: Seq<char>, unit: Unit) -> nat {
    match lookup(section_of(c, section), key) {
        Some(q) => match parse_unit(q, unit) {
            Some(v) => v as nat,
            None => 0,
        },
        None => 0,
    }
}

/// The sum over containers of their quantity under `key`.
pub open spec fn quantity_sum(cs: Seq<Container>, section: Section, key: Seq<char>, unit: Unit) -> nat
    decreases cs.len(),
{
    if cs.len() == 0 {
        0
    } else {
        quantity_sum(cs.drop_last(), section, key, unit) + container_quantity(
            cs.last(),
            section,
            key,
            unit,
        )
    }
}

pub proof fn lemma_quantity_sum_prefix(
    cs: Seq<Container>,
    i: int,
    section: Section,
    key: Seq<char>,
    unit: Unit,
)
    requires
        0 <= i <= cs.len(),
    ensures
        quantity_sum(cs.subrange(0, i), section, key, unit) <= quantity_sum(cs, section, key, unit),
    decreases cs.len(),
{
    if i < cs.len() {
        assert(cs.drop_last() =~= cs.subrange(0, cs.len() - 1));
        lemma_quantity_sum_prefix(cs.drop_last(), i, section, key, unit);
        assert(cs.drop_last().subrange(0, i) =~= cs.subrange(0, i));
    } else {
        assert(cs.subrange(0, i) =~= cs);
    }
}

/// Sums one quantity over the containers of a pod.
fn sum_quantities(containers: &Vec<Container>, section: Section, key: &str, unit: Unit) -> (r: u64)
    requires
        quantity_sum(containers@, section, key@, unit) <= u64::MAX,
    ensures
        r == quantity_sum(containers@, section, key@, unit),
{
    let key_chars = chars_of(key);
    let mut total: u64 = 0;
    let mut i: usize = 0;
    while i < containers.len()
        invariant
            i <= containers@.len(),
            key_chars@ == key@,
            quantity_sum(containers@, section, key@, unit) <= u64::MAX,
            total == quantity_sum(containers@.subrange(0, i as int), section, key@, unit),
        decreases containers.len() - i,
    {
        let c = &containers[i];
        let entries = match section {
            Section::Requests => &c.resources.requests,
            Section::Limits => &c.resources.limits,
        };
        let value: u64 = match lookup_exec(entries, &key_chars) {
            Some(q) => {
                let qs = string_of(&q);
                let parsed = match unit {
                    Unit::Cpu => parse_cpu_millis(qs.as_str()),
                    Unit::Memory => parse_mem_bytes(qs.as_str()),
                };
                match parsed {
                    Some(v) => v,
                    None => 0,
                }
            },
            None => 0,
        };
        proof {
            assert(containers@.subrange(0, i + 1).drop_last() =~= containers@.subrange(0, i as int));
            assert(containers@.subrange(0, i + 1).last() == *c);
            lemma_quantity_sum_prefix(containers@, i + 1, section, key@, unit);
        }
        total = total + value;
        i += 1;
    }
    assert(containers@.subrange(0, containers@.len() as int) =~= containers@);
    total
}

/// The four sums of a pod fit in `u64`.
pub open spec fn pod_totals_fit_spec(pod: Pod) -> bool {
    let cs = pod.spec.containers@;
    &&& quantity_sum(cs, Section::Requests, "cpu"@, Unit::Cpu) <= u64::MAX
    &&& quantity_sum(cs, Section::Limits, "cpu"@, Unit::Cpu) <= u64::MAX
    &&& quantity_sum(cs, Section::Requests, "memory"@, Unit::Memory) <= u64::MAX
    &&& quantity_sum(cs, Section::Limits, "memory"@, Unit::Memory) <= u64::MAX
}

fn sum_fits(containers: &Vec<Container>, section: Section, key: &str, unit: Unit) -> (r: bool)
    ensures
        r == (quantity_sum(containers@, section, key@, unit) <= u64::MAX),
{
    let key_chars = chars_of(key);
    let mut total: u64 = 0;
    let mut i: usize = 0;
    while i < containers.len()
        invariant
            i <= containers@.len(),
            key_chars@ == key@,
            total == quantity_sum(containers@.subrange(0, i as int), section, key@, unit),
        decreases containers.len() - i,
    {
        let c = &containers[i];
        let entries = match section {
            Section::Requests => &c.resources.requests,
            Section::Limits => &c.resources.limits,
        };
        let value: u64 = match lookup_exec(entries, &key_chars) {
            Some(q) => {
                let qs = string_of(&q);
                let parsed = match unit {
                    Unit::Cpu => parse_cpu_millis(qs.as_str()),
                    Unit::Memory => parse_mem_bytes(qs.as_str()),
                };
                match parsed {
                    Some(v) => v,
                    None => 0,
                }
            },
            None => 0,
        };
        proof {
            assert(containers@.subrange(0, i + 1).drop_last() =~= containers@.subrange(0, i as int));
            assert(containers@.subrange(0, i + 1).last() == *c);
        }
        if total > u64::MAX - value {
            proof {
                lemma_quantity_sum_prefix(containers@, i + 1, section, key@, unit);
            }
            return false;
        }
        total = total + value;
        i += 1;
    }
    assert(containers@.subrange(0, containers@.len() as int) =~= containers@);
    true
}

/// Whether `to_meta` can sum this pod's requests and limits without overflow.
pub fn pod_totals_fit(pod: &Pod) -> (r: bool)
    ensures
        r == pod_totals_fit_spec(*pod),
{
    let cs = &pod.spec.containers;
    sum_fits(cs, Section::Requests, "cpu", Unit::Cpu) && sum_fits(
        cs,
        Section::Limits,
        "cpu",
        Unit::Cpu,
    ) && sum_fits(cs, Section::Requests, "memory", Unit::Memory) && sum_fits(
        cs,
        Section::Limits,
        "memory",
        Unit::Memory,
    )
}

/// The owner references as `(kind, name, controller)` triples.
pub open spec fn ref_triples(refs: Seq<OwnerReference>) -> Seq<(String, String, bool)> {
    refs.map_values(|o: OwnerReference| (o.kind, o.name, o.controller))
}

/// Turns a pod from the kubelet into the agent's metadata record.
pub fn to_meta(pod: Pod) -> (meta: PodMeta)
    requires
        pod_totals_fit_spec(pod),
    ensures
        meta.uid@ == pod.metadata.uid@,
        meta.name@ == pod.metadata.name@,
        meta.namespace@ == pod.metadata.namespace@,
        meta.labels@ == pod.metadata.labels@,
        meta.workload_kind@ == workload_spec(
            ref_triples(pod.metadata.owner_references@),
            pod.metadata.name@,
        ).0,
        meta.workload_name@ == workload_spec(
            ref_triples(pod.metadata.owner_references@),
            pod.metadata.name@,
        ).1,
        meta.qos_class@ == match pod.status.qos_class {
            Some(q) => q@,
            None => Seq::<char>::empty(),
        },
        meta.cpu_request_millis == quantity_sum(
            pod.spec.containers@,
            Section::Requests,
            "cpu"@,
            Unit::Cpu,
        ),
        meta.cpu_limit_millis == quantity_sum(
            pod.spec.containers@,
            Section::Limits,
            "cpu"@,
            Unit::Cpu,
        ),
        meta.mem_request_bytes == quantity_sum(
            pod.spec.containers@,
            Section::Requests,
            "memory"@,
            Unit::Memory,
        ),
        meta.mem_limit_bytes == quantity_sum(
            pod.spec.containers@,
            Section::Limits,
            "memory"@,
            Unit::Memory,
        ),
{
    let mut owner_refs: Vec<(String, String, bool)> = Vec::new();
    let refs = &pod.metadata.owner_references;
    let mut i: usize = 0;
    while i < refs.len()
        invariant
            i <= refs@.len(),
            owner_refs@ == ref_triples(refs@).subrange(0, i as int),
        decreases refs.len() - i,
    {
        let o = &refs[i];
        owner_refs.push((o.kind.clone(), o.name.clone(), o.controller));
        assert(owner_refs@ =~= ref_triples(refs@).subrange(0, i + 1));
        i += 1;
    }
    assert(owner_refs@ =~= ref_triples(refs@));
    let (workload_kind, workload_name) = resolve_workload(
        owner_refs.as_slice(),
        pod.metadata.name.as_str(),
    );
    let cpu_request_millis = sum_quantities(
        &pod.spec.containers,
        Section::Requests,
        "cpu",
        Unit::Cpu,
    );
    let cpu_limit_millis = sum_quantities(&pod.spec.containers, Section::Limits, "cpu", Unit::Cpu);
    let mem_request_bytes = sum_quantities(
        &pod.spec.containers,
        Section::Requests,
        "memory",
        Unit::Memory,
    );
    let mem_limit_bytes = sum_quantities(
        &pod.spec.containers,
        Section::Limits,
        "memory",
        Unit::Memory,
    );
    let qos_class = match pod.status.qos_class {
        Some(q) => q,
        None => String::new(),
    };
    PodMeta {
        uid: pod.metadata.uid,
        name: pod.metadata.name,
        namespace: pod.metadata.namespace,
        labels: pod.metadata.labels,
        workload_kind,
        workload_name,
        qos_class,
        cpu_request_millis,
        cpu_limit_millis,
        mem_request_bytes,
        mem_limit_bytes,
    }
}

/// `s` without its trailing `'/'` characters.
pub open spec fn trim_slashes(s: Seq<char>) -> Seq<char>
    decreases s.len(),
{
    if s.len() > 0 && s.last() == '/' {
        trim_slashes(s.drop_last())
    } else {
        s
    }
}

/// The URL of the kubelet's pod list: the base URL without trailing
/// slashes, then `/pods`.
pub fn pods_url(kubelet_url: &str) -> (r: String)
    ensures
        r@ == trim_slashes(kubelet_url@) + "/pods"@,
{
    let chars = chars_of(kubelet_url);
    let mut end = chars.len();
    assert(chars@.subrange(0, end as int) =~= chars@);
    while end > 0 && chars[end - 1] == '/'
        invariant
            end <= chars@.len(),
            chars@ == kubelet_url@,
            trim_slashes(kubelet_url@) == trim_slashes(chars@.subrange(0, end as int)),
        decreases end,
    {
        assert(chars@.subrange(0, end as int).drop_last() =~= chars@.subrange(0, end - 1));
        end -= 1;
    }
    let mut out = slice_chars(&chars, 0, end);
    push_str(&mut out, "/pods");
    string_of(&out)
}

// ---------------------------------------------------------------------------
// Laws of workload resolution
// ---------------------------------------------------------------------------

proof fn lemma_first_controller_at(refs: Seq<(String, String, bool)>, k: int, i: int)
    requires
        0 <= k <= i < refs.len(),
        refs[i].2,
        forall|j: int| 0 <= j < i ==> !refs[j].2,
    ensures
        first_controller(refs, k) == Some(i),
    decreases i - k,
{
    if k < i {
        lemma_first_controller_at(refs, k + 1, i);
    }
}

proof fn lemma_no_controller(refs: Seq<(String, String, bool)>, k: int)
    requires
        0 <= k,
        forall|j: int| 0 <= j < refs.len() ==> !refs[j].2,
    ensures
        first_controller(refs, k) is None,
    decreases refs.len() - k,
{
    if k < refs.len() {
        lemma_no_controller(refs, k + 1);
    }
}

/// A controlling owner reference of any kind but `ReplicaSet` is the
/// workload itself: its kind and name pass through unchanged. The
/// controlling reference is the first one marked as controller.
pub proof fn law_controller_passes_through(
    refs: Seq<(String, String, bool)>,
    pod_name: Seq<char>,
    i: int,
)
    requires
        0 <= i < refs.len(),
        refs[i].2,
        forall|j: int| 0 <= j < i ==> !refs[j].2,
        refs[i].0@ != "ReplicaSet"@,
    ensures
        workload_spec(refs, pod_name) == (refs[i].0@, refs[i].1@),
{
    lemma_first_controller_at(refs, 0, i);
}

/// Without a reference marked as controller, the first reference decides;
/// a kind other than `ReplicaSet` passes through unchanged. A pod without
/// owner references is its own workload, of kind `Pod`.
pub proof fn law_first_reference_or_bare_pod(refs: Seq<(String, String, bool)>, pod_name: Seq<char>)
    ensures
        refs.len() == 0 ==> workload_spec(refs, pod_name) == ("Pod"@, pod_name),
        refs.len() > 0 && (forall|j: int| 0 <= j < refs.len() ==> !refs[j].2) && refs[0].0@
            != "ReplicaSet"@ ==> workload_spec(refs, pod_name) == (refs[0].0@, refs[0].1@),
{
    if refs.len() > 0 && (forall|j: int| 0 <= j < refs.len() ==> !refs[j].2) {
        lemma_no_controller(refs, 0);
    }
}

/// A controlling ReplicaSet named `<deployment>-<hash>` (the hash holding no
/// dash, the deployment name not empty) resolves to that Deployment.
pub proof fn law_replicaset_resolves_to_deployment(
    refs: Seq<(String, String, bool)>,
    pod_name: Seq<char>,
    i: int,
    deployment: Seq<char>,
    hash: Seq<char>,
)
    requires
        0 <= i < refs.len(),
        refs[i].2,
        forall|j: int| 0 <= j < i ==> !refs[j].2,
        refs[i].0@ == "ReplicaSet"@,
        refs[i].1@ == deployment + seq!['-'] + hash,
        deployment.len() > 0,
        forall|j: int| 0 <= j < hash.len() ==> hash[j] != '-',
    ensures
        workload_spec(refs, pod_name) == ("Deployment"@, deployment),
{
    lemma_first_controller_at(refs, 0, i);
    let n = refs[i].1@;
    let d = deployment.len() as int;
    reveal_strlit("-");
    assert("-"@ =~= seq!['-']);
    assert(n.subrange(d, d + 1) =~= seq!['-']);
    assert(occurs_at(n, "-"@, d));
    lemma_rfind(n, "-"@);
    let k = rfind_spec(n, "-"@)->0;
    if k > d {
        assert(n.subrange(k, k + 1)[0] == n[k]);
        assert(n[k] == hash[k - d - 1]);
    }
    assert(n.subrange(0, d) =~= deployment);
}

/// A controlling ReplicaSet whose name holds no dash, or only a leading one,
/// resolves to a Deployment of the same name.
pub proof fn law_replicaset_without_hash_keeps_name(
    refs: Seq<(String, String, bool)>,
    pod_name: Seq<char>,
    i: int,
)
    requires
        0 <= i < refs.len(),
        refs[i].2,
        forall|j: int| 0 <= j < i ==> !refs[j].2,
        refs[i].0@ == "ReplicaSet"@,
        forall|j: int| 0 < j < refs[i].1@.len() ==> refs[i].1@[j] != '-',
    ensures
        workload_spec(refs, pod_name) == ("Deployment"@, refs[i].1@),
{
    lemma_first_controller_at(refs, 0, i);
    let n = refs[i].1@;
    reveal_strlit("-");
    lemma_rfind(n, "-"@);
    if let Some(k) = rfind_spec(n, "-"@) {
        if k > 0 {
            assert(n.subrange(k, k + 1)[0] == n[k]);
        }
    }
}

} // verus!
