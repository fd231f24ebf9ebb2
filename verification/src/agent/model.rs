//! The metadata row written for a pod, built from its kubelet metadata.

use vstd::prelude::*;
use crate::agent::kubelet::PodMeta;

verus! {

/// A pod's metadata row. Labels map to a ClickHouse `Map(String, String)`.
pub struct PodMetaRow {
    pub pod_uid: String,
    pub namespace: String,
    pub pod_name: String,
    pub node: String,
    pub labels: Vec<(String, String)>,
    pub workload_kind: String,
    pub workload_name: String,
    pub updated_at: u32,
}

/// The label pairs as character sequences.
pub open spec fn label_views(ls: Seq<(String, String)>) -> Seq<(Seq<char>, Seq<char>)> {
    ls.map_values(|p: (String, String)| (p.0@, p.1@))
}

/// The metadata row of pod `pod_uid` on node `node`, written at `ts`.
pub fn meta_row(pod_uid: &String, meta: &PodMeta, node: &String, ts: u32) -> (r: PodMetaRow)
    ensures
        r.pod_uid@ == pod_uid@,
        r.namespace@ == meta.namespace@,
        r.pod_name@ == meta.name@,
        r.node@ == node@,
        label_views(r.labels@) == label_views(meta.labels@),
        r.workload_kind@ == meta.workload_kind@,
        r.workload_name@ == meta.workload_name@,
        r.updated_at == ts,
{
    let mut labels: Vec<(String, String)> = Vec::new();
    let mut i: usize = 0;
    while i < meta.labels.len()
        invariant
            i <= meta.labels@.len(),
            label_views(labels@) == label_views(meta.labels@.subrange(0, i as int)),
        decreases meta.labels.len() - i,
    {
        let k = String::from_str(meta.labels[i].0.as_str());
        let v = String::from_str(meta.labels[i].1.as_str());
        let ghost before = labels@;
        labels.push((k, v));
        proof {
            let src = meta.labels@;
            assert(src.subrange(0, i + 1) =~= src.subrange(0, i as int).push(src[i as int]));
            assert(label_views(labels@) =~= label_views(before).push((k@, v@)));
            assert(label_views(src.subrange(0, i as int).push(src[i as int])) =~= label_views(
                src.subrange(0, i as int),
            ).push((src[i as int].0@, src[i as int].1@)));
        }
        i += 1;
    }
    assert(meta.labels@.subrange(0, meta.labels@.len() as int) =~= meta.labels@);
    PodMetaRow {
        pod_uid: pod_uid.clone(),
        namespace: meta.namespace.clone(),
        pod_name: meta.name.clone(),
        node: node.clone(),
        labels,
        workload_kind: meta.workload_kind.clone(),
        workload_name: meta.workload_name.clone(),
        updated_at: ts,
    }
}

} // verus!
