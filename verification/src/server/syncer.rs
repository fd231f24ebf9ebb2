//! What the syncer records of a node: its allocatable CPU and memory.

use vstd::prelude::*;
use crate::quantity::{cpu_millis_spec, mem_bytes_spec, parse_cpu_millis, parse_mem_bytes};

verus! {

/// Allocatable `(millicores, bytes)` from a node's `cpu` and `memory`
/// quantities; an absent or unparsable quantity gives 0, and the millicores
/// are truncated to `u32`.
pub open spec fn allocatable_spec(cpu: Option<Seq<char>>, memory: Option<Seq<char>>) -> (u32, u64) {
    let c: u64 = match cpu {
        Some(q) => match cpu_millis_spec(q) {
            Some(v) => v,
            None => 0,
        },
        None => 0,
    };
    let m: u64 = match memory {
        Some(q) => match mem_bytes_spec(q) {
            Some(v) => v,
            None => 0,
        },
        None => 0,
    };
    (c as u32, m)
}

pub fn allocatable(cpu: Option<&str>, memory: Option<&str>) -> (r: (u32, u64))
    ensures
        r == allocatable_spec(
            match cpu {
                Some(q) => Some(q@),
                None => None,
            },
            match memory {
                Some(q) => Some(q@),
                None => None,
            },
        ),
{
    let c: u64 = match cpu {
        Some(q) => match parse_cpu_millis(q) {
            Some(v) => v,
            None => 0,
        },
        None => 0,
    };
    let m: u64 = match memory {
        Some(q) => match parse_mem_bytes(q) {
            Some(v) => v,
            None => 0,
        },
        None => 0,
    };
    (c as u32, m)
}

} // verus!
