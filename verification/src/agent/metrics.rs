//! Self-observability: the agent's counters and their Prometheus text
//! exposition. The shared atomic counters live with the caller, which renders
//! a snapshot of them.

use vstd::prelude::*;
use crate::text::{chars_eq, chars_of, decimal, fixed_point, push_decimal, push_fixed_point, push_str, string_of};

verus! {

/// A snapshot of the agent's counters.
#[derive(Clone, Copy, Debug, PartialEq, Eq, Structural)]
pub struct Metrics {
    pub cycles_total: u64,
    /// Duration of the last collection cycle, milliseconds.
    pub cycle_duration_ms: u64,
    /// Pods scraped in the last cycle.
    pub pods_scraped: u64,
    pub pod_usage_rows_total: u64,
    pub node_usage_rows_total: u64,
    pub pod_meta_rows_total: u64,
    pub insert_failures_total: u64,
    /// Rows currently waiting in the outage buffer.
    pub buffer_rows: u64,
    pub buffer_dropped_rows_total: u64,
}

/// The rows counter that a table's writes count toward.
#[derive(Clone, Copy, Debug, PartialEq, Eq, Structural)]
pub enum RowsCounter {
    PodUsage,
    NodeUsage,
    PodMeta,
}

/// `pod_usage` and `node_usage` have their own counters; every other table
/// counts toward the pod metadata counter.
pub open spec fn rows_counter_spec(table: Seq<char>) -> RowsCounter {
    if table == "pod_usage"@ {
        RowsCounter::PodUsage
    } else if table == "node_usage"@ {
        RowsCounter::NodeUsage
    } else {
        RowsCounter::PodMeta
    }
}

/// Which rows counter a table's writes count toward.
pub fn rows_counter_for(table: &str) -> (r: RowsCounter)
    ensures
        r == rows_counter_spec(table@),
{
    let t = chars_of(table);
    if chars_eq(&t, &chars_of("pod_usage")) {
        RowsCounter::PodUsage
    } else if chars_eq(&t, &chars_of("node_usage")) {
        RowsCounter::NodeUsage
    } else {
        RowsCounter::PodMeta
    }
}

/// The exposition text of a snapshot.
pub open spec fn render_spec(m: Metrics) -> Seq<char> {
    "# TYPE ekokube_agent_cycles_total counter\nekokube_agent_cycles_total "@ + decimal(
        m.cycles_total as nat,
    ) + "\n# TYPE ekokube_agent_cycle_duration_seconds gauge\nekokube_agent_cycle_duration_seconds "@
        + fixed_point(m.cycle_duration_ms as nat, 3, 1000)
        + "\n# TYPE ekokube_agent_pods_scraped gauge\nekokube_agent_pods_scraped "@ + decimal(
        m.pods_scraped as nat,
    )
        + "\n# TYPE ekokube_agent_rows_written_total counter\nekokube_agent_rows_written_total{table=\"pod_usage\"} "@
        + decimal(m.pod_usage_rows_total as nat)
        + "\nekokube_agent_rows_written_total{table=\"node_usage\"} "@ + decimal(
        m.node_usage_rows_total as nat,
    ) + "\nekokube_agent_rows_written_total{table=\"pod_meta\"} "@ + decimal(
        m.pod_meta_rows_total as nat,
    )
        + "\n# TYPE ekokube_agent_insert_failures_total counter\nekokube_agent_insert_failures_total "@
        + decimal(m.insert_failures_total as nat)
        + "\n# TYPE ekokube_agent_buffer_rows gauge\nekokube_agent_buffer_rows "@ + decimal(
        m.buffer_rows as nat,
    )
        + "\n# TYPE ekokube_agent_buffer_dropped_rows_total counter\nekokube_agent_buffer_dropped_rows_total "@
        + decimal(m.buffer_dropped_rows_total as nat) + "\n"@
}

impl Metrics {
    pub fn new() -> (m: Metrics)
        ensures
            m == (Metrics {
                cycles_total: 0,
                cycle_duration_ms: 0,
                pods_scraped: 0,
                pod_usage_rows_total: 0,
                node_usage_rows_total: 0,
                pod_meta_rows_total: 0,
                insert_failures_total: 0,
                buffer_rows: 0,
                buffer_dropped_rows_total: 0,
            }),
    {
        Metrics {
            cycles_total: 0,
            cycle_duration_ms: 0,
            pods_scraped: 0,
            pod_usage_rows_total: 0,
            node_usage_rows_total: 0,
            pod_meta_rows_total: 0,
            insert_failures_total: 0,
            buffer_rows: 0,
            buffer_dropped_rows_total: 0,
        }
    }

    /// The value of the rows counter that a table's writes count toward.
    pub fn rows_counter(&self, table: &str) -> (r: u64)
        ensures
            r == match rows_counter_spec(table@) {
                RowsCounter::PodUsage => self.pod_usage_rows_total,
                RowsCounter::NodeUsage => self.node_usage_rows_total,
                RowsCounter::PodMeta => self.pod_meta_rows_total,
            },
    {
        match rows_counter_for(table) {
            RowsCounter::PodUsage => self.pod_usage_rows_total,
            RowsCounter::NodeUsage => self.node_usage_rows_total,
            RowsCounter::PodMeta => self.pod_meta_rows_total,
        }
    }

    /// Counts `n` written rows for a table (wrapping, as an atomic add does).
    pub fn add_rows(&mut self, table: &str, n: u64)
        ensures
            ({
                let o = *old(self);
                let f = *final(self);
                match rows_counter_spec(table@) {
                    RowsCounter::PodUsage => f == Metrics {
                        pod_usage_rows_total: o.pod_usage_rows_total.wrapping_add(n),
                        ..o
                    },
                    RowsCounter::NodeUsage => f == Metrics {
                        node_usage_rows_total: o.node_usage_rows_total.wrapping_add(n),
                        ..o
                    },
                    RowsCounter::PodMeta => f == Metrics {
                        pod_meta_rows_total: o.pod_meta_rows_total.wrapping_add(n),
                        ..o
                    },
                }
            }),
    {
        match rows_counter_for(table) {
            RowsCounter::PodUsage => {
                self.pod_usage_rows_total = self.pod_usage_rows_total.wrapping_add(n);
            },
            RowsCounter::NodeUsage => {
                self.node_usage_rows_total = self.node_usage_rows_total.wrapping_add(n);
            },
            RowsCounter::PodMeta => {
                self.pod_meta_rows_total = self.pod_meta_rows_total.wrapping_add(n);
            },
        }
    }

    /// The Prometheus text exposition of the counters.
    pub fn render(&self) -> (s: String)
        ensures
            s@ == render_spec(*self),
    {
        let mut out: Vec<char> = Vec::new();
        push_str(&mut out, "# TYPE ekokube_agent_cycles_total counter\nekokube_agent_cycles_total ");
        push_decimal(&mut out, self.cycles_total);
        push_str(
            &mut out,
            "\n# TYPE ekokube_agent_cycle_duration_seconds gauge\nekokube_agent_cycle_duration_seconds ",
        );
        push_fixed_point(&mut out, self.cycle_duration_ms, 3, 1000);
        push_str(&mut out, "\n# TYPE ekokube_agent_pods_scraped gauge\nekokube_agent_pods_scraped ");
        push_decimal(&mut out, self.pods_scraped);
        push_str(
            &mut out,
            "\n# TYPE ekokube_agent_rows_written_total counter\nekokube_agent_rows_written_total{table=\"pod_usage\"} ",
        );
        push_decimal(&mut out, self.pod_usage_rows_total);
        push_str(&mut out, "\nekokube_agent_rows_written_total{table=\"node_usage\"} ");
        push_decimal(&mut out, self.node_usage_rows_total);
        push_str(&mut out, "\nekokube_agent_rows_written_total{table=\"pod_meta\"} ");
        push_decimal(&mut out, self.pod_meta_rows_total);
        push_str(
            &mut out,
            "\n# TYPE ekokube_agent_insert_failures_total counter\nekokube_agent_insert_failures_total ",
        );
        push_decimal(&mut out, self.insert_failures_total);
        push_str(&mut out, "\n# TYPE ekokube_agent_buffer_rows gauge\nekokube_agent_buffer_rows ");
        push_decimal(&mut out, self.buffer_rows);
        push_str(
            &mut out,
            "\n# TYPE ekokube_agent_buffer_dropped_rows_total counter\nekokube_agent_buffer_dropped_rows_total ",
        );
        push_decimal(&mut out, self.buffer_dropped_rows_total);
        push_str(&mut out, "\n");
        assert(out@ =~= render_spec(*self));
        string_of(&out)
    }
}

/// Rows written to `pod_usage` count as pod usage rows, rows written to
/// `node_usage` as node usage rows, and rows written to any other table as
/// pod metadata rows.
pub proof fn law_rows_counter_by_table(table: Seq<char>)
    ensures
        rows_counter_spec("pod_usage"@) == RowsCounter::PodUsage,
        table != "pod_usage"@ ==> rows_counter_spec(table) != RowsCounter::PodUsage,
        table == "node_usage"@ ==> rows_counter_spec(table) == RowsCounter::NodeUsage,
        table != "pod_usage"@ && table != "node_usage"@ ==> rows_counter_spec(table)
            == RowsCounter::PodMeta,
{
    reveal_strlit("pod_usage");
    reveal_strlit("node_usage");
    if table == "node_usage"@ {
        assert("node_usage"@ != "pod_usage"@) by {
            assert("node_usage"@[0] != "pod_usage"@[0]);
        }
    }
}

} // verus!
