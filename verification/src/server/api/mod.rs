//! Query parameters shared by the API endpoints and the choices they imply:
//! time range, rollup table, bucket size, sorting and paging.


use vstd::prelude::*;
pub mod auth;
pub mod metrics;
pub mod namespaces;
pub mod nodes;
pub mod overview;
pub mod pods;
pub mod tenants;
pub mod timeseries;
pub mod workloads;

use crate::text::{chars_eq, chars_of, push_str, string_of};
pub use crate::clock::now_epoch;

verus! {

/// Common query parameters. Times are unix seconds; default range is the last 24h.
pub struct RangeQuery {
    pub from: Option<u32>,
    pub to: Option<u32>,
    pub namespace: Option<String>,
    pub workload: Option<String>,
    pub sort_by: Option<String>,
    pub order: Option<String>,
    pub limit: Option<u32>,
    pub offset: Option<u32>,
}

pub open spec fn sat_sub(a: u32, b: u32) -> u32 {
    if a >= b {
        (a - b) as u32
    } else {
        0
    }
}

/// Seconds in a day.
pub open spec fn day() -> u32 {
    86400
}

/// The range a query asks for when the clock reads `now`: `to` defaults to
/// now, `from` to a day before `to`; `from` is clamped to at most `to`.
pub open spec fn range_spec(q: RangeQuery, now: u32) -> (u32, u32) {
    let to = match q.to {
        Some(t) => t,
        None => now,
    };
    let from = match q.from {
        Some(f) => f,
        None => sat_sub(to, day()),
    };
    (if from <= to {
        from
    } else {
        to
    }, to)
}

/// Ranges longer than three days read the daily rollup.
pub open spec fn use_daily_spec(q: RangeQuery, now: u32) -> bool {
    let (from, to) = range_spec(q, now);
    sat_sub(to, from) > 3 * day()
}

/// `(table, time column)` of the pod-usage rollup for the range.
pub open spec fn pod_source_spec(q: RangeQuery, now: u32) -> (Seq<char>, Seq<char>) {
    if use_daily_spec(q, now) {
        ("pod_usage_1d"@, "day"@)
    } else {
        ("pod_usage_1h"@, "hour"@)
    }
}

/// The range snapped down to the rollup bucket (hour or day), at least a minute long.
pub open spec fn pod_range_spec(q: RangeQuery, now: u32) -> (u32, u32) {
    let (from, to) = range_spec(q, now);
    let bucket: u32 = if use_daily_spec(q, now) {
        day()
    } else {
        3600
    };
    let f = (from / bucket * bucket) as u32;
    (f, if to >= f + 60 {
        to
    } else {
        (f + 60) as u32
    })
}

/// The WHERE fragment (two `?` for the pod range) on the rollup's time column.
pub open spec fn pod_where_spec(q: RangeQuery, now: u32) -> Seq<char> {
    if use_daily_spec(q, now) {
        "day >= toDate(toDateTime(?)) AND day < toDate(toDateTime(?))"@
    } else {
        "hour >= toDateTime(?) AND hour < toDateTime(?)"@
    }
}

/// Length of the pod range in seconds; sum(resource_secs) / window is the
/// average concurrent usage.
pub open spec fn window_spec(q: RangeQuery, now: u32) -> u32 {
    let (from, to) = pod_range_spec(q, now);
    (to - from) as u32
}

/// The page size: 50 by default, at most 500.
pub open spec fn limit_spec(q: RangeQuery) -> u32 {
    let l = match q.limit {
        Some(l) => l,
        None => 50,
    };
    if l <= 500 {
        l
    } else {
        500
    }
}

/// The sort column: the requested one when it is allowed, otherwise the default.
pub open spec fn sort_column(q: RangeQuery, allowed: Seq<&'static str>, default: Seq<char>) -> Seq<
    char,
> {
    match q.sort_by {
        Some(s) => if exists|i: int| 0 <= i < allowed.len() && allowed[i]@ == s@ {
            s@
        } else {
            default
        },
        None => default,
    }
}

/// What `sort_sql` returns: `"<column> ASC"` only for `order=asc`, `DESC` otherwise.
pub open spec fn sort_sql_spec(q: RangeQuery, allowed: Seq<&'static str>, default: Seq<char>) -> Seq<
    char,
> {
    sort_column(q, allowed, default) + " "@ + match q.order {
        Some(o) => if o@ == "asc"@ {
            "ASC"@
        } else {
            "DESC"@
        },
        None => "DESC"@,
    }
}

impl RangeQuery {
    /// The range for the clock reading `now`.
    pub fn range_at(&self, now: u32) -> (r: (u32, u32))
        ensures
            r == range_spec(*self, now),
    {
        let to = match self.to {
            Some(t) => t,
            None => now,
        };
        let from = match self.from {
            Some(f) => f,
            None => to.saturating_sub(24 * 3600),
        };
        (if from <= to {
            from
        } else {
            to
        }, to)
    }

    /// The requested range, reading the clock when `to` is not given.
    pub fn range(&self) -> (r: (u32, u32))
        ensures
            r == range_spec(*self, r.1),
            self.to matches Some(t) ==> r.1 == t,
    {
        let now = match self.to {
            Some(t) => t,
            None => now_epoch(),
        };
        self.range_at(now)
    }

    /// Rollup granularity for pod-usage table queries. Ranges beyond a few
    /// days read the daily rollup (`pod_usage_1d`); both rollups share the
    /// same aggregate columns, so only the table and time column change.
    pub fn use_daily_at(&self, now: u32) -> (r: bool)
        ensures
            r == use_daily_spec(*self, now),
    {
        let (from, to) = self.range_at(now);
        to.saturating_sub(from) > 3 * 24 * 3600
    }

    /// `(table, time column)` for pod-usage rollup queries, for the clock reading `now`.
    pub fn pod_source_at(&self, now: u32) -> (r: (&'static str, &'static str))
        ensures
            r.0@ == pod_source_spec(*self, now).0,
            r.1@ == pod_source_spec(*self, now).1,
    {
        if self.use_daily_at(now) {
            ("pod_usage_1d", "day")
        } else {
            ("pod_usage_1h", "hour")
        }
    }

    /// `(table, time column)` for pod-usage rollup queries.
    pub fn pod_source(&self) -> (r: (&'static str, &'static str))
        ensures
            exists|now: u32|
                r.0@ == pod_source_spec(*self, now).0 && r.1@ == pod_source_spec(*self, now).1,
    {
        let now = now_epoch();
        self.pod_source_at(now)
    }

    /// Range snapped down to the rollup bucket boundary (hour or day), for
    /// the clock reading `now`. A rollup row can only be counted whole, so an
    /// unaligned `from` would drop the boundary bucket.
    pub fn pod_range_at(&self, now: u32) -> (r: (u32, u32))
        ensures
            r == pod_range_spec(*self, now),
            r.1 >= r.0 + 60,
    {
        let (from, to) = self.range_at(now);
        let bucket: u32 = if self.use_daily_at(now) {
            24 * 3600
        } else {
            3600
        };
        let f = from / bucket * bucket;
        assert(f + 60 <= u32::MAX) by (nonlinear_arith)
            requires
                f == from / bucket * bucket,
                bucket == 3600 || bucket == 86400,
                from <= u32::MAX,
        {
            assert(from / bucket <= u32::MAX / bucket);
            assert(from / bucket * bucket <= (u32::MAX / bucket) * bucket);
        }
        (f, if to >= f + 60 {
            to
        } else {
            f + 60
        })
    }

    /// Range snapped down to the rollup bucket boundary (hour or day).
    pub fn pod_range(&self) -> (r: (u32, u32))
        ensures
            exists|now: u32| r == pod_range_spec(*self, now),
    {
        let now = now_epoch();
        self.pod_range_at(now)
    }

    /// WHERE fragment (two `?` bound to pod_range from/to) matching
    /// pod_source's time column type, for the clock reading `now`.
    pub fn pod_where_at(&self, now: u32) -> (r: String)
        ensures
            r@ == pod_where_spec(*self, now),
    {
        if self.use_daily_at(now) {
            String::from_str("day >= toDate(toDateTime(?)) AND day < toDate(toDateTime(?))")
        } else {
            String::from_str("hour >= toDateTime(?) AND hour < toDateTime(?)")
        }
    }

    /// WHERE fragment (two `?` bound to pod_range from/to) matching
    /// pod_source's time column type: DateTime for hourly, Date for daily.
    pub fn pod_where(&self) -> (r: String)
        ensures
            exists|now: u32| r@ == pod_where_spec(*self, now),
    {
        let now = now_epoch();
        self.pod_where_at(now)
    }

    /// Window length in seconds for the clock reading `now`.
    pub fn window_at(&self, now: u32) -> (r: u32)
        ensures
            r == window_spec(*self, now),
            r >= 60,
    {
        let (from, to) = self.pod_range_at(now);
        to - from
    }

    pub fn limit(&self) -> (r: u32)
        ensures
            r == limit_spec(*self),
    {
        let l = match self.limit {
            Some(l) => l,
            None => 50,
        };
        if l <= 500 {
            l
        } else {
            500
        }
    }

    pub fn offset(&self) -> (r: u32)
        ensures
            r == match self.offset {
                Some(o) => o,
                None => 0,
            },
    {
        match self.offset {
            Some(o) => o,
            None => 0,
        }
    }

    /// Whitelists the sort column; never interpolates user input into SQL.
    pub fn sort_sql(&self, allowed: &[&'static str], default: &'static str) -> (r: String)
        ensures
            r@ == sort_sql_spec(*self, allowed@, default@),
    {
        let mut out: Vec<char> = Vec::new();
        let mut column: &str = default;
        match &self.sort_by {
            Some(s) => {
                let wanted = chars_of(s.as_str());
                let mut i: usize = 0;
                let mut found = false;
                while i < allowed.len()
                    invariant
                        i <= allowed@.len(),
                        wanted@ == s@,
                        !found ==> column@ == default@,
                        found ==> column@ == s@,
                        !found ==> forall|k: int| 0 <= k < i ==> allowed@[k]@ != s@,
                        found ==> exists|k: int| 0 <= k < allowed@.len() && allowed@[k]@ == s@,
                    decreases allowed.len() - i,
                {
                    if !found {
                        let candidate = chars_of(allowed[i]);
                        if chars_eq(&candidate, &wanted) {
                            column = allowed[i];
                            found = true;
                        }
                    }
                    i += 1;
                }
            },
            None => {},
        }
        assert(column@ == sort_column(*self, allowed@, default@));
        push_str(&mut out, column);
        push_str(&mut out, " ");
        let asc = match &self.order {
            Some(o) => {
                let oc = chars_of(o.as_str());
                let a = chars_of("asc");
                chars_eq(&oc, &a)
            },
            None => false,
        };
        if asc {
            push_str(&mut out, "ASC");
        } else {
            push_str(&mut out, "DESC");
        }
        assert(out@ =~= sort_sql_spec(*self, allowed@, default@));
        string_of(&out)
    }
}

/// Everything a paged table query needs: the range bound to its two time
/// placeholders, the query text, the bind values that follow the times, and
/// the page (the query asks for `limit + 1` rows to learn whether more follow).
pub struct PagePlan {
    pub from: u32,
    pub to: u32,
    pub sql: String,
    pub binds: Vec<String>,
    pub limit: u32,
    pub offset: u32,
}

/// What `choose_bucket` returns: a bucket size targeting ~360 points, in
/// whole 15-second steps when the raw tables serve the range (at most 48
/// hours), in whole hours otherwise.
pub open spec fn choose_bucket_spec(from: u32, to: u32) -> (u32, bool) {
    let d = sat_sub(to, from);
    let range: u32 = if d >= 60 {
        d
    } else {
        60
    };
    let raw = range <= 48 * 3600;
    let per = range / 360;
    let step: u32 = if raw {
        ((if per >= 15 {
            per
        } else {
            15
        }) / 15 * 15) as u32
    } else {
        ((if per >= 3600 {
            per
        } else {
            3600
        }) / 3600 * 3600) as u32
    };
    (step, raw)
}

/// Picks a bucket size (seconds) targeting ~360 points, and whether the raw
/// tables can serve it (raw data is only retained 14 days).
pub fn choose_bucket(from: u32, to: u32) -> (r: (u32, bool))
    ensures
        r == choose_bucket_spec(from, to),
        r.0 >= 15,
        r.0 % 15 == 0,
        !r.1 ==> r.0 % 3600 == 0,
{
    let range = {
        let d = to.saturating_sub(from);
        if d >= 60 {
            d
        } else {
            60
        }
    };
    let raw = range <= 48 * 3600;
    let per = range / 360;
    let step = if raw {
        (if per >= 15 {
            per
        } else {
            15
        }) / 15 * 15
    } else {
        (if per >= 3600 {
            per
        } else {
            3600
        }) / 3600 * 3600
    };
    (step, raw)
}

/// The SQL filter and bind values that narrow a series to a namespace and/or workload.
pub open spec fn scope_filter_spec(q: RangeQuery) -> (Seq<char>, Seq<Seq<char>>) {
    let (s1, b1) = match q.namespace {
        Some(ns) => (" AND namespace = ?"@, seq![ns@]),
        None => (Seq::<char>::empty(), Seq::<Seq<char>>::empty()),
    };
    let (s2, b2) = match q.workload {
        Some(wl) => (" AND workload_name = ?"@, seq![wl@]),
        None => (Seq::<char>::empty(), Seq::<Seq<char>>::empty()),
    };
    (s1 + s2, b1 + b2)
}

/// Narrows a series to the query's namespace and/or workload.
pub fn scope_filter(query: &RangeQuery) -> (r: (String, Vec<String>))
    ensures
        r.0@ == scope_filter_spec(*query).0,
        r.1@.map_values(|b: String| b@) == scope_filter_spec(*query).1,
{
    let mut sql: Vec<char> = Vec::new();
    let mut binds: Vec<String> = Vec::new();
    if let Some(ns) = &query.namespace {
        push_str(&mut sql, " AND namespace = ?");
        binds.push(ns.clone());
    }
    if let Some(wl) = &query.workload {
        push_str(&mut sql, " AND workload_name = ?");
        binds.push(wl.clone());
    }
    assert(sql@ =~= scope_filter_spec(*query).0);
    assert(binds@.map_values(|b: String| b@) =~= scope_filter_spec(*query).1);
    (string_of(&sql), binds)
}

/// Sorting never interpolates user input into SQL: the ORDER BY text is the
/// default column or one of the allowed columns, then `ASC` or `DESC`.
pub proof fn law_sort_sql_never_interpolates(
    q: RangeQuery,
    allowed: Seq<&'static str>,
    default: Seq<char>,
)
    ensures
        ({
            let c = sort_column(q, allowed, default);
            &&& c == default || exists|i: int| 0 <= i < allowed.len() && allowed[i]@ == c
            &&& sort_sql_spec(q, allowed, default) == c + " ASC"@ || sort_sql_spec(q, allowed, default)
                == c + " DESC"@
        }),
{
    let c = sort_column(q, allowed, default);
    let order = match q.order {
        Some(o) => if o@ == "asc"@ {
            "ASC"@
        } else {
            "DESC"@
        },
        None => "DESC"@,
    };
    assert(c + " "@ + order =~= c + (" "@ + order));
    reveal_strlit(" ");
    reveal_strlit("ASC");
    reveal_strlit("DESC");
    reveal_strlit(" ASC");
    reveal_strlit(" DESC");
    assert(" "@ + "ASC"@ =~= " ASC"@);
    assert(" "@ + "DESC"@ =~= " DESC"@);
}

/// The pod range starts on a rollup bucket boundary (an hour, or a day for
/// the daily rollup) at most one bucket before the requested start, and ends
/// no earlier than the requested end and at least a minute after its start;
/// a rollup row is then counted whole or not at all.
pub proof fn law_pod_range_snaps_to_bucket(q: RangeQuery, now: u32)
    ensures
        ({
            let (from, to) = range_spec(q, now);
            let (f, t) = pod_range_spec(q, now);
            let bucket: int = if use_daily_spec(q, now) {
                86400
            } else {
                3600
            };
            &&& (f as int) % bucket == 0
            &&& f <= from < f + bucket
            &&& t >= to
            &&& t >= f + 60
        }),
{
    let (from, to) = range_spec(q, now);
    let bucket: u32 = if use_daily_spec(q, now) {
        day()
    } else {
        3600
    };
    let f = from / bucket * bucket;
    assert(f % (bucket as int) == 0 && f <= from < f + bucket && f + 60 <= u32::MAX) by (nonlinear_arith)
        requires
            f == from / bucket * bucket,
            bucket == 3600 || bucket == 86400,
            from <= u32::MAX,
    {
        assert(from / bucket <= u32::MAX / bucket);
        assert(from / bucket * bucket <= (u32::MAX / bucket) * bucket);
    }
}

/// The range defaults to the day before the clock (or before `to`): `to` is
/// the requested end, else the clock; `from` is the requested start when it
/// is not after `to`, else `to` itself; without a start it is a day before
/// `to` (or 0 when `to` is within the first day).
pub proof fn law_range_defaults(q: RangeQuery, now: u32)
    ensures
        ({
            let (from, to) = range_spec(q, now);
            &&& to == match q.to {
                Some(t) => t,
                None => now,
            }
            &&& from <= to
            &&& match q.from {
                Some(f) => from == if f <= to {
                    f
                } else {
                    to
                },
                None => from == if to >= 86400 {
                    to - 86400
                } else {
                    0
                },
            }
        }),
{
}

/// The sort order is ascending exactly for `order=asc`, descending otherwise.
pub proof fn law_sort_direction(q: RangeQuery, allowed: Seq<&'static str>, default: Seq<char>)
    ensures
        ({
            let c = sort_column(q, allowed, default);
            let asc = match q.order {
                Some(o) => o@ == "asc"@,
                None => false,
            };
            &&& asc ==> sort_sql_spec(q, allowed, default) == c + " ASC"@
            &&& !asc ==> sort_sql_spec(q, allowed, default) == c + " DESC"@
        }),
{
    let c = sort_column(q, allowed, default);
    reveal_strlit(" ");
    reveal_strlit("ASC");
    reveal_strlit("DESC");
    reveal_strlit(" ASC");
    reveal_strlit(" DESC");
    assert(c + " "@ + "ASC"@ =~= c + " ASC"@);
    assert(c + " "@ + "DESC"@ =~= c + " DESC"@);
}

/// A page holds 50 rows unless the query asks for another count, and never
/// more than 500.
pub proof fn law_page_size(q: RangeQuery)
    ensures
        limit_spec(q) <= 500,
        q.limit is None ==> limit_spec(q) == 50,
        q.limit matches Some(l) ==> limit_spec(q) == if l <= 500 {
            l
        } else {
            500
        },
{
}

/// The bucket targets about 360 points: the raw tables serve ranges of at
/// most 48 hours (a range shorter than a minute counts as a minute), with
/// the range over 360 rounded down to whole 15 seconds, at least 15;
/// longer ranges get the range over 360 rounded down to whole hours, at
/// least an hour.
pub proof fn law_bucket_targets_360_points(from: u32, to: u32)
    ensures
        ({
            let (step, raw) = choose_bucket_spec(from, to);
            let range: int = if to >= from && to - from >= 60 {
                to - from
            } else {
                60
            };
            let per = range / 360;
            &&& raw <==> range <= 48 * 3600
            &&& raw ==> step % 15 == 0 && step >= 15 && (per < 15 ==> step == 15) && (per >= 15
                ==> step <= per < step + 15)
            &&& !raw ==> step % 3600 == 0 && step >= 3600 && (per < 3600 ==> step == 3600) && (per
                >= 3600 ==> step <= per < step + 3600)
        }),
{
    let (step, raw) = choose_bucket_spec(from, to);
    let d = sat_sub(to, from);
    let range: u32 = if d >= 60 {
        d
    } else {
        60
    };
    let per = range / 360;
    assert(per / 15 * 15 <= per < per / 15 * 15 + 15 && (per / 15 * 15) % 15 == 0) by (
    nonlinear_arith)
        requires
            per >= 0,
    ;
    assert(per / 3600 * 3600 <= per < per / 3600 * 3600 + 3600 && (per / 3600 * 3600) % 3600
        == 0) by (nonlinear_arith)
        requires
            per >= 0,
    ;
    assert(per <= 0xffffffffu32 / 360);
}

} // verus!
