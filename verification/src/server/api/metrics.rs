//! Request metrics (count + total duration per route) and their Prometheus
//! exposition. The routes are kept sorted, which is the order they are
//! rendered in.

use vstd::prelude::*;
use crate::text::{
    chars_eq, chars_lt, chars_of, decimal, fixed_point, lemma_seq_lt_irreflexive,
    lemma_seq_lt_transitive, lemma_seq_lt_trichotomy, push_all, push_decimal, push_fixed_point,
    push_str, seq_lt, string_of,
};

verus! {

/// Count and total duration (microseconds) of the requests to one route.
pub struct RouteStat {
    pub route: String,
    pub count: u64,
    pub micros: u64,
}

pub open spec fn stat_view(s: RouteStat) -> (Seq<char>, u64, u64) {
    (s.route@, s.count, s.micros)
}

pub open spec fn stat_views(rs: Seq<RouteStat>) -> Seq<(Seq<char>, u64, u64)> {
    rs.map_values(|s: RouteStat| stat_view(s))
}

/// Request metrics by route.
pub struct RequestMetrics {
    pub routes: Vec<RouteStat>,
}

/// The two exposition lines of one route.
pub open spec fn route_lines(v: (Seq<char>, u64, u64)) -> Seq<char> {
    "ekokube_http_requests_total{route=\""@ + v.0 + "\"} "@ + decimal(v.1 as nat)
        + "\nekokube_http_request_duration_seconds_sum{route=\""@ + v.0 + "\"} "@ + fixed_point(
        v.2 as nat,
        6,
        1000000,
    ) + "\n"@
}

/// The lines of all routes, in order.
pub open spec fn all_route_lines(vs: Seq<(Seq<char>, u64, u64)>) -> Seq<char>
    decreases vs.len(),
{
    if vs.len() == 0 {
        seq![]
    } else {
        all_route_lines(vs.drop_last()) + route_lines(vs.last())
    }
}

pub open spec fn exposition_header() -> Seq<char> {
    "# TYPE ekokube_http_requests_total counter\n# TYPE ekokube_http_request_duration_seconds_sum counter\n"@
}

impl RequestMetrics {
    /// Routes are strictly increasing (so each appears once).
    pub open spec fn wf(&self) -> bool {
        forall|i: int, j: int|
            0 <= i < j < self.routes@.len() ==> seq_lt(
                #[trigger] self.routes@[i].route@,
                #[trigger] self.routes@[j].route@,
            )
    }

    pub fn new() -> (m: Self)
        ensures
            m.wf(),
            m.routes@.len() == 0,
    {
        RequestMetrics { routes: Vec::new() }
    }

    /// Counts one request to `route` that took `micros` microseconds.
    pub fn record(&mut self, route: &str, micros: u64)
        requires
            old(self).wf(),
            forall|i: int|
                0 <= i < old(self).routes@.len() && old(self).routes@[i].route@ == route@ ==> old(
                    self,
                ).routes@[i].count < u64::MAX && old(self).routes@[i].micros + micros
                    <= u64::MAX,
        ensures
            final(self).wf(),
            (exists|i: int| 0 <= i < old(self).routes@.len() && old(self).routes@[i].route@ == route@)
                ==> (exists|i: int|
                0 <= i < old(self).routes@.len() && old(self).routes@[i].route@ == route@
                    && stat_views(final(self).routes@) == stat_views(old(self).routes@).update(
                    i,
                    (
                        route@,
                        (old(self).routes@[i].count + 1) as u64,
                        (old(self).routes@[i].micros + micros) as u64,
                    ),
                )),
            (forall|i: int|
                0 <= i < old(self).routes@.len() ==> old(self).routes@[i].route@ != route@) ==> (
            exists|p: int|
                0 <= p <= old(self).routes@.len() && stat_views(final(self).routes@) == stat_views(
                    old(self).routes@,
                ).insert(p, (route@, 1u64, micros))),
    {
        let key = chars_of(route);
        let n = self.routes.len();
        let mut i: usize = 0;
        while i < n && chars_lt(&chars_of(self.routes[i].route.as_str()), &key)
            invariant
                n == self.routes@.len(),
                i <= n,
                key@ == route@,
                forall|k: int| 0 <= k < i ==> seq_lt(#[trigger] self.routes@[k].route@, route@),
            decreases n - i,
        {
            i += 1;
        }
        let ghost old_routes = self.routes@;
        if i < n && chars_eq(&chars_of(self.routes[i].route.as_str()), &key) {
            let updated = RouteStat {
                route: self.routes[i].route.clone(),
                count: self.routes[i].count + 1,
                micros: self.routes[i].micros + micros,
            };
            self.routes.set(i, updated);
            proof {
                assert(stat_views(self.routes@) =~= stat_views(old_routes).update(
                    i as int,
                    (route@, (old_routes[i as int].count + 1) as u64, (old_routes[i as int].micros
                        + micros) as u64),
                ));
                assert forall|a: int, b: int| 0 <= a < b < self.routes@.len() implies seq_lt(
                    #[trigger] self.routes@[a].route@,
                    #[trigger] self.routes@[b].route@,
                ) by {
                    assert(self.routes@[a].route@ == old_routes[a].route@);
                    assert(self.routes@[b].route@ == old_routes[b].route@);
                }
            }
        } else {
            proof {
                if i < n {
                    lemma_seq_lt_trichotomy(route@, old_routes[i as int].route@);
                }
                assert forall|k: int| 0 <= k < n implies old_routes[k].route@ != route@ by {
                    if k < i {
                        lemma_seq_lt_irreflexive(route@);
                    } else if k > i {
                        lemma_seq_lt_transitive(route@, old_routes[i as int].route@, old_routes[k].route@);
                        lemma_seq_lt_irreflexive(route@);
                    }
                }
            }
            let stat = RouteStat { route: String::from_str(route), count: 1, micros };
            self.routes.insert(i, stat);
            proof {
                assert(stat_views(self.routes@) =~= stat_views(old_routes).insert(
                    i as int,
                    (route@, 1u64, micros),
                ));
                assert forall|a: int, b: int| 0 <= a < b < self.routes@.len() implies seq_lt(
                    #[trigger] self.routes@[a].route@,
                    #[trigger] self.routes@[b].route@,
                ) by {
                    let ra = self.routes@[a].route@;
                    let rb = self.routes@[b].route@;
                    if b < i {
                        assert(ra == old_routes[a].route@ && rb == old_routes[b].route@);
                    } else if b == i {
                        assert(ra == old_routes[a].route@);
                    } else if a == i {
                        assert(rb == old_routes[b - 1].route@);
                        if b - 1 > i {
                            lemma_seq_lt_transitive(route@, old_routes[i as int].route@, rb);
                        }
                    } else if a < i {
                        assert(ra == old_routes[a].route@ && rb == old_routes[b - 1].route@);
                        if b - 1 >= i {
                            lemma_seq_lt_trichotomy(route@, old_routes[i as int].route@);
                            if b - 1 > i {
                                lemma_seq_lt_transitive(route@, old_routes[i as int].route@, rb);
                            }
                            lemma_seq_lt_transitive(ra, route@, rb);
                        }
                    } else {
                        assert(ra == old_routes[a - 1].route@ && rb == old_routes[b - 1].route@);
                    }
                }
            }
        }
    }

    /// The Prometheus text exposition, routes in sorted order.
    pub fn render(&self) -> (s: String)
        ensures
            s@ == exposition_header() + all_route_lines(stat_views(self.routes@)),
    {
        let mut out: Vec<char> = Vec::new();
        push_str(
            &mut out,
            "# TYPE ekokube_http_requests_total counter\n# TYPE ekokube_http_request_duration_seconds_sum counter\n",
        );
        let mut i: usize = 0;
        while i < self.routes.len()
            invariant
                i <= self.routes@.len(),
                out@ == exposition_header() + all_route_lines(
                    stat_views(self.routes@).subrange(0, i as int),
                ),
            decreases self.routes.len() - i,
        {
            let r = &self.routes[i];
            let route = chars_of(r.route.as_str());
            push_str(&mut out, "ekokube_http_requests_total{route=\"");
            push_all(&mut out, &route);
            push_str(&mut out, "\"} ");
            push_decimal(&mut out, r.count);
            push_str(&mut out, "\nekokube_http_request_duration_seconds_sum{route=\"");
            push_all(&mut out, &route);
            push_str(&mut out, "\"} ");
            push_fixed_point(&mut out, r.micros, 6, 1000000);
            push_str(&mut out, "\n");
            proof {
                let vs = stat_views(self.routes@);
                assert(vs.subrange(0, i + 1).drop_last() =~= vs.subrange(0, i as int));
                assert(vs.subrange(0, i + 1).last() == stat_view(*r));
            }
            assert(out@ =~= exposition_header() + all_route_lines(
                stat_views(self.routes@).subrange(0, i + 1),
            ));
            i += 1;
        }
        assert(stat_views(self.routes@).subrange(0, self.routes@.len() as int) =~= stat_views(
            self.routes@,
        ));
        string_of(&out)
    }
}

/// Whether a request path is counted: only the `/api/` routes are.
pub fn is_tracked_route(path: &str) -> (r: bool)
    ensures
        r == "/api/"@.is_prefix_of(path@),
{
    let p = chars_of(path);
    crate::text::starts_with(&p, &chars_of("/api/"))
}

} // verus!
