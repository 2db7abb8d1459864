//! The registry's standing guarantees, stated on their own so a reader
//! sees them rather than derives them.

use vstd::prelude::*;
use crate::registry::Registry;
use crate::types::ExposedPort;

verus! {

/// In a well-formed registry, at most one handle of each kind exists
/// per pod id — one monitoring group, one in-flight build, and one
/// proxy per (pod, container port) — however many operations ran
/// before. Every registry operation preserves well-formedness.
pub proof fn lemma_at_most_one_handle_per_pod(r: Registry, id: Seq<char>)
    requires
        r.wf(),
    ensures
        forall|i: int, j: int|
            0 <= i < r.monitor_seq().len() && 0 <= j < r.monitor_seq().len()
                && (#[trigger] r.monitor_seq()[i]).0@ == id && (#[trigger] r.monitor_seq()[j]).0@
                == id ==> i == j,
        forall|i: int, j: int|
            0 <= i < r.build_seq().len() && 0 <= j < r.build_seq().len()
                && (#[trigger] r.build_seq()[i]).0@ == id && (#[trigger] r.build_seq()[j]).0@
                == id ==> i == j,
        forall|i: int, j: int|
            0 <= i < r.proxy_seq().len() && 0 <= j < r.proxy_seq().len()
                && (#[trigger] r.proxy_seq()[i]).0@ == id && (#[trigger] r.proxy_seq()[j]).0@
                == id && r.proxy_seq()[i].1 == r.proxy_seq()[j].1 ==> i == j,
{
    assert forall|i: int, j: int|
        0 <= i < r.monitor_seq().len() && 0 <= j < r.monitor_seq().len()
            && (#[trigger] r.monitor_seq()[i]).0@ == id && (#[trigger] r.monitor_seq()[j]).0@
            == id implies i == j by {
        if i < j {
            assert(r.monitor_seq()[i].0@ != r.monitor_seq()[j].0@);
        }
        if j < i {
            assert(r.monitor_seq()[j].0@ != r.monitor_seq()[i].0@);
        }
    }
    assert forall|i: int, j: int|
        0 <= i < r.build_seq().len() && 0 <= j < r.build_seq().len()
            && (#[trigger] r.build_seq()[i]).0@ == id && (#[trigger] r.build_seq()[j]).0@
            == id implies i == j by {
        if i < j {
            assert(r.build_seq()[i].0@ != r.build_seq()[j].0@);
        }
        if j < i {
            assert(r.build_seq()[j].0@ != r.build_seq()[i].0@);
        }
    }
    assert forall|i: int, j: int|
        0 <= i < r.proxy_seq().len() && 0 <= j < r.proxy_seq().len()
            && (#[trigger] r.proxy_seq()[i]).0@ == id && (#[trigger] r.proxy_seq()[j]).0@
            == id && r.proxy_seq()[i].1 == r.proxy_seq()[j].1 implies i == j by {
        if i < j {
            assert(!(r.proxy_seq()[i].0@ == r.proxy_seq()[j].0@ && r.proxy_seq()[i].1
                == r.proxy_seq()[j].1));
        }
        if j < i {
            assert(!(r.proxy_seq()[j].0@ == r.proxy_seq()[i].0@ && r.proxy_seq()[j].1
                == r.proxy_seq()[i].1));
        }
    }
}

/// At most one exposed port per container port.
pub open spec fn exposed_ports_unique(s: Seq<ExposedPort>) -> bool {
    forall|i: int, j: int|
        0 <= i < j < s.len() ==> (#[trigger] s[i]).container_port
            != (#[trigger] s[j]).container_port
}

/// Everything in a filtered list was in the list.
proof fn lemma_filter_membership(s: Seq<ExposedPort>, pred: spec_fn(ExposedPort) -> bool, i: int)
    requires
        0 <= i < s.filter(pred).len(),
    ensures
        exists|j: int| 0 <= j < s.len() && s[j] == #[trigger] s.filter(pred)[i],
    decreases s.len(),
{
    reveal(Seq::filter);
    if s.len() > 0 {
        let f = s.filter(pred);
        let f0 = s.drop_last().filter(pred);
        if i < f0.len() {
            lemma_filter_membership(s.drop_last(), pred, i);
            let j = choose|j: int| 0 <= j < s.drop_last().len() && s.drop_last()[j] == f0[i];
            assert(s[j] == f[i]);
        } else {
            assert(s[s.len() - 1] == f[i]);
        }
    }
}

/// A filtered list of unique ports is itself unique.
proof fn lemma_filter_keeps_unique(s: Seq<ExposedPort>, pred: spec_fn(ExposedPort) -> bool)
    requires
        exposed_ports_unique(s),
    ensures
        exposed_ports_unique(s.filter(pred)),
    decreases s.len(),
{
    reveal(Seq::filter);
    if s.len() > 0 {
        assert forall|i: int, j: int|
            0 <= i < j < s.drop_last().len() implies (#[trigger] s.drop_last()[i]).container_port
            != (#[trigger] s.drop_last()[j]).container_port by {
            assert(s[i].container_port != s[j].container_port);
        }
        lemma_filter_keeps_unique(s.drop_last(), pred);
        let f = s.filter(pred);
        let f0 = s.drop_last().filter(pred);
        if pred(s.last()) {
            assert forall|i: int, j: int|
                0 <= i < j < f.len() implies (#[trigger] f[i]).container_port
                != (#[trigger] f[j]).container_port by {
                if j < f0.len() {
                    assert(f0[i].container_port != f0[j].container_port);
                } else {
                    lemma_filter_membership(s.drop_last(), pred, i);
                    let w = choose|w: int|
                        0 <= w < s.drop_last().len() && s.drop_last()[w] == f0[i];
                    assert(s[w].container_port != s.last().container_port);
                }
            }
        }
    }
}

/// Exposing a port keeps the data model's invariant: each container
/// port carries at most one exposed-port record, since an exposure
/// first supersedes any earlier record on the same container port.
/// `expose_port_commit` leaves exactly this list behind.
pub proof fn lemma_exposure_keeps_ports_unique(s: Seq<ExposedPort>, ep: ExposedPort)
    requires
        exposed_ports_unique(s),
    ensures
        exposed_ports_unique(
            s.filter(|e: ExposedPort| e.container_port != ep.container_port).push(ep),
        ),
{
    let pred = |e: ExposedPort| e.container_port != ep.container_port;
    lemma_filter_keeps_unique(s, pred);
    let f = s.filter(pred);
    let out = f.push(ep);
    assert forall|i: int, j: int|
        0 <= i < j < out.len() implies (#[trigger] out[i]).container_port
        != (#[trigger] out[j]).container_port by {
        if j == out.len() - 1 {
            assert(f[i].container_port != ep.container_port) by {
                s.lemma_filter_pred(pred, i);
            }
        } else {
            assert(f[i].container_port != f[j].container_port);
        }
    }
}

/// Withdrawing an exposure that was never made changes nothing: when no
/// exposed port carries the container port, the filtered list that
/// `unexpose_port` leaves behind is the list itself.
pub proof fn lemma_unexpose_never_exposed_is_noop(s: Seq<ExposedPort>, port: u16)
    requires
        forall|i: int| 0 <= i < s.len() ==> (#[trigger] s[i]).container_port != port,
    ensures
        s.filter(|e: ExposedPort| e.container_port != port) == s,
    decreases s.len(),
{
    reveal(Seq::filter);
    if s.len() > 0 {
        assert forall|i: int|
            0 <= i < s.drop_last().len() implies (#[trigger] s.drop_last()[i]).container_port
            != port by {
            assert(s[i].container_port != port);
        }
        lemma_unexpose_never_exposed_is_noop(s.drop_last(), port);
        assert(s.last().container_port != port);
        assert(s.filter(|e: ExposedPort| e.container_port != port) =~= s);
    }
}

} // verus!
