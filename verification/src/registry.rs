//! The pod registry: the shared record of every pod, the per-purpose
//! cancellation handles (one monitoring group per pod, one per in-flight
//! build, one per exposed port), the per-pod log buffers, and the
//! lifecycle state machine that mutates them.
//!
//! Every external call of a lifecycle operation (the builder, the
//! runtime API, a socket bind) happens between two calls into this
//! module: a `*_begin` that inspects state and does the token
//! bookkeeping, and a `*_finish` that commits the outcome. The caller
//! holds its per-pod lock across that window and forwards the returned
//! notifications to its sink.

use vstd::prelude::*;
use tokio_util::sync::CancellationToken;
use crate::error::NookError;
use crate::logbuf::{LogBuffer, push_batch_spec, tail_spec, matches_keyword, MAX_LOG_LINES};
use crate::settings::Settings;
use crate::strutil::{chars_of, chars_to_string, str_eq};
use crate::tokens::{token_cancel, token_clone, token_new};
use crate::types::{DetectedPort, ExposedPort, LogBatchEvent, LogEntry, LogLevel, LogSource,
    Notification, Pod, PodStatsUpdate, PodStatus, PodStatusChanged, PortDetectedEvent,
    PortStatus, ProcessListUpdate, clone_log_entries};

verus! {

// --- Lookup machinery for the pod map ---

pub open spec fn has_pod_key(s: Seq<(String, Pod)>, id: Seq<char>) -> bool {
    exists|i: int| 0 <= i < s.len() && (#[trigger] s[i]).0@ == id
}

pub open spec fn pod_key_index(s: Seq<(String, Pod)>, id: Seq<char>) -> int {
    choose|i: int| 0 <= i < s.len() && (#[trigger] s[i]).0@ == id
}

/// The pod stored under `id`.
pub open spec fn pod_of(s: Seq<(String, Pod)>, id: Seq<char>) -> Pod {
    s[pod_key_index(s, id)].1
}

pub open spec fn pod_keys_unique(s: Seq<(String, Pod)>) -> bool {
    forall|i: int, j: int| 0 <= i < j < s.len() ==> (#[trigger] s[i]).0@ != (#[trigger] s[j]).0@
}

/// With unique keys, the entry at a matching index is the lookup's answer.
proof fn lemma_pod_at(s: Seq<(String, Pod)>, i: int, id: Seq<char>)
    requires
        pod_keys_unique(s),
        0 <= i < s.len(),
        s[i].0@ == id,
    ensures
        has_pod_key(s, id),
        pod_key_index(s, id) == i,
        pod_of(s, id) == s[i].1,
{
    assert(has_pod_key(s, id));
    let w = pod_key_index(s, id);
    assert(0 <= w < s.len() && s[w].0@ == id);
    if w != i {
        assert(s[w].0@ == s[i].0@);
    }
}

// --- Lookup machinery for String-keyed token maps ---

pub open spec fn has_tok(s: Seq<(String, CancellationToken)>, id: Seq<char>) -> bool {
    exists|i: int| 0 <= i < s.len() && (#[trigger] s[i]).0@ == id
}

pub open spec fn tok_keys_unique(s: Seq<(String, CancellationToken)>) -> bool {
    forall|i: int, j: int| 0 <= i < j < s.len() ==> (#[trigger] s[i]).0@ != (#[trigger] s[j]).0@
}

// --- Lookup machinery for the proxy-token map ---

pub open spec fn has_proxy_key(
    s: Seq<(String, u16, CancellationToken)>,
    id: Seq<char>,
    port: u16,
) -> bool {
    exists|i: int| 0 <= i < s.len() && (#[trigger] s[i]).0@ == id && s[i].1 == port
}

pub open spec fn has_any_proxy(s: Seq<(String, u16, CancellationToken)>, id: Seq<char>) -> bool {
    exists|i: int| 0 <= i < s.len() && (#[trigger] s[i]).0@ == id
}

pub open spec fn proxy_keys_unique(s: Seq<(String, u16, CancellationToken)>) -> bool {
    forall|i: int, j: int|
        0 <= i < j < s.len() ==> !((#[trigger] s[i]).0@ == (#[trigger] s[j]).0@ && s[i].1
            == s[j].1)
}

// --- Lookup machinery for the log-buffer map ---

pub open spec fn has_buf(s: Seq<(String, LogBuffer)>, id: Seq<char>) -> bool {
    exists|i: int| 0 <= i < s.len() && (#[trigger] s[i]).0@ == id
}

pub open spec fn buf_key_index(s: Seq<(String, LogBuffer)>, id: Seq<char>) -> int {
    choose|i: int| 0 <= i < s.len() && (#[trigger] s[i]).0@ == id
}

/// The entries of the buffer stored under `id`.
pub open spec fn buf_of(s: Seq<(String, LogBuffer)>, id: Seq<char>) -> Seq<LogEntry> {
    s[buf_key_index(s, id)].1@
}

pub open spec fn buf_keys_unique(s: Seq<(String, LogBuffer)>) -> bool {
    forall|i: int, j: int| 0 <= i < j < s.len() ==> (#[trigger] s[i]).0@ != (#[trigger] s[j]).0@
}

proof fn lemma_buf_at(s: Seq<(String, LogBuffer)>, i: int, id: Seq<char>)
    requires
        buf_keys_unique(s),
        0 <= i < s.len(),
        s[i].0@ == id,
    ensures
        has_buf(s, id),
        buf_key_index(s, id) == i,
        buf_of(s, id) == s[i].1@,
{
    assert(has_buf(s, id));
    let w = buf_key_index(s, id);
    assert(0 <= w < s.len() && s[w].0@ == id);
    if w != i {
        assert(s[w].0@ == s[i].0@);
    }
}

/// The registry: every pod, the cancellation handles, the log buffers
/// and the settings, behind one lock held by the caller.
pub struct Registry {
    pods: Vec<(String, Pod)>,
    monitor_tokens: Vec<(String, CancellationToken)>,
    build_tokens: Vec<(String, CancellationToken)>,
    proxy_tokens: Vec<(String, u16, CancellationToken)>,
    log_buffers: Vec<(String, LogBuffer)>,
    settings: Settings,
}

impl Registry {
    pub closed spec fn pods_seq(self) -> Seq<(String, Pod)> {
        self.pods@
    }

    pub closed spec fn monitor_seq(self) -> Seq<(String, CancellationToken)> {
        self.monitor_tokens@
    }

    pub closed spec fn build_seq(self) -> Seq<(String, CancellationToken)> {
        self.build_tokens@
    }

    pub closed spec fn proxy_seq(self) -> Seq<(String, u16, CancellationToken)> {
        self.proxy_tokens@
    }

    pub closed spec fn buffers_seq(self) -> Seq<(String, LogBuffer)> {
        self.log_buffers@
    }

    pub closed spec fn settings_val(self) -> Settings {
        self.settings
    }

    /// A pod with this id is registered.
    pub open spec fn has_pod(self, id: Seq<char>) -> bool {
        has_pod_key(self.pods_seq(), id)
    }

    /// The registered pod with this id.
    pub open spec fn spec_pod(self, id: Seq<char>) -> Pod {
        pod_of(self.pods_seq(), id)
    }

    /// A monitoring-group handle for this pod is registered.
    pub open spec fn has_monitor(self, id: Seq<char>) -> bool {
        has_tok(self.monitor_seq(), id)
    }

    /// A build handle for this pod is registered.
    pub open spec fn has_build(self, id: Seq<char>) -> bool {
        has_tok(self.build_seq(), id)
    }

    /// A proxy handle for this pod and container port is registered.
    pub open spec fn has_proxy(self, id: Seq<char>, port: u16) -> bool {
        has_proxy_key(self.proxy_seq(), id, port)
    }

    /// Some proxy handle for this pod is registered.
    pub open spec fn has_proxy_for(self, id: Seq<char>) -> bool {
        has_any_proxy(self.proxy_seq(), id)
    }

    /// A log buffer for this pod exists.
    pub open spec fn has_buffer(self, id: Seq<char>) -> bool {
        has_buf(self.buffers_seq(), id)
    }

    /// The entries of this pod's log buffer.
    pub open spec fn buffer_of(self, id: Seq<char>) -> Seq<LogEntry> {
        buf_of(self.buffers_seq(), id)
    }

    /// Well-formedness: every map's keys are unique, each pod record
    /// carries its own key as its id, the buffers are within capacity,
    /// and the settings' override table is itself well-formed.
    pub open spec fn wf(self) -> bool {
        &&& pod_keys_unique(self.pods_seq())
        &&& forall|i: int|
            0 <= i < self.pods_seq().len() ==> (#[trigger] self.pods_seq()[i]).1.id@
                == self.pods_seq()[i].0@
        &&& tok_keys_unique(self.monitor_seq())
        &&& tok_keys_unique(self.build_seq())
        &&& proxy_keys_unique(self.proxy_seq())
        &&& buf_keys_unique(self.buffers_seq())
        &&& forall|i: int| 0 <= i < self.buffers_seq().len() ==> (#[trigger] self.buffers_seq()[i]).1.wf()
        &&& self.settings_val().wf()
    }

    /// Everything but the pod map is unchanged.
    pub open spec fn same_tokens_and_buffers(self, other: Registry) -> bool {
        &&& self.monitor_seq() == other.monitor_seq()
        &&& self.build_seq() == other.build_seq()
        &&& self.proxy_seq() == other.proxy_seq()
        &&& self.buffers_seq() == other.buffers_seq()
        &&& self.settings_val() == other.settings_val()
    }

    pub fn new(settings: Settings) -> (r: Self)
        requires
            settings.wf(),
        ensures
            r.wf(),
            r.pods_seq() == Seq::<(String, Pod)>::empty(),
            r.monitor_seq() == Seq::<(String, CancellationToken)>::empty(),
            r.build_seq() == Seq::<(String, CancellationToken)>::empty(),
            r.proxy_seq() == Seq::<(String, u16, CancellationToken)>::empty(),
            r.buffers_seq() == Seq::<(String, LogBuffer)>::empty(),
            r.settings_val() == settings,
    {
        Registry {
            pods: Vec::new(),
            monitor_tokens: Vec::new(),
            build_tokens: Vec::new(),
            proxy_tokens: Vec::new(),
            log_buffers: Vec::new(),
            settings,
        }
    }

    /// Index of the pod with this id.
    fn find_pod(&self, id: &str) -> (r: Option<usize>)
        ensures
            match r {
                Some(i) => i < self.pods_seq().len() && self.pods_seq()[i as int].0@ == id@,
                None => !self.has_pod(id@),
            },
    {
        let mut i: usize = 0;
        let n = self.pods.len();
        while i < n
            invariant
                i <= n,
                n == self.pods@.len(),
                forall|j: int| 0 <= j < i ==> (#[trigger] self.pods@[j]).0@ != id@,
            decreases n - i,
        {
            if str_eq(self.pods[i].0.as_str(), id) {
                return Some(i);
            }
            i = i + 1;
        }
        None
    }

    /// Whether a pod with this id is registered.
    pub fn contains_pod(&self, id: &str) -> (r: bool)
        ensures
            r == self.has_pod(id@),
    {
        match self.find_pod(id) {
            Some(i) => {
                proof {
                    assert(has_pod_key(self.pods_seq(), id@));
                }
                true
            },
            None => false,
        }
    }

    /// A copy of the pod with this id.
    pub fn get_pod(&self, id: &str) -> (r: Option<Pod>)
        requires
            self.wf(),
        ensures
            match r {
                Some(p) => self.has_pod(id@) && p.same_as(self.spec_pod(id@)),
                None => !self.has_pod(id@),
            },
    {
        match self.find_pod(id) {
            Some(i) => {
                proof {
                    lemma_pod_at(self.pods_seq(), i as int, id@);
                }
                Some(self.pods[i].1.clone())
            },
            None => None,
        }
    }

    /// Copies of all registered pods.
    pub fn list_pods(&self) -> (r: Vec<Pod>)
        ensures
            r@.len() == self.pods_seq().len(),
            forall|i: int|
                0 <= i < r@.len() ==> (#[trigger] r@[i]).same_as(self.pods_seq()[i].1),
    {
        let mut out: Vec<Pod> = Vec::new();
        let mut i: usize = 0;
        let n = self.pods.len();
        while i < n
            invariant
                i <= n,
                n == self.pods@.len(),
                out@.len() == i,
                forall|j: int|
                    0 <= j < i ==> (#[trigger] out@[j]).same_as(self.pods@[j].1),
            decreases n - i,
        {
            out.push(self.pods[i].1.clone());
            i = i + 1;
        }
        out
    }

    /// Registers a pod under its own id.
    pub fn insert_pod(&mut self, pod: Pod)
        requires
            old(self).wf(),
            !old(self).has_pod(pod.id@),
        ensures
            final(self).wf(),
            final(self).pods_seq().len() == old(self).pods_seq().len() + 1,
            forall|k: Seq<char>|
                #[trigger] final(self).has_pod(k) == (k == pod.id@ || old(self).has_pod(k)),
            final(self).spec_pod(pod.id@) == pod,
            forall|k: Seq<char>|
                k != pod.id@ && old(self).has_pod(k) ==> #[trigger] final(self).spec_pod(k)
                    == old(self).spec_pod(k),
            final(self).same_tokens_and_buffers(*old(self)),
    {
        let ghost s = self.pods@;
        let key = pod.id.clone();
        self.pods.push((key, pod));
        proof {
            let s2 = self.pods@;
            assert(s2[s.len() as int].0@ == pod.id@);
            assert forall|k: Seq<char>| #[trigger] has_pod_key(s2, k) == (k == pod.id@
                || has_pod_key(s, k)) by {
                if has_pod_key(s2, k) {
                    let w = choose|i: int| 0 <= i < s2.len() && (#[trigger] s2[i]).0@ == k;
                    if w < s.len() {
                        assert(s[w].0@ == k);
                    }
                } else {
                    if has_pod_key(s, k) {
                        let w = choose|i: int| 0 <= i < s.len() && (#[trigger] s[i]).0@ == k;
                        assert(s2[w].0@ == k);
                    }
                    if k == pod.id@ {
                        assert(s2[s.len() as int].0@ == k);
                    }
                }
            }
            lemma_pod_at(s2, s.len() as int, pod.id@);
            assert forall|k: Seq<char>|
                k != pod.id@ && has_pod_key(s, k) implies #[trigger] pod_of(s2, k) == pod_of(
                s,
                k,
            ) by {
                let w = choose|i: int| 0 <= i < s.len() && (#[trigger] s[i]).0@ == k;
                assert(s2[w] == s[w]);
                lemma_pod_at(s, w, k);
                lemma_pod_at(s2, w, k);
            }
        }
    }

    /// The current settings, copied.
    pub fn get_settings(&self) -> (r: Settings)
        requires
            self.wf(),
        ensures
            r.same_as(self.settings_val()),
            r.wf(),
    {
        self.settings.clone()
    }

    /// Replaces the settings.
    pub fn set_settings(&mut self, settings: Settings)
        requires
            old(self).wf(),
            settings.wf(),
        ensures
            final(self).wf(),
            final(self).settings_val() == settings,
            final(self).pods_seq() == old(self).pods_seq(),
            final(self).monitor_seq() == old(self).monitor_seq(),
            final(self).build_seq() == old(self).build_seq(),
            final(self).proxy_seq() == old(self).proxy_seq(),
            final(self).buffers_seq() == old(self).buffers_seq(),
    {
        self.settings = settings;
    }
}

// --- Token-map helpers ---

proof fn lemma_has_tok_push(s: Seq<(String, CancellationToken)>, e: (String, CancellationToken), k: Seq<char>)
    ensures
        has_tok(s.push(e), k) == (has_tok(s, k) || e.0@ == k),
{
    let s2 = s.push(e);
    if has_tok(s2, k) {
        let w = choose|i: int| 0 <= i < s2.len() && (#[trigger] s2[i]).0@ == k;
        if w < s.len() {
            assert(s[w].0@ == k);
        }
    }
    if has_tok(s, k) {
        let w = choose|i: int| 0 <= i < s.len() && (#[trigger] s[i]).0@ == k;
        assert(s2[w].0@ == k);
    }
    if e.0@ == k {
        assert(s2[s.len() as int].0@ == k);
    }
}

proof fn lemma_has_proxy_push(
    s: Seq<(String, u16, CancellationToken)>,
    e: (String, u16, CancellationToken),
    k: Seq<char>,
    p: u16,
)
    ensures
        has_proxy_key(s.push(e), k, p) == (has_proxy_key(s, k, p) || (e.0@ == k && e.1 == p)),
        has_any_proxy(s.push(e), k) == (has_any_proxy(s, k) || e.0@ == k),
{
    let s2 = s.push(e);
    if has_proxy_key(s2, k, p) {
        let w = choose|i: int| 0 <= i < s2.len() && (#[trigger] s2[i]).0@ == k && s2[i].1 == p;
        if w < s.len() {
            assert(s[w].0@ == k && s[w].1 == p);
        }
    }
    if has_proxy_key(s, k, p) {
        let w = choose|i: int| 0 <= i < s.len() && (#[trigger] s[i]).0@ == k && s[i].1 == p;
        assert(s2[w].0@ == k && s2[w].1 == p);
    }
    if has_any_proxy(s2, k) {
        let w = choose|i: int| 0 <= i < s2.len() && (#[trigger] s2[i]).0@ == k;
        if w < s.len() {
            assert(s[w].0@ == k);
        }
    }
    if has_any_proxy(s, k) {
        let w = choose|i: int| 0 <= i < s.len() && (#[trigger] s[i]).0@ == k;
        assert(s2[w].0@ == k);
    }
    if e.0@ == k {
        assert(s2[s.len() as int].0@ == k);
    }
}

/// Cancels and drops every handle registered under `id`; the rest are
/// kept (as shared clones of the same handles).
fn purge_tokens(v: &Vec<(String, CancellationToken)>, id: &str) -> (r: Vec<
    (String, CancellationToken),
>)
    ensures
        forall|k: Seq<char>| #[trigger] has_tok(r@, k) == (has_tok(v@, k) && k != id@),
        tok_keys_unique(v@) ==> tok_keys_unique(r@),
{
    let mut out: Vec<(String, CancellationToken)> = Vec::new();
    let mut i: usize = 0;
    let n = v.len();
    proof {
        assert(v@.subrange(0, 0) =~= Seq::<(String, CancellationToken)>::empty());
    }
    while i < n
        invariant
            i <= n,
            n == v@.len(),
            forall|k: Seq<char>|
                #[trigger] has_tok(out@, k) == (has_tok(v@.subrange(0, i as int), k) && k
                    != id@),
            tok_keys_unique(v@) ==> tok_keys_unique(out@),
        decreases n - i,
    {
        let ghost pre = v@.subrange(0, i as int);
        let ghost pre2 = v@.subrange(0, i + 1);
        proof {
            assert(pre2 =~= pre.push(v@[i as int]));
        }
        if str_eq(v[i].0.as_str(), id) {
            token_cancel(&v[i].1);
            proof {
                assert forall|k: Seq<char>|
                    #[trigger] has_tok(out@, k) == (has_tok(pre2, k) && k != id@) by {
                    lemma_has_tok_push(pre, v@[i as int], k);
                }
            }
        } else {
            let ghost old_out = out@;
            let entry = (v[i].0.clone(), token_clone(&v[i].1));
            proof {
                if tok_keys_unique(v@) && has_tok(old_out, entry.0@) {
                    let w = choose|j: int|
                        0 <= j < pre.len() && (#[trigger] pre[j]).0@ == entry.0@;
                    assert(v@[w].0@ == v@[i as int].0@);
                }
            }
            out.push(entry);
            proof {
                assert forall|k: Seq<char>|
                    #[trigger] has_tok(out@, k) == (has_tok(pre2, k) && k != id@) by {
                    lemma_has_tok_push(old_out, entry, k);
                    lemma_has_tok_push(pre, v@[i as int], k);
                }
                if tok_keys_unique(v@) {
                    assert forall|a: int, b: int|
                        0 <= a < b < out@.len() implies (#[trigger] out@[a]).0@
                        != (#[trigger] out@[b]).0@ by {
                        if b == out@.len() - 1 {
                            assert(has_tok(old_out, out@[a].0@)) by {
                                assert(old_out[a].0@ == out@[a].0@);
                            }
                        }
                    }
                }
            }
        }
        i = i + 1;
    }
    proof {
        assert(v@.subrange(0, n as int) =~= v@);
    }
    out
}

/// Cancels and drops every proxy handle of this pod (every port).
fn purge_proxies_of(v: &Vec<(String, u16, CancellationToken)>, id: &str) -> (r: Vec<
    (String, u16, CancellationToken),
>)
    ensures
        forall|k: Seq<char>, p: u16|
            #[trigger] has_proxy_key(r@, k, p) == (has_proxy_key(v@, k, p) && k != id@),
        forall|k: Seq<char>| #[trigger] has_any_proxy(r@, k) == (has_any_proxy(v@, k) && k != id@),
        proxy_keys_unique(v@) ==> proxy_keys_unique(r@),
{
    let mut out: Vec<(String, u16, CancellationToken)> = Vec::new();
    let mut i: usize = 0;
    let n = v.len();
    proof {
        assert(v@.subrange(0, 0) =~= Seq::<(String, u16, CancellationToken)>::empty());
    }
    while i < n
        invariant
            i <= n,
            n == v@.len(),
            forall|k: Seq<char>, p: u16|
                #[trigger] has_proxy_key(out@, k, p) == (has_proxy_key(
                    v@.subrange(0, i as int),
                    k,
                    p,
                ) && k != id@),
            forall|k: Seq<char>|
                #[trigger] has_any_proxy(out@, k) == (has_any_proxy(v@.subrange(0, i as int), k)
                    && k != id@),
            proxy_keys_unique(v@) ==> proxy_keys_unique(out@),
        decreases n - i,
    {
        let ghost pre = v@.subrange(0, i as int);
        let ghost pre2 = v@.subrange(0, i + 1);
        proof {
            assert(pre2 =~= pre.push(v@[i as int]));
        }
        if str_eq(v[i].0.as_str(), id) {
            token_cancel(&v[i].2);
            proof {
                assert forall|k: Seq<char>, p: u16|
                    #[trigger] has_proxy_key(out@, k, p) == (has_proxy_key(pre2, k, p) && k
                        != id@) by {
                    lemma_has_proxy_push(pre, v@[i as int], k, p);
                }
                assert forall|k: Seq<char>|
                    #[trigger] has_any_proxy(out@, k) == (has_any_proxy(pre2, k) && k != id@) by {
                    lemma_has_proxy_push(pre, v@[i as int], k, v@[i as int].1);
                }
            }
        } else {
            let ghost old_out = out@;
            let entry = (v[i].0.clone(), v[i].1, token_clone(&v[i].2));
            proof {
                if proxy_keys_unique(v@) && has_proxy_key(old_out, entry.0@, entry.1) {
                    let w = choose|j: int|
                        0 <= j < pre.len() && (#[trigger] pre[j]).0@ == entry.0@ && pre[j].1
                            == entry.1;
                    assert(!(v@[w].0@ == v@[i as int].0@ && v@[w].1 == v@[i as int].1));
                }
            }
            out.push(entry);
            proof {
                assert forall|k: Seq<char>, p: u16|
                    #[trigger] has_proxy_key(out@, k, p) == (has_proxy_key(pre2, k, p) && k
                        != id@) by {
                    lemma_has_proxy_push(old_out, entry, k, p);
                    lemma_has_proxy_push(pre, v@[i as int], k, p);
                }
                assert forall|k: Seq<char>|
                    #[trigger] has_any_proxy(out@, k) == (has_any_proxy(pre2, k) && k != id@) by {
                    lemma_has_proxy_push(old_out, entry, k, entry.1);
                    lemma_has_proxy_push(pre, v@[i as int], k, entry.1);
                }
                if proxy_keys_unique(v@) {
                    assert forall|a: int, b: int|
                        0 <= a < b < out@.len() implies !((#[trigger] out@[a]).0@
                        == (#[trigger] out@[b]).0@ && out@[a].1 == out@[b].1) by {
                        if b == out@.len() - 1 {
                            if out@[a].0@ == entry.0@ && out@[a].1 == entry.1 {
                                assert(has_proxy_key(old_out, entry.0@, entry.1)) by {
                                    assert(old_out[a].0@ == entry.0@ && old_out[a].1 == entry.1);
                                }
                            }
                        }
                    }
                }
            }
        }
        i = i + 1;
    }
    proof {
        assert(v@.subrange(0, n as int) =~= v@);
    }
    out
}

/// Cancels and drops the proxy handle of this pod and container port.
fn purge_proxy(v: &Vec<(String, u16, CancellationToken)>, id: &str, port: u16) -> (r: Vec<
    (String, u16, CancellationToken),
>)
    ensures
        forall|k: Seq<char>, p: u16|
            #[trigger] has_proxy_key(r@, k, p) == (has_proxy_key(v@, k, p) && !(k == id@ && p
                == port)),
        proxy_keys_unique(v@) ==> proxy_keys_unique(r@),
{
    let mut out: Vec<(String, u16, CancellationToken)> = Vec::new();
    let mut i: usize = 0;
    let n = v.len();
    proof {
        assert(v@.subrange(0, 0) =~= Seq::<(String, u16, CancellationToken)>::empty());
    }
    while i < n
        invariant
            i <= n,
            n == v@.len(),
            forall|k: Seq<char>, p: u16|
                #[trigger] has_proxy_key(out@, k, p) == (has_proxy_key(
                    v@.subrange(0, i as int),
                    k,
                    p,
                ) && !(k == id@ && p == port)),
            proxy_keys_unique(v@) ==> proxy_keys_unique(out@),
        decreases n - i,
    {
        let ghost pre = v@.subrange(0, i as int);
        let ghost pre2 = v@.subrange(0, i + 1);
        proof {
            assert(pre2 =~= pre.push(v@[i as int]));
        }
        if v[i].1 == port && str_eq(v[i].0.as_str(), id) {
            token_cancel(&v[i].2);
            proof {
                assert forall|k: Seq<char>, p: u16|
                    #[trigger] has_proxy_key(out@, k, p) == (has_proxy_key(pre2, k, p) && !(k
                        == id@ && p == port)) by {
                    lemma_has_proxy_push(pre, v@[i as int], k, p);
                }
            }
        } else {
            let ghost old_out = out@;
            let entry = (v[i].0.clone(), v[i].1, token_clone(&v[i].2));
            proof {
                if proxy_keys_unique(v@) && has_proxy_key(old_out, entry.0@, entry.1) {
                    let w = choose|j: int|
                        0 <= j < pre.len() && (#[trigger] pre[j]).0@ == entry.0@ && pre[j].1
                            == entry.1;
                    assert(!(v@[w].0@ == v@[i as int].0@ && v@[w].1 == v@[i as int].1));
                }
            }
            out.push(entry);
            proof {
                assert forall|k: Seq<char>, p: u16|
                    #[trigger] has_proxy_key(out@, k, p) == (has_proxy_key(pre2, k, p) && !(k
                        == id@ && p == port)) by {
                    lemma_has_proxy_push(old_out, entry, k, p);
                    lemma_has_proxy_push(pre, v@[i as int], k, p);
                }
                if proxy_keys_unique(v@) {
                    assert forall|a: int, b: int|
                        0 <= a < b < out@.len() implies !((#[trigger] out@[a]).0@
                        == (#[trigger] out@[b]).0@ && out@[a].1 == out@[b].1) by {
                        if b == out@.len() - 1 {
                            if out@[a].0@ == entry.0@ && out@[a].1 == entry.1 {
                                assert(has_proxy_key(old_out, entry.0@, entry.1)) by {
                                    assert(old_out[a].0@ == entry.0@ && old_out[a].1 == entry.1);
                                }
                            }
                        }
                    }
                }
            }
        }
        i = i + 1;
    }
    proof {
        assert(v@.subrange(0, n as int) =~= v@);
    }
    out
}

/// All fields agree except possibly the status and the error message.
pub open spec fn same_pod_core(a: Pod, b: Pod) -> bool {
    &&& a.id == b.id
    &&& a.name == b.name
    &&& a.project_path == b.project_path
    &&& a.image == b.image
    &&& a.uptime_secs == b.uptime_secs
    &&& a.cpu_percent_hundredths == b.cpu_percent_hundredths
    &&& a.memory_used == b.memory_used
    &&& a.memory_limit == b.memory_limit
    &&& a.default_shell == b.default_shell
    &&& a.exposed_ports@ == b.exposed_ports@
    &&& a.detected_ports@ == b.detected_ports@
    &&& a.processes@ == b.processes@
    &&& a.container_id == b.container_id
    &&& a.started_at == b.started_at
    &&& a.alias == b.alias
    &&& a.remote_user == b.remote_user
    &&& a.remote_workspace_folder == b.remote_workspace_folder
    &&& a.container_name == b.container_name
}

impl Registry {
    /// Replaces the pod at a found index, keeping its key.
    fn put_pod(&mut self, i: usize, p: Pod)
        requires
            old(self).wf(),
            i < old(self).pods_seq().len(),
            p.id@ == old(self).pods_seq()[i as int].0@,
        ensures
            final(self).wf(),
            forall|k: Seq<char>| #[trigger] final(self).has_pod(k) == old(self).has_pod(k),
            final(self).spec_pod(old(self).pods_seq()[i as int].0@) == p,
            forall|k: Seq<char>|
                k != old(self).pods_seq()[i as int].0@ && old(self).has_pod(k)
                    ==> #[trigger] final(self).spec_pod(k) == old(self).spec_pod(k),
            final(self).pods_seq().len() == old(self).pods_seq().len(),
            final(self).same_tokens_and_buffers(*old(self)),
    {
        let ghost s = self.pods@;
        let ghost id = s[i as int].0@;
        let key = self.pods[i].0.clone();
        vstd::pervasive::VecAdditionalExecFns::set(&mut self.pods, i, (key, p));
        proof {
            let s2 = self.pods@;
            assert(s2[i as int].0@ == id);
            assert forall|a: int, b: int|
                0 <= a < b < s2.len() implies (#[trigger] s2[a]).0@ != (#[trigger] s2[b]).0@ by {
                assert(s[a].0@ != s[b].0@);
            }
            assert forall|k: Seq<char>| #[trigger] has_pod_key(s2, k) == has_pod_key(s, k) by {
                if has_pod_key(s2, k) {
                    let w = choose|x: int| 0 <= x < s2.len() && (#[trigger] s2[x]).0@ == k;
                    assert(s[w].0@ == k);
                }
                if has_pod_key(s, k) {
                    let w = choose|x: int| 0 <= x < s.len() && (#[trigger] s[x]).0@ == k;
                    assert(s2[w].0@ == k);
                }
            }
            lemma_pod_at(s2, i as int, id);
            assert forall|k: Seq<char>|
                k != id && has_pod_key(s, k) implies #[trigger] pod_of(s2, k) == pod_of(
                s,
                k,
            ) by {
                let w = choose|x: int| 0 <= x < s.len() && (#[trigger] s[x]).0@ == k;
                assert(s2[w] == s[w]);
                lemma_pod_at(s, w, k);
                lemma_pod_at(s2, w, k);
            }
        }
    }

    /// Registers a fresh monitoring-group handle for this pod,
    /// cancelling and replacing any earlier one, and hands back a
    /// shared clone for the caller's monitor tasks.
    pub fn register_monitor(&mut self, id: &str) -> (r: CancellationToken)
        requires
            old(self).wf(),
        ensures
            final(self).wf(),
            forall|k: Seq<char>|
                #[trigger] final(self).has_monitor(k) == (k == id@ || old(self).has_monitor(k)),
            final(self).pods_seq() == old(self).pods_seq(),
            final(self).build_seq() == old(self).build_seq(),
            final(self).proxy_seq() == old(self).proxy_seq(),
            final(self).buffers_seq() == old(self).buffers_seq(),
            final(self).settings_val() == old(self).settings_val(),
    {
        let kept = purge_tokens(&self.monitor_tokens, id);
        self.monitor_tokens = kept;
        let t = token_new();
        let handle = token_clone(&t);
        let ghost s = self.monitor_tokens@;
        self.monitor_tokens.push((id.to_owned(), t));
        proof {
            let s2 = self.monitor_tokens@;
            assert forall|k: Seq<char>| #[trigger] has_tok(s2, k) == (k == id@ || has_tok(
                s,
                k,
            )) by {
                lemma_has_tok_push(s, s2.last(), k);
            }
            assert forall|a: int, b: int|
                0 <= a < b < s2.len() implies (#[trigger] s2[a]).0@ != (#[trigger] s2[b]).0@ by {
                if b == s2.len() - 1 {
                    if s2[a].0@ == id@ {
                        assert(has_tok(s, id@)) by {
                            assert(s[a].0@ == id@);
                        }
                    }
                } else {
                    assert(s[a].0@ != s[b].0@);
                }
            }
        }
        handle
    }

    /// Registers a fresh build handle for this pod, cancelling and
    /// replacing any earlier one, and hands back a shared clone for the
    /// build task.
    pub fn register_build(&mut self, id: &str) -> (r: CancellationToken)
        requires
            old(self).wf(),
        ensures
            final(self).wf(),
            forall|k: Seq<char>|
                #[trigger] final(self).has_build(k) == (k == id@ || old(self).has_build(k)),
            final(self).pods_seq() == old(self).pods_seq(),
            final(self).monitor_seq() == old(self).monitor_seq(),
            final(self).proxy_seq() == old(self).proxy_seq(),
            final(self).buffers_seq() == old(self).buffers_seq(),
            final(self).settings_val() == old(self).settings_val(),
    {
        let kept = purge_tokens(&self.build_tokens, id);
        self.build_tokens = kept;
        let t = token_new();
        let handle = token_clone(&t);
        let ghost s = self.build_tokens@;
        self.build_tokens.push((id.to_owned(), t));
        proof {
            let s2 = self.build_tokens@;
            assert forall|k: Seq<char>| #[trigger] has_tok(s2, k) == (k == id@ || has_tok(
                s,
                k,
            )) by {
                lemma_has_tok_push(s, s2.last(), k);
            }
            assert forall|a: int, b: int|
                0 <= a < b < s2.len() implies (#[trigger] s2[a]).0@ != (#[trigger] s2[b]).0@ by {
                if b == s2.len() - 1 {
                    if s2[a].0@ == id@ {
                        assert(has_tok(s, id@)) by {
                            assert(s[a].0@ == id@);
                        }
                    }
                } else {
                    assert(s[a].0@ != s[b].0@);
                }
            }
        }
        handle
    }

    /// Whether a build handle for this pod is registered.
    pub fn build_registered(&self, id: &str) -> (r: bool)
        ensures
            r == self.has_build(id@),
    {
        let mut i: usize = 0;
        let n = self.build_tokens.len();
        while i < n
            invariant
                i <= n,
                n == self.build_tokens@.len(),
                forall|j: int| 0 <= j < i ==> (#[trigger] self.build_tokens@[j]).0@ != id@,
            decreases n - i,
        {
            if str_eq(self.build_tokens[i].0.as_str(), id) {
                proof {
                    assert(has_tok(self.build_seq(), id@));
                }
                return true;
            }
            i = i + 1;
        }
        false
    }

    /// Cancels and drops this pod's build handle, if one is registered.
    fn drop_build(&mut self, id: &str)
        requires
            old(self).wf(),
        ensures
            final(self).wf(),
            forall|k: Seq<char>|
                #[trigger] final(self).has_build(k) == (old(self).has_build(k) && k != id@),
            final(self).pods_seq() == old(self).pods_seq(),
            final(self).monitor_seq() == old(self).monitor_seq(),
            final(self).proxy_seq() == old(self).proxy_seq(),
            final(self).buffers_seq() == old(self).buffers_seq(),
            final(self).settings_val() == old(self).settings_val(),
    {
        let kept = purge_tokens(&self.build_tokens, id);
        self.build_tokens = kept;
    }

    /// Cancels and drops this pod's monitoring-group handle and all of
    /// its proxy handles.
    fn drop_monitor_and_proxies(&mut self, id: &str)
        requires
            old(self).wf(),
        ensures
            final(self).wf(),
            forall|k: Seq<char>|
                #[trigger] final(self).has_monitor(k) == (old(self).has_monitor(k) && k != id@),
            forall|k: Seq<char>, p: u16|
                #[trigger] final(self).has_proxy(k, p) == (old(self).has_proxy(k, p) && k != id@),
            forall|k: Seq<char>|
                #[trigger] final(self).has_proxy_for(k) == (old(self).has_proxy_for(k) && k
                    != id@),
            final(self).pods_seq() == old(self).pods_seq(),
            final(self).build_seq() == old(self).build_seq(),
            final(self).buffers_seq() == old(self).buffers_seq(),
            final(self).settings_val() == old(self).settings_val(),
    {
        let kept = purge_tokens(&self.monitor_tokens, id);
        self.monitor_tokens = kept;
        let kept_proxies = purge_proxies_of(&self.proxy_tokens, id);
        self.proxy_tokens = kept_proxies;
    }

    /// First phase of starting a pod: rejects an unknown pod and one
    /// already running or starting; otherwise marks it `Starting`,
    /// clears its error, and hands back the project path to build and
    /// the notification to send.
    pub fn start_begin(&mut self, id: &str) -> (r: Result<(String, PodStatusChanged), NookError>)
        requires
            old(self).wf(),
        ensures
            final(self).wf(),
            match r {
                Ok((path, ev)) => {
                    &&& old(self).has_pod(id@)
                    &&& old(self).spec_pod(id@).status != PodStatus::Running
                    &&& old(self).spec_pod(id@).status != PodStatus::Starting
                    &&& forall|k: Seq<char>|
                        #[trigger] final(self).has_pod(k) == old(self).has_pod(k)
                    &&& same_pod_core(old(self).spec_pod(id@), final(self).spec_pod(id@))
                    &&& final(self).spec_pod(id@).status == PodStatus::Starting
                    &&& final(self).spec_pod(id@).error_message is None
                    &&& forall|k: Seq<char>|
                        k != id@ && old(self).has_pod(k) ==> #[trigger] final(self).spec_pod(k)
                            == old(self).spec_pod(k)
                    &&& path@ == old(self).spec_pod(id@).project_path@
                    &&& ev.pod_id@ == id@ && ev.status == PodStatus::Starting
                        && ev.error_message is None
                    &&& final(self).same_tokens_and_buffers(*old(self))
                },
                Err(e) => {
                    &&& *final(self) == *old(self)
                    &&& (e matches NookError::PodNotFound(p) && p@ == id@ && !old(self).has_pod(
                        id@,
                    )) || (e == NookError::AlreadyRunning && old(self).has_pod(id@) && (old(
                        self,
                    ).spec_pod(id@).status == PodStatus::Running || old(self).spec_pod(id@).status
                        == PodStatus::Starting))
                },
            },
    {
        match self.find_pod(id) {
            Some(i) => {
                proof {
                    lemma_pod_at(self.pods_seq(), i as int, id@);
                }
                let status = self.pods[i].1.status;
                if status == PodStatus::Running || status == PodStatus::Starting {
                    return Err(NookError::AlreadyRunning);
                }
                let mut p = self.pods[i].1.clone();
                p.status = PodStatus::Starting;
                p.error_message = None;
                let path = p.project_path.clone();
                self.put_pod(i, p);
                let ev = PodStatusChanged {
                    pod_id: id.to_owned(),
                    status: PodStatus::Starting,
                    error_message: None,
                };
                Ok((path, ev))
            },
            None => Err(NookError::PodNotFound(id.to_owned())),
        }
    }

    /// Commits a successful build: unless the build was cancelled in
    /// the meantime (then the late result is discarded), the pod
    /// becomes `Running` with the learned container data, and a fresh
    /// monitoring-group handle is returned when a container id is known.
    pub fn start_finish_ok(
        &mut self,
        id: &str,
        container_id: Option<String>,
        image: Option<String>,
        container_name: Option<String>,
        shell: String,
        remote_user: Option<String>,
        remote_workspace_folder: Option<String>,
        now: i64,
    ) -> (r: (Option<CancellationToken>, Vec<Notification>))
        requires
            old(self).wf(),
        ensures
            final(self).wf(),
            !old(self).has_build(id@) ==> *final(self) == *old(self) && r.0 is None && r.1@.len()
                == 0,
            old(self).has_build(id@) ==> {
                &&& forall|k: Seq<char>|
                    #[trigger] final(self).has_build(k) == (old(self).has_build(k) && k != id@)
                &&& forall|k: Seq<char>|
                    #[trigger] final(self).has_pod(k) == old(self).has_pod(k)
                &&& forall|k: Seq<char>|
                    k != id@ && old(self).has_pod(k) ==> #[trigger] final(self).spec_pod(k)
                        == old(self).spec_pod(k)
                &&& final(self).proxy_seq() == old(self).proxy_seq()
                &&& final(self).buffers_seq() == old(self).buffers_seq()
                &&& final(self).settings_val() == old(self).settings_val()
            },
            old(self).has_build(id@) && !old(self).has_pod(id@) ==> r.0 is None && r.1@.len() == 0
                && final(self).monitor_seq() == old(self).monitor_seq(),
            old(self).has_build(id@) && old(self).has_pod(id@) ==> {
                let p0 = old(self).spec_pod(id@);
                let p1 = final(self).spec_pod(id@);
                &&& p1.status == PodStatus::Running
                &&& p1.container_id == container_id
                &&& p1.started_at == Some(now)
                &&& p1.default_shell == shell
                &&& p1.remote_user == remote_user
                &&& p1.remote_workspace_folder == remote_workspace_folder
                &&& p1.container_name == container_name
                &&& p1.image == (match image {
                    Some(img) => img,
                    None => p0.image,
                })
                &&& p1.id == p0.id && p1.name == p0.name && p1.project_path == p0.project_path
                &&& p1.error_message == p0.error_message
                &&& p1.exposed_ports@ == p0.exposed_ports@ && p1.detected_ports@
                    == p0.detected_ports@ && p1.processes@ == p0.processes@
                &&& r.1@.len() == 1
                &&& (r.1@[0] matches Notification::StatusChanged(ev) && ev.pod_id@ == id@
                    && ev.status == PodStatus::Running && ev.error_message is None)
                &&& (container_id is Some <==> r.0 is Some)
                &&& container_id is Some ==> forall|k: Seq<char>|
                    #[trigger] final(self).has_monitor(k) == (k == id@ || old(self).has_monitor(
                        k,
                    ))
                &&& container_id is None ==> final(self).monitor_seq() == old(self).monitor_seq()
            },
    {
        if !self.build_registered(id) {
            return (None, Vec::new());
        }
        self.drop_build(id);
        let ghost s1 = *self;
        match self.find_pod(id) {
            Some(i) => {
                proof {
                    lemma_pod_at(self.pods_seq(), i as int, id@);
                }
                let had_container = container_id.is_some();
                let mut p = self.pods[i].1.clone();
                p.status = PodStatus::Running;
                p.container_id = container_id;
                p.started_at = Some(now);
                p.default_shell = shell;
                p.remote_user = remote_user;
                p.remote_workspace_folder = remote_workspace_folder;
                p.container_name = container_name;
                match image {
                    Some(img) => {
                        p.image = img;
                    },
                    None => {},
                }
                self.put_pod(i, p);
                let ev = PodStatusChanged {
                    pod_id: id.to_owned(),
                    status: PodStatus::Running,
                    error_message: None,
                };
                let mut events: Vec<Notification> = Vec::new();
                events.push(Notification::StatusChanged(ev));
                let ghost s2 = *self;
                if had_container {
                    let token = self.register_monitor(id);
                    proof {
                        assert forall|k: Seq<char>|
                            #[trigger] self.has_build(k) == (old(self).has_build(k) && k
                                != id@) by {
                            assert(s1.has_build(k) == (old(self).has_build(k) && k != id@));
                            assert(self.build_seq() == s2.build_seq());
                            assert(s2.build_seq() == s1.build_seq());
                        }
                        assert forall|k: Seq<char>|
                            #[trigger] self.has_pod(k) == old(self).has_pod(k) by {
                            assert(self.pods_seq() == s2.pods_seq());
                            assert(s2.has_pod(k) == s1.has_pod(k));
                            assert(s1.pods_seq() == old(self).pods_seq());
                        }
                        assert forall|k: Seq<char>|
                            k != id@ && old(self).has_pod(k) implies #[trigger] self.spec_pod(k)
                            == old(self).spec_pod(k) by {
                            assert(s1.pods_seq() == old(self).pods_seq());
                            assert(s2.spec_pod(k) == s1.spec_pod(k));
                            assert(self.pods_seq() == s2.pods_seq());
                        }
                        assert(self.spec_pod(id@) == s2.spec_pod(id@));
                    }
                    (Some(token), events)
                } else {
                    proof {
                        assert forall|k: Seq<char>|
                            #[trigger] self.has_build(k) == (old(self).has_build(k) && k
                                != id@) by {
                            assert(s1.has_build(k) == (old(self).has_build(k) && k != id@));
                            assert(self.build_seq() == s1.build_seq());
                        }
                        assert forall|k: Seq<char>|
                            #[trigger] self.has_pod(k) == old(self).has_pod(k) by {
                            assert(s2.has_pod(k) == s1.has_pod(k));
                            assert(s1.pods_seq() == old(self).pods_seq());
                        }
                        assert forall|k: Seq<char>|
                            k != id@ && old(self).has_pod(k) implies #[trigger] self.spec_pod(k)
                            == old(self).spec_pod(k) by {
                            assert(s1.pods_seq() == old(self).pods_seq());
                            assert(s2.spec_pod(k) == s1.spec_pod(k));
                        }
                    }
                    (None, events)
                }
            },
            None => {
                proof {
                    assert forall|k: Seq<char>|
                        #[trigger] self.has_build(k) == (old(self).has_build(k) && k != id@) by {
                        assert(s1.has_build(k) == (old(self).has_build(k) && k != id@));
                    }
                    assert forall|k: Seq<char>|
                        #[trigger] self.has_pod(k) == old(self).has_pod(k) by {
                        assert(s1.pods_seq() == old(self).pods_seq());
                    }
                    assert forall|k: Seq<char>|
                        k != id@ && old(self).has_pod(k) implies #[trigger] self.spec_pod(k)
                        == old(self).spec_pod(k) by {
                        assert(s1.pods_seq() == old(self).pods_seq());
                    }
                }
                (None, Vec::new())
            },
        }
    }

    /// Commits a failed build: unless the build was cancelled in the
    /// meantime (then the late failure is discarded), the pod goes to
    /// `Error` carrying the failure text.
    pub fn start_finish_err(&mut self, id: &str, error: String) -> (r: Vec<Notification>)
        requires
            old(self).wf(),
        ensures
            final(self).wf(),
            !old(self).has_build(id@) ==> *final(self) == *old(self) && r@.len() == 0,
            old(self).has_build(id@) ==> {
                &&& forall|k: Seq<char>|
                    #[trigger] final(self).has_build(k) == (old(self).has_build(k) && k != id@)
                &&& forall|k: Seq<char>|
                    #[trigger] final(self).has_pod(k) == old(self).has_pod(k)
                &&& forall|k: Seq<char>|
                    k != id@ && old(self).has_pod(k) ==> #[trigger] final(self).spec_pod(k)
                        == old(self).spec_pod(k)
                &&& final(self).monitor_seq() == old(self).monitor_seq()
                &&& final(self).proxy_seq() == old(self).proxy_seq()
                &&& final(self).buffers_seq() == old(self).buffers_seq()
                &&& final(self).settings_val() == old(self).settings_val()
            },
            old(self).has_build(id@) && !old(self).has_pod(id@) ==> r@.len() == 0,
            old(self).has_build(id@) && old(self).has_pod(id@) ==> {
                &&& same_pod_core(old(self).spec_pod(id@), final(self).spec_pod(id@))
                &&& final(self).spec_pod(id@).status == PodStatus::Error
                &&& final(self).spec_pod(id@).error_message == Some(error)
                &&& r@.len() == 1
                &&& (r@[0] matches Notification::StatusChanged(ev) && ev.pod_id@ == id@
                    && ev.status == PodStatus::Error && ev.error_message == Some(error))
            },
    {
        if !self.build_registered(id) {
            return Vec::new();
        }
        self.drop_build(id);
        let ghost s1 = *self;
        match self.find_pod(id) {
            Some(i) => {
                proof {
                    lemma_pod_at(self.pods_seq(), i as int, id@);
                }
                let mut p = self.pods[i].1.clone();
                p.status = PodStatus::Error;
                p.error_message = Some(error.clone());
                self.put_pod(i, p);
                let ev = PodStatusChanged {
                    pod_id: id.to_owned(),
                    status: PodStatus::Error,
                    error_message: Some(error),
                };
                let mut events: Vec<Notification> = Vec::new();
                events.push(Notification::StatusChanged(ev));
                proof {
                    assert forall|k: Seq<char>|
                        #[trigger] self.has_build(k) == (old(self).has_build(k) && k != id@) by {
                        assert(s1.has_build(k) == (old(self).has_build(k) && k != id@));
                        assert(self.build_seq() == s1.build_seq());
                    }
                    assert forall|k: Seq<char>|
                        #[trigger] self.has_pod(k) == old(self).has_pod(k) by {
                        assert(self.has_pod(k) == s1.has_pod(k));
                        assert(s1.pods_seq() == old(self).pods_seq());
                    }
                    assert forall|k: Seq<char>|
                        k != id@ && old(self).has_pod(k) implies #[trigger] self.spec_pod(k)
                        == old(self).spec_pod(k) by {
                        assert(s1.pods_seq() == old(self).pods_seq());
                        assert(s1.has_pod(k));
                    }
                }
                events
            },
            None => {
                proof {
                    assert forall|k: Seq<char>|
                        #[trigger] self.has_build(k) == (old(self).has_build(k) && k != id@) by {
                        assert(s1.has_build(k) == (old(self).has_build(k) && k != id@));
                    }
                    assert forall|k: Seq<char>|
                        #[trigger] self.has_pod(k) == old(self).has_pod(k) by {
                        assert(s1.pods_seq() == old(self).pods_seq());
                    }
                }
                Vec::new()
            },
        }
    }

    /// Cancels an in-flight build: its handle is signalled and dropped,
    /// and the pod returns to `Stopped` with its error cleared. A later
    /// build result finds no handle and is discarded.
    pub fn cancel_build(&mut self, id: &str) -> (r: Vec<Notification>)
        requires
            old(self).wf(),
        ensures
            final(self).wf(),
            forall|k: Seq<char>|
                #[trigger] final(self).has_build(k) == (old(self).has_build(k) && k != id@),
            forall|k: Seq<char>| #[trigger] final(self).has_pod(k) == old(self).has_pod(k),
            forall|k: Seq<char>|
                k != id@ && old(self).has_pod(k) ==> #[trigger] final(self).spec_pod(k) == old(
                    self,
                ).spec_pod(k),
            final(self).monitor_seq() == old(self).monitor_seq(),
            final(self).proxy_seq() == old(self).proxy_seq(),
            final(self).buffers_seq() == old(self).buffers_seq(),
            final(self).settings_val() == old(self).settings_val(),
            old(self).has_pod(id@) ==> {
                &&& same_pod_core(old(self).spec_pod(id@), final(self).spec_pod(id@))
                &&& final(self).spec_pod(id@).status == PodStatus::Stopped
                &&& final(self).spec_pod(id@).error_message is None
                &&& r@.len() == 1
                &&& (r@[0] matches Notification::StatusChanged(ev) && ev.pod_id@ == id@
                    && ev.status == PodStatus::Stopped && ev.error_message is None)
            },
            !old(self).has_pod(id@) ==> r@.len() == 0 && final(self).pods_seq() == old(
                self,
            ).pods_seq(),
    {
        self.drop_build(id);
        let ghost s1 = *self;
        match self.find_pod(id) {
            Some(i) => {
                proof {
                    lemma_pod_at(self.pods_seq(), i as int, id@);
                }
                let mut p = self.pods[i].1.clone();
                p.status = PodStatus::Stopped;
                p.error_message = None;
                self.put_pod(i, p);
                let ev = PodStatusChanged {
                    pod_id: id.to_owned(),
                    status: PodStatus::Stopped,
                    error_message: None,
                };
                let mut events: Vec<Notification> = Vec::new();
                events.push(Notification::StatusChanged(ev));
                proof {
                    assert forall|k: Seq<char>|
                        #[trigger] self.has_build(k) == (old(self).has_build(k) && k != id@) by {
                        assert(s1.has_build(k) == (old(self).has_build(k) && k != id@));
                        assert(self.build_seq() == s1.build_seq());
                    }
                    assert forall|k: Seq<char>|
                        #[trigger] self.has_pod(k) == old(self).has_pod(k) by {
                        assert(self.has_pod(k) == s1.has_pod(k));
                        assert(s1.pods_seq() == old(self).pods_seq());
                    }
                    assert forall|k: Seq<char>|
                        k != id@ && old(self).has_pod(k) implies #[trigger] self.spec_pod(k)
                        == old(self).spec_pod(k) by {
                        assert(s1.pods_seq() == old(self).pods_seq());
                        assert(s1.has_pod(k));
                    }
                }
                events
            },
            None => {
                proof {
                    assert forall|k: Seq<char>|
                        #[trigger] self.has_build(k) == (old(self).has_build(k) && k != id@) by {
                        assert(s1.has_build(k) == (old(self).has_build(k) && k != id@));
                    }
                    assert forall|k: Seq<char>|
                        #[trigger] self.has_pod(k) == old(self).has_pod(k) by {
                        assert(s1.pods_seq() == old(self).pods_seq());
                    }
                }
                Vec::new()
            },
        }
    }
}

impl Registry {
    /// First phase of stopping a pod: rejects an unknown pod; otherwise
    /// marks it `Stopping`, cancels its monitoring-group handle and all
    /// of its proxy handles, and hands back the container to stop and
    /// the notification to send.
    pub fn stop_begin(&mut self, id: &str) -> (r: Result<
        (Option<String>, PodStatusChanged),
        NookError,
    >)
        requires
            old(self).wf(),
        ensures
            final(self).wf(),
            match r {
                Ok((cid, ev)) => {
                    &&& old(self).has_pod(id@)
                    &&& forall|k: Seq<char>|
                        #[trigger] final(self).has_pod(k) == old(self).has_pod(k)
                    &&& same_pod_core(old(self).spec_pod(id@), final(self).spec_pod(id@))
                    &&& final(self).spec_pod(id@).status == PodStatus::Stopping
                    &&& final(self).spec_pod(id@).error_message == old(self).spec_pod(
                        id@,
                    ).error_message
                    &&& forall|k: Seq<char>|
                        k != id@ && old(self).has_pod(k) ==> #[trigger] final(self).spec_pod(k)
                            == old(self).spec_pod(k)
                    &&& cid == old(self).spec_pod(id@).container_id
                    &&& ev.pod_id@ == id@ && ev.status == PodStatus::Stopping && ev.error_message
                        is None
                    &&& forall|k: Seq<char>|
                        #[trigger] final(self).has_monitor(k) == (old(self).has_monitor(k) && k
                            != id@)
                    &&& forall|k: Seq<char>, p: u16|
                        #[trigger] final(self).has_proxy(k, p) == (old(self).has_proxy(k, p) && k
                            != id@)
                    &&& final(self).build_seq() == old(self).build_seq()
                    &&& final(self).buffers_seq() == old(self).buffers_seq()
                    &&& final(self).settings_val() == old(self).settings_val()
                },
                Err(e) => {
                    &&& *final(self) == *old(self)
                    &&& e matches NookError::PodNotFound(p) && p@ == id@ && !old(self).has_pod(id@)
                },
            },
    {
        match self.find_pod(id) {
            Some(i) => {
                proof {
                    lemma_pod_at(self.pods_seq(), i as int, id@);
                }
                let mut p = self.pods[i].1.clone();
                p.status = PodStatus::Stopping;
                let cid = crate::types::clone_opt_string(&p.container_id);
                self.put_pod(i, p);
                let ghost s1 = *self;
                self.drop_monitor_and_proxies(id);
                let ev = PodStatusChanged {
                    pod_id: id.to_owned(),
                    status: PodStatus::Stopping,
                    error_message: None,
                };
                proof {
                    assert forall|k: Seq<char>|
                        #[trigger] self.has_pod(k) == old(self).has_pod(k) by {
                        assert(self.pods_seq() == s1.pods_seq());
                        assert(s1.has_pod(k) == old(self).has_pod(k));
                    }
                    assert forall|k: Seq<char>|
                        k != id@ && old(self).has_pod(k) implies #[trigger] self.spec_pod(k)
                        == old(self).spec_pod(k) by {
                        assert(self.pods_seq() == s1.pods_seq());
                        assert(s1.spec_pod(k) == old(self).spec_pod(k));
                    }
                    assert(self.spec_pod(id@) == s1.spec_pod(id@));
                    assert forall|k: Seq<char>|
                        #[trigger] self.has_monitor(k) == (old(self).has_monitor(k) && k
                            != id@) by {
                        assert(s1.monitor_seq() == old(self).monitor_seq());
                    }
                    assert forall|k: Seq<char>, p2: u16|
                        #[trigger] self.has_proxy(k, p2) == (old(self).has_proxy(k, p2) && k
                            != id@) by {
                        assert(s1.proxy_seq() == old(self).proxy_seq());
                    }
                }
                Ok((cid, ev))
            },
            None => Err(NookError::PodNotFound(id.to_owned())),
        }
    }

    /// First phase of force-stopping or removing a pod: rejects an
    /// unknown pod; otherwise cancels its monitoring-group handle and
    /// all of its proxy handles, and hands back the container id. The
    /// pod record itself is untouched.
    pub fn force_stop_begin(&mut self, id: &str) -> (r: Result<Option<String>, NookError>)
        requires
            old(self).wf(),
        ensures
            final(self).wf(),
            match r {
                Ok(cid) => {
                    &&& old(self).has_pod(id@)
                    &&& cid == old(self).spec_pod(id@).container_id
                    &&& final(self).pods_seq() == old(self).pods_seq()
                    &&& forall|k: Seq<char>|
                        #[trigger] final(self).has_monitor(k) == (old(self).has_monitor(k) && k
                            != id@)
                    &&& forall|k: Seq<char>, p: u16|
                        #[trigger] final(self).has_proxy(k, p) == (old(self).has_proxy(k, p) && k
                            != id@)
                    &&& final(self).build_seq() == old(self).build_seq()
                    &&& final(self).buffers_seq() == old(self).buffers_seq()
                    &&& final(self).settings_val() == old(self).settings_val()
                },
                Err(e) => {
                    &&& *final(self) == *old(self)
                    &&& e matches NookError::PodNotFound(p) && p@ == id@ && !old(self).has_pod(id@)
                },
            },
    {
        match self.find_pod(id) {
            Some(i) => {
                proof {
                    lemma_pod_at(self.pods_seq(), i as int, id@);
                }
                let cid = crate::types::clone_opt_string(&self.pods[i].1.container_id);
                self.drop_monitor_and_proxies(id);
                Ok(cid)
            },
            None => Err(NookError::PodNotFound(id.to_owned())),
        }
    }

    /// Final phase of stopping: the pod's ports, processes and resource
    /// figures are cleared, its status becomes `Stopped`, and exactly
    /// two notifications go out: the status change and an authoritative
    /// empty process list.
    pub fn stop_finish(&mut self, id: &str) -> (r: Vec<Notification>)
        requires
            old(self).wf(),
        ensures
            final(self).wf(),
            forall|k: Seq<char>| #[trigger] final(self).has_pod(k) == old(self).has_pod(k),
            forall|k: Seq<char>|
                k != id@ && old(self).has_pod(k) ==> #[trigger] final(self).spec_pod(k) == old(
                    self,
                ).spec_pod(k),
            final(self).monitor_seq() == old(self).monitor_seq(),
            final(self).build_seq() == old(self).build_seq(),
            final(self).proxy_seq() == old(self).proxy_seq(),
            final(self).buffers_seq() == old(self).buffers_seq(),
            final(self).settings_val() == old(self).settings_val(),
            old(self).has_pod(id@) ==> {
                let p0 = old(self).spec_pod(id@);
                let p1 = final(self).spec_pod(id@);
                &&& p1.status == PodStatus::Stopped
                &&& p1.runtime_fields_cleared()
                &&& p1.memory_limit == 0
                &&& p1.id == p0.id && p1.name == p0.name && p1.project_path == p0.project_path
                    && p1.image == p0.image && p1.default_shell == p0.default_shell
                    && p1.container_id == p0.container_id && p1.alias == p0.alias
                    && p1.remote_user == p0.remote_user && p1.remote_workspace_folder
                    == p0.remote_workspace_folder && p1.container_name == p0.container_name
                    && p1.error_message == p0.error_message && p1.uptime_secs == p0.uptime_secs
                &&& r@.len() == 2
                &&& (r@[0] matches Notification::StatusChanged(ev) && ev.pod_id@ == id@
                    && ev.status == PodStatus::Stopped && ev.error_message is None)
                &&& (r@[1] matches Notification::ProcessList(u) && u.pod_id@ == id@
                    && u.processes@.len() == 0)
            },
            !old(self).has_pod(id@) ==> r@.len() == 0 && final(self).pods_seq() == old(
                self,
            ).pods_seq(),
    {
        match self.find_pod(id) {
            Some(i) => {
                proof {
                    lemma_pod_at(self.pods_seq(), i as int, id@);
                }
                let mut p = self.pods[i].1.clone();
                p.status = PodStatus::Stopped;
                p.exposed_ports = Vec::new();
                p.detected_ports = Vec::new();
                p.processes = Vec::new();
                p.cpu_percent_hundredths = 0;
                p.memory_used = 0;
                p.memory_limit = 0;
                p.started_at = None;
                self.put_pod(i, p);
                let mut events: Vec<Notification> = Vec::new();
                events.push(
                    Notification::StatusChanged(
                        PodStatusChanged {
                            pod_id: id.to_owned(),
                            status: PodStatus::Stopped,
                            error_message: None,
                        },
                    ),
                );
                events.push(
                    Notification::ProcessList(
                        ProcessListUpdate { pod_id: id.to_owned(), processes: Vec::new() },
                    ),
                );
                events
            },
            None => Vec::new(),
        }
    }

    /// Final phase of removing a pod: the record and its log buffer are
    /// dropped, and the pod's name is returned so its saved
    /// configuration can be deleted. A second removal finds nothing.
    pub fn remove_finish(&mut self, id: &str) -> (r: Option<String>)
        requires
            old(self).wf(),
        ensures
            final(self).wf(),
            forall|k: Seq<char>|
                #[trigger] final(self).has_pod(k) == (old(self).has_pod(k) && k != id@),
            forall|k: Seq<char>|
                k != id@ && old(self).has_pod(k) ==> #[trigger] final(self).spec_pod(k) == old(
                    self,
                ).spec_pod(k),
            forall|k: Seq<char>|
                #[trigger] final(self).has_buffer(k) == (old(self).has_buffer(k) && k != id@),
            final(self).monitor_seq() == old(self).monitor_seq(),
            final(self).build_seq() == old(self).build_seq(),
            final(self).proxy_seq() == old(self).proxy_seq(),
            final(self).settings_val() == old(self).settings_val(),
            match r {
                Some(name) => old(self).has_pod(id@) && name == old(self).spec_pod(id@).name,
                None => !old(self).has_pod(id@),
            },
    {
        let name = match self.find_pod(id) {
            Some(i) => {
                proof {
                    lemma_pod_at(self.pods_seq(), i as int, id@);
                }
                let ghost s = self.pods@;
                let entry = self.pods.remove(i);
                proof {
                    let s2 = self.pods@;
                    s.remove_ensures(i as int);
                    assert forall|a: int, b: int|
                        0 <= a < b < s2.len() implies (#[trigger] s2[a]).0@
                        != (#[trigger] s2[b]).0@ by {
                        let a0: int = if a < i { a } else { a + 1 };
                        let b0: int = if b < i { b } else { b + 1 };
                        assert(s2[a] == s[a0] && s2[b] == s[b0]);
                        assert(s[a0].0@ != s[b0].0@);
                    }
                    assert forall|k: Seq<char>|
                        #[trigger] has_pod_key(s2, k) == (has_pod_key(s, k) && k != id@) by {
                        if has_pod_key(s2, k) {
                            let w = choose|x: int| 0 <= x < s2.len() && (#[trigger] s2[x]).0@
                                == k;
                            let w0: int = if w < i { w } else { w + 1 };
                            assert(s[w0].0@ == k);
                            if k == id@ {
                                assert(s[w0].0@ == s[i as int].0@);
                            }
                        }
                        if has_pod_key(s, k) && k != id@ {
                            let w = choose|x: int| 0 <= x < s.len() && (#[trigger] s[x]).0@ == k;
                            assert(w != i);
                            let w2: int = if w < i { w } else { w - 1 };
                            assert(s2[w2].0@ == k);
                        }
                    }
                    assert forall|k: Seq<char>|
                        k != id@ && has_pod_key(s, k) implies #[trigger] pod_of(s2, k) == pod_of(
                        s,
                        k,
                    ) by {
                        let w = choose|x: int| 0 <= x < s.len() && (#[trigger] s[x]).0@ == k;
                        assert(w != i);
                        let w2: int = if w < i { w } else { w - 1 };
                        assert(s2[w2] == s[w]);
                        lemma_pod_at(s, w, k);
                        lemma_pod_at(s2, w2, k);
                    }
                }
                Some(entry.1.name)
            },
            None => None,
        };
        let ghost s1 = *self;
        // Drop the pod's log buffer too.
        let buf_index = self.find_buffer(id);
        match buf_index {
            Some(i) => {
                let ghost s = self.log_buffers@;
                self.log_buffers.remove(i);
                proof {
                    let s2 = self.log_buffers@;
                    s.remove_ensures(i as int);
                    assert forall|a: int, b: int|
                        0 <= a < b < s2.len() implies (#[trigger] s2[a]).0@
                        != (#[trigger] s2[b]).0@ by {
                        let a0: int = if a < i { a } else { a + 1 };
                        let b0: int = if b < i { b } else { b + 1 };
                        assert(s2[a] == s[a0] && s2[b] == s[b0]);
                        assert(s[a0].0@ != s[b0].0@);
                    }
                    assert forall|k: Seq<char>|
                        #[trigger] has_buf(s2, k) == (has_buf(s, k) && k != id@) by {
                        if has_buf(s2, k) {
                            let w = choose|x: int| 0 <= x < s2.len() && (#[trigger] s2[x]).0@
                                == k;
                            let w0: int = if w < i { w } else { w + 1 };
                            assert(s[w0].0@ == k);
                            if k == id@ {
                                assert(s[w0].0@ == s[i as int].0@);
                            }
                        }
                        if has_buf(s, k) && k != id@ {
                            let w = choose|x: int| 0 <= x < s.len() && (#[trigger] s[x]).0@ == k;
                            assert(w != i);
                            let w2: int = if w < i { w } else { w - 1 };
                            assert(s2[w2].0@ == k);
                        }
                    }
                    assert forall|k: Seq<char>|
                        #[trigger] self.has_pod(k) == (old(self).has_pod(k) && k != id@) by {
                        assert(self.pods_seq() == s1.pods_seq());
                        assert(s1.has_pod(k) == (old(self).has_pod(k) && k != id@));
                    }
                    assert forall|k: Seq<char>|
                        k != id@ && old(self).has_pod(k) implies #[trigger] self.spec_pod(k)
                        == old(self).spec_pod(k) by {
                        assert(self.pods_seq() == s1.pods_seq());
                        assert(s1.spec_pod(k) == old(self).spec_pod(k));
                    }
                }
            },
            None => {
                proof {
                    assert forall|k: Seq<char>|
                        #[trigger] self.has_buffer(k) == (old(self).has_buffer(k) && k
                            != id@) by {
                        if k == id@ {
                            assert(!has_buf(self.buffers_seq(), k));
                        }
                    }
                }
            },
        }
        name
    }

    /// Index of this pod's log buffer.
    fn find_buffer(&self, id: &str) -> (r: Option<usize>)
        ensures
            match r {
                Some(i) => i < self.buffers_seq().len() && self.buffers_seq()[i as int].0@ == id@,
                None => !self.has_buffer(id@),
            },
    {
        let mut i: usize = 0;
        let n = self.log_buffers.len();
        while i < n
            invariant
                i <= n,
                n == self.log_buffers@.len(),
                forall|j: int| 0 <= j < i ==> (#[trigger] self.log_buffers@[j]).0@ != id@,
            decreases n - i,
        {
            if str_eq(self.log_buffers[i].0.as_str(), id) {
                return Some(i);
            }
            i = i + 1;
        }
        None
    }
}

/// What the synchronous test bind of the host port found.
#[derive(Debug, PartialEq)]
pub enum BindOutcome {
    /// The port was free; the test listener was released again.
    Free,
    /// Another process already holds the port.
    AddrInUse,
    /// Binding failed for some other reason.
    Failed(String),
}

/// Protocol of the first detected port with this container port; empty
/// when none was detected.
pub open spec fn detected_protocol(s: Seq<DetectedPort>, port: u16) -> Seq<char>
    decreases s.len(),
{
    if s.len() == 0 {
        Seq::empty()
    } else if s[0].container_port == port {
        s[0].protocol@
    } else {
        detected_protocol(s.drop_first(), port)
    }
}

/// The detected protocol for a container port, as a string.
fn find_detected_protocol(v: &Vec<DetectedPort>, port: u16) -> (r: String)
    ensures
        r@ == detected_protocol(v@, port),
{
    let mut i: usize = 0;
    let n = v.len();
    proof {
        assert(v@.skip(0) =~= v@);
    }
    while i < n
        invariant
            i <= n,
            n == v@.len(),
            detected_protocol(v@.skip(i as int), port) == detected_protocol(v@, port),
        decreases n - i,
    {
        proof {
            assert(v@.skip(i as int)[0] == v@[i as int]);
            assert(v@.skip(i as int).drop_first() =~= v@.skip(i + 1));
        }
        if v[i].container_port == port {
            return v[i].protocol.clone();
        }
        i = i + 1;
    }
    proof {
        assert(v@.skip(n as int) =~= Seq::<DetectedPort>::empty());
    }
    String::new()
}

/// The detected ports without those on this container port.
fn filter_detected(v: &Vec<DetectedPort>, port: u16) -> (r: Vec<DetectedPort>)
    ensures
        r@ == v@.filter(|d: DetectedPort| d.container_port != port),
{
    let mut out: Vec<DetectedPort> = Vec::new();
    let mut i: usize = 0;
    let n = v.len();
    proof {
        reveal(Seq::filter);
        assert(v@.subrange(0, 0) =~= Seq::<DetectedPort>::empty());
    }
    while i < n
        invariant
            i <= n,
            n == v@.len(),
            out@ == v@.subrange(0, i as int).filter(|d: DetectedPort| d.container_port != port),
        decreases n - i,
    {
        proof {
            reveal(Seq::filter);
            assert(v@.subrange(0, i + 1).drop_last() =~= v@.subrange(0, i as int));
            assert(v@.subrange(0, i + 1).last() == v@[i as int]);
        }
        if v[i].container_port != port {
            out.push(v[i].clone());
        }
        i = i + 1;
    }
    proof {
        assert(v@.subrange(0, n as int) =~= v@);
    }
    out
}

/// The exposed ports without those on this container port.
fn filter_exposed(v: &Vec<ExposedPort>, port: u16) -> (r: Vec<ExposedPort>)
    ensures
        r@ == v@.filter(|e: ExposedPort| e.container_port != port),
{
    let mut out: Vec<ExposedPort> = Vec::new();
    let mut i: usize = 0;
    let n = v.len();
    proof {
        reveal(Seq::filter);
        assert(v@.subrange(0, 0) =~= Seq::<ExposedPort>::empty());
    }
    while i < n
        invariant
            i <= n,
            n == v@.len(),
            out@ == v@.subrange(0, i as int).filter(|e: ExposedPort| e.container_port != port),
        decreases n - i,
    {
        proof {
            reveal(Seq::filter);
            assert(v@.subrange(0, i + 1).drop_last() =~= v@.subrange(0, i as int));
            assert(v@.subrange(0, i + 1).last() == v@[i as int]);
        }
        if v[i].container_port != port {
            out.push(v[i].clone());
        }
        i = i + 1;
    }
    proof {
        assert(v@.subrange(0, n as int) =~= v@);
    }
    out
}

impl Registry {
    /// Registers a fresh proxy handle for this pod and container port,
    /// cancelling and replacing any earlier one.
    fn register_proxy(&mut self, id: &str, port: u16) -> (r: CancellationToken)
        requires
            old(self).wf(),
        ensures
            final(self).wf(),
            forall|k: Seq<char>, p: u16|
                #[trigger] final(self).has_proxy(k, p) == ((k == id@ && p == port) || old(
                    self,
                ).has_proxy(k, p)),
            final(self).pods_seq() == old(self).pods_seq(),
            final(self).monitor_seq() == old(self).monitor_seq(),
            final(self).build_seq() == old(self).build_seq(),
            final(self).buffers_seq() == old(self).buffers_seq(),
            final(self).settings_val() == old(self).settings_val(),
    {
        let kept = purge_proxy(&self.proxy_tokens, id, port);
        self.proxy_tokens = kept;
        let t = token_new();
        let handle = token_clone(&t);
        let ghost s = self.proxy_tokens@;
        self.proxy_tokens.push((id.to_owned(), port, t));
        proof {
            let s2 = self.proxy_tokens@;
            assert forall|k: Seq<char>, p: u16|
                #[trigger] has_proxy_key(s2, k, p) == ((k == id@ && p == port) || has_proxy_key(
                    s,
                    k,
                    p,
                )) by {
                lemma_has_proxy_push(s, s2.last(), k, p);
            }
            assert forall|a: int, b: int|
                0 <= a < b < s2.len() implies !((#[trigger] s2[a]).0@ == (#[trigger] s2[b]).0@
                && s2[a].1 == s2[b].1) by {
                if b == s2.len() - 1 {
                    if s2[a].0@ == id@ && s2[a].1 == port {
                        assert(has_proxy_key(s, id@, port)) by {
                            assert(s[a].0@ == id@ && s[a].1 == port);
                        }
                    }
                } else {
                    assert(!(s[a].0@ == s[b].0@ && s[a].1 == s[b].1));
                }
            }
        }
        handle
    }

    /// Commits an exposure after the caller's synchronous test bind: a
    /// busy port yields a `HostPortBusy` record and registers no proxy
    /// handle; a free one yields an `Active` record and a fresh handle.
    /// Either way the exposed port supersedes any detected or earlier
    /// exposed port on the same container port.
    pub fn expose_port_commit(
        &mut self,
        pod_id: &str,
        container_port: u16,
        host_port: u16,
        bind: BindOutcome,
    ) -> (r: Result<(ExposedPort, Option<CancellationToken>), NookError>)
        requires
            old(self).wf(),
        ensures
            final(self).wf(),
            match r {
                Ok((ep, tok)) => {
                    &&& old(self).has_pod(pod_id@)
                    &&& ep.container_port == container_port && ep.host_port == host_port
                    &&& ep.auto_expose
                    &&& ep.protocol@ == detected_protocol(
                        old(self).spec_pod(pod_id@).detected_ports@,
                        container_port,
                    )
                    &&& (bind == BindOutcome::Free ==> ep.status == PortStatus::Active)
                    &&& (bind == BindOutcome::AddrInUse ==> ep.status == PortStatus::HostPortBusy)
                    &&& !(bind matches BindOutcome::Failed(_))
                    &&& forall|k: Seq<char>|
                        #[trigger] final(self).has_pod(k) == old(self).has_pod(k)
                    &&& {
                        let p0 = old(self).spec_pod(pod_id@);
                        let p1 = final(self).spec_pod(pod_id@);
                        &&& p1.detected_ports@ == p0.detected_ports@.filter(
                            |d: DetectedPort| d.container_port != container_port,
                        )
                        &&& p1.exposed_ports@ == p0.exposed_ports@.filter(
                            |e2: ExposedPort| e2.container_port != container_port,
                        ).push(ep)
                        &&& p1.id == p0.id && p1.name == p0.name && p1.status == p0.status
                            && p1.container_id == p0.container_id && p1.processes@
                            == p0.processes@ && p1.error_message == p0.error_message
                    }
                    &&& forall|k: Seq<char>|
                        k != pod_id@ && old(self).has_pod(k) ==> #[trigger] final(self).spec_pod(
                            k,
                        ) == old(self).spec_pod(k)
                    &&& (ep.status == PortStatus::Active ==> tok is Some && (forall|
                        k: Seq<char>,
                        p: u16,
                    |
                        #[trigger] final(self).has_proxy(k, p) == ((k == pod_id@ && p
                            == container_port) || old(self).has_proxy(k, p))))
                    &&& (ep.status == PortStatus::HostPortBusy ==> tok is None
                        && final(self).proxy_seq() == old(self).proxy_seq())
                    &&& final(self).monitor_seq() == old(self).monitor_seq()
                    &&& final(self).build_seq() == old(self).build_seq()
                    &&& final(self).buffers_seq() == old(self).buffers_seq()
                    &&& final(self).settings_val() == old(self).settings_val()
                },
                Err(e) => {
                    &&& *final(self) == *old(self)
                    &&& (e matches NookError::Io(m) && bind matches BindOutcome::Failed(m0) && m
                        == m0) || (e matches NookError::PodNotFound(p) && p@ == pod_id@ && !old(
                        self,
                    ).has_pod(pod_id@) && !(bind matches BindOutcome::Failed(_)))
                },
            },
    {
        let bind = match bind {
            BindOutcome::Failed(m) => {
                return Err(NookError::Io(m));
            },
            other => other,
        };
        match self.find_pod(pod_id) {
            Some(i) => {
                proof {
                    lemma_pod_at(self.pods_seq(), i as int, pod_id@);
                }
                let mut p = self.pods[i].1.clone();
                let protocol = find_detected_protocol(&p.detected_ports, container_port);
                let active = match bind {
                    BindOutcome::Free => true,
                    _ => false,
                };
                let status = if active {
                    PortStatus::Active
                } else {
                    PortStatus::HostPortBusy
                };
                let ep = ExposedPort {
                    container_port,
                    host_port,
                    protocol,
                    status,
                    auto_expose: true,
                };
                p.detected_ports = filter_detected(&p.detected_ports, container_port);
                let mut new_exposed = filter_exposed(&p.exposed_ports, container_port);
                new_exposed.push(ep.clone());
                p.exposed_ports = new_exposed;
                self.put_pod(i, p);
                let ghost s2 = *self;
                if active {
                    let tok = self.register_proxy(pod_id, container_port);
                    proof {
                        assert forall|k: Seq<char>|
                            #[trigger] self.has_pod(k) == old(self).has_pod(k) by {
                            assert(self.pods_seq() == s2.pods_seq());
                            assert(s2.has_pod(k) == old(self).has_pod(k));
                        }
                        assert forall|k: Seq<char>|
                            k != pod_id@ && old(self).has_pod(k) implies #[trigger] self.spec_pod(
                            k,
                        ) == old(self).spec_pod(k) by {
                            assert(self.pods_seq() == s2.pods_seq());
                            assert(s2.spec_pod(k) == old(self).spec_pod(k));
                        }
                        assert(self.spec_pod(pod_id@) == s2.spec_pod(pod_id@));
                    }
                    Ok((ep, Some(tok)))
                } else {
                    Ok((ep, None))
                }
            },
            None => Err(NookError::PodNotFound(pod_id.to_owned())),
        }
    }

    /// Withdraws an exposure: the record leaves the pod and the proxy
    /// handle, if any, is cancelled and dropped. On a container port
    /// that was never exposed this changes nothing.
    pub fn unexpose_port(&mut self, pod_id: &str, container_port: u16) -> (r: Result<
        (),
        NookError,
    >)
        requires
            old(self).wf(),
        ensures
            final(self).wf(),
            match r {
                Ok(()) => {
                    &&& old(self).has_pod(pod_id@)
                    &&& forall|k: Seq<char>|
                        #[trigger] final(self).has_pod(k) == old(self).has_pod(k)
                    &&& {
                        let p0 = old(self).spec_pod(pod_id@);
                        let p1 = final(self).spec_pod(pod_id@);
                        &&& p1.exposed_ports@ == p0.exposed_ports@.filter(
                            |e2: ExposedPort| e2.container_port != container_port,
                        )
                        &&& p1.detected_ports@ == p0.detected_ports@
                        &&& p1.id == p0.id && p1.name == p0.name && p1.status == p0.status
                            && p1.container_id == p0.container_id && p1.processes@
                            == p0.processes@ && p1.error_message == p0.error_message
                    }
                    &&& forall|k: Seq<char>|
                        k != pod_id@ && old(self).has_pod(k) ==> #[trigger] final(self).spec_pod(
                            k,
                        ) == old(self).spec_pod(k)
                    &&& forall|k: Seq<char>, p: u16|
                        #[trigger] final(self).has_proxy(k, p) == (old(self).has_proxy(k, p) && !(
                        k == pod_id@ && p == container_port))
                    &&& final(self).monitor_seq() == old(self).monitor_seq()
                    &&& final(self).build_seq() == old(self).build_seq()
                    &&& final(self).buffers_seq() == old(self).buffers_seq()
                    &&& final(self).settings_val() == old(self).settings_val()
                },
                Err(e) => {
                    &&& *final(self) == *old(self)
                    &&& e matches NookError::PodNotFound(p) && p@ == pod_id@ && !old(
                        self,
                    ).has_pod(pod_id@)
                },
            },
    {
        match self.find_pod(pod_id) {
            Some(i) => {
                proof {
                    lemma_pod_at(self.pods_seq(), i as int, pod_id@);
                }
                let mut p = self.pods[i].1.clone();
                p.exposed_ports = filter_exposed(&p.exposed_ports, container_port);
                self.put_pod(i, p);
                let ghost s2 = *self;
                let kept = purge_proxy(&self.proxy_tokens, pod_id, container_port);
                self.proxy_tokens = kept;
                proof {
                    assert forall|k: Seq<char>|
                        #[trigger] self.has_pod(k) == old(self).has_pod(k) by {
                        assert(self.pods_seq() == s2.pods_seq());
                        assert(s2.has_pod(k) == old(self).has_pod(k));
                    }
                    assert forall|k: Seq<char>|
                        k != pod_id@ && old(self).has_pod(k) implies #[trigger] self.spec_pod(k)
                        == old(self).spec_pod(k) by {
                        assert(self.pods_seq() == s2.pods_seq());
                        assert(s2.spec_pod(k) == old(self).spec_pod(k));
                    }
                    assert(self.spec_pod(pod_id@) == s2.spec_pod(pod_id@));
                    assert forall|k: Seq<char>, p2: u16|
                        #[trigger] self.has_proxy(k, p2) == (old(self).has_proxy(k, p2) && !(k
                            == pod_id@ && p2 == container_port)) by {
                        assert(s2.proxy_seq() == old(self).proxy_seq());
                    }
                }
                Ok(())
            },
            None => Err(NookError::PodNotFound(pod_id.to_owned())),
        }
    }

    /// Suppresses a detected port without exposing it.
    pub fn ignore_port(&mut self, pod_id: &str, container_port: u16) -> (r: Result<(), NookError>)
        requires
            old(self).wf(),
        ensures
            final(self).wf(),
            match r {
                Ok(()) => {
                    &&& old(self).has_pod(pod_id@)
                    &&& forall|k: Seq<char>|
                        #[trigger] final(self).has_pod(k) == old(self).has_pod(k)
                    &&& {
                        let p0 = old(self).spec_pod(pod_id@);
                        let p1 = final(self).spec_pod(pod_id@);
                        &&& p1.detected_ports@ == p0.detected_ports@.filter(
                            |d: DetectedPort| d.container_port != container_port,
                        )
                        &&& p1.exposed_ports@ == p0.exposed_ports@
                        &&& p1.id == p0.id && p1.status == p0.status && p1.processes@
                            == p0.processes@
                    }
                    &&& forall|k: Seq<char>|
                        k != pod_id@ && old(self).has_pod(k) ==> #[trigger] final(self).spec_pod(
                            k,
                        ) == old(self).spec_pod(k)
                    &&& final(self).same_tokens_and_buffers(*old(self))
                },
                Err(e) => {
                    &&& *final(self) == *old(self)
                    &&& e matches NookError::PodNotFound(p) && p@ == pod_id@ && !old(
                        self,
                    ).has_pod(pod_id@)
                },
            },
    {
        match self.find_pod(pod_id) {
            Some(i) => {
                proof {
                    lemma_pod_at(self.pods_seq(), i as int, pod_id@);
                }
                let mut p = self.pods[i].1.clone();
                p.detected_ports = filter_detected(&p.detected_ports, container_port);
                self.put_pod(i, p);
                Ok(())
            },
            None => Err(NookError::PodNotFound(pod_id.to_owned())),
        }
    }

    /// Records a detected port on a pod and hands back the notification
    /// to send.
    pub fn add_detected_port(&mut self, pod_id: &str, port: DetectedPort) -> (r: Result<
        PortDetectedEvent,
        NookError,
    >)
        requires
            old(self).wf(),
        ensures
            final(self).wf(),
            match r {
                Ok(ev) => {
                    &&& old(self).has_pod(pod_id@)
                    &&& forall|k: Seq<char>|
                        #[trigger] final(self).has_pod(k) == old(self).has_pod(k)
                    &&& final(self).spec_pod(pod_id@).detected_ports@ == old(self).spec_pod(
                        pod_id@,
                    ).detected_ports@.push(port)
                    &&& final(self).spec_pod(pod_id@).exposed_ports@ == old(self).spec_pod(
                        pod_id@,
                    ).exposed_ports@
                    &&& final(self).spec_pod(pod_id@).status == old(self).spec_pod(pod_id@).status
                    &&& forall|k: Seq<char>|
                        k != pod_id@ && old(self).has_pod(k) ==> #[trigger] final(self).spec_pod(
                            k,
                        ) == old(self).spec_pod(k)
                    &&& ev.pod_id@ == pod_id@ && ev.port == port
                    &&& final(self).same_tokens_and_buffers(*old(self))
                },
                Err(e) => {
                    &&& *final(self) == *old(self)
                    &&& e matches NookError::PodNotFound(p) && p@ == pod_id@ && !old(
                        self,
                    ).has_pod(pod_id@)
                },
            },
    {
        match self.find_pod(pod_id) {
            Some(i) => {
                proof {
                    lemma_pod_at(self.pods_seq(), i as int, pod_id@);
                }
                let mut p = self.pods[i].1.clone();
                p.detected_ports.push(port.clone());
                self.put_pod(i, p);
                Ok(PortDetectedEvent { pod_id: pod_id.to_owned(), port })
            },
            None => Err(NookError::PodNotFound(pod_id.to_owned())),
        }
    }

    /// Writes a resource sample into the pod record and hands back the
    /// notification to send.
    pub fn record_stats(
        &mut self,
        pod_id: &str,
        cpu_percent_hundredths: u64,
        memory_used: u64,
        memory_limit: u64,
    ) -> (r: Result<PodStatsUpdate, NookError>)
        requires
            old(self).wf(),
        ensures
            final(self).wf(),
            match r {
                Ok(ev) => {
                    &&& old(self).has_pod(pod_id@)
                    &&& forall|k: Seq<char>|
                        #[trigger] final(self).has_pod(k) == old(self).has_pod(k)
                    &&& final(self).spec_pod(pod_id@).cpu_percent_hundredths
                        == cpu_percent_hundredths
                    &&& final(self).spec_pod(pod_id@).memory_used == memory_used
                    &&& final(self).spec_pod(pod_id@).memory_limit == memory_limit
                    &&& final(self).spec_pod(pod_id@).status == old(self).spec_pod(pod_id@).status
                    &&& forall|k: Seq<char>|
                        k != pod_id@ && old(self).has_pod(k) ==> #[trigger] final(self).spec_pod(
                            k,
                        ) == old(self).spec_pod(k)
                    &&& ev.pod_id@ == pod_id@ && ev.cpu_percent_hundredths
                        == cpu_percent_hundredths && ev.memory_used == memory_used
                        && ev.memory_limit == memory_limit
                    &&& final(self).same_tokens_and_buffers(*old(self))
                },
                Err(e) => {
                    &&& *final(self) == *old(self)
                    &&& e matches NookError::PodNotFound(p) && p@ == pod_id@ && !old(
                        self,
                    ).has_pod(pod_id@)
                },
            },
    {
        match self.find_pod(pod_id) {
            Some(i) => {
                proof {
                    lemma_pod_at(self.pods_seq(), i as int, pod_id@);
                }
                let mut p = self.pods[i].1.clone();
                p.cpu_percent_hundredths = cpu_percent_hundredths;
                p.memory_used = memory_used;
                p.memory_limit = memory_limit;
                self.put_pod(i, p);
                Ok(
                    PodStatsUpdate {
                        pod_id: pod_id.to_owned(),
                        cpu_percent_hundredths,
                        memory_used,
                        memory_limit,
                    },
                )
            },
            None => Err(NookError::PodNotFound(pod_id.to_owned())),
        }
    }
}

impl Registry {
    /// Appends a batch to this pod's log buffer, creating the buffer on
    /// first use, and leaves every other buffer alone.
    fn buffer_push_batch(&mut self, id: &str, entries: Vec<LogEntry>)
        requires
            old(self).wf(),
        ensures
            final(self).wf(),
            forall|k: Seq<char>|
                #[trigger] final(self).has_buffer(k) == (k == id@ || old(self).has_buffer(k)),
            final(self).buffer_of(id@) == push_batch_spec(
                if old(self).has_buffer(id@) {
                    old(self).buffer_of(id@)
                } else {
                    Seq::<LogEntry>::empty()
                },
                entries@,
                MAX_LOG_LINES as nat,
            ),
            forall|k: Seq<char>|
                k != id@ && old(self).has_buffer(k) ==> #[trigger] final(self).buffer_of(k)
                    == old(self).buffer_of(k),
            final(self).pods_seq() == old(self).pods_seq(),
            final(self).monitor_seq() == old(self).monitor_seq(),
            final(self).build_seq() == old(self).build_seq(),
            final(self).proxy_seq() == old(self).proxy_seq(),
            final(self).settings_val() == old(self).settings_val(),
    {
        match self.find_buffer(id) {
            Some(i) => {
                proof {
                    lemma_buf_at(self.buffers_seq(), i as int, id@);
                }
                let ghost s = self.log_buffers@;
                let mut entry = self.log_buffers.remove(i);
                proof {
                    let s2 = self.log_buffers@;
                    s.remove_ensures(i as int);
                    assert forall|a: int, b: int|
                        0 <= a < b < s2.len() implies (#[trigger] s2[a]).0@
                        != (#[trigger] s2[b]).0@ by {
                        let a0: int = if a < i { a } else { a + 1 };
                        let b0: int = if b < i { b } else { b + 1 };
                        assert(s2[a] == s[a0] && s2[b] == s[b0]);
                        assert(s[a0].0@ != s[b0].0@);
                    }
                    assert(!has_buf(s2, id@)) by {
                        if has_buf(s2, id@) {
                            let w = choose|x: int| 0 <= x < s2.len() && (#[trigger] s2[x]).0@
                                == id@;
                            let w0: int = if w < i { w } else { w + 1 };
                            assert(s[w0].0@ == s[i as int].0@);
                        }
                    }
                }
                let ghost s2 = self.log_buffers@;
                entry.1.push_batch(entries);
                let ghost pushed = entry.1@;
                self.log_buffers.push(entry);
                proof {
                    let s3 = self.log_buffers@;
                    assert(s3[s3.len() - 1].0@ == id@);
                    lemma_buf_at(s3, s3.len() - 1, id@);
                    assert forall|a: int, b: int|
                        0 <= a < b < s3.len() implies (#[trigger] s3[a]).0@
                        != (#[trigger] s3[b]).0@ by {
                        if b == s3.len() - 1 {
                            if s3[a].0@ == id@ {
                                assert(has_buf(s2, id@)) by {
                                    assert(s2[a].0@ == id@);
                                }
                            }
                        } else {
                            assert(s2[a].0@ != s2[b].0@);
                        }
                    }
                    assert forall|k: Seq<char>|
                        #[trigger] has_buf(s3, k) == (k == id@ || has_buf(s, k)) by {
                        if has_buf(s3, k) && k != id@ {
                            let w = choose|x: int| 0 <= x < s3.len() && (#[trigger] s3[x]).0@
                                == k;
                            assert(w < s2.len());
                            assert(s2[w].0@ == k);
                            let w0: int = if w < i { w } else { w + 1 };
                            assert(s[w0].0@ == k);
                        }
                        if has_buf(s, k) && k != id@ {
                            let w = choose|x: int| 0 <= x < s.len() && (#[trigger] s[x]).0@ == k;
                            assert(w != i);
                            let w2: int = if w < i { w } else { w - 1 };
                            assert(s3[w2].0@ == k);
                        }
                    }
                    assert forall|k: Seq<char>|
                        k != id@ && has_buf(s, k) implies #[trigger] buf_of(s3, k) == buf_of(
                        s,
                        k,
                    ) by {
                        let w = choose|x: int| 0 <= x < s.len() && (#[trigger] s[x]).0@ == k;
                        assert(w != i);
                        let w2: int = if w < i { w } else { w - 1 };
                        assert(s3[w2] == s2[w2]);
                        assert(s2[w2] == s[w]);
                        lemma_buf_at(s, w, k);
                        lemma_buf_at(s3, w2, k);
                    }
                }
            },
            None => {
                let mut buf = LogBuffer::new();
                buf.push_batch(entries);
                let ghost s = self.log_buffers@;
                self.log_buffers.push((id.to_owned(), buf));
                proof {
                    let s3 = self.log_buffers@;
                    assert(s3[s3.len() - 1].0@ == id@);
                    assert forall|a: int, b: int|
                        0 <= a < b < s3.len() implies (#[trigger] s3[a]).0@
                        != (#[trigger] s3[b]).0@ by {
                        if b == s3.len() - 1 {
                            if s3[a].0@ == id@ {
                                assert(has_buf(s, id@)) by {
                                    assert(s[a].0@ == id@);
                                }
                            }
                        } else {
                            assert(s[a].0@ != s[b].0@);
                        }
                    }
                    lemma_buf_at(s3, s3.len() - 1, id@);
                    assert forall|k: Seq<char>|
                        #[trigger] has_buf(s3, k) == (k == id@ || has_buf(s, k)) by {
                        if has_buf(s3, k) && k != id@ {
                            let w = choose|x: int| 0 <= x < s3.len() && (#[trigger] s3[x]).0@
                                == k;
                            assert(w < s.len());
                            assert(s[w].0@ == k);
                        }
                        if has_buf(s, k) {
                            let w = choose|x: int| 0 <= x < s.len() && (#[trigger] s[x]).0@ == k;
                            assert(s3[w].0@ == k);
                        }
                    }
                    assert forall|k: Seq<char>|
                        k != id@ && has_buf(s, k) implies #[trigger] buf_of(s3, k) == buf_of(
                        s,
                        k,
                    ) by {
                        let w = choose|x: int| 0 <= x < s.len() && (#[trigger] s[x]).0@ == k;
                        assert(s3[w] == s[w]);
                        lemma_buf_at(s, w, k);
                        lemma_buf_at(s3, w, k);
                    }
                }
            },
        }
    }

    /// Stores a batch of container log lines for this pod and hands
    /// back the notification to send.
    pub fn append_log_batch(&mut self, pod_id: &str, entries: Vec<LogEntry>) -> (r: LogBatchEvent)
        requires
            old(self).wf(),
        ensures
            final(self).wf(),
            forall|k: Seq<char>|
                #[trigger] final(self).has_buffer(k) == (k == pod_id@ || old(self).has_buffer(k)),
            final(self).buffer_of(pod_id@) == push_batch_spec(
                if old(self).has_buffer(pod_id@) {
                    old(self).buffer_of(pod_id@)
                } else {
                    Seq::<LogEntry>::empty()
                },
                entries@,
                MAX_LOG_LINES as nat,
            ),
            forall|k: Seq<char>|
                k != pod_id@ && old(self).has_buffer(k) ==> #[trigger] final(self).buffer_of(k)
                    == old(self).buffer_of(k),
            final(self).pods_seq() == old(self).pods_seq(),
            final(self).monitor_seq() == old(self).monitor_seq(),
            final(self).build_seq() == old(self).build_seq(),
            final(self).proxy_seq() == old(self).proxy_seq(),
            final(self).settings_val() == old(self).settings_val(),
            r.pod_id@ == pod_id@,
            r.entries@ == entries@,
    {
        let copies = clone_log_entries(&entries);
        self.buffer_push_batch(pod_id, entries);
        LogBatchEvent { pod_id: pod_id.to_owned(), entries: copies }
    }

    /// Stores one build-output line for this pod and hands back the
    /// single-entry notification to send.
    pub fn append_build_line(
        &mut self,
        pod_id: &str,
        message: String,
        level: LogLevel,
        timestamp: i64,
    ) -> (r: LogBatchEvent)
        requires
            old(self).wf(),
        ensures
            final(self).wf(),
            forall|k: Seq<char>|
                #[trigger] final(self).has_buffer(k) == (k == pod_id@ || old(self).has_buffer(k)),
            final(self).buffer_of(pod_id@) == push_batch_spec(
                if old(self).has_buffer(pod_id@) {
                    old(self).buffer_of(pod_id@)
                } else {
                    Seq::<LogEntry>::empty()
                },
                seq![
                    LogEntry {
                        timestamp,
                        message: message,
                        source: LogSource::Build,
                        level: level,
                    },
                ],
                MAX_LOG_LINES as nat,
            ),
            forall|k: Seq<char>|
                k != pod_id@ && old(self).has_buffer(k) ==> #[trigger] final(self).buffer_of(k)
                    == old(self).buffer_of(k),
            final(self).pods_seq() == old(self).pods_seq(),
            final(self).monitor_seq() == old(self).monitor_seq(),
            final(self).build_seq() == old(self).build_seq(),
            final(self).proxy_seq() == old(self).proxy_seq(),
            final(self).settings_val() == old(self).settings_val(),
            r.pod_id@ == pod_id@,
            r.entries@.len() == 1,
            r.entries@[0].timestamp == timestamp && r.entries@[0].message == message
                && r.entries@[0].source == LogSource::Build && r.entries@[0].level == level,
    {
        let entry = LogEntry { timestamp, message, source: LogSource::Build, level };
        let mut batch: Vec<LogEntry> = Vec::new();
        batch.push(entry);
        proof {
            assert(batch@ =~= seq![batch@[0]]);
        }
        self.append_log_batch(pod_id, batch)
    }

    /// This pod's log lines: all that match a keyword when a filter is
    /// given, else the last `tail_n` (500 when unspecified); an unknown
    /// pod has none.
    pub fn pod_logs(&self, id: &str, tail_n: Option<usize>, filter: Option<&str>) -> (r: Vec<
        LogEntry,
    >)
        requires
            self.wf(),
        ensures
            !self.has_buffer(id@) ==> r@.len() == 0,
            self.has_buffer(id@) ==> r@ == (match filter {
                Some(kw) => self.buffer_of(id@).filter(|e: LogEntry| matches_keyword(e, kw@)),
                None => tail_spec(
                    self.buffer_of(id@),
                    (match tail_n {
                        Some(n) => n,
                        None => 500,
                    }) as nat,
                ),
            }),
    {
        match self.find_buffer(id) {
            Some(i) => {
                proof {
                    lemma_buf_at(self.buffers_seq(), i as int, id@);
                }
                match filter {
                    Some(kw) => self.log_buffers[i].1.search(kw),
                    None => {
                        let n: usize = match tail_n {
                            Some(n) => n,
                            None => 500,
                        };
                        self.log_buffers[i].1.tail(n)
                    },
                }
            },
            None => Vec::new(),
        }
    }

    /// Empties this pod's log buffer; an unknown pod is left alone.
    pub fn clear_pod_logs(&mut self, id: &str)
        requires
            old(self).wf(),
        ensures
            final(self).wf(),
            forall|k: Seq<char>|
                #[trigger] final(self).has_buffer(k) == old(self).has_buffer(k),
            old(self).has_buffer(id@) ==> final(self).buffer_of(id@) == Seq::<LogEntry>::empty(),
            forall|k: Seq<char>|
                k != id@ && old(self).has_buffer(k) ==> #[trigger] final(self).buffer_of(k)
                    == old(self).buffer_of(k),
            final(self).pods_seq() == old(self).pods_seq(),
            final(self).monitor_seq() == old(self).monitor_seq(),
            final(self).build_seq() == old(self).build_seq(),
            final(self).proxy_seq() == old(self).proxy_seq(),
            final(self).settings_val() == old(self).settings_val(),
    {
        match self.find_buffer(id) {
            Some(i) => {
                proof {
                    lemma_buf_at(self.buffers_seq(), i as int, id@);
                }
                let ghost s = self.log_buffers@;
                let key = self.log_buffers[i].0.clone();
                let mut buf = LogBuffer::new();
                vstd::pervasive::VecAdditionalExecFns::set(&mut self.log_buffers, i, (key, buf));
                proof {
                    let s2 = self.log_buffers@;
                    assert(s2[i as int].0@ == id@);
                    assert forall|a: int, b: int|
                        0 <= a < b < s2.len() implies (#[trigger] s2[a]).0@
                        != (#[trigger] s2[b]).0@ by {
                        assert(s[a].0@ != s[b].0@);
                    }
                    assert forall|k: Seq<char>| #[trigger] has_buf(s2, k) == has_buf(s, k) by {
                        if has_buf(s2, k) {
                            let w = choose|x: int| 0 <= x < s2.len() && (#[trigger] s2[x]).0@
                                == k;
                            assert(s[w].0@ == k);
                        }
                        if has_buf(s, k) {
                            let w = choose|x: int| 0 <= x < s.len() && (#[trigger] s[x]).0@ == k;
                            assert(s2[w].0@ == k);
                        }
                    }
                    lemma_buf_at(s2, i as int, id@);
                    assert forall|k: Seq<char>|
                        k != id@ && has_buf(s, k) implies #[trigger] buf_of(s2, k) == buf_of(
                        s,
                        k,
                    ) by {
                        let w = choose|x: int| 0 <= x < s.len() && (#[trigger] s[x]).0@ == k;
                        assert(s2[w] == s[w]);
                        lemma_buf_at(s, w, k);
                        lemma_buf_at(s2, w, k);
                    }
                }
            },
            None => {},
        }
    }

    /// Applies a saved per-pod configuration to the live record: the
    /// alias follows the file (empty clears it), and a non-empty remote
    /// user, working directory or shell overrides the record.
    pub fn apply_pod_config(&mut self, id: &str, cfg: &crate::podconfig::PodStateConfig)
        requires
            old(self).wf(),
        ensures
            final(self).wf(),
            forall|k: Seq<char>| #[trigger] final(self).has_pod(k) == old(self).has_pod(k),
            forall|k: Seq<char>|
                k != id@ && old(self).has_pod(k) ==> #[trigger] final(self).spec_pod(k) == old(
                    self,
                ).spec_pod(k),
            final(self).same_tokens_and_buffers(*old(self)),
            old(self).has_pod(id@) ==> {
                let p0 = old(self).spec_pod(id@);
                let p1 = final(self).spec_pod(id@);
                &&& p1.alias == (if cfg.alias@.len() == 0 {
                    None::<String>
                } else {
                    Some(cfg.alias)
                })
                &&& p1.remote_user == (if cfg.remote_user@.len() > 0 {
                    Some(cfg.remote_user)
                } else {
                    p0.remote_user
                })
                &&& p1.remote_workspace_folder == (if cfg.working_dir@.len() > 0 {
                    Some(cfg.working_dir)
                } else {
                    p0.remote_workspace_folder
                })
                &&& p1.default_shell == (if cfg.shell@.len() > 0 {
                    cfg.shell
                } else {
                    p0.default_shell
                })
                &&& p1.id == p0.id && p1.status == p0.status && p1.exposed_ports@
                    == p0.exposed_ports@ && p1.detected_ports@ == p0.detected_ports@
                    && p1.processes@ == p0.processes@ && p1.error_message == p0.error_message
            },
            !old(self).has_pod(id@) ==> final(self).pods_seq() == old(self).pods_seq(),
    {
        match self.find_pod(id) {
            Some(i) => {
                proof {
                    lemma_pod_at(self.pods_seq(), i as int, id@);
                }
                let mut p = self.pods[i].1.clone();
                if cfg.alias.as_str().is_empty() {
                    p.alias = None;
                } else {
                    p.alias = Some(cfg.alias.clone());
                }
                if !cfg.remote_user.as_str().is_empty() {
                    p.remote_user = Some(cfg.remote_user.clone());
                }
                if !cfg.working_dir.as_str().is_empty() {
                    p.remote_workspace_folder = Some(cfg.working_dir.clone());
                }
                if !cfg.shell.as_str().is_empty() {
                    p.default_shell = cfg.shell.clone();
                }
                self.put_pod(i, p);
            },
            None => {},
        }
    }
}

/// A pod record for a container found already existing in the runtime,
/// from the plain values of its listing: the container name loses its
/// leading slashes, a short id stands in when there is no name, the pod
/// is `Running` exactly when the runtime says so, and the pod's name
/// comes from the labelled project path when one is set.
pub fn pod_from_container(
    pod_id: String,
    container_id: String,
    name_raw: Option<String>,
    image: Option<String>,
    state: Option<String>,
    project_path: String,
    remote_user: Option<String>,
    remote_workspace_folder: Option<String>,
) -> (r: Pod)
    ensures
        r.id == pod_id,
        r.container_id == Some(container_id),
        ({
            let cname = match name_raw {
                Some(n) => crate::strutil::strip_leading_slashes(n@),
                None => if container_id@.len() >= 12 {
                    container_id@.subrange(0, 12)
                } else {
                    container_id@
                },
            };
            &&& (match r.container_name {
                Some(cn) => cn@ == cname,
                None => false,
            })
            &&& r.name@ == ({
                let base = crate::strutil::after_last(
                    crate::strutil::strip_trailing_slashes(project_path@),
                    '/',
                );
                if base.len() == 0 {
                    cname
                } else {
                    base
                }
            })
        }),
        r.status == (match state {
            Some(st) => if st@ == "running"@ {
                PodStatus::Running
            } else {
                PodStatus::Stopped
            },
            None => PodStatus::Stopped,
        }),
        r.image@ == (match image {
            Some(img) => img@,
            None => Seq::<char>::empty(),
        }),
        r.project_path == project_path,
        r.remote_user == remote_user,
        r.remote_workspace_folder == remote_workspace_folder,
        r.runtime_fields_cleared(),
        r.error_message is None,
        r.started_at is None,
{
    let cname_chars = match &name_raw {
        Some(n) => crate::strutil::trim_leading_slashes(&chars_of(n.as_str())),
        None => {
            let idc = chars_of(container_id.as_str());
            if idc.len() >= 12 {
                crate::strutil::slice_chars(&idc, 0, 12)
            } else {
                idc
            }
        },
    };
    let cname = chars_to_string(&cname_chars);
    let running = match &state {
        Some(st) => str_eq(st.as_str(), "running"),
        None => false,
    };
    let base = crate::strutil::after_last_char(
        &crate::strutil::trim_trailing_slashes(&chars_of(project_path.as_str())),
        '/',
    );
    let pod_name = if base.len() == 0 {
        cname.clone()
    } else {
        chars_to_string(&base)
    };
    Pod {
        id: pod_id,
        name: pod_name,
        project_path,
        image: match image {
            Some(img) => img,
            None => String::new(),
        },
        status: if running {
            PodStatus::Running
        } else {
            PodStatus::Stopped
        },
        uptime_secs: None,
        cpu_percent_hundredths: 0,
        memory_used: 0,
        memory_limit: 0,
        default_shell: String::new(),
        exposed_ports: Vec::new(),
        detected_ports: Vec::new(),
        processes: Vec::new(),
        error_message: None,
        container_id: Some(container_id),
        started_at: None,
        alias: None,
        remote_user,
        remote_workspace_folder,
        container_name: Some(cname),
    }
}

/// A fresh pod record and its default saved configuration, named after
/// the project path's final segment. The caller persists the
/// configuration, then registers the pod.
pub fn new_pod_record(id: String, path: String) -> (r: (Pod, crate::podconfig::PodStateConfig))
    ensures
        r.0.id == id,
        r.0.name@ == crate::strutil::pod_name_of_path(path@),
        r.0.project_path == path,
        r.0.status == PodStatus::Stopped,
        r.0.runtime_fields_cleared(),
        r.0.container_id is None,
        r.0.error_message is None,
        r.1.name@ == crate::strutil::pod_name_of_path(path@),
        r.1.project_path == path,
        r.1.shell@ == Seq::<char>::empty(),
        r.1.remote_user@ == Seq::<char>::empty(),
        r.1.working_dir@ == Seq::<char>::empty(),
{
    let name_chars = crate::strutil::name_from_path(&chars_of(path.as_str()));
    let name = chars_to_string(&name_chars);
    let name2 = name.clone();
    let path2 = path.clone();
    let pod = Pod::new_registered(id, name, path);
    let cfg = crate::podconfig::PodStateConfig::new_default(name2, path2);
    (pod, cfg)
}

} // verus!
