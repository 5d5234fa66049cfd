//! The health catalog of the known backends and the policy that picks one.
use vstd::prelude::*;
use vstd::string::StringExecFns;

use crate::config::GoldDustConfig;
use crate::name_order::{
    lemma_name_le_antisymmetric, lemma_name_le_total, lemma_name_le_transitive, name_le,
    name_le_exec,
};

verus! {

/// Family of a backend.
///
/// `Oxen` relays (a mix network) are the primary family; `Tor` exits (onion
/// routing) are the degraded-mode fallback.
#[derive(Debug, Clone, Copy, PartialEq, Eq, Structural)]
pub enum BackendKind {
    Oxen,
    Tor,
}

/// Health record of one backend instance, as seen at one instant.
#[derive(Debug)]
pub struct BackendHealth {
    /// Unique within a snapshot.
    pub name: String,
    pub kind: BackendKind,
    /// Estimated round-trip latency, in milliseconds.
    pub latency_ms: u64,
    /// Share of failed attempts, in parts per million (at most 1_000_000).
    pub failure_rate_ppm: u32,
    /// Copied from the switch of the backend's family.
    pub enabled: bool,
}

impl Clone for BackendHealth {
    fn clone(&self) -> (r: Self)
        ensures
            r@ == self@,
    {
        BackendHealth {
            name: self.name.clone(),
            kind: self.kind,
            latency_ms: self.latency_ms,
            failure_rate_ppm: self.failure_rate_ppm,
            enabled: self.enabled,
        }
    }
}

/// Mathematical view of a [`BackendHealth`].
pub struct HealthView {
    pub name: Seq<char>,
    pub kind: BackendKind,
    pub latency_ms: u64,
    pub failure_rate_ppm: u32,
    pub enabled: bool,
}

impl View for BackendHealth {
    type V = HealthView;

    open spec fn view(&self) -> HealthView {
        HealthView {
            name: self.name@,
            kind: self.kind,
            latency_ms: self.latency_ms,
            failure_rate_ppm: self.failure_rate_ppm,
            enabled: self.enabled,
        }
    }
}

/// All backend records observed at one instant, in catalog order.
#[derive(Debug, Clone)]
pub struct RouterSnapshot {
    pub backends: Vec<BackendHealth>,
}

impl View for RouterSnapshot {
    type V = Seq<HealthView>;

    open spec fn view(&self) -> Seq<HealthView> {
        self.backends@.map_values(|b: BackendHealth| b@)
    }
}

/// A routing decision: the target it was made for and an owned copy of the
/// chosen backend's record.
#[derive(Debug, Clone)]
pub struct BackendChoice {
    pub target: String,
    pub backend: BackendHealth,
}

/// Why no backend could be chosen.
#[derive(Debug, Clone)]
pub enum SelectionError {
    /// No backend of either family is enabled.
    NoBackendAvailable { reason: String },
}

/// The reason carried by [`SelectionError::NoBackendAvailable`].
pub open spec fn no_backend_reason() -> Seq<char> {
    "no backends enabled in config"@
}

/// `b` is enabled and of family `kind`.
pub open spec fn is_candidate(b: HealthView, kind: BackendKind) -> bool {
    b.enabled && b.kind == kind
}

/// Some record of `s` is a candidate of family `kind`.
pub open spec fn has_candidate(s: Seq<HealthView>, kind: BackendKind) -> bool {
    exists|i: int| 0 <= i < s.len() && is_candidate(#[trigger] s[i], kind)
}

/// `a` ranks before `b`, or level with it: lower latency first, then the
/// lower name.
pub open spec fn ranks_before(a: HealthView, b: HealthView) -> bool {
    a.latency_ms < b.latency_ms || (a.latency_ms == b.latency_ms && name_le(a.name, b.name))
}

/// `b` is a record of `s`, a candidate of family `kind`, and ranks before
/// every candidate of that family in `s`.
pub open spec fn is_best_of(s: Seq<HealthView>, kind: BackendKind, b: HealthView) -> bool {
    &&& s.contains(b)
    &&& is_candidate(b, kind)
    &&& forall|i: int| 0 <= i < s.len() && is_candidate(#[trigger] s[i], kind) ==> ranks_before(b, s[i])
}

/// The family that the policy draws from: `Oxen` whenever an Oxen relay is
/// enabled, else `Tor` whenever a Tor exit is enabled, else none.
pub open spec fn winning_kind(s: Seq<HealthView>) -> Option<BackendKind> {
    if has_candidate(s, BackendKind::Oxen) {
        Some(BackendKind::Oxen)
    } else if has_candidate(s, BackendKind::Tor) {
        Some(BackendKind::Tor)
    } else {
        None
    }
}

/// No two records of `s` share a name.
pub open spec fn names_unique(s: Seq<HealthView>) -> bool {
    forall|i: int, j: int| 0 <= i < s.len() && 0 <= j < s.len() && i != j ==> s[i].name != s[j].name
}

/// A snapshot as the data model requires it: unique names, and every
/// failure rate within one million parts per million.
pub open spec fn snapshot_well_formed(s: Seq<HealthView>) -> bool {
    &&& names_unique(s)
    &&& forall|i: int| 0 <= i < s.len() ==> (#[trigger] s[i]).failure_rate_ppm <= 1_000_000
}

/// `r` is what the policy returns for target `target` on snapshot `s`:
/// the best candidate of the winning family, or `NoBackendAvailable` when
/// no family has an enabled backend.
pub open spec fn selects(s: Seq<HealthView>, target: Seq<char>, r: Result<BackendChoice, SelectionError>) -> bool {
    match r {
        Ok(c) => {
            &&& winning_kind(s) is Some
            &&& c.target@ == target
            &&& is_best_of(s, winning_kind(s)->0, c.backend@)
        },
        Err(SelectionError::NoBackendAvailable { reason }) => {
            &&& winning_kind(s) is None
            &&& reason@ == no_backend_reason()
        },
    }
}

/// The fixed catalog of known backends: two Oxen relays and one Tor exit,
/// each enabled by its family's switch in `cfg`.
pub open spec fn health_catalog(cfg: GoldDustConfig) -> Seq<HealthView> {
    seq![
        HealthView {
            name: "oxen-node-1"@,
            kind: BackendKind::Oxen,
            latency_ms: 55,
            failure_rate_ppm: 20_000,
            enabled: cfg.backends.oxen_enabled,
        },
        HealthView {
            name: "oxen-node-2"@,
            kind: BackendKind::Oxen,
            latency_ms: 70,
            failure_rate_ppm: 40_000,
            enabled: cfg.backends.oxen_enabled,
        },
        HealthView {
            name: "tor-exit-1"@,
            kind: BackendKind::Tor,
            latency_ms: 250,
            failure_rate_ppm: 10_000,
            enabled: cfg.backends.tor_enabled,
        },
    ]
}

/// Index of the best candidate of family `kind` in `snapshot`, if any.
fn best_of_kind(snapshot: &RouterSnapshot, kind: BackendKind) -> (r: Option<usize>)
    ensures
        r is None <==> !has_candidate(snapshot@, kind),
        r matches Some(i) ==> i < snapshot@.len() && is_best_of(snapshot@, kind, snapshot@[i as int]),
{
    let ghost s = snapshot@;
    let n = snapshot.backends.len();
    let mut best: Option<usize> = None;
    let mut i: usize = 0;
    while i < n
        invariant
            s == snapshot@,
            n == s.len(),
            i <= n,
            best is None <==> forall|k: int| 0 <= k < i ==> !is_candidate(#[trigger] s[k], kind),
            best matches Some(j) ==> {
                &&& j < i
                &&& is_candidate(s[j as int], kind)
                &&& forall|k: int| 0 <= k < i && is_candidate(#[trigger] s[k], kind) ==> ranks_before(s[j as int], s[k])
            },
        decreases n - i,
    {
        let b = &snapshot.backends[i];
        assert(b@ == s[i as int]);
        if b.enabled && b.kind == kind {
            match best {
                None => {
                    proof {
                        lemma_name_le_total(b.name@, b.name@);
                    }
                    best = Some(i);
                },
                Some(j) => {
                    let c = &snapshot.backends[j];
                    assert(c@ == s[j as int]);
                    let keep = c.latency_ms < b.latency_ms
                        || (c.latency_ms == b.latency_ms && name_le_exec(c.name.as_str(), b.name.as_str()));
                    if !keep {
                        proof {
                            lemma_name_le_total(c.name@, b.name@);
                            assert forall|k: int| 0 <= k < i + 1 && is_candidate(#[trigger] s[k], kind)
                                implies ranks_before(s[i as int], s[k]) by {
                                if k < i {
                                    if s[i as int].latency_ms == s[k].latency_ms
                                        && s[j as int].latency_ms == s[k].latency_ms {
                                        lemma_name_le_transitive(s[i as int].name, s[j as int].name, s[k].name);
                                    }
                                } else {
                                    lemma_name_le_total(s[k].name, s[k].name);
                                }
                            }
                        }
                        best = Some(i);
                    }
                },
            }
        }
        i = i + 1;
    }
    proof {
        if best is None {
            assert forall|k: int| 0 <= k < s.len() implies !is_candidate(#[trigger] s[k], kind) by {}
        }
    }
    best
}

/// Picks a backend for `target` from `snapshot`.
///
/// An enabled Oxen relay always wins over every Tor exit. Within the winning
/// family the lowest latency wins, and equal latencies go to the lower name.
/// With no enabled backend at all the result is `NoBackendAvailable`.
pub fn select_backend(snapshot: &RouterSnapshot, target: &str) -> (r: Result<BackendChoice, SelectionError>)
    ensures
        selects(snapshot@, target@, r),
        r is Ok <==> winning_kind(snapshot@) is Some,
{
    match best_of_kind(snapshot, BackendKind::Oxen) {
        Some(i) => {
            let backend = snapshot.backends[i].clone();
            Ok(BackendChoice { target: target.to_owned(), backend })
        },
        None => match best_of_kind(snapshot, BackendKind::Tor) {
            Some(i) => {
                let backend = snapshot.backends[i].clone();
                Ok(BackendChoice { target: target.to_owned(), backend })
            },
            None => Err(SelectionError::NoBackendAvailable { reason: "no backends enabled in config".to_owned() }),
        },
    }
}

/// Router that prefers Oxen relays and falls back to Tor exits.
///
/// Health values are a fixed catalog ([`health_catalog`]) whose enabled flags
/// come from the configuration; every decision takes a fresh snapshot.
#[derive(Debug)]
pub struct Router {
    cfg: GoldDustConfig,
}

impl View for Router {
    type V = GoldDustConfig;

    closed spec fn view(&self) -> GoldDustConfig {
        self.cfg
    }
}

impl Router {
    pub fn new(cfg: GoldDustConfig) -> (r: Self)
        ensures
            r@ == cfg,
    {
        Router { cfg }
    }

    /// Builds the health snapshot, honouring the configuration's switches.
    pub fn sample_health(&self) -> (r: RouterSnapshot)
        ensures
            r@ == health_catalog(self@),
            snapshot_well_formed(r@),
    {
        let oxen_enabled = self.cfg.backends.oxen_enabled;
        let tor_enabled = self.cfg.backends.tor_enabled;
        let backends = vec![
            BackendHealth {
                name: "oxen-node-1".to_owned(),
                kind: BackendKind::Oxen,
                latency_ms: 55,
                failure_rate_ppm: 20_000,
                enabled: oxen_enabled,
            },
            BackendHealth {
                name: "oxen-node-2".to_owned(),
                kind: BackendKind::Oxen,
                latency_ms: 70,
                failure_rate_ppm: 40_000,
                enabled: oxen_enabled,
            },
            BackendHealth {
                name: "tor-exit-1".to_owned(),
                kind: BackendKind::Tor,
                latency_ms: 250,
                failure_rate_ppm: 10_000,
                enabled: tor_enabled,
            },
        ];
        let r = RouterSnapshot { backends };
        assert(r@ =~= health_catalog(self@));
        proof {
            lemma_catalog_names_unique(self@);
        }
        r
    }

    /// The current snapshot, for reporting. Never fails.
    pub fn status(&self) -> (r: Result<RouterSnapshot, SelectionError>)
        ensures
            r matches Ok(s) && s@ == health_catalog(self@),
    {
        Ok(self.sample_health())
    }

    /// Chooses the backend for `target` from a fresh snapshot (see
    /// [`select_backend`]).
    pub fn choose_backend(&self, target: &str) -> (r: Result<BackendChoice, SelectionError>)
        ensures
            selects(health_catalog(self@), target@, r),
            r is Ok <==> winning_kind(health_catalog(self@)) is Some,
    {
        let snapshot = self.sample_health();
        select_backend(&snapshot, target)
    }
}

/// Status line of one backend record: its family, then whether it is
/// enabled.
pub open spec fn record_status_line(b: HealthView) -> Seq<char> {
    match (b.kind, b.enabled) {
        (BackendKind::Oxen, true) => "Oxen: enabled (stubbed healthy)"@,
        (BackendKind::Oxen, false) => "Oxen: disabled"@,
        (BackendKind::Tor, true) => "Tor: enabled (stubbed healthy)"@,
        (BackendKind::Tor, false) => "Tor: disabled"@,
    }
}

/// The status lines of the records of `s`, in order, joined by newlines.
pub open spec fn status_lines(s: Seq<HealthView>) -> Seq<char>
    decreases s.len(),
{
    if s.len() == 0 {
        Seq::empty()
    } else if s.len() == 1 {
        record_status_line(s[0])
    } else {
        status_lines(s.drop_last()) + "\n"@ + record_status_line(s.last())
    }
}

/// Human-readable summary of the configuration: one line per backend of
/// the catalog, in catalog order.
pub open spec fn status_summary(cfg: GoldDustConfig) -> Seq<char> {
    status_lines(health_catalog(cfg))
}

/// Status line of one backend record.
fn record_status(b: &BackendHealth) -> (r: &'static str)
    ensures
        r@ == record_status_line(b@),
{
    match (b.kind, b.enabled) {
        (BackendKind::Oxen, true) => "Oxen: enabled (stubbed healthy)",
        (BackendKind::Oxen, false) => "Oxen: disabled",
        (BackendKind::Tor, true) => "Tor: enabled (stubbed healthy)",
        (BackendKind::Tor, false) => "Tor: disabled",
    }
}

/// Reports, one line per backend instance, whether it is enabled.
pub fn check_backends(cfg: &GoldDustConfig) -> (r: String)
    ensures
        r@ == status_summary(*cfg),
{
    let snapshot = Router::new(*cfg).sample_health();
    let ghost s = snapshot@;
    let n = snapshot.backends.len();
    let mut r = String::new();
    let mut i: usize = 0;
    proof {
        assert(s.take(0).len() == 0);
    }
    while i < n
        invariant
            s == snapshot@,
            s == health_catalog(*cfg),
            n == s.len(),
            i <= n,
            r@ == status_lines(s.take(i as int)),
        decreases n - i,
    {
        let b = &snapshot.backends[i];
        assert(b@ == s[i as int]);
        let line = record_status(b);
        proof {
            assert(s.take(i + 1).drop_last() =~= s.take(i as int));
            assert(s.take(i + 1).last() == s[i as int]);
        }
        if i == 0 {
            r = line.to_owned();
            assert(s.take(1) =~= seq![s[0]]);
        } else {
            r = r.concat("\n").concat(line);
        }
        i = i + 1;
    }
    assert(s.take(n as int) =~= s);
    r
}

/// Both results name the same backend for the same target, or both report
/// the same failure.
pub open spec fn same_outcome(r1: Result<BackendChoice, SelectionError>, r2: Result<BackendChoice, SelectionError>) -> bool {
    match (r1, r2) {
        (Ok(c1), Ok(c2)) => c1.target@ == c2.target@ && c1.backend@ == c2.backend@,
        (
            Err(SelectionError::NoBackendAvailable { reason: a }),
            Err(SelectionError::NoBackendAvailable { reason: b }),
        ) => a@ == b@,
        _ => false,
    }
}

/// Within a snapshot whose names are unique, a family has at most one best
/// candidate: ties in latency are settled by the name, never by position.
pub proof fn lemma_best_unique(s: Seq<HealthView>, kind: BackendKind, a: HealthView, b: HealthView)
    requires
        names_unique(s),
        is_best_of(s, kind, a),
        is_best_of(s, kind, b),
    ensures
        a == b,
{
    let i = choose|i: int| 0 <= i < s.len() && s[i] == a;
    let j = choose|j: int| 0 <= j < s.len() && s[j] == b;
    assert(ranks_before(a, s[j]));
    assert(ranks_before(b, s[i]));
    lemma_name_le_antisymmetric(a.name, b.name);
}

/// The choice does not depend on the order in which a snapshot lists its
/// records: two snapshots with the same records, each with unique names, give
/// the same outcome for the same target.
pub proof fn lemma_selection_order_independent(
    s1: Seq<HealthView>,
    s2: Seq<HealthView>,
    target: Seq<char>,
    r1: Result<BackendChoice, SelectionError>,
    r2: Result<BackendChoice, SelectionError>,
)
    requires
        names_unique(s1),
        names_unique(s2),
        forall|b: HealthView| s1.contains(b) <==> s2.contains(b),
        selects(s1, target, r1),
        selects(s2, target, r2),
    ensures
        same_outcome(r1, r2),
{
    assert forall|kind: BackendKind| has_candidate(s1, kind) ==> has_candidate(s2, kind) by {
        if has_candidate(s1, kind) {
            let i = choose|i: int| 0 <= i < s1.len() && is_candidate(#[trigger] s1[i], kind);
            assert(s1.contains(s1[i]));
            let j = choose|j: int| 0 <= j < s2.len() && s2[j] == s1[i];
            assert(is_candidate(s2[j], kind));
        }
    }
    assert forall|kind: BackendKind| has_candidate(s2, kind) ==> has_candidate(s1, kind) by {
        if has_candidate(s2, kind) {
            let i = choose|i: int| 0 <= i < s2.len() && is_candidate(#[trigger] s2[i], kind);
            assert(s2.contains(s2[i]));
            let j = choose|j: int| 0 <= j < s1.len() && s1[j] == s2[i];
            assert(is_candidate(s1[j], kind));
        }
    }
    assert(winning_kind(s1) == winning_kind(s2));
    if let (Ok(c1), Ok(c2)) = (r1, r2) {
        let kind = winning_kind(s1)->0;
        let a = c1.backend@;
        assert(s2.contains(a));
        assert forall|i: int| 0 <= i < s2.len() && is_candidate(#[trigger] s2[i], kind)
            implies ranks_before(a, s2[i]) by {
            assert(s2.contains(s2[i]));
            let j = choose|j: int| 0 <= j < s1.len() && s1[j] == s2[i];
            assert(is_candidate(s1[j], kind));
        }
        assert(is_best_of(s2, kind, a));
        lemma_best_unique(s2, kind, a, c2.backend@);
    }
}

/// On one snapshot with unique names, repeated selections for one target
/// give the same outcome.
pub proof fn lemma_selection_repeatable(
    s: Seq<HealthView>,
    target: Seq<char>,
    r1: Result<BackendChoice, SelectionError>,
    r2: Result<BackendChoice, SelectionError>,
)
    requires
        names_unique(s),
        selects(s, target, r1),
        selects(s, target, r2),
    ensures
        same_outcome(r1, r2),
{
    lemma_selection_order_independent(s, s, target, r1, r2);
}

/// The catalog never lists two backends under one name.
pub proof fn lemma_catalog_names_unique(cfg: GoldDustConfig)
    ensures
        names_unique(health_catalog(cfg)),
{
    reveal_strlit("oxen-node-1");
    reveal_strlit("oxen-node-2");
    reveal_strlit("tor-exit-1");
    assert("oxen-node-1"@[10] != "oxen-node-2"@[10]);
    assert("oxen-node-1"@[0] != "tor-exit-1"@[0]);
    assert("oxen-node-2"@[0] != "tor-exit-1"@[0]);
}

/// Two decisions of a router with one configuration, for one target, have
/// the same outcome: the same backend (name and family), or the same failure.
pub proof fn lemma_choice_repeatable(
    cfg: GoldDustConfig,
    target: Seq<char>,
    r1: Result<BackendChoice, SelectionError>,
    r2: Result<BackendChoice, SelectionError>,
)
    requires
        selects(health_catalog(cfg), target, r1),
        selects(health_catalog(cfg), target, r2),
    ensures
        same_outcome(r1, r2),
{
    lemma_catalog_names_unique(cfg);
    lemma_selection_repeatable(health_catalog(cfg), target, r1, r2);
}

/// With the Oxen switch on, the router chooses an Oxen relay, whatever the
/// Tor switch says.
pub proof fn lemma_oxen_enabled_picks_oxen(
    cfg: GoldDustConfig,
    target: Seq<char>,
    r: Result<BackendChoice, SelectionError>,
)
    requires
        cfg.backends.oxen_enabled,
        selects(health_catalog(cfg), target, r),
    ensures
        r matches Ok(c) && c.backend.kind == BackendKind::Oxen,
{
    assert(is_candidate(health_catalog(cfg)[0], BackendKind::Oxen));
}

/// With the Oxen switch off and the Tor switch on, the router chooses a Tor
/// exit.
pub proof fn lemma_oxen_disabled_picks_tor(
    cfg: GoldDustConfig,
    target: Seq<char>,
    r: Result<BackendChoice, SelectionError>,
)
    requires
        !cfg.backends.oxen_enabled,
        cfg.backends.tor_enabled,
        selects(health_catalog(cfg), target, r),
    ensures
        r matches Ok(c) && c.backend.kind == BackendKind::Tor,
{
    let s = health_catalog(cfg);
    assert(!is_candidate(s[0], BackendKind::Oxen));
    assert(!is_candidate(s[1], BackendKind::Oxen));
    assert(!is_candidate(s[2], BackendKind::Oxen));
    assert(is_candidate(s[2], BackendKind::Tor));
}

/// With both switches off, the router reports that no backend is available.
pub proof fn lemma_all_disabled_fails(
    cfg: GoldDustConfig,
    target: Seq<char>,
    r: Result<BackendChoice, SelectionError>,
)
    requires
        !cfg.backends.oxen_enabled,
        !cfg.backends.tor_enabled,
        selects(health_catalog(cfg), target, r),
    ensures
        r matches Err(SelectionError::NoBackendAvailable { reason }) && reason@ == no_backend_reason(),
{
    let s = health_catalog(cfg);
    assert(!is_candidate(s[0], BackendKind::Oxen) && !is_candidate(s[0], BackendKind::Tor));
    assert(!is_candidate(s[1], BackendKind::Oxen) && !is_candidate(s[1], BackendKind::Tor));
    assert(!is_candidate(s[2], BackendKind::Oxen) && !is_candidate(s[2], BackendKind::Tor));
}

} // verus!
