//! Opportunistic HTTP/3 upgrade: Alt-Svc parsing, the per-origin upgrade
//! cache, and the request/response bookkeeping around it.
//!
//! An origin advertises HTTP/3 support through an `Alt-Svc` response
//! header. [`parse_alt_svc_header`] extracts the advertised port and
//! lifetime. [`AltSvcCache`] remembers, per origin, whether HTTP/3 was
//! merely advertised, confirmed by a completed request, or found broken;
//! every entry expires. [`AltSvcMiddleware`] holds the decisions made
//! around one request: whether to ask for HTTP/3 before it is sent, and
//! how its outcome feeds back into the cache afterwards.
//!
//! Time never comes from a clock in here: every operation takes `now`,
//! a timestamp in milliseconds, and is specified for every value of it.

use vstd::prelude::*;

use crate::text::{
    chars_eq_str, chars_of_str, parse_u16_spec, parse_u16_vec, parse_u64_spec, parse_u64_vec,
    split_char, split_char_vec, split_once_char, split_once_vec, strip_quotes, strip_quotes_vec,
    trim_ws, trim_ws_vec, views_of,
};

verus! {

// ==================================================================
// Header parser
// ==================================================================

/// Whether a parameter key names the HTTP/3 protocol family: `h3`
/// itself or a versioned identifier such as `h3-29`.
pub open spec fn is_h3_key(k: Seq<char>) -> bool {
    k.len() >= 2 && k[0] == 'h' && k[1] == '3'
}

/// What scanning one advertisement accumulates: the protocol key seen,
/// the advertised port, and the `ma` lifetime in seconds.
pub type ParamState = (Option<Seq<char>>, Option<u16>, Option<u64>);

/// How one `key=value` parameter changes the accumulated state.
///
/// Keys and values are trimmed and values lose surrounding quotes. An
/// `ma` parameter sets the lifetime if its value is an unsigned number;
/// a key of the HTTP/3 family records the protocol and, when the value
/// has the shape `host:port` with a parseable port, the port. Anything
/// malformed leaves the state as it was.
pub open spec fn param_step(st: ParamState, param: Seq<char>) -> ParamState {
    let q = trim_ws(param);
    match split_once_char(q, '=') {
        None => st,
        Some(kv) => {
            let k = trim_ws(kv.0);
            let v = strip_quotes(trim_ws(kv.1));
            if k == "ma"@ {
                match parse_u64_spec(v) {
                    Some(secs) => (st.0, st.1, Some(secs)),
                    None => st,
                }
            } else if is_h3_key(k) {
                let port = match split_once_char(v, ':') {
                    Some(hp) => match parse_u16_spec(hp.1) {
                        Some(p) => Some(p),
                        None => st.1,
                    },
                    None => st.1,
                };
                (Some(k), port, st.2)
            } else {
                st
            }
        },
    }
}

/// The state after scanning a list of parameters left to right.
pub open spec fn params_state(params: Seq<Seq<char>>) -> ParamState
    decreases params.len(),
{
    if params.len() == 0 {
        (None, None, None)
    } else {
        param_step(params_state(params.drop_last()), params.last())
    }
}

/// What one advertisement (one comma-separated entry) yields: a port and
/// an optional lifetime, provided the entry names the HTTP/3 family and
/// carries a parseable port.
pub open spec fn service_yield(svc: Seq<char>) -> Option<(u16, Option<u64>)> {
    match params_state(split_char(svc, ';')) {
        (Some(_k), Some(p), ma) => Some((p, ma)),
        _ => None,
    }
}

/// The first advertisement that yields, scanning left to right; servers
/// list their preferred alternative first.
pub open spec fn first_service_yield(svcs: Seq<Seq<char>>) -> Option<(u16, Option<u64>)>
    decreases svcs.len(),
{
    if svcs.len() == 0 {
        None
    } else {
        match service_yield(svcs[0]) {
            Some(r) => Some(r),
            None => first_service_yield(svcs.drop_first()),
        }
    }
}

/// The meaning of an `Alt-Svc` header value: nothing for the literal
/// `clear` directive, else what the first HTTP/3 advertisement yields.
pub open spec fn spec_parse_alt_svc(s: Seq<char>) -> Option<(u16, Option<u64>)> {
    if s == "clear"@ {
        None
    } else {
        first_service_yield(split_char(s, ','))
    }
}

proof fn lemma_first_yield_skip(svcs: Seq<Seq<char>>, i: int)
    requires
        0 <= i <= svcs.len(),
        forall|j: int| 0 <= j < i ==> service_yield(svcs[j]) is None,
    ensures
        first_service_yield(svcs) == first_service_yield(svcs.skip(i)),
    decreases i,
{
    if i > 0 {
        lemma_first_yield_skip(svcs, i - 1);
        let t = svcs.skip(i - 1);
        assert(t[0] == svcs[i - 1]);
        assert(t.drop_first() =~= svcs.skip(i));
    } else {
        assert(svcs.skip(0) =~= svcs);
    }
}

/// The exec accumulator mirroring [`ParamState`].
struct ParamAcc {
    proto: Option<Vec<char>>,
    port: Option<u16>,
    max_age: Option<u64>,
}

impl ParamAcc {
    spec fn view_state(&self) -> ParamState {
        (
            match self.proto {
                Some(ref k) => Some(k@),
                None => None,
            },
            self.port,
            self.max_age,
        )
    }
}

/// Scans the parameters of one advertisement.
fn eval_service(svc: &Vec<char>) -> (r: Option<(u16, Option<u64>)>)
    ensures
        r == service_yield(svc@),
{
    let params = split_char_vec(svc, ';');
    let ghost pviews = views_of(params@);
    let n = params.len();
    let mut acc = ParamAcc { proto: None, port: None, max_age: None };
    proof {
        assert(pviews.take(0) =~= Seq::<Seq<char>>::empty());
    }
    let mut i: usize = 0;
    while i < n
        invariant
            i <= n,
            n == params@.len(),
            pviews == views_of(params@),
            acc.view_state() == params_state(pviews.take(i as int)),
        decreases n - i,
    {
        let ghost st0 = acc.view_state();
        let q = trim_ws_vec(&params[i]);
        match split_once_vec(&q, '=') {
            None => {},
            Some(kv) => {
                let k = trim_ws_vec(&kv.0);
                let vtrim = trim_ws_vec(&kv.1);
                let v = strip_quotes_vec(&vtrim);
                if chars_eq_str(&k, "ma") {
                    match parse_u64_vec(&v) {
                        Some(secs) => {
                            acc.max_age = Some(secs);
                        },
                        None => {},
                    }
                } else if k.len() >= 2 && k[0] == 'h' && k[1] == '3' {
                    match split_once_vec(&v, ':') {
                        Some(hp) => {
                            match parse_u16_vec(&hp.1) {
                                Some(p) => {
                                    acc.port = Some(p);
                                },
                                None => {},
                            }
                        },
                        None => {},
                    }
                    acc.proto = Some(k);
                }
            },
        }
        proof {
            assert(acc.view_state() == param_step(st0, pviews[i as int]));
            assert(pviews.take(i + 1 as int).drop_last() =~= pviews.take(i as int));
            assert(pviews.take(i + 1 as int).last() == pviews[i as int]);
        }
        i = i + 1;
    }
    proof {
        assert(pviews.take(n as int) =~= pviews);
    }
    match (&acc.proto, acc.port) {
        (Some(_), Some(p)) => Some((p, acc.max_age)),
        _ => None,
    }
}

/// Parses the value of an `Alt-Svc` response header.
///
/// Advertisements are scanned left to right; the first entry whose
/// protocol identifier belongs to the HTTP/3 family and that carries a
/// parseable `:port` authority decides the result, with its `ma`
/// lifetime in seconds if one parsed. The literal `clear` directive and
/// a header with no usable HTTP/3 entry yield nothing. Malformed
/// parameters are skipped, not fatal.
pub fn parse_alt_svc_header(value: &str) -> (r: Option<(u16, Option<u64>)>)
    ensures
        r == spec_parse_alt_svc(value@),
{
    let chars = chars_of_str(value);
    if chars_eq_str(&chars, "clear") {
        return None;
    }
    let services = split_char_vec(&chars, ',');
    let ghost svcs = views_of(services@);
    let n = services.len();
    let mut i: usize = 0;
    while i < n
        invariant
            i <= n,
            n == services@.len(),
            svcs == views_of(services@),
            svcs == split_char(value@, ','),
            value@ != "clear"@,
            forall|j: int| 0 <= j < i ==> service_yield(svcs[j]) is None,
        decreases n - i,
    {
        match eval_service(&services[i]) {
            Some(r) => {
                proof {
                    lemma_first_yield_skip(svcs, i as int);
                    assert(svcs.skip(i as int)[0] == svcs[i as int]);
                }
                return Some(r);
            },
            None => {},
        }
        i = i + 1;
    }
    proof {
        lemma_first_yield_skip(svcs, n as int);
        assert(svcs.skip(n as int) =~= Seq::<Seq<char>>::empty());
    }
    None
}

// ==================================================================
// Origins
// ==================================================================

/// The mathematical value of an [`Origin`].
#[verifier::ext_equal]
pub struct OriginView {
    pub scheme: Seq<char>,
    pub host: Seq<char>,
    pub port: u16,
}

/// An origin: requests to the same scheme, host and port share one
/// upgrade state, whatever their paths.
#[derive(Debug)]
pub struct Origin {
    pub scheme: String,
    pub host: String,
    pub port: u16,
}

impl View for Origin {
    type V = OriginView;

    open spec fn view(&self) -> OriginView {
        OriginView { scheme: self.scheme@, host: self.host@, port: self.port }
    }
}

/// The well-known port of a scheme, for URLs that name none.
pub open spec fn spec_default_port(scheme: Seq<char>) -> Option<u16> {
    if scheme == "http"@ || scheme == "ws"@ {
        Some(80)
    } else if scheme == "https"@ || scheme == "wss"@ {
        Some(443)
    } else if scheme == "ftp"@ {
        Some(21)
    } else {
        None
    }
}

/// The origin of a URL with the given scheme, host and declared port;
/// nothing when the URL names no port and the scheme has no well-known
/// one.
pub open spec fn spec_origin_from_parts(
    scheme: Seq<char>,
    host: Seq<char>,
    port: Option<u16>,
) -> Option<OriginView> {
    let p = match port {
        Some(p) => Some(p),
        None => spec_default_port(scheme),
    };
    match p {
        Some(p) => Some(OriginView { scheme, host, port: p }),
        None => None,
    }
}

impl Origin {
    /// Builds the origin for a URL's scheme, host and declared port,
    /// falling back to the scheme's well-known port.
    pub fn from_parts(scheme: &str, host: &str, port: Option<u16>) -> (r: Option<Origin>)
        ensures
            match r {
                Some(o) => spec_origin_from_parts(scheme@, host@, port) == Some(o@),
                None => spec_origin_from_parts(scheme@, host@, port) is None,
            },
    {
        let p: Option<u16> = match port {
            Some(p) => Some(p),
            None => {
                let sv = chars_of_str(scheme);
                if chars_eq_str(&sv, "http") || chars_eq_str(&sv, "ws") {
                    Some(80)
                } else if chars_eq_str(&sv, "https") || chars_eq_str(&sv, "wss") {
                    Some(443)
                } else if chars_eq_str(&sv, "ftp") {
                    Some(21)
                } else {
                    None
                }
            },
        };
        match p {
            Some(p) => Some(
                Origin { scheme: String::from_str(scheme), host: String::from_str(host), port: p },
            ),
            None => None,
        }
    }

    /// Whether two origins are the same.
    pub fn same_origin(&self, other: &Origin) -> (r: bool)
        ensures
            r == (self@ == other@),
    {
        let r = self.port == other.port && self.scheme == other.scheme && self.host == other.host;
        proof {
            if r {
                assert(self@ =~= other@);
            }
        }
        r
    }

    /// A copy of this origin.
    pub fn duplicate(&self) -> (r: Origin)
        ensures
            r@ == self@,
    {
        let r = Origin {
            scheme: self.scheme.clone(),
            host: self.host.clone(),
            port: self.port,
        };
        proof {
            assert(r@ =~= self@);
        }
        r
    }
}

// ==================================================================
// Upgrade cache: model
// ==================================================================

/// One cache entry: the advertised or confirmed port, and when the
/// entry stops being live, in milliseconds.
#[derive(Debug, Clone, Copy, PartialEq, Eq, Structural)]
pub struct AltSvcEntry {
    pub port: u16,
    pub expires: u64,
}

/// The upgrade state of one origin. An origin the cache does not track
/// is simply absent.
#[derive(Debug, Clone, Copy, PartialEq, Eq, Structural)]
pub enum OriginState {
    /// The origin claimed HTTP/3 support in a header or through a hint;
    /// not yet proven.
    Advertised(AltSvcEntry),
    /// A request actually completed over HTTP/3 at this port.
    Confirmed(AltSvcEntry),
    /// An HTTP/3 attempt failed; upgrades stay suppressed until the
    /// given time.
    Failed(u64),
}

/// The cache's mathematical value: tracked origins in insertion order,
/// each with its single state.
pub type CacheView = Seq<(OriginView, OriginState)>;

/// When a state stops being live.
pub open spec fn state_expires(st: OriginState) -> u64 {
    match st {
        OriginState::Advertised(e) => e.expires,
        OriginState::Confirmed(e) => e.expires,
        OriginState::Failed(x) => x,
    }
}

/// A state is live strictly before its expiry.
pub open spec fn state_live(st: OriginState, now: u64) -> bool {
    now < state_expires(st)
}

/// The state recorded for an origin, live or not.
pub open spec fn lookup(m: CacheView, o: OriginView) -> Option<OriginState>
    decreases m.len(),
{
    if m.len() == 0 {
        None
    } else if m[0].0 == o {
        Some(m[0].1)
    } else {
        lookup(m.drop_first(), o)
    }
}

/// The index of the entry holding an origin's state.
pub open spec fn index_of_origin(m: CacheView, o: OriginView) -> int
    decreases m.len(),
{
    if m.len() == 0 {
        0
    } else if m[0].0 == o {
        0
    } else {
        1 + index_of_origin(m.drop_first(), o)
    }
}

/// The state recorded for an origin, if it is still live; an expired
/// entry behaves as absent.
pub open spec fn live_state(m: CacheView, o: OriginView, now: u64) -> Option<OriginState> {
    match lookup(m, o) {
        Some(st) => if state_live(st, now) {
            Some(st)
        } else {
            None
        },
        None => None,
    }
}

/// Whether the origin holds a live `Confirmed` entry.
pub open spec fn is_confirmed_live(m: CacheView, o: OriginView, now: u64) -> bool {
    live_state(m, o, now) matches Some(OriginState::Confirmed(_))
}

/// Whether the origin holds a live `Failed` marker.
pub open spec fn is_failed_live(m: CacheView, o: OriginView, now: u64) -> bool {
    live_state(m, o, now) matches Some(OriginState::Failed(_))
}

/// Addition that stops at the largest timestamp instead of wrapping.
pub open spec fn sat_add(a: u64, b: u64) -> u64 {
    if a + b <= u64::MAX {
        (a + b) as u64
    } else {
        u64::MAX
    }
}

/// Seconds to milliseconds, stopping at the largest timestamp.
pub open spec fn secs_to_ms(s: u64) -> u64 {
    if s * 1000 <= u64::MAX {
        (s * 1000) as u64
    } else {
        u64::MAX
    }
}

/// Every tracked origin appears once.
pub open spec fn cache_wf(m: CacheView) -> bool {
    forall|i: int, j: int| 0 <= i < j < m.len() ==> m[i].0 != m[j].0
}

/// Storing a state for an origin: in place if the origin is tracked;
/// appended while there is room; else the oldest tracked origin is
/// dropped to make room. A cache built with no capacity stores nothing.
pub open spec fn spec_insert(m: CacheView, cap: u64, o: OriginView, st: OriginState) -> CacheView {
    if lookup(m, o) is Some {
        m.update(index_of_origin(m, o), (o, st))
    } else if m.len() < cap {
        m.push((o, st))
    } else if m.len() == 0 {
        m
    } else {
        m.subrange(1, m.len() as int).push((o, st))
    }
}

/// A fresh advertisement is ignored while the origin has a live
/// `Failed` marker (the veto) or a live `Confirmed` entry (proven trust
/// is not downgraded to a hint).
pub open spec fn advert_blocked(m: CacheView, o: OriginView, now: u64) -> bool {
    is_failed_live(m, o, now) || is_confirmed_live(m, o, now)
}

/// Recording an advertisement: unless blocked, the origin becomes
/// `Advertised` at the given port until `now` plus the advertised
/// lifetime, or the cache's default advertisement lifetime.
pub open spec fn spec_record_alt_svc(
    m: CacheView,
    cap: u64,
    advertised_ttl: u64,
    o: OriginView,
    port: u16,
    max_age_ms: Option<u64>,
    now: u64,
) -> CacheView {
    if advert_blocked(m, o, now) {
        m
    } else {
        let ttl = match max_age_ms {
            Some(x) => x,
            None => advertised_ttl,
        };
        spec_insert(
            m,
            cap,
            o,
            OriginState::Advertised(AltSvcEntry { port, expires: sat_add(now, ttl) }),
        )
    }
}

/// A hint is an advertisement that never expires on its own.
pub open spec fn spec_add_hint(
    m: CacheView,
    cap: u64,
    o: OriginView,
    port: u16,
    now: u64,
) -> CacheView {
    if advert_blocked(m, o, now) {
        m
    } else {
        spec_insert(m, cap, o, OriginState::Advertised(AltSvcEntry { port, expires: u64::MAX }))
    }
}

/// The port a confirmation settles on: the live advertised port if one
/// exists, else the live confirmed port, else the origin's own port.
pub open spec fn confirm_port(m: CacheView, o: OriginView, now: u64) -> u16 {
    match live_state(m, o, now) {
        Some(OriginState::Advertised(e)) => e.port,
        Some(OriginState::Confirmed(e)) => e.port,
        _ => o.port,
    }
}

/// Confirming an origin: whatever state it held, including an
/// advertisement (consumed) or a failure marker, it now holds a
/// `Confirmed` entry at the settled port.
pub open spec fn spec_confirm_h3(
    m: CacheView,
    cap: u64,
    confirmed_ttl: u64,
    o: OriginView,
    now: u64,
) -> CacheView {
    spec_insert(
        m,
        cap,
        o,
        OriginState::Confirmed(
            AltSvcEntry { port: confirm_port(m, o, now), expires: sat_add(now, confirmed_ttl) },
        ),
    )
}

/// Recording a failure: any advertised or confirmed trust is erased and
/// the origin holds a `Failed` marker.
pub open spec fn spec_record_h3_failure(
    m: CacheView,
    cap: u64,
    failed_ttl: u64,
    o: OriginView,
    now: u64,
) -> CacheView {
    spec_insert(m, cap, o, OriginState::Failed(sat_add(now, failed_ttl)))
}

/// Whether to try HTTP/3 for an origin: a live `Failed` marker vetoes,
/// else a live `Confirmed` or `Advertised` entry names the port.
pub open spec fn spec_should_use_h3(m: CacheView, o: OriginView, now: u64) -> Option<u16> {
    match live_state(m, o, now) {
        Some(OriginState::Advertised(e)) => Some(e.port),
        Some(OriginState::Confirmed(e)) => Some(e.port),
        _ => None,
    }
}

// ==================================================================
// Upgrade cache: implementation
// ==================================================================

/// One stored entry.
#[derive(Debug)]
struct CacheSlot {
    origin: Origin,
    state: OriginState,
}

/// The shared upgrade cache: three kinds of per-origin state with
/// independent lifetimes, bounded in size, never failing — an absent
/// origin is an answer, not an error.
///
/// Each origin holds exactly one state at a time, so conflicting trust
/// — live confirmed trust beside a live failure veto — cannot even be
/// represented; see [`lemma_no_conflicting_trust`].
#[derive(Debug)]
pub struct AltSvcCache {
    entries: Vec<CacheSlot>,
    advertised_ttl: u64,
    confirmed_ttl: u64,
    failed_ttl: u64,
    capacity: u64,
}

impl View for AltSvcCache {
    type V = CacheView;

    closed spec fn view(&self) -> CacheView {
        self.entries@.map_values(|s: CacheSlot| (s.origin@, s.state))
    }
}

impl AltSvcCache {
    /// The lifetime, in milliseconds, of a plain advertisement without
    /// `ma`.
    pub closed spec fn spec_advertised_ttl(&self) -> u64 {
        self.advertised_ttl
    }

    /// The lifetime, in milliseconds, of a confirmed entry.
    pub closed spec fn spec_confirmed_ttl(&self) -> u64 {
        self.confirmed_ttl
    }

    /// The lifetime, in milliseconds, of a failure marker.
    pub closed spec fn spec_failed_ttl(&self) -> u64 {
        self.failed_ttl
    }

    /// How many origins the cache tracks at most.
    pub closed spec fn spec_capacity(&self) -> u64 {
        self.capacity
    }

    /// The lifetimes and capacity of two cache values agree.
    pub open spec fn same_config(&self, other: &AltSvcCache) -> bool {
        &&& self.spec_advertised_ttl() == other.spec_advertised_ttl()
        &&& self.spec_confirmed_ttl() == other.spec_confirmed_ttl()
        &&& self.spec_failed_ttl() == other.spec_failed_ttl()
        &&& self.spec_capacity() == other.spec_capacity()
    }

    /// Builds an empty cache with the three lifetimes, each in
    /// milliseconds, and a bound on how many origins it tracks.
    pub fn new(advertised_ttl: u64, confirmed_ttl: u64, failed_ttl: u64, capacity: u64) -> (r:
        AltSvcCache)
        ensures
            r@ == Seq::<(OriginView, OriginState)>::empty(),
            cache_wf(r@),
            r.spec_advertised_ttl() == advertised_ttl,
            r.spec_confirmed_ttl() == confirmed_ttl,
            r.spec_failed_ttl() == failed_ttl,
            r.spec_capacity() == capacity,
    {
        let r = AltSvcCache {
            entries: Vec::new(),
            advertised_ttl,
            confirmed_ttl,
            failed_ttl,
            capacity,
        };
        proof {
            assert(r@ =~= Seq::<(OriginView, OriginState)>::empty());
        }
        r
    }

    /// Finds the entry tracking an origin.
    fn find_origin(&self, origin: &Origin) -> (r: Option<usize>)
        ensures
            match r {
                Some(i) => {
                    &&& i < self@.len()
                    &&& self@[i as int].0 == origin@
                    &&& index_of_origin(self@, origin@) == i
                    &&& lookup(self@, origin@) == Some(self@[i as int].1)
                },
                None => lookup(self@, origin@) is None,
            },
    {
        let n = self.entries.len();
        let mut i: usize = 0;
        while i < n
            invariant
                i <= n,
                n == self.entries@.len(),
                self@ == self.entries@.map_values(|s: CacheSlot| (s.origin@, s.state)),
                self@.len() == n,
                forall|j: int| 0 <= j < i ==> self@[j].0 != origin@,
            decreases n - i,
        {
            if self.entries[i].origin.same_origin(origin) {
                proof {
                    lemma_lookup_at(self@, origin@, i as int);
                }
                return Some(i);
            }
            i = i + 1;
        }
        proof {
            lemma_lookup_at(self@, origin@, n as int);
        }
        None
    }

    /// Stores a state for an origin, as [`spec_insert`] says.
    fn insert_state(&mut self, origin: &Origin, st: OriginState)
        ensures
            final(self)@ == spec_insert(old(self)@, old(self).spec_capacity(), origin@, st),
            final(self).same_config(old(self)),
    {
        let ghost m = self@;
        match self.find_origin(origin) {
            Some(i) => {
                let slot = self.entries.remove(i);
                self.entries.insert(i, CacheSlot { origin: slot.origin, state: st });
                proof {
                    assert(self@ =~= m.update(i as int, (origin@, st)));
                }
            },
            None => {
                let len64 = self.entries.len() as u64;
                if len64 < self.capacity {
                    self.entries.push(CacheSlot { origin: origin.duplicate(), state: st });
                    proof {
                        assert(self@ =~= m.push((origin@, st)));
                    }
                } else if self.entries.len() == 0 {
                    // no capacity at all: nothing is stored
                } else {
                    let _evicted = self.entries.remove(0);
                    self.entries.push(CacheSlot { origin: origin.duplicate(), state: st });
                    proof {
                        assert(self@ =~= m.subrange(1, m.len() as int).push((origin@, st)));
                    }
                }
            },
        }
    }

    /// Records an HTTP/3 advertisement for an origin, honouring the
    /// failure veto and confirmed dominance; `max_age_ms` is the
    /// advertised lifetime, if the header carried one.
    pub fn record_alt_svc(&mut self, origin: &Origin, h3_port: u16, max_age_ms: Option<u64>, now: u64)
        ensures
            final(self)@ == spec_record_alt_svc(
                old(self)@,
                old(self).spec_capacity(),
                old(self).spec_advertised_ttl(),
                origin@,
                h3_port,
                max_age_ms,
                now,
            ),
            final(self).same_config(old(self)),
    {
        if self.is_blocked(origin, now) {
            return;
        }
        let ttl = match max_age_ms {
            Some(x) => x,
            None => self.advertised_ttl,
        };
        let expires = saturating_add(now, ttl);
        self.insert_state(
            origin,
            OriginState::Advertised(AltSvcEntry { port: h3_port, expires }),
        );
    }

    /// Primes the cache for `https://host:port` without a prior
    /// request: an advertisement that never expires on its own, still
    /// honouring the failure veto.
    pub fn add_hint(&mut self, host: &str, port: u16, now: u64)
        ensures
            final(self)@ == spec_add_hint(
                old(self)@,
                old(self).spec_capacity(),
                (OriginView { scheme: "https"@, host: host@, port }),
                port,
                now,
            ),
            final(self).same_config(old(self)),
    {
        let origin = Origin { scheme: String::from_str("https"), host: String::from_str(host), port };
        proof {
            assert(origin@ =~= (OriginView { scheme: "https"@, host: host@, port }));
        }
        if self.is_blocked(&origin, now) {
            return;
        }
        self.insert_state(
            &origin,
            OriginState::Advertised(AltSvcEntry { port, expires: u64::MAX }),
        );
    }

    /// Answers whether a request to this origin should try HTTP/3, and
    /// at which port.
    pub fn should_use_h3(&self, origin: &Origin, now: u64) -> (r: Option<u16>)
        ensures
            r == spec_should_use_h3(self@, origin@, now),
    {
        match self.live_of(origin, now) {
            Some(OriginState::Advertised(e)) => Some(e.port),
            Some(OriginState::Confirmed(e)) => Some(e.port),
            _ => None,
        }
    }

    /// Promotes an origin to `Confirmed` after a request completed over
    /// HTTP/3: any advertisement is consumed, and the confirmed entry
    /// carries the settled port for the confirmed lifetime.
    pub fn confirm_h3(&mut self, origin: &Origin, now: u64)
        ensures
            final(self)@ == spec_confirm_h3(
                old(self)@,
                old(self).spec_capacity(),
                old(self).spec_confirmed_ttl(),
                origin@,
                now,
            ),
            final(self).same_config(old(self)),
    {
        let port = match self.live_of(origin, now) {
            Some(OriginState::Advertised(e)) => e.port,
            Some(OriginState::Confirmed(e)) => e.port,
            _ => origin.port,
        };
        let expires = saturating_add(now, self.confirmed_ttl);
        self.insert_state(origin, OriginState::Confirmed(AltSvcEntry { port, expires }));
    }

    /// Records that an HTTP/3 attempt failed: all trust in the origin
    /// is erased and upgrades stay suppressed for the failed lifetime.
    pub fn record_h3_failure(&mut self, origin: &Origin, now: u64)
        ensures
            final(self)@ == spec_record_h3_failure(
                old(self)@,
                old(self).spec_capacity(),
                old(self).spec_failed_ttl(),
                origin@,
                now,
            ),
            final(self).same_config(old(self)),
    {
        let expires = saturating_add(now, self.failed_ttl);
        self.insert_state(origin, OriginState::Failed(expires));
    }

    /// Whether the origin holds a live advertisement.
    pub fn has_advertised(&self, origin: &Origin, now: u64) -> (r: bool)
        ensures
            r == (live_state(self@, origin@, now) matches Some(OriginState::Advertised(_))),
    {
        match self.live_of(origin, now) {
            Some(OriginState::Advertised(_)) => true,
            _ => false,
        }
    }

    /// Whether the origin holds a live confirmed entry.
    pub fn has_confirmed(&self, origin: &Origin, now: u64) -> (r: bool)
        ensures
            r == is_confirmed_live(self@, origin@, now),
    {
        match self.live_of(origin, now) {
            Some(OriginState::Confirmed(_)) => true,
            _ => false,
        }
    }

    /// The live state of an origin, if any.
    fn live_of(&self, origin: &Origin, now: u64) -> (r: Option<OriginState>)
        ensures
            r == live_state(self@, origin@, now),
    {
        match self.find_origin(origin) {
            Some(i) => {
                let st = self.entries[i].state;
                if now < state_expires_exec(st) {
                    Some(st)
                } else {
                    None
                }
            },
            None => None,
        }
    }

    /// Whether a fresh advertisement for the origin is ignored.
    fn is_blocked(&self, origin: &Origin, now: u64) -> (r: bool)
        ensures
            r == advert_blocked(self@, origin@, now),
    {
        match self.live_of(origin, now) {
            Some(OriginState::Failed(_)) => true,
            Some(OriginState::Confirmed(_)) => true,
            _ => false,
        }
    }
}

/// When a state stops being live; the exec twin of [`state_expires`].
fn state_expires_exec(st: OriginState) -> (r: u64)
    ensures
        r == state_expires(st),
{
    match st {
        OriginState::Advertised(e) => e.expires,
        OriginState::Confirmed(e) => e.expires,
        OriginState::Failed(x) => x,
    }
}

/// Addition that stops at the largest timestamp; the exec twin of
/// [`sat_add`].
fn saturating_add(a: u64, b: u64) -> (r: u64)
    ensures
        r == sat_add(a, b),
{
    if a <= u64::MAX - b {
        a + b
    } else {
        u64::MAX
    }
}

/// The first index below which an origin never occurs, and at which it
/// occurs unless the end was reached, decides `lookup` and
/// `index_of_origin`.
proof fn lemma_lookup_at(m: CacheView, o: OriginView, i: int)
    requires
        0 <= i <= m.len(),
        forall|j: int| 0 <= j < i ==> m[j].0 != o,
        i < m.len() ==> m[i].0 == o,
    ensures
        i < m.len() ==> lookup(m, o) == Some(m[i].1) && index_of_origin(m, o) == i,
        i == m.len() ==> lookup(m, o) is None,
    decreases m.len(),
{
    if m.len() == 0 {
    } else if m[0].0 == o {
        assert(i == 0);
    } else {
        assert(i >= 1);
        lemma_lookup_at(m.drop_first(), o, i - 1);
    }
}

/// What `lookup` finding nothing says of every entry.
proof fn lemma_lookup_none(m: CacheView, o: OriginView)
    requires
        lookup(m, o) is None,
    ensures
        forall|j: int| 0 <= j < m.len() ==> m[j].0 != o,
    decreases m.len(),
{
    if m.len() > 0 {
        lemma_lookup_none(m.drop_first(), o);
        assert forall|j: int| 0 <= j < m.len() implies m[j].0 != o by {
            if j > 0 {
                assert(m.drop_first()[j - 1].0 != o);
            }
        }
    }
}

/// Where `lookup` found a state, `index_of_origin` names the first
/// entry with that origin.
proof fn lemma_index_of_props(m: CacheView, o: OriginView)
    requires
        lookup(m, o) is Some,
    ensures
        0 <= index_of_origin(m, o) < m.len(),
        m[index_of_origin(m, o)].0 == o,
        m[index_of_origin(m, o)].1 == lookup(m, o)->Some_0,
        forall|j: int| 0 <= j < index_of_origin(m, o) ==> m[j].0 != o,
    decreases m.len(),
{
    if m.len() == 0 {
    } else if m[0].0 == o {
    } else {
        lemma_index_of_props(m.drop_first(), o);
        assert forall|j: int| 0 <= j < index_of_origin(m, o) implies m[j].0 != o by {
            if j > 0 {
                assert(m.drop_first()[j - 1].0 != o);
            }
        }
    }
}

// ==================================================================
// Laws of the cache
// ==================================================================

/// Storing a state keeps every origin tracked at most once.
pub proof fn lemma_insert_preserves_wf(m: CacheView, cap: u64, o: OriginView, st: OriginState)
    requires
        cache_wf(m),
    ensures
        cache_wf(spec_insert(m, cap, o, st)),
{
    if lookup(m, o) is Some {
        lemma_index_of_props(m, o);
    } else {
        lemma_lookup_none(m, o);
    }
}

/// Unless the cache is empty with no capacity, storing a state makes
/// it the origin's state.
pub proof fn lemma_insert_lookup(m: CacheView, cap: u64, o: OriginView, st: OriginState)
    requires
        cache_wf(m),
        cap > 0 || m.len() > 0,
    ensures
        lookup(spec_insert(m, cap, o, st), o) == Some(st),
{
    let m2 = spec_insert(m, cap, o, st);
    if lookup(m, o) is Some {
        lemma_index_of_props(m, o);
        let i = index_of_origin(m, o);
        lemma_lookup_at(m2, o, i);
    } else {
        lemma_lookup_none(m, o);
        if m.len() < cap {
            lemma_lookup_at(m2, o, m.len() as int);
        } else {
            assert forall|j: int| 0 <= j < m2.len() - 1 implies m2[j].0 != o by {
                assert(m2[j] == m[j + 1]);
            }
            lemma_lookup_at(m2, o, m.len() - 1);
        }
    }
}

/// Storing one state and then another for the same origin leaves what
/// storing only the second would.
pub proof fn lemma_insert_twice(
    m: CacheView,
    cap: u64,
    o: OriginView,
    s1: OriginState,
    s2: OriginState,
)
    requires
        cache_wf(m),
    ensures
        spec_insert(spec_insert(m, cap, o, s1), cap, o, s2) == spec_insert(m, cap, o, s2),
{
    let m1 = spec_insert(m, cap, o, s1);
    if lookup(m, o) is Some {
        lemma_index_of_props(m, o);
        let i = index_of_origin(m, o);
        lemma_lookup_at(m1, o, i);
        assert(spec_insert(m1, cap, o, s2) =~= spec_insert(m, cap, o, s2));
    } else {
        lemma_lookup_none(m, o);
        if m.len() < cap {
            lemma_lookup_at(m1, o, m.len() as int);
            assert(m1.update(m.len() as int, (o, s2)) =~= m.push((o, s2)));
        } else if m.len() == 0 {
            // nothing was stored
        } else {
            let tail = m.subrange(1, m.len() as int);
            assert forall|j: int| 0 <= j < tail.len() implies tail[j].0 != o by {
                assert(tail[j] == m[j + 1]);
            }
            lemma_lookup_at(m1, o, m.len() - 1);
            assert(m1.update(m.len() - 1, (o, s2)) =~= tail.push((o, s2)));
        }
    }
}

/// A live state at a later time was live at any earlier one, so a
/// blocked advertisement at a later time was blocked earlier too.
proof fn lemma_blocked_monotone(m: CacheView, o: OriginView, now1: u64, now2: u64)
    requires
        now1 <= now2,
    ensures
        advert_blocked(m, o, now2) ==> advert_blocked(m, o, now1),
{
}

/// No origin ever holds live confirmed trust and a live failure marker
/// at once: each origin has a single state, so the two cannot coexist,
/// whatever operations built the cache.
pub proof fn lemma_no_conflicting_trust(m: CacheView, o: OriginView, now: u64)
    ensures
        !(is_confirmed_live(m, o, now) && is_failed_live(m, o, now)),
{
}

/// Recording the same advertisement again only refreshes its lifetime:
/// the cache ends exactly as if only the later call had happened.
pub proof fn lemma_record_alt_svc_idempotent(
    m: CacheView,
    cap: u64,
    advertised_ttl: u64,
    o: OriginView,
    port: u16,
    max_age_ms: Option<u64>,
    now1: u64,
    now2: u64,
)
    requires
        cache_wf(m),
        now1 <= now2,
    ensures
        spec_record_alt_svc(
            spec_record_alt_svc(m, cap, advertised_ttl, o, port, max_age_ms, now1),
            cap,
            advertised_ttl,
            o,
            port,
            max_age_ms,
            now2,
        ) == spec_record_alt_svc(m, cap, advertised_ttl, o, port, max_age_ms, now2),
{
    lemma_blocked_monotone(m, o, now1, now2);
    if advert_blocked(m, o, now1) {
    } else {
        let ttl = match max_age_ms {
            Some(x) => x,
            None => advertised_ttl,
        };
        let s1 = OriginState::Advertised(AltSvcEntry { port, expires: sat_add(now1, ttl) });
        let s2 = OriginState::Advertised(AltSvcEntry { port, expires: sat_add(now2, ttl) });
        let m1 = spec_insert(m, cap, o, s1);
        if cap > 0 || m.len() > 0 {
            lemma_insert_lookup(m, cap, o, s1);
        }
        assert(!advert_blocked(m1, o, now2));
        lemma_insert_twice(m, cap, o, s1, s2);
    }
}

/// A recorded advertisement answers lookups with its port while it
/// lives.
pub proof fn lemma_advertisement_primes(
    m: CacheView,
    cap: u64,
    advertised_ttl: u64,
    o: OriginView,
    port: u16,
    max_age_ms: Option<u64>,
    now: u64,
    now2: u64,
)
    requires
        cache_wf(m),
        !advert_blocked(m, o, now),
        cap > 0 || m.len() > 0,
        now2 < sat_add(
            now,
            match max_age_ms {
                Some(x) => x,
                None => advertised_ttl,
            },
        ),
    ensures
        spec_should_use_h3(
            spec_record_alt_svc(m, cap, advertised_ttl, o, port, max_age_ms, now),
            o,
            now2,
        ) == Some(port),
{
    let ttl = match max_age_ms {
        Some(x) => x,
        None => advertised_ttl,
    };
    lemma_insert_lookup(
        m,
        cap,
        o,
        OriginState::Advertised(AltSvcEntry { port, expires: sat_add(now, ttl) }),
    );
}

/// A hint primes a fresh origin: with no prior state and room in the
/// cache, lookups answer with the hinted port from then on.
pub proof fn lemma_hint_primes(
    m: CacheView,
    cap: u64,
    o: OriginView,
    port: u16,
    now: u64,
    now2: u64,
)
    requires
        cache_wf(m),
        lookup(m, o) is None,
        cap > 0,
        now2 < u64::MAX,
    ensures
        spec_should_use_h3(spec_add_hint(m, cap, o, port, now), o, now2) == Some(port),
{
    lemma_insert_lookup(m, cap, o, OriginState::Advertised(AltSvcEntry { port, expires: u64::MAX }));
}

/// Confirming an origin that was eligible for upgrade at port `p`
/// settles on that very port, consumes any advertisement, and keeps the
/// origin eligible while the confirmed entry lives.
pub proof fn lemma_confirm_consumes_advertisement(
    m: CacheView,
    cap: u64,
    confirmed_ttl: u64,
    o: OriginView,
    now: u64,
    p: u16,
)
    requires
        cache_wf(m),
        spec_should_use_h3(m, o, now) == Some(p),
    ensures
        lookup(spec_confirm_h3(m, cap, confirmed_ttl, o, now), o) == Some(
            OriginState::Confirmed(AltSvcEntry { port: p, expires: sat_add(now, confirmed_ttl) }),
        ),
        !(live_state(spec_confirm_h3(m, cap, confirmed_ttl, o, now), o, now) matches Some(
            OriginState::Advertised(_),
        )),
        now < sat_add(now, confirmed_ttl) ==> spec_should_use_h3(
            spec_confirm_h3(m, cap, confirmed_ttl, o, now),
            o,
            now,
        ) == Some(p),
{
    assert(confirm_port(m, o, now) == p);
    lemma_insert_lookup(
        m,
        cap,
        o,
        OriginState::Confirmed(AltSvcEntry { port: p, expires: sat_add(now, confirmed_ttl) }),
    );
}

/// Confirming an origin the cache holds nothing live for settles on
/// the origin's own port — the scheme default, for a URL that named
/// none.
pub proof fn lemma_confirm_fresh_uses_origin_port(
    m: CacheView,
    cap: u64,
    confirmed_ttl: u64,
    o: OriginView,
    now: u64,
)
    requires
        cache_wf(m),
        live_state(m, o, now) is None,
        cap > 0 || m.len() > 0,
    ensures
        lookup(spec_confirm_h3(m, cap, confirmed_ttl, o, now), o) == Some(
            OriginState::Confirmed(
                AltSvcEntry { port: o.port, expires: sat_add(now, confirmed_ttl) },
            ),
        ),
{
    lemma_insert_lookup(
        m,
        cap,
        o,
        OriginState::Confirmed(AltSvcEntry { port: o.port, expires: sat_add(now, confirmed_ttl) }),
    );
}

/// After a failure is recorded, the origin is never eligible for
/// upgrade — while the marker lives it vetoes, and afterwards the
/// origin is simply untracked — and previously-proven confirmed trust
/// is erased, until some later operation stores new state.
pub proof fn lemma_failure_vetoes(
    m: CacheView,
    cap: u64,
    failed_ttl: u64,
    o: OriginView,
    now: u64,
    now2: u64,
)
    requires
        cache_wf(m),
    ensures
        spec_should_use_h3(spec_record_h3_failure(m, cap, failed_ttl, o, now), o, now2) is None,
        !is_confirmed_live(spec_record_h3_failure(m, cap, failed_ttl, o, now), o, now2),
{
    if cap > 0 || m.len() > 0 {
        lemma_insert_lookup(m, cap, o, OriginState::Failed(sat_add(now, failed_ttl)));
    }
}

/// While the failure marker lives, recording an advertisement for the
/// origin is a no-op.
pub proof fn lemma_failure_blocks_advertisement(
    m: CacheView,
    cap: u64,
    failed_ttl: u64,
    advertised_ttl: u64,
    o: OriginView,
    port: u16,
    max_age_ms: Option<u64>,
    now: u64,
    now2: u64,
)
    requires
        cache_wf(m),
        cap > 0 || m.len() > 0,
        now2 < sat_add(now, failed_ttl),
    ensures
        spec_record_alt_svc(
            spec_record_h3_failure(m, cap, failed_ttl, o, now),
            cap,
            advertised_ttl,
            o,
            port,
            max_age_ms,
            now2,
        ) == spec_record_h3_failure(m, cap, failed_ttl, o, now),
{
    lemma_insert_lookup(m, cap, o, OriginState::Failed(sat_add(now, failed_ttl)));
}

// ==================================================================
// Middleware
// ==================================================================

/// The mathematical value of a [`RequestOutcome`].
pub enum RequestOutcomeView {
    Success { used_h3: bool, alt_svc: Option<Seq<char>> },
    Failure,
}

/// How one delegated exchange ended: a response, with the negotiated
/// transport and the advertisement header it carried, if any — or a
/// transport error.
#[derive(Debug)]
pub enum RequestOutcome {
    Success { used_h3: bool, alt_svc: Option<String> },
    Failure,
}

impl View for RequestOutcome {
    type V = RequestOutcomeView;

    open spec fn view(&self) -> RequestOutcomeView {
        match self {
            RequestOutcome::Success { used_h3, alt_svc } => RequestOutcomeView::Success {
                used_h3: *used_h3,
                alt_svc: match alt_svc {
                    Some(h) => Some(h@),
                    None => None,
                },
            },
            RequestOutcome::Failure => RequestOutcomeView::Failure,
        }
    }
}

/// How a request's outcome feeds back into the cache: a failed HTTP/3
/// attempt records the failure; a response negotiated over HTTP/3 after
/// such an attempt confirms the origin; and an advertisement header on
/// any response is parsed and recorded, its `ma` seconds carried over
/// as milliseconds. A request whose URL yields no origin touches
/// nothing.
pub open spec fn spec_note_outcome(
    m: CacheView,
    cap: u64,
    advertised_ttl: u64,
    confirmed_ttl: u64,
    failed_ttl: u64,
    origin: Option<OriginView>,
    tried_h3: bool,
    outcome: RequestOutcomeView,
    now: u64,
) -> CacheView {
    match origin {
        None => m,
        Some(o) => match outcome {
            RequestOutcomeView::Failure => if tried_h3 {
                spec_record_h3_failure(m, cap, failed_ttl, o, now)
            } else {
                m
            },
            RequestOutcomeView::Success { used_h3, alt_svc } => {
                let m1 = if tried_h3 && used_h3 {
                    spec_confirm_h3(m, cap, confirmed_ttl, o, now)
                } else {
                    m
                };
                match alt_svc {
                    None => m1,
                    Some(h) => match spec_parse_alt_svc(h) {
                        Some(pm) => spec_record_alt_svc(
                            m1,
                            cap,
                            advertised_ttl,
                            o,
                            pm.0,
                            (match pm.1 {
                                Some(secs) => Some(secs_to_ms(secs)),
                                None => None,
                            }),
                            now,
                        ),
                        None => m1,
                    },
                }
            },
        },
    }
}

/// The decisions around one request: consult the cache before sending,
/// feed the outcome back afterwards. Disabled, it neither reads nor
/// writes the cache.
#[derive(Debug)]
pub struct AltSvcMiddleware {
    cache: AltSvcCache,
    enabled: bool,
}

impl AltSvcMiddleware {
    /// The cache the middleware works on.
    pub closed spec fn spec_cache(&self) -> AltSvcCache {
        self.cache
    }

    /// Whether the middleware is switched on.
    pub closed spec fn spec_enabled(&self) -> bool {
        self.enabled
    }

    /// Builds the middleware around a cache.
    pub fn new(cache: AltSvcCache, enabled: bool) -> (r: AltSvcMiddleware)
        ensures
            r.spec_cache() == cache,
            r.spec_enabled() == enabled,
    {
        AltSvcMiddleware { cache, enabled }
    }

    /// The cache handle, for callers that prime or inspect it.
    pub fn cache(&self) -> (r: &AltSvcCache)
        ensures
            *r == self.spec_cache(),
    {
        &self.cache
    }

    /// Primes the cache for a host known to speak HTTP/3, without a
    /// prior request; like any advertisement, a hint respects the
    /// failure veto.
    pub fn add_hint(&mut self, host: &str, port: u16, now: u64)
        ensures
            final(self).spec_enabled() == old(self).spec_enabled(),
            final(self).spec_cache().same_config(&old(self).spec_cache()),
            final(self).spec_cache()@ == spec_add_hint(
                old(self).spec_cache()@,
                old(self).spec_cache().spec_capacity(),
                (OriginView { scheme: "https"@, host: host@, port }),
                port,
                now,
            ),
    {
        self.cache.add_hint(host, port, now);
    }

    /// Whether the outgoing request should be marked to prefer HTTP/3:
    /// only when the middleware is on, the URL yields an origin, and
    /// the cache answers with a port.
    pub fn plan_request(&self, origin: Option<&Origin>, now: u64) -> (r: bool)
        ensures
            r == (self.spec_enabled() && match origin {
                Some(o) => spec_should_use_h3(self.spec_cache()@, o@, now) is Some,
                None => false,
            }),
    {
        if !self.enabled {
            return false;
        }
        match origin {
            Some(o) => self.cache.should_use_h3(o, now).is_some(),
            None => false,
        }
    }

    /// Feeds one exchange's outcome back into the cache, as
    /// [`spec_note_outcome`] says; switched off, it touches nothing.
    pub fn note_outcome(
        &mut self,
        origin: Option<&Origin>,
        tried_h3: bool,
        outcome: &RequestOutcome,
        now: u64,
    )
        ensures
            final(self).spec_enabled() == old(self).spec_enabled(),
            final(self).spec_cache().same_config(&old(self).spec_cache()),
            final(self).spec_cache()@ == (if old(self).spec_enabled() {
                spec_note_outcome(
                    old(self).spec_cache()@,
                    old(self).spec_cache().spec_capacity(),
                    old(self).spec_cache().spec_advertised_ttl(),
                    old(self).spec_cache().spec_confirmed_ttl(),
                    old(self).spec_cache().spec_failed_ttl(),
                    (match origin {
                        Some(o) => Some(o@),
                        None => None,
                    }),
                    tried_h3,
                    outcome@,
                    now,
                )
            } else {
                old(self).spec_cache()@
            }),
    {
        if !self.enabled {
            return;
        }
        let o = match origin {
            Some(o) => o,
            None => {
                return;
            },
        };
        match outcome {
            RequestOutcome::Failure => {
                if tried_h3 {
                    self.cache.record_h3_failure(o, now);
                }
            },
            RequestOutcome::Success { used_h3, alt_svc } => {
                if tried_h3 && *used_h3 {
                    self.cache.confirm_h3(o, now);
                }
                match alt_svc {
                    Some(h) => {
                        match parse_alt_svc_header(h.as_str()) {
                            Some(pm) => {
                                let ma_ms = match pm.1 {
                                    Some(secs) => Some(secs_to_ms_exec(secs)),
                                    None => None,
                                };
                                self.cache.record_alt_svc(o, pm.0, ma_ms, now);
                            },
                            None => {},
                        }
                    },
                    None => {},
                }
            },
        }
    }
}

/// Seconds to milliseconds; the exec twin of [`secs_to_ms`].
fn secs_to_ms_exec(s: u64) -> (r: u64)
    ensures
        r == secs_to_ms(s),
{
    if s <= u64::MAX / 1000 {
        s * 1000
    } else {
        u64::MAX
    }
}

} // verus!
