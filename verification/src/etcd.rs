//! The etcd connection settings and the decisions of the etcd watcher:
//! which endpoints are acceptable, where PEM material comes from, when to
//! resume, resync or back off, and which subscribers an event reaches.
use vstd::prelude::*;

use crate::text::{concat, has_prefix, starts_with, str_eq, to_owned_string};

verus! {

/// Why an etcd connection configuration is refused.
#[derive(Debug)]
pub enum EtcdConfigError {
    /// No host is given.
    MissingHost,
    /// Some hosts use `http://` and others `https://`.
    MixedSchemes,
    /// The host has neither the `http://` nor the `https://` prefix.
    MissingScheme(String),
}

/// The message of a refusal.
pub open spec fn etcd_error_message(e: EtcdConfigError) -> Seq<char> {
    match e {
        EtcdConfigError::MissingHost => "etcd host list is empty"@,
        EtcdConfigError::MixedSchemes => "etcd hosts must use a single scheme (all http:// or all https://)"@,
        EtcdConfigError::MissingScheme(h) => "etcd host '"@ + h@
            + "' is missing a scheme; use the prefix http:// or https://"@,
    }
}

impl EtcdConfigError {
    /// The message of this refusal.
    pub fn message(&self) -> (r: String)
        ensures
            r@ == etcd_error_message(*self),
    {
        match self {
            EtcdConfigError::MissingHost => to_owned_string("etcd host list is empty"),
            EtcdConfigError::MixedSchemes => to_owned_string(
                "etcd hosts must use a single scheme (all http:// or all https://)",
            ),
            EtcdConfigError::MissingScheme(h) => {
                let head = concat("etcd host '", h.as_str());
                concat(head.as_str(), "' is missing a scheme; use the prefix http:// or https://")
            },
        }
    }
}

/// TLS settings for etcd, with the PEM texts already gathered: the CA
/// chain, the client certificate chain and its key, and whether
/// verification is skipped.
pub struct EtcdTlsConfig {
    pub ca_cert: Option<String>,
    pub client_cert: Option<EtcdMtlsConfig>,
    pub insecure_skip_verify: bool,
}

/// A client certificate chain and its private key, as PEM texts.
pub struct EtcdMtlsConfig {
    pub cert: String,
    pub key: String,
}

impl EtcdTlsConfig {
    /// No CA, no client certificate, verification on.
    pub fn new() -> (r: Self)
        ensures
            r.ca_cert is None,
            r.client_cert is None,
            !r.insecure_skip_verify,
    {
        EtcdTlsConfig { ca_cert: None, client_cert: None, insecure_skip_verify: false }
    }
}

/// The etcd connection settings.
pub struct Config {
    pub host: Vec<String>,
    pub prefix: String,
    pub timeout: u32,
    pub user: Option<String>,
    pub password: Option<String>,
    pub tls: Option<EtcdTlsConfig>,
}

impl Config {
    /// A local etcd at `http://127.0.0.1:2379` under `/aisix`, with a five
    /// second timeout, no credentials and no TLS.
    pub fn new() -> (r: Self)
        ensures
            r.host@.len() == 1,
            r.host@[0]@ == "http://127.0.0.1:2379"@,
            r.prefix@ == "/aisix"@,
            r.timeout == 5,
            r.user is None,
            r.password is None,
            r.tls is None,
    {
        Config {
            host: vec![to_owned_string("http://127.0.0.1:2379")],
            prefix: to_owned_string("/aisix"),
            timeout: 5,
            user: None,
            password: None,
            tls: None,
        }
    }
}

/// Whether a host names the `http://` scheme.
pub open spec fn is_http(h: Seq<char>) -> bool {
    has_prefix(h, "http://"@)
}

/// Whether a host names the `https://` scheme.
pub open spec fn is_https(h: Seq<char>) -> bool {
    has_prefix(h, "https://"@)
}

/// Whether some host uses `http://` and some `https://`.
pub open spec fn mixed_schemes(hosts: Seq<Seq<char>>) -> bool {
    (exists|i: int| 0 <= i < hosts.len() && is_http(#[trigger] hosts[i])) && (exists|j: int|
        0 <= j < hosts.len() && is_https(#[trigger] hosts[j]))
}

/// Whether a host has a scheme.
pub open spec fn has_scheme(h: Seq<char>) -> bool {
    is_http(h) || is_https(h)
}

/// Whether index `i` holds the first host without a scheme.
pub open spec fn first_schemeless(hosts: Seq<Seq<char>>, i: int) -> bool {
    &&& 0 <= i < hosts.len()
    &&& !has_scheme(hosts[i])
    &&& forall|j: int| 0 <= j < i ==> has_scheme(#[trigger] hosts[j])
}

/// The hosts as character sequences.
pub open spec fn hosts_view(hosts: Seq<String>) -> Seq<Seq<char>> {
    hosts.map_values(|h: String| h@)
}

/// The verdict on a host list: refused when empty, when it mixes schemes,
/// and at its first host without a scheme; accepted otherwise.
pub open spec fn connect_verdict(hosts: Seq<Seq<char>>, r: Result<(), EtcdConfigError>) -> bool {
    if hosts.len() == 0 {
        r matches Err(EtcdConfigError::MissingHost)
    } else if mixed_schemes(hosts) {
        r matches Err(EtcdConfigError::MixedSchemes)
    } else if forall|i: int| 0 <= i < hosts.len() ==> has_scheme(#[trigger] hosts[i]) {
        r is Ok
    } else {
        r matches Err(EtcdConfigError::MissingScheme(h)) && exists|i: int|
            first_schemeless(hosts, i) && h@ == #[trigger] hosts[i]
    }
}

/// Checks the connection configuration before any I/O is attempted.
pub fn validate_connect_config(config: &Config) -> (r: Result<(), EtcdConfigError>)
    ensures
        connect_verdict(hosts_view(config.host@), r),
{
    let ghost hs = hosts_view(config.host@);
    let n = config.host.len();
    if n == 0 {
        return Err(EtcdConfigError::MissingHost);
    }
    let mut has_https = false;
    let mut has_http = false;
    let mut i: usize = 0;
    while i < n
        invariant
            0 <= i <= n,
            n == config.host@.len(),
            hs == hosts_view(config.host@),
            has_http <==> exists|j: int| 0 <= j < i && is_http(#[trigger] hs[j]),
            has_https <==> exists|j: int| 0 <= j < i && is_https(#[trigger] hs[j]),
        decreases n - i,
    {
        assert(hs[i as int] == config.host@[i as int]@);
        if starts_with(config.host[i].as_str(), "https://") {
            has_https = true;
        }
        if starts_with(config.host[i].as_str(), "http://") {
            has_http = true;
        }
        i += 1;
    }
    if has_http && has_https {
        return Err(EtcdConfigError::MixedSchemes);
    }
    let mut k: usize = 0;
    while k < n
        invariant
            0 <= k <= n,
            n == config.host@.len(),
            hs == hosts_view(config.host@),
            !mixed_schemes(hs),
            forall|j: int| 0 <= j < k ==> has_scheme(#[trigger] hs[j]),
        decreases n - k,
    {
        assert(hs[k as int] == config.host@[k as int]@);
        let h = config.host[k].as_str();
        if !starts_with(h, "http://") && !starts_with(h, "https://") {
            let bad = to_owned_string(h);
            proof {
                assert(first_schemeless(hs, k as int));
                assert(!(forall|j: int| 0 <= j < hs.len() ==> has_scheme(#[trigger] hs[j])));
            }
            return Err(EtcdConfigError::MissingScheme(bad));
        }
        k += 1;
    }
    Ok(())
}

/// Where a PEM text comes from.
pub enum PemSource {
    /// Given inline.
    Inline(String),
    /// To be read from this file.
    File(String),
    /// Not given.
    Missing,
}

/// The refusal of a PEM given both inline and as a file.
pub open spec fn both_pem_message(label: Seq<char>) -> Seq<char> {
    "both "@ + label + " and "@ + label + "_file are set; only one must be provided"@
}

/// Where the PEM labelled `label` comes from: the inline text or the file,
/// refused where both are given.
pub fn pem_source(label: &str, pem: &Option<String>, pem_file: &Option<String>) -> (r: Result<PemSource, String>)
    ensures
        match (pem, pem_file) {
            (Some(_), Some(_)) => r matches Err(m) && m@ == both_pem_message(label@),
            (Some(p), None) => r matches Ok(PemSource::Inline(t)) && t@ == p@,
            (None, Some(f)) => r matches Ok(PemSource::File(t)) && t@ == f@,
            (None, None) => r matches Ok(PemSource::Missing),
        },
{
    match (pem, pem_file) {
        (Some(_), Some(_)) => {
            let a = concat("both ", label);
            let b = concat(a.as_str(), " and ");
            let c = concat(b.as_str(), label);
            Err(concat(c.as_str(), "_file are set; only one must be provided"))
        },
        (Some(p), None) => Ok(PemSource::Inline(to_owned_string(p.as_str()))),
        (None, Some(f)) => Ok(PemSource::File(to_owned_string(f.as_str()))),
        (None, None) => Ok(PemSource::Missing),
    }
}

/// The refusal of a client certificate without its key, or the reverse.
pub open spec fn unpaired_cert_message() -> Seq<char> {
    "cert and key must both be provided"@
}

/// The TLS settings from the gathered PEM texts: a client certificate
/// needs its key and the key its certificate.
pub fn tls_config_from_pems(
    ca: Option<String>,
    cert: Option<String>,
    key: Option<String>,
    insecure_skip_verify: Option<bool>,
) -> (r: Result<EtcdTlsConfig, String>)
    ensures
        (cert is Some) != (key is Some) <==> r is Err,
        r matches Err(m) ==> m@ == unpaired_cert_message(),
        r matches Ok(t) ==> {
            &&& t.ca_cert == ca
            &&& t.insecure_skip_verify == (insecure_skip_verify == Some(true))
            &&& (t.client_cert is Some) == (cert is Some)
            &&& t.client_cert matches Some(c) ==> (cert == Some(c.cert) && key == Some(c.key))
        },
{
    let client_cert = match (cert, key) {
        (Some(c), Some(k)) => Some(EtcdMtlsConfig { cert: c, key: k }),
        (None, None) => None,
        _ => {
            return Err(to_owned_string("cert and key must both be provided"));
        },
    };
    let insecure = match insecure_skip_verify {
        Some(b) => b,
        None => false,
    };
    Ok(EtcdTlsConfig { ca_cert: ca, client_cert, insecure_skip_verify: insecure })
}

/// Whether TLS is to be used: some host is `https://`.
pub fn uses_tls(config: &Config) -> (r: bool)
    ensures
        r == exists|i: int| 0 <= i < config.host@.len() && is_https(#[trigger] hosts_view(config.host@)[i]),
{
    let ghost hs = hosts_view(config.host@);
    let mut i: usize = 0;
    while i < config.host.len()
        invariant
            0 <= i <= config.host@.len(),
            hs == hosts_view(config.host@),
            forall|j: int| 0 <= j < i ==> !is_https(#[trigger] hs[j]),
        decreases config.host.len() - i,
    {
        assert(hs[i as int] == config.host@[i as int]@);
        if starts_with(config.host[i].as_str(), "https://") {
            return true;
        }
        i += 1;
    }
    false
}

/// The longest wait between reconnect attempts, in seconds.
pub const MAX_BACKOFF_SECS: u64 = 60;

/// The first wait between reconnect attempts, in seconds.
pub const INITIAL_BACKOFF_SECS: u64 = 1;

/// The state of the watch supervisor: the revision the next watch resumes
/// from (0 for the newest), the current wait before reconnecting, and the
/// number of attempts since the last stream opened.
#[derive(Debug)]
pub struct WatchSupervisor {
    pub start_revision: i64,
    pub backoff_secs: u64,
    pub attempt: u32,
}

/// The wait after `b`: doubled, at most the maximum.
pub open spec fn next_backoff(b: u64) -> u64 {
    if 2 * b > MAX_BACKOFF_SECS {
        MAX_BACKOFF_SECS
    } else {
        (2 * b) as u64
    }
}

/// What the watch supervisor goes through.
pub ghost enum WatchEventV {
    /// A stream opened.
    Opened,
    /// A stream could not be opened, or it ended.
    Lost,
    /// The watch was canceled, with this compaction revision.
    Canceled(i64),
    /// An event at this revision was dispatched.
    Dispatched(i64),
}

/// The revision the next watch resumes from after `e`, from `start`.
pub open spec fn start_after(start: i64, e: WatchEventV) -> i64 {
    match e {
        WatchEventV::Dispatched(r) => (r + 1) as i64,
        WatchEventV::Canceled(c) => if c > 0 {
            0
        } else {
            start
        },
        _ => start,
    }
}

/// The revision the next watch resumes from after the events `evs`, in
/// order.
pub open spec fn start_after_all(start: i64, evs: Seq<WatchEventV>) -> i64
    decreases evs.len(),
{
    if evs.len() == 0 {
        start
    } else {
        start_after(start_after_all(start, evs.drop_last()), evs.last())
    }
}

/// Whether an event decides where the watch resumes: a dispatched event,
/// or a cancel for a compaction.
pub open spec fn decisive(e: WatchEventV) -> bool {
    e is Dispatched || (e matches WatchEventV::Canceled(c) && c > 0)
}

/// Where a watch resumes after any run of events: after the last event
/// dispatched, unless a compaction cancel came later, which resumes from
/// the newest revision; reconnects and cancels without compaction change
/// nothing, so with no deciding event it resumes where it was.
pub proof fn law_watch_resume_point(start: i64, evs: Seq<WatchEventV>)
    ensures
        forall|k: int|
            0 <= k < evs.len() && decisive(#[trigger] evs[k]) && (forall|j: int|
                k < j < evs.len() ==> !decisive(#[trigger] evs[j])) ==> start_after_all(start, evs) == start_after(
                start,
                evs[k],
            ),
        (forall|j: int| 0 <= j < evs.len() ==> !decisive(#[trigger] evs[j])) ==> start_after_all(start, evs)
            == start,
    decreases evs.len(),
{
    if evs.len() > 0 {
        let t = evs.drop_last();
        law_watch_resume_point(start, t);
        assert forall|k: int|
            0 <= k < evs.len() && decisive(#[trigger] evs[k]) && (forall|j: int|
                k < j < evs.len() ==> !decisive(#[trigger] evs[j])) implies start_after_all(start, evs)
            == start_after(start, evs[k]) by {
            if k < evs.len() - 1 {
                assert(t[k] == evs[k]);
                assert(!decisive(evs[evs.len() - 1]));
                assert forall|j: int| k < j < t.len() implies !decisive(#[trigger] t[j]) by {
                    assert(t[j] == evs[j]);
                }
            }
        }
        if forall|j: int| 0 <= j < evs.len() ==> !decisive(#[trigger] evs[j]) {
            assert forall|j: int| 0 <= j < t.len() implies !decisive(#[trigger] t[j]) by {
                assert(t[j] == evs[j]);
            }
            assert(!decisive(evs[evs.len() - 1]));
        }
    }
}

impl WatchSupervisor {
    /// Whether the wait is within its bounds.
    pub open spec fn wf(&self) -> bool {
        INITIAL_BACKOFF_SECS <= self.backoff_secs <= MAX_BACKOFF_SECS && self.start_revision >= 0
    }

    /// A supervisor that has not connected yet: watching from the newest
    /// revision, with the first wait.
    pub fn new() -> (r: Self)
        ensures
            r.start_revision == 0,
            r.backoff_secs == INITIAL_BACKOFF_SECS,
            r.attempt == 0,
            r.wf(),
    {
        WatchSupervisor { start_revision: 0, backoff_secs: INITIAL_BACKOFF_SECS, attempt: 0 }
    }

    /// The revision the next watch resumes from; none means the newest.
    pub fn watch_start(&self) -> (r: Option<i64>)
        ensures
            r == if self.start_revision > 0 {
                Some(self.start_revision)
            } else {
                None
            },
    {
        if self.start_revision > 0 {
            Some(self.start_revision)
        } else {
            None
        }
    }

    /// A stream opened: attempts and wait start over.
    pub fn on_stream_opened(&mut self)
        ensures
            final(self).attempt == 0,
            final(self).backoff_secs == INITIAL_BACKOFF_SECS,
            final(self).start_revision == old(self).start_revision,
            final(self).start_revision == start_after(old(self).start_revision, WatchEventV::Opened),
    {
        self.attempt = 0;
        self.backoff_secs = INITIAL_BACKOFF_SECS;
    }

    /// A stream could not be opened, or it ended: one more attempt, and the
    /// wait before the next one is returned, doubled for the time after.
    pub fn on_stream_lost(&mut self) -> (delay: u64)
        requires
            old(self).wf(),
        ensures
            delay == old(self).backoff_secs,
            final(self).backoff_secs == next_backoff(old(self).backoff_secs),
            final(self).attempt == if old(self).attempt < u32::MAX {
                (old(self).attempt + 1) as u32
            } else {
                u32::MAX
            },
            final(self).start_revision == old(self).start_revision,
            final(self).start_revision == start_after(old(self).start_revision, WatchEventV::Lost),
            final(self).wf(),
    {
        let delay = self.backoff_secs;
        self.attempt = self.attempt.saturating_add(1);
        let doubled = self.backoff_secs * 2;
        self.backoff_secs = if doubled > MAX_BACKOFF_SECS {
            MAX_BACKOFF_SECS
        } else {
            doubled
        };
        delay
    }

    /// The watch was canceled; a compaction past the resume point asks for a
    /// full resync, after which the next watch starts from the newest.
    pub fn on_canceled(&mut self, compact_revision: i64) -> (resync: bool)
        requires
            old(self).wf(),
        ensures
            resync == (compact_revision > 0),
            final(self).start_revision == if resync {
                0
            } else {
                old(self).start_revision
            },
            final(self).backoff_secs == old(self).backoff_secs,
            final(self).attempt == old(self).attempt,
            final(self).start_revision == start_after(old(self).start_revision, WatchEventV::Canceled(compact_revision)),
            final(self).wf(),
    {
        if compact_revision > 0 {
            self.start_revision = 0;
            true
        } else {
            false
        }
    }

    /// An event at `mod_revision` was dispatched: the next watch resumes
    /// after it.
    pub fn on_dispatched(&mut self, mod_revision: i64)
        requires
            old(self).wf(),
            0 <= mod_revision < i64::MAX,
        ensures
            final(self).start_revision == mod_revision + 1,
            final(self).start_revision == start_after(old(self).start_revision, WatchEventV::Dispatched(mod_revision)),
            final(self).backoff_secs == old(self).backoff_secs,
            final(self).attempt == old(self).attempt,
            final(self).wf(),
    {
        self.start_revision = mod_revision + 1;
    }
}

/// The prefixes being watched, each by one subscriber.
#[derive(Debug)]
pub struct WatchSubscriptions {
    prefixes: Vec<String>,
}

impl View for WatchSubscriptions {
    type V = Seq<Seq<char>>;

    closed spec fn view(&self) -> Seq<Seq<char>> {
        hosts_view(self.prefixes@)
    }
}

/// The refusal of a second subscriber for a prefix.
pub open spec fn already_watched_message() -> Seq<char> {
    "Prefix has been watched"@
}

/// The full watch prefix: the store prefix followed by the requested one.
pub fn full_prefix(store_prefix: &str, prefix: Option<&str>) -> (r: String)
    ensures
        r@ == store_prefix@ + match prefix {
            Some(p) => p@,
            None => Seq::empty(),
        },
{
    match prefix {
        Some(p) => concat(store_prefix, p),
        None => {
            let r = to_owned_string(store_prefix);
            proof {
                assert(store_prefix@ + Seq::<char>::empty() =~= store_prefix@);
            }
            r
        },
    }
}

impl WatchSubscriptions {
    /// No prefix watched.
    pub fn new() -> (r: Self)
        ensures
            r@ == Seq::<Seq<char>>::empty(),
    {
        let r = WatchSubscriptions { prefixes: Vec::new() };
        proof {
            assert(r@ =~= Seq::<Seq<char>>::empty());
        }
        r
    }

    /// The number of prefixes watched.
    pub fn len(&self) -> (r: usize)
        ensures
            r == self@.len(),
    {
        self.prefixes.len()
    }

    /// Watches a prefix, refusing one already watched.
    pub fn subscribe(&mut self, prefix: String) -> (r: Result<usize, String>)
        ensures
            r is Err <==> old(self)@.contains(prefix@),
            r matches Err(m) ==> m@ == already_watched_message() && final(self)@ == old(self)@,
            r matches Ok(i) ==> i == old(self)@.len() && final(self)@ == old(self)@.push(prefix@),
    {
        let ghost before = self@;
        let mut i: usize = 0;
        while i < self.prefixes.len()
            invariant
                0 <= i <= self.prefixes@.len(),
                before == self@,
                before == hosts_view(self.prefixes@),
                forall|j: int| 0 <= j < i ==> (#[trigger] before[j]) != prefix@,
            decreases self.prefixes.len() - i,
        {
            if str_eq(self.prefixes[i].as_str(), prefix.as_str()) {
                proof {
                    assert(before[i as int] == prefix@);
                }
                return Err(to_owned_string("Prefix has been watched"));
            }
            i += 1;
        }
        let n = self.prefixes.len();
        self.prefixes.push(prefix);
        proof {
            assert(self@ =~= before.push(prefix@));
        }
        Ok(n)
    }

    /// The subscribers an event for `key` goes to: those whose prefix the
    /// key starts with, in order of subscription.
    pub fn targets(&self, key: &str) -> (r: Vec<usize>)
        ensures
            forall|j: int| 0 <= j < r@.len() ==> (#[trigger] r@[j]) < self@.len() && has_prefix(key@, self@[r@[j] as int]),
            forall|i: int|
                0 <= i < self@.len() && has_prefix(key@, #[trigger] self@[i]) ==> r@.contains(i as usize),
            forall|a: int, b: int| 0 <= a < b < r@.len() ==> r@[a] < r@[b],
    {
        let ghost subs = self@;
        let mut out: Vec<usize> = Vec::new();
        let mut i: usize = 0;
        while i < self.prefixes.len()
            invariant
                0 <= i <= self.prefixes@.len(),
                subs == self@,
                subs == hosts_view(self.prefixes@),
                forall|j: int| 0 <= j < out@.len() ==> (#[trigger] out@[j]) < i && has_prefix(key@, subs[out@[j] as int]),
                forall|k: int| 0 <= k < i && has_prefix(key@, #[trigger] subs[k]) ==> out@.contains(k as usize),
                forall|a: int, b: int| 0 <= a < b < out@.len() ==> out@[a] < out@[b],
            decreases self.prefixes.len() - i,
        {
            assert(subs[i as int] == self.prefixes@[i as int]@);
            if starts_with(key, self.prefixes[i].as_str()) {
                let ghost before = out@;
                out.push(i);
                proof {
                    assert forall|k: int| 0 <= k < i + 1 && has_prefix(key@, #[trigger] subs[k]) implies out@.contains(
                        k as usize,
                    ) by {
                        if k < i {
                            let w = choose|w: int| 0 <= w < before.len() && before[w] == k as usize;
                            assert(out@[w] == k as usize);
                        } else {
                            assert(out@[before.len() as int] == i);
                        }
                    }
                }
            }
            i += 1;
        }
        out
    }
}

/// The wait never leaves its bounds, whatever the supervisor goes through.
pub proof fn law_backoff_bounded(b: u64)
    requires
        INITIAL_BACKOFF_SECS <= b <= MAX_BACKOFF_SECS,
    ensures
        INITIAL_BACKOFF_SECS <= next_backoff(b) <= MAX_BACKOFF_SECS,
        b < MAX_BACKOFF_SECS / 2 ==> next_backoff(b) == 2 * b,
        b >= MAX_BACKOFF_SECS / 2 ==> next_backoff(b) == MAX_BACKOFF_SECS,
{
}

/// How to connect to etcd: the timeout in seconds, the user and password
/// where both are set, whether TLS is used, and whether TLS verification
/// is skipped.
pub struct ConnectPlan {
    pub timeout_secs: u64,
    pub credentials: Option<(String, String)>,
    pub use_tls: bool,
    pub skip_verify: bool,
}

/// The connection plan of a configuration: credentials only where both
/// user and password are set, TLS where some host is `https://`, and
/// verification skipped only under TLS with `insecure_skip_verify`.
pub fn connect_plan(config: &Config) -> (r: ConnectPlan)
    ensures
        r.timeout_secs == config.timeout,
        r.credentials is Some <==> (config.user is Some && config.password is Some),
        r.credentials matches Some((u, p)) ==> config.user == Some(u) && config.password == Some(p),
        r.use_tls == exists|i: int| 0 <= i < config.host@.len() && is_https(#[trigger] hosts_view(config.host@)[i]),
        r.skip_verify == (r.use_tls && (config.tls matches Some(t) && t.insecure_skip_verify)),
{
    let credentials = match (&config.user, &config.password) {
        (Some(u), Some(p)) => Some((u.clone(), p.clone())),
        _ => None,
    };
    let use_tls = uses_tls(config);
    let skip_verify = use_tls && match &config.tls {
        Some(t) => t.insecure_skip_verify,
        None => false,
    };
    ConnectPlan { timeout_secs: config.timeout as u64, credentials, use_tls, skip_verify }
}

} // verus!
