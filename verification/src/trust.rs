//! Non-secret SSH host-trust records.

use vstd::prelude::*;
use crate::paths::{lex_less, text_less};
use crate::text::{owned, text_equals};

verus! {

/// Trust-record format version written by this library.
pub const TRUST_VERSION: u32 = 1;

/// One application-scoped trusted SSH host fingerprint.
#[derive(Debug, PartialEq, Eq)]
pub struct TrustedHost {
    /// Hostname or address.
    pub host: String,
    /// TCP port.
    pub port: u16,
    /// Host-key fingerprint text supplied by the SSH layer.
    pub fingerprint: String,
}

/// Mathematical value of a trust record.
pub struct HostView {
    /// Host.
    pub host: Seq<char>,
    /// Port.
    pub port: u16,
    /// Fingerprint.
    pub fingerprint: Seq<char>,
}

impl View for TrustedHost {
    type V = HostView;

    open spec fn view(&self) -> HostView {
        HostView { host: self.host@, port: self.port, fingerprint: self.fingerprint@ }
    }
}

impl Clone for TrustedHost {
    fn clone(&self) -> (r: Self)
        ensures
            r@ == self@,
    {
        TrustedHost { host: self.host.clone(), port: self.port, fingerprint: self.fingerprint.clone() }
    }
}

/// Values of trust records.
pub open spec fn hosts_view(v: Seq<TrustedHost>) -> Seq<HostView> {
    v.map_values(|h: TrustedHost| h@)
}

/// Index of the first record of a host and port, or -1.
pub open spec fn first_for(s: Seq<HostView>, host: Seq<char>, port: u16) -> int
    decreases s.len(),
{
    if s.len() == 0 {
        -1
    } else if s[0].host == host && s[0].port == port {
        0
    } else {
        let rest = first_for(s.drop_first(), host, port);
        if rest < 0 { -1 } else { rest + 1 }
    }
}

/// Order of records: by host text, then by port.
pub open spec fn host_precedes(a: HostView, b: HostView) -> bool {
    lex_less(a.host, b.host) || (a.host == b.host && a.port < b.port)
}

/// Where a stable sort places `x`: before the first record it precedes.
pub open spec fn host_insertion_point(s: Seq<HostView>, x: HostView) -> int
    decreases s.len(),
{
    if s.len() == 0 {
        0
    } else if host_precedes(x, s[0]) {
        0
    } else {
        1 + host_insertion_point(s.drop_first(), x)
    }
}

/// Stable sort of records by host and port.
pub open spec fn sorted_by_host(s: Seq<HostView>) -> Seq<HostView>
    decreases s.len(),
{
    if s.len() == 0 {
        s
    } else {
        let rest = sorted_by_host(s.drop_last());
        rest.insert(host_insertion_point(rest, s.last()), s.last())
    }
}

/// Records after trusting a fingerprint for a host and port.
pub open spec fn trusted(s: Seq<HostView>, host: Seq<char>, port: u16, fingerprint: Seq<char>) -> Seq<HostView> {
    let i = first_for(s, host, port);
    sorted_by_host(
        if i >= 0 {
            s.update(i, HostView { fingerprint, ..s[i] })
        } else {
            s.push(HostView { host, port, fingerprint })
        },
    )
}

/// Versioned host-trust collection.
#[derive(Debug, PartialEq, Eq)]
pub struct TrustedHosts {
    /// On-disk format version.
    pub version: u32,
    /// Trusted host entries.
    pub hosts: Vec<TrustedHost>,
}

impl Default for TrustedHosts {
    fn default() -> (r: Self)
        ensures
            r.version == TRUST_VERSION,
            r.hosts@.len() == 0,
    {
        TrustedHosts { version: TRUST_VERSION, hosts: Vec::new() }
    }
}

fn find_host(hosts: &Vec<TrustedHost>, host: &str, port: u16) -> (r: Option<usize>)
    ensures
        r is None ==> first_for(hosts_view(hosts@), host@, port) == -1,
        r matches Some(i) ==> i < hosts@.len() && first_for(hosts_view(hosts@), host@, port) == i,
{
    let ghost s = hosts_view(hosts@);
    let mut i: usize = 0;
    assert(s.subrange(0, s.len() as int) =~= s);
    while i < hosts.len()
        invariant
            s == hosts_view(hosts@),
            i <= hosts@.len(),
            first_for(s, host@, port) == (if first_for(s.subrange(i as int, s.len() as int), host@, port) < 0 {
                -1
            } else {
                first_for(s.subrange(i as int, s.len() as int), host@, port) + i
            }),
        decreases hosts@.len() - i,
    {
        proof {
            let rest = s.subrange(i as int, s.len() as int);
            assert(rest.drop_first() =~= s.subrange(i + 1, s.len() as int));
            assert(rest[0] == s[i as int]);
        }
        if text_equals(hosts[i].host.as_str(), host) && hosts[i].port == port {
            return Some(i);
        }
        i = i + 1;
    }
    None
}

fn precedes_host(a: &TrustedHost, b: &TrustedHost) -> (r: bool)
    ensures
        r == host_precedes(a@, b@),
{
    text_less(a.host.as_str(), b.host.as_str()) || (text_equals(a.host.as_str(), b.host.as_str())
        && a.port < b.port)
}

fn host_insertion(out: &Vec<TrustedHost>, x: &TrustedHost) -> (r: usize)
    ensures
        r <= out@.len(),
        r == host_insertion_point(hosts_view(out@), x@),
{
    let ghost s = hosts_view(out@);
    let mut j: usize = 0;
    assert(s.subrange(0, s.len() as int) =~= s);
    while j < out.len() && !precedes_host(x, &out[j])
        invariant
            s == hosts_view(out@),
            j <= out@.len(),
            host_insertion_point(s, x@) == j + host_insertion_point(s.subrange(j as int, s.len() as int), x@),
        decreases out@.len() - j,
    {
        proof {
            let rest = s.subrange(j as int, s.len() as int);
            assert(rest.drop_first() =~= s.subrange(j + 1, s.len() as int));
            assert(rest[0] == s[j as int]);
        }
        j = j + 1;
    }
    proof {
        if j < s.len() {
            let rest = s.subrange(j as int, s.len() as int);
            assert(rest[0] == s[j as int]);
        }
    }
    j
}

fn sort_by_host(v: &Vec<TrustedHost>) -> (r: Vec<TrustedHost>)
    ensures
        hosts_view(r@) == sorted_by_host(hosts_view(v@)),
{
    let ghost s = hosts_view(v@);
    let mut out: Vec<TrustedHost> = Vec::new();
    let mut i: usize = 0;
    while i < v.len()
        invariant
            s == hosts_view(v@),
            i <= v@.len(),
            hosts_view(out@) == sorted_by_host(s.subrange(0, i as int)),
        decreases v@.len() - i,
    {
        let ghost before = hosts_view(out@);
        let p = host_insertion(&out, &v[i]);
        let x = v[i].clone();
        out.insert(p, x);
        proof {
            let sub = s.subrange(0, i + 1);
            assert(sub.drop_last() =~= s.subrange(0, i as int));
            assert(sub.last() == s[i as int]);
            assert(hosts_view(out@) =~= before.insert(p as int, s[i as int]));
        }
        i = i + 1;
    }
    assert(s.subrange(0, v@.len() as int) =~= s);
    out
}

impl TrustedHosts {
    /// Values of the records.
    pub open spec fn spec_hosts(&self) -> Seq<HostView> {
        hosts_view(self.hosts@)
    }

    /// Returns the stored fingerprint for a host and port.
    pub fn fingerprint(&self, host: &str, port: u16) -> (r: Option<&str>)
        ensures
            r is None <==> first_for(self.spec_hosts(), host@, port) < 0,
            r matches Some(f) ==> first_for(self.spec_hosts(), host@, port) >= 0 && f@
                == self.spec_hosts()[first_for(self.spec_hosts(), host@, port)].fingerprint,
    {
        match find_host(&self.hosts, host, port) {
            Some(i) => Some(self.hosts[i].fingerprint.as_str()),
            None => None,
        }
    }

    /// Inserts or replaces one trusted host, keeping records ordered by host and port.
    pub fn trust(&mut self, host: &str, port: u16, fingerprint: &str)
        ensures
            final(self).version == old(self).version,
            final(self).spec_hosts() == trusted(old(self).spec_hosts(), host@, port, fingerprint@),
    {
        let ghost s = self.spec_hosts();
        let mut hosts = Vec::new();
        std::mem::swap(&mut hosts, &mut self.hosts);
        match find_host(&hosts, host, port) {
            Some(i) => {
                let record = TrustedHost {
                    host: hosts[i].host.clone(),
                    port: hosts[i].port,
                    fingerprint: owned(fingerprint),
                };
                hosts.set(i, record);
                assert(hosts_view(hosts@) =~= s.update(i as int, HostView { fingerprint: fingerprint@, ..s[i as int] }));
            },
            None => {
                hosts.push(TrustedHost { host: owned(host), port, fingerprint: owned(fingerprint) });
                assert(hosts_view(hosts@) =~= s.push(HostView { host: host@, port, fingerprint: fingerprint@ }));
            },
        }
        self.hosts = sort_by_host(&hosts);
    }
}

/// What the first-match search finds.
pub proof fn lemma_first_for(s: Seq<HostView>, host: Seq<char>, port: u16)
    ensures
        first_for(s, host, port) == -1 <==> (forall|k: int| 0 <= k < s.len() ==> !(s[k].host == host && s[k].port == port)),
        first_for(s, host, port) >= 0 ==> first_for(s, host, port) < s.len() && s[first_for(s, host, port)].host
            == host && s[first_for(s, host, port)].port == port,
        first_for(s, host, port) >= -1,
    decreases s.len(),
{
    if s.len() > 0 && !(s[0].host == host && s[0].port == port) {
        let rest = s.drop_first();
        lemma_first_for(rest, host, port);
        if first_for(rest, host, port) == -1 {
            assert forall|k: int| 0 <= k < s.len() implies !(s[k].host == host && s[k].port == port) by {
                if k > 0 {
                    assert(s[k] == rest[k - 1]);
                }
            }
        } else {
            assert(s[first_for(s, host, port)] == rest[first_for(rest, host, port)]);
        }
    }
}

proof fn lemma_host_insertion_in_range(s: Seq<HostView>, x: HostView)
    ensures
        0 <= host_insertion_point(s, x) <= s.len(),
    decreases s.len(),
{
    if s.len() > 0 {
        lemma_host_insertion_in_range(s.drop_first(), x);
    }
}

/// Sorting by host only reorders records.
pub proof fn lemma_sorted_by_host_permutes(s: Seq<HostView>)
    ensures
        sorted_by_host(s).to_multiset() == s.to_multiset(),
    decreases s.len(),
{
    broadcast use vstd::seq_lib::to_multiset_build;
    broadcast use vstd::seq_lib::to_multiset_insert;

    if s.len() > 0 {
        lemma_sorted_by_host_permutes(s.drop_last());
        lemma_host_insertion_in_range(sorted_by_host(s.drop_last()), s.last());
        assert(s.drop_last().push(s.last()) =~= s);
    }
}

/// Each host and port has at most one record.
pub open spec fn unique_endpoints(s: Seq<HostView>) -> bool {
    forall|i: int, j: int| 0 <= i < j < s.len() ==> !(s[i].host == s[j].host && s[i].port == s[j].port)
}

/// Trust replaces by host and port: in records with one entry per host and
/// port, the fingerprint looked up after trusting is the one just trusted.
pub proof fn lemma_trust_then_lookup(s: Seq<HostView>, host: Seq<char>, port: u16, fingerprint: Seq<char>)
    requires
        unique_endpoints(s),
    ensures
        first_for(trusted(s, host, port, fingerprint), host, port) >= 0,
        trusted(s, host, port, fingerprint)[first_for(trusted(s, host, port, fingerprint), host, port)]
            == (HostView { host, port, fingerprint }),
{
    broadcast use vstd::seq_lib::to_multiset_contains;

    let e = HostView { host, port, fingerprint };
    lemma_first_for(s, host, port);
    let i = first_for(s, host, port);
    let t = if i >= 0 { s.update(i, HostView { fingerprint, ..s[i] }) } else { s.push(e) };
    assert forall|k: int| 0 <= k < t.len() && t[k].host == host && t[k].port == port implies t[k] == e by {
        if i >= 0 && k != i {
            assert(t[k] == s[k]);
            if k < i {
                assert(!(s[k].host == s[i].host && s[k].port == s[i].port));
            } else {
                assert(!(s[i].host == s[k].host && s[i].port == s[k].port));
            }
        }
        if i < 0 && k < s.len() {
            assert(t[k] == s[k]);
        }
    }
    if i >= 0 {
        assert(t[i] == e);
    } else {
        assert(t[s.len() as int] == e);
    }
    assert(t.contains(e));
    let u = sorted_by_host(t);
    lemma_sorted_by_host_permutes(t);
    assert(u.to_multiset().count(e) > 0);
    assert(u.contains(e));
    lemma_first_for(u, host, port);
    let f = first_for(u, host, port);
    assert(f >= 0) by {
        let w = choose|w: int| 0 <= w < u.len() && u[w] == e;
        assert(u[w].host == host && u[w].port == port);
    }
    assert(u[f] == e) by {
        assert(u.contains(u[f]));
        assert(u.to_multiset().count(u[f]) > 0);
        assert(t.to_multiset().count(u[f]) > 0);
        assert(t.contains(u[f]));
        let w = choose|w: int| 0 <= w < t.len() && t[w] == u[f];
        assert(t[w].host == host && t[w].port == port);
    }
}

} // verus!
