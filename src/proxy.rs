//! The egress pool: proxy descriptors, their health and usage counters, and
//! round-robin selection over the enabled ones.
use vstd::prelude::*;
use vstd::arithmetic::div_mod::{
    lemma_add_mod_noop_right, lemma_basic_div, lemma_div_is_ordered, lemma_div_plus_one,
    lemma_div_by_self, lemma_mod_self_0, lemma_small_mod,
};
use crate::text::{chars_of, copy_opt, find, find_from, occurs_at, opt_view, same_text};

verus! {

/// Consecutive failures after which a descriptor leaves the rotation.
pub const FAILURE_THRESHOLD: u64 = 3;

#[derive(PartialEq, Eq, Structural, Clone, Copy, Debug)]
pub enum ProxyProtocol {
    Http,
    Https,
    Socks5,
}

/// Why a pool operation was refused.
#[derive(PartialEq, Eq, Structural, Clone, Copy, Debug)]
pub enum ProxyError {
    /// The spec string is not `host:port` or `user:pass@host:port`.
    Parse,
    /// A descriptor with the same `host:port` is already in the pool.
    Duplicate,
    /// No descriptor has the given id.
    NotFound,
}

/// One egress point.
#[derive(Debug)]
pub struct ProxyDescriptor {
    /// `host:port`, unique in the pool.
    pub id: String,
    pub protocol: ProxyProtocol,
    pub host: String,
    pub port: u16,
    pub username: Option<String>,
    pub password: Option<String>,
    /// Whether the descriptor takes part in the rotation.
    pub healthy: bool,
    pub success_count: u64,
    pub failure_count: u64,
    pub consecutive_failures: u64,
    /// Set by `disable`, cleared by `enable`; while set, successes do not
    /// bring the descriptor back.
    pub operator_disabled: bool,
}

pub struct DescriptorView {
    pub id: Seq<char>,
    pub protocol: ProxyProtocol,
    pub host: Seq<char>,
    pub port: u16,
    pub username: Option<Seq<char>>,
    pub password: Option<Seq<char>>,
    pub healthy: bool,
    pub success_count: u64,
    pub failure_count: u64,
    pub consecutive_failures: u64,
    pub operator_disabled: bool,
}

impl View for ProxyDescriptor {
    type V = DescriptorView;

    open spec fn view(&self) -> DescriptorView {
        DescriptorView {
            id: self.id@,
            protocol: self.protocol,
            host: self.host@,
            port: self.port,
            username: opt_view(self.username),
            password: opt_view(self.password),
            healthy: self.healthy,
            success_count: self.success_count,
            failure_count: self.failure_count,
            consecutive_failures: self.consecutive_failures,
            operator_disabled: self.operator_disabled,
        }
    }
}

impl ProxyDescriptor {
    /// A copy of this descriptor.
    pub fn snapshot(&self) -> (r: ProxyDescriptor)
        ensures
            r@ == self@,
    {
        ProxyDescriptor {
            id: self.id.clone(),
            protocol: self.protocol,
            host: self.host.clone(),
            port: self.port,
            username: copy_opt(&self.username),
            password: copy_opt(&self.password),
            healthy: self.healthy,
            success_count: self.success_count,
            failure_count: self.failure_count,
            consecutive_failures: self.consecutive_failures,
            operator_disabled: self.operator_disabled,
        }
    }

    /// The renderer's proxy argument: `scheme://host:port`.
    pub fn chrome_arg(&self) -> (r: String)
        ensures
            r@ == scheme_name(self.protocol) + "://"@ + self.id@,
    {
        let mut a = match self.protocol {
            ProxyProtocol::Http => "http".to_owned(),
            ProxyProtocol::Https => "https".to_owned(),
            ProxyProtocol::Socks5 => "socks5".to_owned(),
        };
        a.append("://");
        a.append(self.id.as_str());
        a
    }

    /// Whether the descriptor carries credentials.
    pub fn requires_auth(&self) -> (r: bool)
        ensures
            r == (self.username is Some && self.password is Some),
    {
        self.username.is_some() && self.password.is_some()
    }
}

/// The scheme that names a protocol.
pub open spec fn scheme_name(p: ProxyProtocol) -> Seq<char> {
    match p {
        ProxyProtocol::Http => "http"@,
        ProxyProtocol::Https => "https"@,
        ProxyProtocol::Socks5 => "socks5"@,
    }
}

/// What a spec string says.
pub struct ParsedProxy {
    pub protocol: ProxyProtocol,
    pub host: Seq<char>,
    pub port: u16,
    /// `host:port`.
    pub id: Seq<char>,
    pub credentials: Option<(Seq<char>, Seq<char>)>,
}

/// The protocol that a scheme prefix names, and the text after it;
/// without a prefix, HTTP.
pub open spec fn split_scheme(s: Seq<char>) -> (ProxyProtocol, Seq<char>) {
    if occurs_at(s, "http://"@, 0) {
        (ProxyProtocol::Http, s.skip("http://"@.len() as int))
    } else if occurs_at(s, "https://"@, 0) {
        (ProxyProtocol::Https, s.skip("https://"@.len() as int))
    } else if occurs_at(s, "socks5://"@, 0) {
        (ProxyProtocol::Socks5, s.skip("socks5://"@.len() as int))
    } else {
        (ProxyProtocol::Http, s)
    }
}

pub open spec fn is_digit(c: char) -> bool {
    '0' <= c && c <= '9'
}

/// The number that a run of decimal digits writes.
pub open spec fn digits_value(t: Seq<char>) -> nat
    decreases t.len(),
{
    if t.len() == 0 {
        0
    } else {
        digits_value(t.drop_last()) * 10 + (t.last() as u32 - 48) as nat
    }
}

/// A port: one to five digits without a leading zero, at most 65535.
pub open spec fn valid_port(t: Seq<char>) -> bool {
    &&& 1 <= t.len() <= 5
    &&& t[0] != '0'
    &&& forall|i: int| 0 <= i < t.len() ==> is_digit(#[trigger] t[i])
    &&& digits_value(t) <= 65535
}

/// A host: not empty, and free of `@` and `/`.
pub open spec fn valid_host(h: Seq<char>) -> bool {
    h.len() > 0 && forall|i: int| 0 <= i < h.len() ==> #[trigger] h[i] != '@' && h[i] != '/'
}

/// `host:port`, split at its first `:`.
pub open spec fn parse_host_port(hp: Seq<char>) -> Option<(Seq<char>, u16)> {
    match find_from(hp, ":"@, 0) {
        Some(c) => {
            let host = hp.take(c);
            let port = hp.skip(c + 1);
            if valid_host(host) && valid_port(port) {
                Some((host, digits_value(port) as u16))
            } else {
                None
            }
        },
        None => None,
    }
}

/// `user:pass`, split at its first `:`; neither part may be empty.
pub open spec fn parse_credentials(c: Seq<char>) -> Option<(Seq<char>, Seq<char>)> {
    match find_from(c, ":"@, 0) {
        Some(k) => {
            if k > 0 && k + 1 < c.len() {
                Some((c.take(k), c.skip(k + 1)))
            } else {
                None
            }
        },
        None => None,
    }
}

/// A spec string `[scheme://][user:pass@]host:port`, split at its first `@`.
pub open spec fn parse_proxy_spec(s: Seq<char>) -> Option<ParsedProxy> {
    let (protocol, rest) = split_scheme(s);
    match find_from(rest, "@"@, 0) {
        Some(a) => {
            let hp = rest.skip(a + 1);
            match (parse_credentials(rest.take(a)), parse_host_port(hp)) {
                (Some(cred), Some((host, port))) => Some(
                    ParsedProxy { protocol, host, port, id: hp, credentials: Some(cred) },
                ),
                _ => None,
            }
        },
        None => match parse_host_port(rest) {
            Some((host, port)) => Some(
                ParsedProxy { protocol, host, port, id: rest, credentials: None },
            ),
            None => None,
        },
    }
}

fn starts_with(cs: &Vec<char>, lit: &str) -> (r: bool)
    ensures
        r == occurs_at(cs@, lit@, 0),
{
    let p = chars_of(lit);
    crate::text::matches_at(cs, &p, 0)
}

fn parse_port(cs: &Vec<char>, from: usize, to: usize) -> (r: Option<u16>)
    requires
        from <= to <= cs@.len(),
    ensures
        valid_port(cs@.subrange(from as int, to as int)) ==> r == Some(
            digits_value(cs@.subrange(from as int, to as int)) as u16,
        ),
        !valid_port(cs@.subrange(from as int, to as int)) ==> r is None,
{
    let ghost t = cs@.subrange(from as int, to as int);
    if to - from < 1 || to - from > 5 || cs[from] == '0' {
        return None;
    }
    let mut value: u32 = 0;
    let mut i = from;
    while i < to
        invariant
            from <= i <= to,
            to - from <= 5,
            to <= cs@.len(),
            t == cs@.subrange(from as int, to as int),
            forall|k: int| from <= k < i ==> is_digit(cs@[k]),
            value as nat == digits_value(t.take(i - from)),
            value < 100000,
            i - from < 5 ==> value < 10000,
            i - from < 4 ==> value < 1000,
            i - from < 3 ==> value < 100,
            i - from < 2 ==> value < 10,
            i - from < 1 ==> value < 1,
        decreases to - i,
    {
        let c = cs[i];
        if !('0' <= c && c <= '9') {
            assert(!is_digit(t[i - from]));
            return None;
        }
        assert(t.take(i - from + 1).drop_last() =~= t.take(i - from));
        value = value * 10 + (c as u32 - 48);
        i = i + 1;
    }
    assert(t.take(to - from) =~= t);
    if value > 65535 {
        return None;
    }
    Some(value as u16)
}

fn check_host(h: &Vec<char>) -> (r: bool)
    ensures
        r == valid_host(h@),
{
    if h.len() == 0 {
        return false;
    }
    let mut i: usize = 0;
    while i < h.len()
        invariant
            i <= h@.len(),
            forall|k: int| 0 <= k < i ==> h@[k] != '@' && h@[k] != '/',
        decreases h.len() - i,
    {
        if h[i] == '@' || h[i] == '/' {
            return false;
        }
        i = i + 1;
    }
    true
}

fn parse_host_port_exec(hp: &str) -> (r: Option<(String, u16)>)
    ensures
        match parse_host_port(hp@) {
            Some((host, port)) => r matches Some((h, p)) && h@ == host && p == port,
            None => r is None,
        },
{
    let cs = chars_of(hp);
    let colon = chars_of(":");
    match find(&cs, &colon, 0) {
        Some(c) => {
            proof {
                crate::text::lemma_find_from_result(cs@, colon@, 0);
                reveal_strlit(":");
                assert(occurs_at(cs@, colon@, c as int));
                assert(c + 1 <= cs.len());
            }
            let host_s = hp.substring_char(0, c);
            let host = chars_of(host_s);
            assert(host@ =~= cs@.take(c as int));
            assert(cs@.subrange(c + 1, cs@.len() as int) =~= cs@.skip(c + 1));
            if !check_host(&host) {
                return None;
            }
            match parse_port(&cs, c + 1, cs.len()) {
                Some(port) => Some((host_s.to_owned(), port)),
                None => None,
            }
        },
        None => None,
    }
}

fn parse_credentials_exec(c: &str) -> (r: Option<(String, String)>)
    ensures
        match parse_credentials(c@) {
            Some((u, p)) => r matches Some((a, b)) && a@ == u && b@ == p,
            None => r is None,
        },
{
    let cs = chars_of(c);
    let colon = chars_of(":");
    match find(&cs, &colon, 0) {
        Some(k) => {
            proof {
                crate::text::lemma_find_from_result(cs@, colon@, 0);
                reveal_strlit(":");
                assert(occurs_at(cs@, colon@, k as int));
                assert(k + 1 <= cs.len());
            }
            if k > 0 && k + 1 < cs.len() {
                let user = c.substring_char(0, k).to_owned();
                let pass = c.substring_char(k + 1, cs.len()).to_owned();
                assert(cs@.subrange(0, k as int) =~= cs@.take(k as int));
                assert(cs@.subrange(k + 1, cs@.len() as int) =~= cs@.skip(k + 1));
                Some((user, pass))
            } else {
                None
            }
        },
        None => None,
    }
}

fn scheme_of(cs: &Vec<char>) -> (r: (ProxyProtocol, usize))
    ensures
        r.1 <= cs@.len(),
        r.0 == split_scheme(cs@).0,
        cs@.skip(r.1 as int) == split_scheme(cs@).1,
{
    let http = chars_of("http://");
    let https = chars_of("https://");
    let socks = chars_of("socks5://");
    if crate::text::matches_at(cs, &http, 0) {
        (ProxyProtocol::Http, http.len())
    } else if crate::text::matches_at(cs, &https, 0) {
        (ProxyProtocol::Https, https.len())
    } else if crate::text::matches_at(cs, &socks, 0) {
        (ProxyProtocol::Socks5, socks.len())
    } else {
        assert(cs@.skip(0) =~= cs@);
        (ProxyProtocol::Http, 0)
    }
}

/// The descriptor that a freshly added spec string gives: in the rotation,
/// with no outcomes recorded.
pub open spec fn fresh_descriptor(p: ParsedProxy) -> DescriptorView {
    DescriptorView {
        id: p.id,
        protocol: p.protocol,
        host: p.host,
        port: p.port,
        username: match p.credentials {
            Some(c) => Some(c.0),
            None => None,
        },
        password: match p.credentials {
            Some(c) => Some(c.1),
            None => None,
        },
        healthy: true,
        success_count: 0,
        failure_count: 0,
        consecutive_failures: 0,
        operator_disabled: false,
    }
}

/// Reads a spec string `[scheme://][user:pass@]host:port` into a fresh
/// descriptor whose id is `host:port`.
pub fn parse_proxy(spec: &str) -> (r: Option<ProxyDescriptor>)
    ensures
        match parse_proxy_spec(spec@) {
            Some(p) => r matches Some(d) && d@ == fresh_descriptor(p),
            None => r is None,
        },
{
    let cs = chars_of(spec);
    let (protocol, off) = scheme_of(&cs);
    let rest_s = spec.substring_char(off, cs.len());
    let rest = chars_of(rest_s);
    assert(rest@ =~= split_scheme(spec@).1);
    let at = chars_of("@");
    match find(&rest, &at, 0) {
        Some(a) => {
            proof {
                crate::text::lemma_find_from_result(rest@, at@, 0);
                reveal_strlit("@");
                assert(occurs_at(rest@, at@, a as int));
                assert(a + 1 <= rest.len());
            }
            let cred_s = rest_s.substring_char(0, a);
            let hp_s = rest_s.substring_char(a + 1, rest.len());
            assert(cred_s@ =~= rest@.take(a as int));
            assert(hp_s@ =~= rest@.skip(a + 1));
            let cred = parse_credentials_exec(cred_s);
            let hp = parse_host_port_exec(hp_s);
            match (cred, hp) {
                (Some((user, pass)), Some((host, port))) => Some(
                    ProxyDescriptor {
                        id: hp_s.to_owned(),
                        protocol,
                        host,
                        port,
                        username: Some(user),
                        password: Some(pass),
                        healthy: true,
                        success_count: 0,
                        failure_count: 0,
                        consecutive_failures: 0,
                        operator_disabled: false,
                    },
                ),
                _ => None,
            }
        },
        None => match parse_host_port_exec(rest_s) {
            Some((host, port)) => Some(
                ProxyDescriptor {
                    id: rest_s.to_owned(),
                    protocol,
                    host,
                    port,
                    username: None,
                    password: None,
                    healthy: true,
                    success_count: 0,
                    failure_count: 0,
                    consecutive_failures: 0,
                    operator_disabled: false,
                },
            ),
            None => None,
        },
    }
}

/// The descriptors in the rotation, in insertion order.
pub open spec fn rotation(ps: Seq<DescriptorView>) -> Seq<DescriptorView>
    decreases ps.len(),
{
    if ps.len() == 0 {
        Seq::empty()
    } else if ps.last().healthy {
        rotation(ps.drop_last()).push(ps.last())
    } else {
        rotation(ps.drop_last())
    }
}

/// No two descriptors share an id.
pub open spec fn unique_ids(ps: Seq<DescriptorView>) -> bool {
    forall|i: int, j: int|
        0 <= i < ps.len() && 0 <= j < ps.len() && i != j ==> ps[i].id != ps[j].id
}

pub open spec fn has_id(ps: Seq<DescriptorView>, id: Seq<char>) -> bool {
    exists|i: int| 0 <= i < ps.len() && ps[i].id == id
}

/// The state of a pool: its descriptors in insertion order, and the cursor.
pub struct PoolView {
    pub proxies: Seq<DescriptorView>,
    pub cursor: nat,
}

impl PoolView {
    /// The descriptor that `get_next` hands out.
    pub open spec fn pick(self) -> Option<DescriptorView> {
        let r = rotation(self.proxies);
        if r.len() == 0 {
            None
        } else {
            Some(r[(self.cursor % r.len()) as int])
        }
    }

    /// The state after `get_next`: the cursor moves one place on.
    pub open spec fn advanced(self) -> PoolView {
        let k = rotation(self.proxies).len();
        if k == 0 {
            self
        } else {
            PoolView { proxies: self.proxies, cursor: self.cursor % k + 1 }
        }
    }
}

/// `d` after an operator's `disable`.
pub open spec fn disabled(d: DescriptorView) -> DescriptorView {
    DescriptorView { healthy: false, operator_disabled: true, ..d }
}

/// `d` after an operator's `enable`.
pub open spec fn enabled(d: DescriptorView) -> DescriptorView {
    DescriptorView { healthy: true, operator_disabled: false, consecutive_failures: 0, ..d }
}

pub open spec fn bump(n: u64) -> u64 {
    if n < u64::MAX {
        (n + 1) as u64
    } else {
        n
    }
}

/// `d` after an attempt through it: the matching counter goes up (it stops
/// at the largest `u64`); a success clears the run of failures and brings
/// back a descriptor that failures took out, a run of `FAILURE_THRESHOLD`
/// failures takes it out.
pub open spec fn after_outcome(d: DescriptorView, success: bool) -> DescriptorView {
    if success {
        DescriptorView {
            success_count: bump(d.success_count),
            consecutive_failures: 0,
            healthy: if d.operator_disabled { d.healthy } else { true },
            ..d
        }
    } else {
        let run = bump(d.consecutive_failures);
        DescriptorView {
            failure_count: bump(d.failure_count),
            consecutive_failures: run,
            healthy: if run >= FAILURE_THRESHOLD { false } else { d.healthy },
            ..d
        }
    }
}

/// A descriptor's success rate in thousandths; 1000 before any attempt.
pub open spec fn rate_permille(d: DescriptorView) -> nat {
    let attempts = d.success_count + d.failure_count;
    if attempts == 0 {
        1000
    } else {
        (d.success_count * 1000 / attempts) as nat
    }
}

pub open spec fn rate_sum(ps: Seq<DescriptorView>) -> nat
    decreases ps.len(),
{
    if ps.len() == 0 {
        0
    } else {
        rate_sum(ps.drop_last()) + rate_permille(ps.last())
    }
}

/// Aggregate figures over a pool.
#[derive(PartialEq, Eq, Structural, Clone, Copy, Debug)]
pub struct ProxyStats {
    pub total: usize,
    pub healthy_count: usize,
    /// The mean of the descriptors' success rates, in thousandths; 0 for an
    /// empty pool.
    pub average_success_permille: u64,
}

/// A pool of egress points. Ids are unique; `get_next` walks the enabled
/// descriptors round-robin in insertion order.
pub struct ProxyPool {
    proxies: Vec<ProxyDescriptor>,
    cursor: usize,
}

impl View for ProxyPool {
    type V = PoolView;

    closed spec fn view(&self) -> PoolView {
        PoolView { proxies: self.proxies@.map_values(|d: ProxyDescriptor| d@), cursor: self.cursor as nat }
    }
}

proof fn lemma_rotation_step(ps: Seq<DescriptorView>, i: int)
    requires
        0 <= i < ps.len(),
    ensures
        rotation(ps.take(i + 1)) == if ps[i].healthy {
            rotation(ps.take(i)).push(ps[i])
        } else {
            rotation(ps.take(i))
        },
{
    assert(ps.take(i + 1).drop_last() =~= ps.take(i));
}

proof fn lemma_rotation_prefix(ps: Seq<DescriptorView>, i: int)
    requires
        0 <= i <= ps.len(),
    ensures
        rotation(ps.take(i)).len() <= rotation(ps).len(),
        forall|k: int|
            0 <= k < rotation(ps.take(i)).len() ==> rotation(ps.take(i))[k] == rotation(ps)[k],
    decreases ps.len() - i,
{
    if i == ps.len() {
        assert(ps.take(i) =~= ps);
    } else {
        lemma_rotation_step(ps, i);
        lemma_rotation_prefix(ps, i + 1);
    }
}

proof fn lemma_rotation_members(ps: Seq<DescriptorView>)
    ensures
        forall|k: int| 0 <= k < rotation(ps).len() ==> (#[trigger] rotation(ps)[k]).healthy,
        forall|k: int|
            0 <= k < rotation(ps).len() ==> exists|j: int|
                0 <= j < ps.len() && ps[j] == #[trigger] rotation(ps)[k],
    decreases ps.len(),
{
    if ps.len() > 0 {
        lemma_rotation_members(ps.drop_last());
        let r = rotation(ps.drop_last());
        assert forall|k: int| 0 <= k < rotation(ps).len() implies exists|j: int|
            0 <= j < ps.len() && ps[j] == #[trigger] rotation(ps)[k] by {
            if k < r.len() {
                let j = choose|j: int| 0 <= j < ps.drop_last().len() && ps.drop_last()[j] == r[k];
                assert(ps[j] == rotation(ps)[k]);
            } else {
                assert(ps[ps.len() - 1] == rotation(ps)[k]);
            }
        }
    }
}

impl ProxyPool {
    /// Well-formed: ids are unique.
    pub open spec fn wf(&self) -> bool {
        unique_ids(self@.proxies)
    }

    /// An empty pool.
    pub fn new() -> (r: ProxyPool)
        ensures
            r.wf(),
            r@.proxies.len() == 0,
            r@.cursor == 0,
    {
        let r = ProxyPool { proxies: Vec::new(), cursor: 0 };
        assert(r@.proxies =~= Seq::<DescriptorView>::empty());
        r
    }

    fn position(&self, id: &str) -> (r: Option<usize>)
        ensures
            r matches Some(i) ==> i < self@.proxies.len() && self@.proxies[i as int].id == id@,
            r is None ==> !has_id(self@.proxies, id@),
    {
        let mut i: usize = 0;
        while i < self.proxies.len()
            invariant
                i <= self@.proxies.len(),
                self@.proxies.len() == self.proxies@.len(),
                forall|k: int| 0 <= k < i ==> self@.proxies[k].id != id@,
            decreases self.proxies.len() - i,
        {
            if same_text(self.proxies[i].id.as_str(), id) {
                return Some(i);
            }
            i = i + 1;
        }
        None
    }

    /// Copies of all descriptors, in insertion order.
    pub fn list(&self) -> (r: Vec<ProxyDescriptor>)
        ensures
            r@.map_values(|d: ProxyDescriptor| d@) == self@.proxies,
    {
        let mut out: Vec<ProxyDescriptor> = Vec::new();
        let mut i: usize = 0;
        while i < self.proxies.len()
            invariant
                i <= self.proxies@.len(),
                out@.len() == i,
                forall|k: int| 0 <= k < i ==> out@[k]@ == self.proxies@[k]@,
            decreases self.proxies.len() - i,
        {
            out.push(self.proxies[i].snapshot());
            i = i + 1;
        }
        assert(out@.map_values(|d: ProxyDescriptor| d@) =~= self@.proxies);
        out
    }

    /// Adds the descriptor that `spec` describes and returns a copy of it.
    /// Fails with `Parse` on a malformed spec string, and with `Duplicate`
    /// where its `host:port` is already in the pool; the pool is then
    /// unchanged.
    pub fn add(&mut self, spec: &str) -> (r: Result<ProxyDescriptor, ProxyError>)
        requires
            old(self).wf(),
        ensures
            final(self).wf(),
            match parse_proxy_spec(spec@) {
                None => r == Err::<ProxyDescriptor, ProxyError>(ProxyError::Parse)
                    && final(self)@ == old(self)@,
                Some(p) => if has_id(old(self)@.proxies, p.id) {
                    r == Err::<ProxyDescriptor, ProxyError>(ProxyError::Duplicate)
                        && final(self)@ == old(self)@
                } else {
                    r matches Ok(d) && d@ == fresh_descriptor(p)
                        && final(self)@.proxies == old(self)@.proxies.push(fresh_descriptor(p))
                        && final(self)@.cursor == old(self)@.cursor
                },
            },
    {
        let d = match parse_proxy(spec) {
            Some(d) => d,
            None => return Err(ProxyError::Parse),
        };
        if self.position(d.id.as_str()).is_some() {
            return Err(ProxyError::Duplicate);
        }
        let copy = d.snapshot();
        self.proxies.push(d);
        assert(self@.proxies =~= old(self)@.proxies.push(copy@));
        Ok(copy)
    }

    /// Removes the descriptor with id `id`; fails with `NotFound` where
    /// there is none.
    pub fn remove(&mut self, id: &str) -> (r: Result<(), ProxyError>)
        requires
            old(self).wf(),
        ensures
            final(self).wf(),
            r is Ok <==> has_id(old(self)@.proxies, id@),
            r is Err ==> r == Err::<(), ProxyError>(ProxyError::NotFound)
                && final(self)@ == old(self)@,
            forall|i: int|
                0 <= i < old(self)@.proxies.len() && old(self)@.proxies[i].id == id@
                    ==> final(self)@.proxies == old(self)@.proxies.remove(i),
            final(self)@.cursor == old(self)@.cursor,
    {
        match self.position(id) {
            Some(i) => {
                self.proxies.remove(i);
                assert(self@.proxies =~= old(self)@.proxies.remove(i as int));
                Ok(())
            },
            None => Err(ProxyError::NotFound),
        }
    }

    /// Takes the descriptor with id `id` out of the rotation until `enable`;
    /// fails with `NotFound` where there is none.
    pub fn disable(&mut self, id: &str) -> (r: Result<(), ProxyError>)
        requires
            old(self).wf(),
        ensures
            final(self).wf(),
            r is Ok <==> has_id(old(self)@.proxies, id@),
            r is Err ==> r == Err::<(), ProxyError>(ProxyError::NotFound)
                && final(self)@ == old(self)@,
            forall|i: int|
                0 <= i < old(self)@.proxies.len() && old(self)@.proxies[i].id == id@
                    ==> final(self)@.proxies == old(self)@.proxies.update(
                    i,
                    disabled(old(self)@.proxies[i]),
                ),
            final(self)@.cursor == old(self)@.cursor,
    {
        match self.position(id) {
            Some(i) => {
                let mut d = self.proxies[i].snapshot();
                d.healthy = false;
                d.operator_disabled = true;
                self.proxies.set(i, d);
                assert(self@.proxies =~= old(self)@.proxies.update(
                    i as int,
                    disabled(old(self)@.proxies[i as int]),
                ));
                Ok(())
            },
            None => Err(ProxyError::NotFound),
        }
    }

    /// Puts the descriptor with id `id` back into the rotation and clears
    /// its run of failures; fails with `NotFound` where there is none.
    pub fn enable(&mut self, id: &str) -> (r: Result<(), ProxyError>)
        requires
            old(self).wf(),
        ensures
            final(self).wf(),
            r is Ok <==> has_id(old(self)@.proxies, id@),
            r is Err ==> r == Err::<(), ProxyError>(ProxyError::NotFound)
                && final(self)@ == old(self)@,
            forall|i: int|
                0 <= i < old(self)@.proxies.len() && old(self)@.proxies[i].id == id@
                    ==> final(self)@.proxies == old(self)@.proxies.update(
                    i,
                    enabled(old(self)@.proxies[i]),
                ),
            final(self)@.cursor == old(self)@.cursor,
    {
        match self.position(id) {
            Some(i) => {
                let mut d = self.proxies[i].snapshot();
                d.healthy = true;
                d.operator_disabled = false;
                d.consecutive_failures = 0;
                self.proxies.set(i, d);
                assert(self@.proxies =~= old(self)@.proxies.update(
                    i as int,
                    enabled(old(self)@.proxies[i as int]),
                ));
                Ok(())
            },
            None => Err(ProxyError::NotFound),
        }
    }

fn rotation_len(&self) -> (k: usize)
        ensures
            k == rotation(self@.proxies).len(),
    {
        let ghost ps = self@.proxies;
        let mut k: usize = 0;
        let mut i: usize = 0;
        while i < self.proxies.len()
            invariant
                ps == self@.proxies,
                i <= ps.len(),
                k <= i,
                k == rotation(ps.take(i as int)).len(),
            decreases self.proxies.len() - i,
        {
            proof {
                lemma_rotation_step(ps, i as int);
            }
            if self.proxies[i].healthy {
                k = k + 1;
            }
            i = i + 1;
        }
        assert(ps.take(i as int) =~= ps);
        k
    }

    /// The next descriptor in the rotation (a copy), moving the cursor on;
    /// `None`, and no change, where the pool is empty or all descriptors are
    /// out of the rotation.
    pub fn get_next(&mut self) -> (r: Option<ProxyDescriptor>)
        requires
            old(self).wf(),
        ensures
            final(self).wf(),
            match old(self)@.pick() {
                Some(d) => r matches Some(x) && x@ == d,
                None => r is None,
            },
            final(self)@ == old(self)@.advanced(),
    {
        let k = self.rotation_len();
        if k == 0 {
            return None;
        }
        let target = self.cursor % k;
        let ghost ps = self@.proxies;
        let mut seen: usize = 0;
        let mut i: usize = 0;
        while i < self.proxies.len()
            invariant
                ps == self@.proxies,
                self.wf(),
                self@ == old(self)@,
                k == rotation(ps).len(),
                target < k,
                target == old(self)@.cursor % (k as nat),
                i <= ps.len(),
                seen <= target,
                seen == rotation(ps.take(i as int)).len(),
            decreases self.proxies.len() - i,
        {
            proof {
                lemma_rotation_step(ps, i as int);
            }
            if self.proxies[i].healthy {
                if seen == target {
                    proof {
                        lemma_rotation_prefix(ps, i + 1);
                        assert(rotation(ps.take(i + 1))[seen as int] == ps[i as int]);
                        assert(rotation(ps)[seen as int] == ps[i as int]);
                        assert(old(self)@.pick() == Some(ps[i as int]));
                    }
                    let d = self.proxies[i].snapshot();
                    assert(d@ == ps[i as int]);
                    self.cursor = target + 1;
                    assert(self@.proxies == ps);
                    assert(self@.cursor == old(self)@.advanced().cursor);
                    return Some(d);
                }
                seen = seen + 1;
            }
            i = i + 1;
        }
        assert(ps.take(i as int) =~= ps);
        None
    }

    /// Counts and the mean success rate over the pool.
    pub fn stats(&self) -> (r: ProxyStats)
        ensures
            r.total == self@.proxies.len(),
            r.healthy_count == rotation(self@.proxies).len(),
            r.average_success_permille == if self@.proxies.len() == 0 {
                0
            } else {
                rate_sum(self@.proxies) / self@.proxies.len()
            },
    {
        let ghost ps = self@.proxies;
        let n = self.proxies.len();
        let mut sum: u128 = 0;
        let mut i: usize = 0;
        while i < n
            invariant
                ps == self@.proxies,
                n == ps.len(),
                i <= n,
                sum == rate_sum(ps.take(i as int)),
                sum <= 1000 * i,
            decreases n - i,
        {
            let d = &self.proxies[i];
            let ok = d.success_count as u128;
            let attempts = ok + d.failure_count as u128;
            let rate: u128 = if attempts == 0 {
                1000
            } else {
                let ghost (a, t) = (ok as int, attempts as int);
                assert(a * 1000 / t <= 1000) by (nonlinear_arith)
                    requires
                        0 <= a <= t,
                        t > 0,
                {
                    assert(a * 1000 <= t * 1000);
                }
                ok * 1000 / attempts
            };
            assert(ps.take(i + 1).drop_last() =~= ps.take(i as int));
            sum = sum + rate;
            i = i + 1;
        }
        assert(ps.take(n as int) =~= ps);
        let avg: u64 = if n == 0 {
            0
        } else {
            let ghost (x, m) = (sum as int, n as int);
            assert(x / m <= 1000) by (nonlinear_arith)
                requires
                    0 <= x <= 1000 * m,
                    m > 0,
            {
            }
            (sum / (n as u128)) as u64
        };
        ProxyStats { total: n, healthy_count: self.rotation_len(), average_success_permille: avg }
    }

    /// Records the outcome of an attempt through the descriptor with id
    /// `id` (see `after_outcome`); fails with `NotFound` where there is none.
    pub fn record_outcome(&mut self, id: &str, success: bool) -> (r: Result<(), ProxyError>)
        requires
            old(self).wf(),
        ensures
            final(self).wf(),
            r is Ok <==> has_id(old(self)@.proxies, id@),
            r is Err ==> r == Err::<(), ProxyError>(ProxyError::NotFound)
                && final(self)@ == old(self)@,
            forall|i: int|
                0 <= i < old(self)@.proxies.len() && old(self)@.proxies[i].id == id@
                    ==> final(self)@.proxies == old(self)@.proxies.update(
                    i,
                    after_outcome(old(self)@.proxies[i], success),
                ),
            final(self)@.cursor == old(self)@.cursor,
    {
        match self.position(id) {
            Some(i) => {
                let mut d = self.proxies[i].snapshot();
                if success {
                    if d.success_count < u64::MAX {
                        d.success_count = d.success_count + 1;
                    }
                    d.consecutive_failures = 0;
                    if !d.operator_disabled {
                        d.healthy = true;
                    }
                } else {
                    if d.failure_count < u64::MAX {
                        d.failure_count = d.failure_count + 1;
                    }
                    if d.consecutive_failures < u64::MAX {
                        d.consecutive_failures = d.consecutive_failures + 1;
                    }
                    if d.consecutive_failures >= FAILURE_THRESHOLD {
                        d.healthy = false;
                    }
                }
                self.proxies.set(i, d);
                assert(self@.proxies =~= old(self)@.proxies.update(
                    i as int,
                    after_outcome(old(self)@.proxies[i as int], success),
                ));
                Ok(())
            },
            None => Err(ProxyError::NotFound),
        }
    }
}

/// What `n` successive calls of `get_next` hand out, starting from `p`.
pub open spec fn picks(p: PoolView, n: nat) -> Seq<DescriptorView>
    decreases n,
{
    if n == 0 {
        Seq::empty()
    } else {
        match p.pick() {
            Some(d) => seq![d] + picks(p.advanced(), (n - 1) as nat),
            None => Seq::empty(),
        }
    }
}

/// How many descriptors of `s` have id `id`.
pub open spec fn count_id(s: Seq<DescriptorView>, id: Seq<char>) -> nat
    decreases s.len(),
{
    if s.len() == 0 {
        0
    } else {
        (if s[0].id == id {
            1nat
        } else {
            0nat
        }) + count_id(s.drop_first(), id)
    }
}

/// How many steps a cursor at rotation index `c` takes to reach index `j`.
pub open spec fn distance(c: nat, j: nat, k: nat) -> nat {
    if j >= c {
        (j - c) as nat
    } else {
        (j + k - c) as nat
    }
}

/// No descriptor with id `id` is in the rotation, and each was taken out by
/// an operator.
pub open spec fn held_out(p: PoolView, id: Seq<char>) -> bool {
    forall|i: int|
        0 <= i < p.proxies.len() && (#[trigger] p.proxies[i]).id == id
            ==> !p.proxies[i].healthy && p.proxies[i].operator_disabled
}

proof fn lemma_rotation_unique(ps: Seq<DescriptorView>)
    requires
        unique_ids(ps),
    ensures
        unique_ids(rotation(ps)),
    decreases ps.len(),
{
    if ps.len() > 0 {
        let front = ps.drop_last();
        assert(unique_ids(front));
        lemma_rotation_unique(front);
        lemma_rotation_members(front);
        let r = rotation(front);
        if ps.last().healthy {
            assert forall|a: int, b: int|
                0 <= a < rotation(ps).len() && 0 <= b < rotation(ps).len() && a != b
                    implies rotation(ps)[a].id != rotation(ps)[b].id by {
                if a < r.len() && b < r.len() {
                } else if a < r.len() {
                    let j = choose|j: int| 0 <= j < front.len() && front[j] == #[trigger] r[a];
                    assert(ps[j] == r[a]);
                } else {
                    let j = choose|j: int| 0 <= j < front.len() && front[j] == #[trigger] r[b];
                    assert(ps[j] == r[b]);
                }
            }
        }
    }
}

proof fn lemma_picks_cycle(p: PoolView, n: nat, i: int)
    requires
        rotation(p.proxies).len() > 0,
        0 <= i < n,
    ensures
        picks(p, n).len() == n,
        picks(p, n)[i] == rotation(p.proxies)[(p.cursor + i) % rotation(p.proxies).len() as int],
    decreases n,
{
    let k = rotation(p.proxies).len();
    let adv = p.advanced();
    if n > 1 {
        lemma_picks_cycle(adv, (n - 1) as nat, if i > 0 { i - 1 } else { 0 });
    } else {
        assert(picks(adv, 0).len() == 0);
    }
    if i > 0 {
        assert(picks(p, n)[i] == picks(adv, (n - 1) as nat)[i - 1]);
        assert(adv.cursor + (i - 1) == i + ((p.cursor as int) % (k as int)));
        lemma_add_mod_noop_right(i, p.cursor as int, k as int);
    }
}

proof fn lemma_picks_count(p: PoolView, n: nat, j: int)
    requires
        rotation(p.proxies).len() > 0,
        unique_ids(rotation(p.proxies)),
        0 <= j < rotation(p.proxies).len(),
    ensures
        ({
            let k = rotation(p.proxies).len();
            let d = distance(p.cursor % k, j as nat, k);
            count_id(picks(p, n), rotation(p.proxies)[j].id) == if n <= d {
                0
            } else {
                ((n - d - 1) / (k as int) + 1) as nat
            }
        }),
    decreases n,
{
    let ps = p.proxies;
    let k = rotation(ps).len();
    let c0 = p.cursor % k;
    let d = distance(c0, j as nat, k);
    let id = rotation(ps)[j].id;
    if n > 0 {
        let adv = p.advanced();
        lemma_picks_count(adv, (n - 1) as nat, j);
        assert(picks(p, n).drop_first() =~= picks(adv, (n - 1) as nat));
        if c0 + 1 < k {
            lemma_small_mod((c0 + 1) as nat, k);
        } else {
            lemma_mod_self_0(k as int);
        }
        let c1 = adv.cursor % k;
        if c0 == j {
            assert(distance(c1, j as nat, k) == k - 1);
            if n - 1 >= k {
                lemma_div_plus_one(n - 1 - k, k as int);
            } else {
                lemma_basic_div(n - 1, k as int);
            }
        } else {
            assert(rotation(ps)[c0 as int].id != id);
            assert(distance(c1, j as nat, k) == d - 1);
        }
    }
}

/// Round-robin is fair and keeps insertion order: `n` successive calls of
/// `get_next` over `k` descriptors in the rotation hand out the rotation
/// cyclically from the cursor, and each id `n / k` or `ceil(n / k)` times.
pub proof fn lemma_round_robin(p: PoolView, n: nat, j: int)
    requires
        unique_ids(p.proxies),
        rotation(p.proxies).len() > 0,
        0 <= j < rotation(p.proxies).len(),
    ensures
        ({
            let r = rotation(p.proxies);
            let k = r.len() as int;
            &&& picks(p, n).len() == n
            &&& forall|i: int| 0 <= i < n ==> #[trigger] picks(p, n)[i] == r[(p.cursor + i) % k]
            &&& (n as int) / k <= count_id(picks(p, n), r[j].id) <= (n + k - 1) / k
        }),
{
    let r = rotation(p.proxies);
    let k = r.len() as int;
    if n > 0 {
        lemma_picks_cycle(p, n, 0);
    } else {
        assert(picks(p, n).len() == 0);
    }
    assert forall|i: int| 0 <= i < n implies #[trigger] picks(p, n)[i] == r[(p.cursor + i) % k] by {
        lemma_picks_cycle(p, n, i);
    }
    lemma_rotation_unique(p.proxies);
    lemma_picks_count(p, n, j);
    let d = distance(p.cursor % (k as nat), j as nat, k as nat) as int;
    let h = count_id(picks(p, n), r[j].id) as int;
    if n <= d {
        lemma_basic_div(n as int, k);
        lemma_div_is_ordered(0, n + k - 1, k);
        lemma_basic_div(0, k);
    } else {
        lemma_div_plus_one(n - d - 1, k);
        lemma_div_is_ordered(n as int, k + (n - d - 1), k);
        lemma_div_is_ordered(k + (n - d - 1), n + k - 1, k);
    }
}

/// `disable` takes a descriptor out of the rotation and marks it as an
/// operator's doing.
pub proof fn lemma_disable_holds_out(p: PoolView, i: int)
    requires
        unique_ids(p.proxies),
        0 <= i < p.proxies.len(),
    ensures
        held_out(
            PoolView { proxies: p.proxies.update(i, disabled(p.proxies[i])), cursor: p.cursor },
            p.proxies[i].id,
        ),
{
}

/// A held-out descriptor is never handed out by `get_next`, and it stays
/// held out through `get_next`, through recorded outcomes of any descriptor,
/// through `enable` or `disable` of any other id, through removals and
/// through additions of other ids: only `enable` of its own id brings it
/// back.
pub proof fn lemma_held_out_stays_out(p: PoolView, id: Seq<char>, j: int, success: bool)
    requires
        held_out(p, id),
        0 <= j < p.proxies.len(),
    ensures
        p.pick() matches Some(d) ==> d.id != id,
        held_out(p.advanced(), id),
        held_out(
            PoolView { proxies: p.proxies.update(j, after_outcome(p.proxies[j], success)), cursor: p.cursor },
            id,
        ),
        held_out(
            PoolView { proxies: p.proxies.update(j, disabled(p.proxies[j])), cursor: p.cursor },
            id,
        ),
        p.proxies[j].id != id ==> held_out(
            PoolView { proxies: p.proxies.update(j, enabled(p.proxies[j])), cursor: p.cursor },
            id,
        ),
        held_out(PoolView { proxies: p.proxies.remove(j), cursor: p.cursor }, id),
        forall|q: ParsedProxy|
            q.id != id ==> held_out(
                PoolView { proxies: p.proxies.push(fresh_descriptor(q)), cursor: p.cursor },
                id,
            ),
{
    lemma_rotation_members(p.proxies);
    let r = rotation(p.proxies);
    if r.len() > 0 {
        let x = (p.cursor % r.len()) as int;
        assert(r[x].healthy);
        let w = choose|w: int| 0 <= w < p.proxies.len() && p.proxies[w] == #[trigger] r[x];
        assert(p.proxies[w] == r[x]);
    }
}

/// The spec string `host:port`, or `user:pass@host:port` where credentials
/// are given.
pub open spec fn spec_string(
    host: Seq<char>,
    port: Seq<char>,
    cred: Option<(Seq<char>, Seq<char>)>,
) -> Seq<char> {
    match cred {
        Some((u, w)) => u + ":"@ + w + "@"@ + host + ":"@ + port,
        None => host + ":"@ + port,
    }
}

pub open spec fn free_of(s: Seq<char>, c: char) -> bool {
    forall|i: int| 0 <= i < s.len() ==> s[i] != c
}

proof fn lemma_no_scheme(s: Seq<char>)
    requires
        free_of(s, '/'),
    ensures
        split_scheme(s) == (ProxyProtocol::Http, s),
{
    reveal_strlit("http://");
    reveal_strlit("https://");
    reveal_strlit("socks5://");
    if occurs_at(s, "http://"@, 0) {
        assert(s.subrange(0, 7)[5] == s[5]);
    }
    if occurs_at(s, "https://"@, 0) {
        assert(s.subrange(0, 8)[6] == s[6]);
    }
    if occurs_at(s, "socks5://"@, 0) {
        assert(s.subrange(0, 9)[7] == s[7]);
    }
}

proof fn lemma_host_port(host: Seq<char>, port: Seq<char>)
    requires
        valid_host(host),
        free_of(host, ':'),
        valid_port(port),
    ensures
        parse_host_port(host + ":"@ + port) == Some((host, digits_value(port) as u16)),
        free_of(host + ":"@ + port, '/'),
        free_of(host + ":"@ + port, '@'),
{
    reveal_strlit(":");
    let hp = host + ":"@ + port;
    assert(hp[host.len() as int] == ':');
    crate::text::lemma_single_first(hp, ":"@, host.len() as int);
    assert(hp.take(host.len() as int) =~= host);
    assert(hp.skip(host.len() as int + 1) =~= port);
}

/// Adding `host:port` or `user:pass@host:port` to a pool `ps` that has no
/// descriptor `host:port` succeeds; the listing then holds the descriptors
/// of `ps` unchanged and, after them, exactly one descriptor with id
/// `host:port`, whose credential fields are filled exactly when the
/// credential form was given.
pub proof fn lemma_add_then_list(
    ps: Seq<DescriptorView>,
    host: Seq<char>,
    port: Seq<char>,
    cred: Option<(Seq<char>, Seq<char>)>,
)
    requires
        !has_id(ps, host + ":"@ + port),
        valid_host(host),
        free_of(host, ':'),
        valid_port(port),
        cred matches Some((u, w)) ==> u.len() > 0 && w.len() > 0 && free_of(u, ':') && free_of(
            u,
            '@',
        ) && free_of(u, '/') && free_of(w, '@') && free_of(w, '/'),
    ensures
        parse_proxy_spec(spec_string(host, port, cred)) matches Some(p) && !has_id(ps, p.id) && ({
            let listed = ps.push(fresh_descriptor(p));
            let d = listed[ps.len() as int];
            &&& listed.len() == ps.len() + 1
            &&& forall|i: int| 0 <= i < ps.len() ==> listed[i] == ps[i]
            &&& forall|i: int|
                0 <= i < listed.len() && listed[i].id == host + ":"@ + port ==> i == ps.len()
            &&& d.id == host + ":"@ + port
            &&& (d.username is Some <==> cred is Some)
            &&& (d.password is Some <==> cred is Some)
            &&& cred matches Some((u, w)) ==> d.username == Some(u) && d.password == Some(w)
        }),
{
    reveal_strlit(":");
    reveal_strlit("@");
    let hp = host + ":"@ + port;
    lemma_host_port(host, port);
    match cred {
        Some((u, w)) => {
            let c = u + ":"@ + w;
            let s = c + "@"@ + hp;
            assert(spec_string(host, port, cred) =~= s);
            assert(free_of(s, '/'));
            lemma_no_scheme(s);
            assert(s[c.len() as int] == '@');
            crate::text::lemma_single_first(s, "@"@, c.len() as int);
            assert(s.take(c.len() as int) =~= c);
            assert(s.skip(c.len() as int + 1) =~= hp);
            assert(c[u.len() as int] == ':');
            crate::text::lemma_single_first(c, ":"@, u.len() as int);
            assert(c.take(u.len() as int) =~= u);
            assert(c.skip(u.len() as int + 1) =~= w);
        },
        None => {
            assert(spec_string(host, port, cred) =~= hp);
            lemma_no_scheme(hp);
            crate::text::lemma_single_absent(hp, "@"@);
        },
    }
}

proof fn lemma_rotation_contains(ps: Seq<DescriptorView>, i: int)
    requires
        0 <= i < ps.len(),
        ps[i].healthy,
    ensures
        exists|j: int| 0 <= j < rotation(ps).len() && rotation(ps)[j] == ps[i],
    decreases ps.len(),
{
    if i == ps.len() - 1 {
        assert(rotation(ps)[rotation(ps).len() - 1] == ps[i]);
    } else {
        lemma_rotation_contains(ps.drop_last(), i);
        let r = rotation(ps.drop_last());
        let j = choose|j: int| 0 <= j < r.len() && r[j] == ps.drop_last()[i];
        assert(rotation(ps)[j] == ps[i]);
    }
}

/// `enable` brings a descriptor back into the rotation: with `k`
/// descriptors in the rotation afterwards, it is among the next `k` that
/// `get_next` hands out.
pub proof fn lemma_enabled_rejoins(p: PoolView, i: int)
    requires
        unique_ids(p.proxies),
        0 <= i < p.proxies.len(),
    ensures
        ({
            let q = PoolView { proxies: p.proxies.update(i, enabled(p.proxies[i])), cursor: p.cursor };
            let k = rotation(q.proxies).len();
            &&& k > 0
            &&& count_id(picks(q, k), p.proxies[i].id) >= 1
        }),
{
    let q = PoolView { proxies: p.proxies.update(i, enabled(p.proxies[i])), cursor: p.cursor };
    assert(unique_ids(q.proxies));
    lemma_rotation_contains(q.proxies, i);
    let r = rotation(q.proxies);
    let j = choose|j: int| 0 <= j < r.len() && r[j] == q.proxies[i];
    let k = r.len();
    lemma_round_robin(q, k, j);
    lemma_div_by_self(k as int);
}

} // verus!
