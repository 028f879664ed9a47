//! Alternative-service advertisements: the header grammar, and the table of
//! hosts that should be reached over HTTP/3 next time, each with a lifetime.
use crate::clock::Clock;
use crate::table::Table;
use crate::text::{
    chars_of, i32_of, is_white, parse_i32, parse_u16, parse_u64, same_chars, split, split_at_char,
    string_of, strip_back, strip_front, Strip, strip_quotes, trim, trim_quotes, trim_white, u16_of,
    u64_of, views,
};
use vstd::prelude::*;

verus! {

/// The protocol id that the cache accepts.
pub open spec fn h3_id() -> Seq<char> {
    seq!['h', '3']
}

/// The port that the cache accepts.
pub const H3_PORT: u16 = 443;

/// Lifetime in seconds of an advertisement without `ma`.
pub const DEFAULT_MAX_AGE: u64 = 86400;

/// A malformed advertisement, with the fragment at fault.
#[derive(Debug, PartialEq, Eq)]
pub enum ParseError {
    /// A parameter that is not `key=value` with exactly one `=`.
    Parameter(String),
    /// An `ma` value that is not a `u64`.
    MaValue(String),
    /// A `persist` value that is not an `i32`.
    PersistValue(String),
    /// An authority that is not `host:port` with exactly one `:`.
    AltAuthorityValue(String),
    /// A port that is not a `u16`.
    PortNumber(String),
}

/// The model of a `ParseError`.
pub enum ParseFault {
    Parameter(Seq<char>),
    MaValue(Seq<char>),
    PersistValue(Seq<char>),
    AltAuthorityValue(Seq<char>),
    PortNumber(Seq<char>),
}

impl View for ParseError {
    type V = ParseFault;

    open spec fn view(&self) -> ParseFault {
        match self {
            ParseError::Parameter(s) => ParseFault::Parameter(s@),
            ParseError::MaValue(s) => ParseFault::MaValue(s@),
            ParseError::PersistValue(s) => ParseFault::PersistValue(s@),
            ParseError::AltAuthorityValue(s) => ParseFault::AltAuthorityValue(s@),
            ParseError::PortNumber(s) => ParseFault::PortNumber(s@),
        }
    }
}

/// An advertised location: host (empty for "the same host") and port.
#[derive(Debug, Default, PartialEq, Eq)]
pub struct AltAuthority {
    pub host: String,
    pub port: u16,
}

/// One advertised alternative service.
#[derive(Debug, Default, PartialEq, Eq)]
pub struct Service {
    pub id: String,
    pub authority: AltAuthority,
    pub max_age: Option<u64>,
    pub persist: bool,
}

/// The model of a `Service`.
pub struct ServiceView {
    pub id: Seq<char>,
    pub host: Seq<char>,
    pub port: u16,
    pub max_age: Option<u64>,
    pub persist: bool,
}

impl View for Service {
    type V = ServiceView;

    open spec fn view(&self) -> ServiceView {
        ServiceView {
            id: self.id@,
            host: self.authority.host@,
            port: self.authority.port,
            max_age: self.max_age,
            persist: self.persist,
        }
    }
}

/// A parsed advertisement header.
#[derive(Debug, PartialEq, Eq)]
pub enum AltService {
    /// Forget what was advertised for this host.
    Clear,
    /// The advertised services, in order.
    Services(Vec<Service>),
}

/// The model of an `AltService`.
pub enum AltServiceView {
    Clear,
    Services(Seq<ServiceView>),
}

pub open spec fn service_views(s: Seq<Service>) -> Seq<ServiceView> {
    s.map_values(|x: Service| x@)
}

impl View for AltService {
    type V = AltServiceView;

    open spec fn view(&self) -> AltServiceView {
        match self {
            AltService::Clear => AltServiceView::Clear,
            AltService::Services(v) => AltServiceView::Services(service_views(v@)),
        }
    }
}

pub open spec fn service_outcome(r: Result<Service, ParseError>) -> Result<
    ServiceView,
    ParseFault,
> {
    match r {
        Ok(s) => Ok(s@),
        Err(e) => Err(e@),
    }
}

pub open spec fn parse_outcome(r: Result<AltService, ParseError>) -> Result<
    AltServiceView,
    ParseFault,
> {
    match r {
        Ok(a) => Ok(a@),
        Err(e) => Err(e@),
    }
}

/// A service before any parameter is read.
pub open spec fn blank_service() -> ServiceView {
    ServiceView { id: Seq::empty(), host: Seq::empty(), port: 0, max_age: None, persist: false }
}

/// The effect of one non-empty, trimmed parameter `kv` on `svc`.
pub open spec fn apply_param(svc: ServiceView, kv: Seq<char>) -> Result<ServiceView, ParseFault> {
    let parts = split(kv, '=');
    if parts.len() != 2 {
        Err(ParseFault::Parameter(kv))
    } else {
        let k = parts[0];
        let v = parts[1];
        if k == seq!['m', 'a'] {
            match u64_of(v) {
                Some(n) => Ok(ServiceView { max_age: Some(n), ..svc }),
                None => Err(ParseFault::MaValue(v)),
            }
        } else if k == seq!['p', 'e', 'r', 's', 'i', 's', 't'] {
            match i32_of(v) {
                Some(p) => if p == 1 {
                    Ok(ServiceView { persist: true, ..svc })
                } else {
                    Ok(svc)
                },
                None => Err(ParseFault::PersistValue(v)),
            }
        } else {
            let raw = trim_quotes(v);
            let hp = split(raw, ':');
            if hp.len() != 2 {
                Err(ParseFault::AltAuthorityValue(raw))
            } else {
                match u16_of(hp[1]) {
                    Some(port) => Ok(ServiceView { id: k, host: hp[0], port, ..svc }),
                    None => Err(ParseFault::PortNumber(hp[1])),
                }
            }
        }
    }
}

/// The parameters of one service, applied left to right; blank ones are
/// skipped and the first fault stops the reading.
pub open spec fn parse_params(svc: ServiceView, params: Seq<Seq<char>>) -> Result<
    ServiceView,
    ParseFault,
>
    decreases params.len(),
{
    if params.len() == 0 {
        Ok(svc)
    } else {
        let kv = trim(params[0]);
        if kv.len() == 0 {
            parse_params(svc, params.drop_first())
        } else {
            match apply_param(svc, kv) {
                Ok(next) => parse_params(next, params.drop_first()),
                Err(e) => Err(e),
            }
        }
    }
}

/// The services of a comma-separated list, appended to `acc`; blank items
/// are skipped and the first fault stops the reading.
pub open spec fn parse_services(acc: Seq<ServiceView>, items: Seq<Seq<char>>) -> Result<
    Seq<ServiceView>,
    ParseFault,
>
    decreases items.len(),
{
    if items.len() == 0 {
        Ok(acc)
    } else {
        let item = trim(items[0]);
        if item.len() == 0 {
            parse_services(acc, items.drop_first())
        } else {
            match parse_params(blank_service(), split(item, ';')) {
                Ok(svc) => parse_services(acc.push(svc), items.drop_first()),
                Err(e) => Err(e),
            }
        }
    }
}

pub open spec fn clear_word() -> Seq<char> {
    seq!['c', 'l', 'e', 'a', 'r']
}

/// What an advertisement header value means.
pub open spec fn parse_advertisement(s: Seq<char>) -> Result<AltServiceView, ParseFault> {
    if trim(s) == clear_word() {
        Ok(AltServiceView::Clear)
    } else {
        match parse_services(Seq::empty(), split(s, ',')) {
            Ok(v) => Ok(AltServiceView::Services(v)),
            Err(e) => Err(e),
        }
    }
}

fn read_param(svc: Service, kv: &Vec<char>) -> (r: Result<Service, ParseError>)
    ensures
        service_outcome(r) == apply_param(svc@, kv@),
{
    let parts = split_at_char(kv, '=');
    if parts.len() != 2 {
        return Err(ParseError::Parameter(string_of(kv)));
    }
    assert(parts@[0]@ == split(kv@, '=')[0]);
    assert(parts@[1]@ == split(kv@, '=')[1]);
    let k = &parts[0];
    let v = &parts[1];
    if same_chars(k, &['m', 'a']) {
        match parse_u64(v) {
            Some(n) => Ok(Service { max_age: Some(n), ..svc }),
            None => Err(ParseError::MaValue(string_of(v))),
        }
    } else if same_chars(k, &['p', 'e', 'r', 's', 'i', 's', 't']) {
        match parse_i32(v) {
            Some(p) => if p == 1 {
                Ok(Service { persist: true, ..svc })
            } else {
                Ok(svc)
            },
            None => Err(ParseError::PersistValue(string_of(v))),
        }
    } else {
        let raw = strip_quotes(v);
        let hp = split_at_char(&raw, ':');
        if hp.len() != 2 {
            return Err(ParseError::AltAuthorityValue(string_of(&raw)));
        }
        assert(hp@[0]@ == split(raw@, ':')[0]);
        assert(hp@[1]@ == split(raw@, ':')[1]);
        match parse_u16(&hp[1]) {
            Some(port) => Ok(
                Service {
                    id: string_of(k),
                    authority: AltAuthority { host: string_of(&hp[0]), port },
                    ..svc
                },
            ),
            None => Err(ParseError::PortNumber(string_of(&hp[1]))),
        }
    }
}

fn read_service(item: &Vec<char>) -> (r: Result<Service, ParseError>)
    ensures
        service_outcome(r) == parse_params(blank_service(), split(item@, ';')),
{
    let params = split_at_char(item, ';');
    let ghost ps = split(item@, ';');
    let mut svc = Service {
        id: String::new(),
        authority: AltAuthority { host: String::new(), port: 0 },
        max_age: None,
        persist: false,
    };
    let mut i: usize = 0;
    assert(ps.skip(0) =~= ps);
    while i < params.len()
        invariant
            ps == split(item@, ';'),
            views(params@) == ps,
            i <= params.len(),
            parse_params(blank_service(), ps) == parse_params(svc@, ps.skip(i as int)),
        decreases params.len() - i,
    {
        let kv = trim_white(&params[i]);
        assert(ps.skip(i as int)[0] == params@[i as int]@);
        assert(ps.skip(i as int).drop_first() =~= ps.skip(i + 1));
        if kv.len() > 0 {
            let ghost sv = svc@;
            match read_param(svc, &kv) {
                Ok(next) => {
                    svc = next;
                },
                Err(e) => {
                    assert(parse_params(sv, ps.skip(i as int)) == Err::<ServiceView, ParseFault>(
                        e@,
                    ));
                    return Err(e);
                },
            }
        }
        i += 1;
    }
    assert(ps.skip(i as int) =~= Seq::<Seq<char>>::empty());
    Ok(svc)
}

/// Parses the value of an `Alt-Svc` header: `clear` (surrounding whitespace
/// allowed), or a comma-separated list of services, each a
/// semicolon-separated list of `key=value` parameters. `ma` sets the
/// lifetime, `persist=1` the persist flag, and any other key is the protocol
/// id, with `"host:port"` (quotes optional) as its value.
pub fn parse(s: &str) -> (r: Result<AltService, ParseError>)
    ensures
        parse_outcome(r) == parse_advertisement(s@),
{
    let cs = chars_of(s);
    let whole = trim_white(&cs);
    if same_chars(&whole, &['c', 'l', 'e', 'a', 'r']) {
        return Ok(AltService::Clear);
    }
    let items = split_at_char(&cs, ',');
    let ghost its = split(s@, ',');
    let mut ret: Vec<Service> = Vec::new();
    let mut i: usize = 0;
    assert(its.skip(0) =~= its);
    assert(service_views(ret@) =~= Seq::<ServiceView>::empty());
    while i < items.len()
        invariant
            its == split(s@, ','),
            trim(s@) != clear_word(),
            views(items@) == its,
            i <= items.len(),
            parse_services(Seq::empty(), its) == parse_services(
                service_views(ret@),
                its.skip(i as int),
            ),
        decreases items.len() - i,
    {
        let item = trim_white(&items[i]);
        assert(its.skip(i as int)[0] == items@[i as int]@);
        assert(its.skip(i as int).drop_first() =~= its.skip(i + 1));
        if item.len() > 0 {
            match read_service(&item) {
                Ok(svc) => {
                    let ghost before = ret@;
                    ret.push(svc);
                    assert(service_views(ret@) =~= service_views(before).push(svc@));
                },
                Err(e) => {
                    assert(parse_services(service_views(ret@), its.skip(i as int)) == Err::<
                        Seq<ServiceView>,
                        ParseFault,
                    >(e@));
                    return Err(e);
                },
            }
        }
        i += 1;
    }
    assert(its.skip(i as int) =~= Seq::<Seq<char>>::empty());
    Ok(AltService::Services(ret))
}


/// What the cache keeps for a host: when it was stored and for how long.
#[derive(Debug, Clone, Copy, PartialEq, Eq)]
pub struct HostRecord {
    pub inserted: u64,
    pub max_age: u64,
}

/// Whether `svc`, advertised by `host`, may be stored: protocol `h3` on port
/// 443, at the same host or at an unnamed one.
pub open spec fn eligible(host: Seq<char>, svc: ServiceView) -> bool {
    svc.id == h3_id() && (svc.host.len() == 0 || svc.host == host) && svc.port == H3_PORT
}

/// The lifetime that `svc` asks for.
pub open spec fn lifetime_of(svc: ServiceView) -> u64 {
    match svc.max_age {
        Some(a) => a,
        None => DEFAULT_MAX_AGE,
    }
}

/// Seconds from `since` to `now`, zero if `now` is earlier.
pub open spec fn elapsed(since: u64, now: u64) -> u64 {
    if now >= since {
        (now - since) as u64
    } else {
        0
    }
}

/// The cache after offering `svc` from `host` at time `now`.
pub open spec fn after_insert(
    m: Map<Seq<char>, HostRecord>,
    host: Seq<char>,
    svc: ServiceView,
    now: u64,
) -> Map<Seq<char>, HostRecord> {
    if eligible(host, svc) {
        m.insert(host, HostRecord { inserted: now, max_age: lifetime_of(svc) })
    } else {
        m
    }
}

/// Whether `host` has an entry that has not expired at `now`.
pub open spec fn fresh(m: Map<Seq<char>, HostRecord>, host: Seq<char>, now: u64) -> bool {
    m.contains_key(host) && elapsed(m[host].inserted, now) <= m[host].max_age
}

/// The cache after looking up `host` at `now`: an expired entry is dropped.
pub open spec fn after_find(m: Map<Seq<char>, HostRecord>, host: Seq<char>, now: u64) -> Map<
    Seq<char>,
    HostRecord,
> {
    if fresh(m, host, now) {
        m
    } else {
        m.remove(host)
    }
}

/// The cache after offering the services in order, stopping at the first
/// one that is stored.
pub open spec fn after_services(
    m: Map<Seq<char>, HostRecord>,
    host: Seq<char>,
    svcs: Seq<ServiceView>,
    now: u64,
) -> Map<Seq<char>, HostRecord>
    decreases svcs.len(),
{
    if svcs.len() == 0 {
        m
    } else if eligible(host, svcs[0]) {
        after_insert(m, host, svcs[0], now)
    } else {
        after_services(m, host, svcs.drop_first(), now)
    }
}

/// The cache after an advertisement from `host` at `now`.
pub open spec fn after_advertisement(
    m: Map<Seq<char>, HostRecord>,
    host: Seq<char>,
    adv: AltServiceView,
    now: u64,
) -> Map<Seq<char>, HostRecord> {
    match adv {
        AltServiceView::Clear => m.remove(host),
        AltServiceView::Services(svcs) => after_services(m, host, svcs, now),
    }
}

/// Hosts known to serve HTTP/3, each with the time it was learnt and the
/// advertised lifetime.
pub struct KnownHosts {
    table: Table<String, HostRecord>,
    clock: Clock,
}

impl KnownHosts {
    pub closed spec fn view(&self) -> Map<Seq<char>, HostRecord> {
        self.table@
    }

    pub closed spec fn wf(&self) -> bool {
        self.table.wf()
    }

    pub fn new() -> (r: KnownHosts)
        ensures
            r.wf(),
            r@ == Map::<Seq<char>, HostRecord>::empty(),
    {
        KnownHosts { table: Table::new(), clock: Clock::new() }
    }

    /// Stores `host` if `srv` is eligible, as learnt at `now`.
    pub fn try_insert_at(&mut self, host: &str, srv: &Service, now: u64) -> (r: bool)
        requires
            old(self).wf(),
        ensures
            final(self).wf(),
            r == eligible(host@, srv@),
            final(self)@ == after_insert(old(self)@, host@, srv@, now),
    {
        let id = chars_of(srv.id.as_str());
        let adv_host = chars_of(srv.authority.host.as_str());
        let own = chars_of(host);
        if same_chars(&id, &['h', '3']) && (adv_host.len() == 0 || same_chars(&adv_host, own.as_slice()))
            && srv.authority.port == H3_PORT {
            let max_age = match srv.max_age {
                Some(a) => a,
                None => DEFAULT_MAX_AGE,
            };
            self.table.put(host.to_owned(), HostRecord { inserted: now, max_age });
            true
        } else {
            false
        }
    }

    /// Stores `host` if `srv` is eligible, as learnt now.
    pub fn try_insert(&mut self, host: &str, srv: &Service) -> (r: bool)
        requires
            old(self).wf(),
        ensures
            final(self).wf(),
            r == eligible(host@, srv@),
            r ==> final(self)@ == old(self)@.insert(
                host@,
                HostRecord { inserted: final(self)@[host@].inserted, max_age: lifetime_of(srv@) },
            ),
            !r ==> final(self)@ == old(self)@,
    {
        let now = self.clock.now_secs();
        self.try_insert_at(host, srv, now)
    }

    /// Whether `host` has an entry that has not expired at `now`; an expired
    /// entry is dropped.
    pub fn find_at(&mut self, host: &str, now: u64) -> (r: bool)
        requires
            old(self).wf(),
        ensures
            final(self).wf(),
            r == fresh(old(self)@, host@, now),
            final(self)@ == after_find(old(self)@, host@, now),
    {
        let key = host.to_owned();
        match self.table.remove(&key) {
            Some(rec) => {
                let age: u64 = if now >= rec.inserted {
                    now - rec.inserted
                } else {
                    0
                };
                if age <= rec.max_age {
                    self.table.put(key, rec);
                    assert(self@ =~= old(self)@);
                    true
                } else {
                    false
                }
            },
            None => false,
        }
    }

    /// Whether `host` has an entry that has not expired now; an expired entry
    /// is dropped.
    pub fn find(&mut self, host: &str) -> (r: bool)
        requires
            old(self).wf(),
        ensures
            final(self).wf(),
            r ==> old(self)@.contains_key(host@) && final(self)@ == old(self)@,
            !r ==> final(self)@ == old(self)@.remove(host@),
            exists|t: u64|
                r == fresh(old(self)@, host@, t) && final(self)@ == after_find(old(self)@, host@, t),
    {
        let now = self.clock.now_secs();
        let r = self.find_at(host, now);
        assert(r == fresh(old(self)@, host@, now) && self@ == after_find(old(self)@, host@, now));
        r
    }

    /// Whether a request to `host` goes over HTTP/3 because the host
    /// advertised it: only a request whose URI names no port consults the
    /// cache, at `now`.
    pub fn advertised_h3_at(&mut self, host: &str, explicit_port: bool, now: u64) -> (r: bool)
        requires
            old(self).wf(),
        ensures
            final(self).wf(),
            r == (!explicit_port && fresh(old(self)@, host@, now)),
            final(self)@ == if explicit_port {
                old(self)@
            } else {
                after_find(old(self)@, host@, now)
            },
    {
        !explicit_port && self.find_at(host, now)
    }

    /// Whether a request to `host` goes over HTTP/3 because the host
    /// advertised it, consulting the cache now.
    pub fn advertised_h3(&mut self, host: &str, explicit_port: bool) -> (r: bool)
        requires
            old(self).wf(),
        ensures
            final(self).wf(),
            explicit_port ==> !r && final(self)@ == old(self)@,
            r ==> old(self)@.contains_key(host@) && final(self)@ == old(self)@,
            !explicit_port && !r ==> final(self)@ == old(self)@.remove(host@),
    {
        let now = self.clock.now_secs();
        self.advertised_h3_at(host, explicit_port, now)
    }

    /// Forgets `host`.
    pub fn clear(&mut self, host: &str)
        requires
            old(self).wf(),
        ensures
            final(self).wf(),
            final(self)@ == old(self)@.remove(host@),
    {
        let key = host.to_owned();
        let _ = self.table.remove(&key);
    }

    /// Applies an advertisement that `host` sent at `now`: `clear` forgets the
    /// host, a list stores the first eligible service in it.
    pub fn apply_at(&mut self, host: &str, adv: &AltService, now: u64)
        requires
            old(self).wf(),
        ensures
            final(self).wf(),
            final(self)@ == after_advertisement(old(self)@, host@, adv@, now),
    {
        match adv {
            AltService::Clear => self.clear(host),
            AltService::Services(svcs) => {
                let ghost all = service_views(svcs@);
                let mut i: usize = 0;
                assert(all.skip(0) =~= all);
                while i < svcs.len()
                    invariant
                        self.wf(),
                        all == service_views(svcs@),
                        adv@ == AltServiceView::Services(all),
                        i <= svcs.len(),
                        after_services(old(self)@, host@, all, now) == after_services(
                            self@,
                            host@,
                            all.skip(i as int),
                            now,
                        ),
                        self@ == old(self)@,
                    decreases svcs.len() - i,
                {
                    assert(all.skip(i as int)[0] == svcs@[i as int]@);
                    assert(all.skip(i as int).drop_first() =~= all.skip(i + 1));
                    if self.try_insert_at(host, &svcs[i], now) {
                        assert(after_services(old(self)@, host@, all.skip(i as int), now) == self@);
                        return;
                    }
                    i += 1;
                }
            },
        }
    }

    /// Applies an advertisement that `host` sent now.
    pub fn apply(&mut self, host: &str, adv: &AltService)
        requires
            old(self).wf(),
        ensures
            final(self).wf(),
            adv is Clear ==> final(self)@ == old(self)@.remove(host@),
            exists|t: u64| final(self)@ == after_advertisement(old(self)@, host@, adv@, t),
    {
        let now = self.clock.now_secs();
        self.apply_at(host, adv, now);
        assert(self@ == after_advertisement(old(self)@, host@, adv@, now));
    }
}


proof fn lemma_strip_white_prefix(pre: Seq<char>, x: Seq<char>)
    requires
        forall|i: int| 0 <= i < pre.len() ==> is_white(#[trigger] pre[i]),
    ensures
        strip_front(pre + x, Strip::White) == strip_front(x, Strip::White),
    decreases pre.len(),
{
    if pre.len() > 0 {
        assert((pre + x)[0] == pre[0]);
        assert((pre + x).drop_first() =~= pre.drop_first() + x);
        assert forall|i: int| 0 <= i < pre.drop_first().len() implies is_white(
            #[trigger] pre.drop_first()[i],
        ) by {
            assert(pre.drop_first()[i] == pre[i + 1]);
        }
        lemma_strip_white_prefix(pre.drop_first(), x);
    } else {
        assert(pre + x =~= x);
    }
}

proof fn lemma_strip_white_suffix(x: Seq<char>, post: Seq<char>)
    requires
        forall|i: int| 0 <= i < post.len() ==> is_white(#[trigger] post[i]),
    ensures
        strip_back(x + post, Strip::White) == strip_back(x, Strip::White),
    decreases post.len(),
{
    if post.len() > 0 {
        assert((x + post).last() == post.last());
        assert((x + post).drop_last() =~= x + post.drop_last());
        assert forall|i: int| 0 <= i < post.drop_last().len() implies is_white(
            #[trigger] post.drop_last()[i],
        ) by {
            assert(post.drop_last()[i] == post[i]);
        }
        lemma_strip_white_suffix(x, post.drop_last());
    } else {
        assert(x + post =~= x);
    }
}

/// `clear` is read as the clear directive whatever whitespace surrounds it.
pub proof fn clear_ignores_whitespace(pre: Seq<char>, post: Seq<char>)
    requires
        forall|i: int| 0 <= i < pre.len() ==> is_white(#[trigger] pre[i]),
        forall|i: int| 0 <= i < post.len() ==> is_white(#[trigger] post[i]),
    ensures
        parse_advertisement(pre + clear_word() + post) == Ok::<AltServiceView, ParseFault>(
            AltServiceView::Clear,
        ),
{
    let w = clear_word();
    assert(pre + w + post =~= pre + (w + post));
    lemma_strip_white_prefix(pre, w + post);
    assert((w + post)[0] == 'c');
    assert(strip_front(w + post, Strip::White) == w + post);
    lemma_strip_white_suffix(w, post);
    assert(w.last() == 'r');
    assert(strip_back(w, Strip::White) == w);
}

/// Clearing a host twice leaves the cache as clearing it once, and clearing
/// an empty cache leaves it empty.
pub proof fn clear_is_idempotent(m: Map<Seq<char>, HostRecord>, host: Seq<char>, now: u64)
    ensures
        after_advertisement(
            after_advertisement(m, host, AltServiceView::Clear, now),
            host,
            AltServiceView::Clear,
            now,
        ) == after_advertisement(m, host, AltServiceView::Clear, now),
        after_advertisement(Map::empty(), host, AltServiceView::Clear, now) == Map::<
            Seq<char>,
            HostRecord,
        >::empty(),
{
    assert(m.remove(host).remove(host) =~= m.remove(host));
    assert(Map::<Seq<char>, HostRecord>::empty().remove(host) =~= Map::empty());
}

/// An entry stored at `now` is found `e` seconds later exactly when `e` is
/// at most its lifetime; a lifetime of zero lasts the second of storing only.
pub proof fn expiry_boundary(
    m: Map<Seq<char>, HostRecord>,
    host: Seq<char>,
    svc: ServiceView,
    now: u64,
    e: u64,
)
    requires
        eligible(host, svc),
        now + e <= u64::MAX,
    ensures
        fresh(after_insert(m, host, svc, now), host, (now + e) as u64) == (e <= lifetime_of(svc)),
        svc.max_age == Some(0u64) && now < u64::MAX ==> fresh(after_insert(m, host, svc, now), host, now)
            && !fresh(after_insert(m, host, svc, now), host, (now + 1) as u64),
{
}

/// Only `h3` on port 443 at the same or an unnamed host is stored: another
/// port or another named host leaves the cache as it was.
pub proof fn eligibility_filter(
    m: Map<Seq<char>, HostRecord>,
    host: Seq<char>,
    svc: ServiceView,
    now: u64,
)
    ensures
        svc.port != H3_PORT ==> after_insert(m, host, svc, now) == m,
        svc.host.len() > 0 && svc.host != host ==> after_insert(m, host, svc, now) == m,
        svc.id == h3_id() && svc.host.len() == 0 && svc.port == H3_PORT ==> after_insert(
            m,
            host,
            svc,
            now,
        ).contains_key(host),
{
}

} // verus!
