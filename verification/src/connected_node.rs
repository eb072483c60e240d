//! Network-facing configuration of a node: endpoint validation, the
//! per-node connection settings and the output rate limiter.

use vstd::prelude::*;
use vstd::hash_map::StringHashMap;
use crate::text::{
    all_digits, chars_contain, chars_occur_at, chars_of, chars_range, char_position_from,
    char_rposition, contains_seq, digits_value, is_digit, lemma_find_from_range,
    occurs_at, rfind, split_from, split_on,
};
use crate::json::{collect_strings, string_items, JsonValue};
use crate::text::concat_str;
use crate::clock::{in_range, Clock, ClockModel, Clockwork, ClockworkModel, TimePoint};
use crate::encoders::{variant_name_of, DataKind};

verus! {

/// One dotted-quad component: one to three decimal digits worth at most 255.
pub open spec fn valid_octet(p: Seq<char>) -> bool {
    &&& 1 <= p.len() <= 3
    &&& all_digits(p)
    &&& digits_value(p, 10) <= 255
}

/// `host` is four valid octets separated by dots.
pub open spec fn is_dotted_quad(host: Seq<char>) -> bool {
    let parts = split_on(host, '.');
    parts.len() == 4 && forall|i: int| 0 <= i < 4 ==> valid_octet(#[trigger] parts[i])
}

/// `addr` reads `host:port` (split at its last `:`) with a non-empty decimal
/// port and a host that is `localhost`, `*` or a dotted quad.
pub open spec fn valid_host_port(addr: Seq<char>) -> bool {
    let k = rfind(addr, ':');
    let host = addr.take(k);
    let port = addr.skip(k + 1);
    &&& k >= 0
    &&& port.len() > 0
    &&& all_digits(port)
    &&& (host == "localhost"@ || host == "*"@ || is_dotted_quad(host))
}

/// The address part of an endpoint: what follows `tcp://` when it starts
/// with it, else the whole endpoint.
pub open spec fn endpoint_address(ep: Seq<char>) -> Seq<char> {
    if occurs_at(ep, "tcp://"@, 0) {
        ep.skip(6)
    } else {
        ep
    }
}

/// An endpoint passes `check_endpoints`: it mentions `inproc://`, or its
/// address is a valid `host:port`.
pub open spec fn valid_endpoint(ep: Seq<char>) -> bool {
    contains_seq(ep, "inproc://"@) || valid_host_port(endpoint_address(ep))
}

proof fn lemma_rfind_host_port(host: Seq<char>, port: Seq<char>, end: int)
    requires
        all_digits(port),
        host.len() + 1 <= end <= host.len() + 1 + port.len(),
    ensures
        crate::text::rfind_before(host + seq![':'] + port, ':', end) == host.len(),
    decreases end,
{
    let a = host + seq![':'] + port;
    if end > host.len() + 1 {
        assert(a[end - 1] == port[end - 1 - host.len() - 1]);
        assert(is_digit(port[end - 1 - host.len() - 1]));
        lemma_rfind_host_port(host, port, end - 1);
    } else {
        assert(a[end - 1] == ':');
    }
}

/// An address is `host:port` split at its last colon: a non-empty decimal
/// port after `localhost` or `*` makes a valid address, and so does one
/// after any dotted quad of octets up to 255; an empty port never does.
pub proof fn law_host_port(host: Seq<char>, port: Seq<char>)
    requires
        all_digits(port),
    ensures
        port.len() > 0 && (host == "localhost"@ || host == "*"@ || is_dotted_quad(host))
            ==> valid_host_port(host + seq![':'] + port),
        port.len() == 0 ==> !valid_host_port(host + seq![':'] + port),
{
    let a = host + seq![':'] + port;
    lemma_rfind_host_port(host, port, a.len() as int);
    assert(a.take(host.len() as int) =~= host);
    assert(a.skip(host.len() as int + 1) =~= port);
}

proof fn lemma_decimal_short(n: nat)
    requires
        n < 1000,
    ensures
        crate::file_logger::decimal_text(n).len() <= 3,
{
    let d = |m: nat| crate::file_logger::decimal_text(m);
    if n >= 10 {
        assert(d(n).len() == d(n / 10).len() + 1);
        if n / 10 >= 10 {
            assert((n / 10) / 10 < 10);
            assert(d(n / 10).len() == d((n / 10) / 10).len() + 1);
            assert(d((n / 10) / 10).len() == 1);
        } else {
            assert(d(n / 10).len() == 1);
        }
    }
}

/// A dotted-quad part written in decimal is valid exactly when it is at
/// most 255.
pub proof fn law_octets(n: nat)
    ensures
        valid_octet(crate::file_logger::decimal_text(n)) <==> n <= 255,
{
    let t = crate::file_logger::decimal_text(n);
    crate::file_logger::law_decimal_text(n);
    assert forall|i: int| 0 <= i < t.len() implies is_digit(#[trigger] t[i]) by {
        assert(crate::text::digit_value(t[i], 10) is Some);
    }
    if n <= 255 {
        lemma_decimal_short(n);
        crate::file_logger::lemma_decimal_len(n);
    }
}

/// Whether every character of `v` is an ASCII decimal digit.
fn digits_only(v: &Vec<char>) -> (r: bool)
    ensures
        r == all_digits(v@),
{
    let mut i: usize = 0;
    while i < v.len()
        invariant
            i <= v.len(),
            forall|j: int| 0 <= j < i ==> is_digit(#[trigger] v@[j]),
        decreases v.len() - i,
    {
        if v[i] < '0' || v[i] > '9' {
            assert(!is_digit(v@[i as int]));
            return false;
        }
        i = i + 1;
    }
    true
}

/// Whether `s[lo..hi]` is a valid octet.
fn octet_in_range(s: &Vec<char>, lo: usize, hi: usize) -> (r: bool)
    requires
        lo <= hi <= s.len(),
    ensures
        r == valid_octet(s@.subrange(lo as int, hi as int)),
{
    let ghost p = s@.subrange(lo as int, hi as int);
    if hi - lo < 1 || hi - lo > 3 {
        return false;
    }
    let mut v: u64 = 0;
    let mut i = lo;
    while i < hi
        invariant
            lo <= i <= hi <= s.len(),
            hi - lo <= 3,
            p == s@.subrange(lo as int, hi as int),
            all_digits(s@.subrange(lo as int, i as int)),
            v as nat == digits_value(s@.subrange(lo as int, i as int), 10),
            v < 1000,
            i - lo < 3 ==> v < 100,
            i - lo < 2 ==> v < 10,
            i - lo < 1 ==> v == 0,
        decreases hi - i,
    {
        let c = s[i];
        if c < '0' || c > '9' {
            assert(p[i - lo] == c);
            return false;
        }
        proof {
            let q = s@.subrange(lo as int, i + 1);
            assert(q.drop_last() =~= s@.subrange(lo as int, i as int));
            assert(q.last() == c);
        }
        v = v * 10 + (c as u64 - 48);
        i = i + 1;
    }
    assert(s@.subrange(lo as int, i as int) =~= p);
    v <= 255
}

/// Whether `h` is four valid octets separated by dots.
fn dotted_quad(h: &Vec<char>) -> (r: bool)
    ensures
        r == is_dotted_quad(h@),
{
    let ghost mut done: Seq<Seq<char>> = seq![];
    let mut count: usize = 0;
    let mut pos: usize = 0;
    loop
        invariant
            pos <= h.len(),
            count == done.len(),
            count <= 3,
            split_on(h@, '.') == done + split_from(h@, '.', pos as int),
            forall|i: int| 0 <= i < done.len() ==> valid_octet(#[trigger] done[i]),
        decreases h.len() - pos,
    {
        let next = char_position_from(h, '.', pos);
        proof {
            lemma_find_from_range(h@, '.', pos as int);
        }
        match next {
            None => {
                let ok = octet_in_range(h, pos, h.len());
                proof {
                    let parts = split_on(h@, '.');
                    let last = h@.subrange(pos as int, h.len() as int);
                    assert(split_from(h@, '.', pos as int) =~= seq![last]);
                    assert(parts =~= done.push(last));
                    if ok && count == 3 {
                        assert forall|i: int| 0 <= i < 4 implies valid_octet(#[trigger] parts[i]) by {
                            if i < 3 {
                                assert(parts[i] == done[i]);
                            }
                        }
                    }
                    if !ok {
                        assert(!valid_octet(parts[count as int]));
                    }
                }
                return ok && count == 3;
            },
            Some(j) => {
                let ok = octet_in_range(h, pos, j);
                proof {
                    let part = h@.subrange(pos as int, j as int);
                    assert(split_from(h@, '.', pos as int) =~= seq![part] + split_from(
                        h@,
                        '.',
                        j + 1,
                    ));
                    assert(done + (seq![part] + split_from(h@, '.', j + 1)) =~= done.push(part)
                        + split_from(h@, '.', j + 1));
                }
                if !ok {
                    proof {
                        let parts = split_on(h@, '.');
                        assert(parts[count as int] == h@.subrange(pos as int, j as int));
                        lemma_split_from_nonempty(h@, '.', j + 1);
                    }
                    return false;
                }
                if count == 3 {
                    proof {
                        let parts = split_on(h@, '.');
                        lemma_split_from_nonempty(h@, '.', j + 1);
                        assert(parts.len() > 4);
                    }
                    return false;
                }
                proof {
                    done = done.push(h@.subrange(pos as int, j as int));
                }
                count = count + 1;
                pos = j + 1;
            },
        }
    }
}

proof fn lemma_split_from_nonempty<T>(s: Seq<T>, c: T, pos: int)
    requires
        0 <= pos <= s.len(),
    ensures
        split_from(s, c, pos).len() >= 1,
    decreases s.len() - pos,
{
    lemma_find_from_range(s, c, pos);
}

/// Check if an address matches "IP:port" or "localhost:port".
pub fn is_valid_ip_or_localhost_with_port(addr: &str) -> (r: bool)
    ensures
        r == valid_host_port(addr@),
{
    let a = chars_of(addr);
    let k = match char_rposition(&a, ':') {
        Some(k) => k,
        None => return false,
    };
    let host = chars_range(&a, 0, k);
    let port = chars_range(&a, k + 1, a.len());
    assert(host@ =~= a@.take(k as int));
    assert(port@ =~= a@.skip(k + 1));
    if port.len() == 0 {
        return false;
    }
    if !digits_only(&port) {
        return false;
    }
    assert(all_digits(port@));
    let localhost = chars_of("localhost");
    let star = chars_of("*");
    proof {
        reveal_strlit("localhost");
        reveal_strlit("*");
    }
    if chars_occur_at(&host, &localhost, 0) && host.len() == localhost.len() {
        assert(host@.subrange(0, localhost.len() as int) == localhost@);
        assert(host@ =~= host@.subrange(0, localhost.len() as int));
        return true;
    }
    if chars_occur_at(&host, &star, 0) && host.len() == star.len() {
        assert(host@.subrange(0, star.len() as int) == star@);
        assert(host@ =~= host@.subrange(0, star.len() as int));
        return true;
    }
    proof {
        if host@ == "localhost"@ {
            assert(host@.subrange(0, localhost.len() as int) =~= localhost@);
        }
        if host@ == "*"@ {
            assert(host@.subrange(0, star.len() as int) =~= star@);
        }
    }
    dotted_quad(&host)
}

/// Validates endpoints: each must name an in-process transport or a
/// `host:port` address, optionally after `tcp://`.
/// Returns true if all endpoints appear valid.
pub fn check_endpoints(endpoints: &[String]) -> (r: bool)
    ensures
        r == forall|i: int| 0 <= i < endpoints@.len() ==> valid_endpoint(#[trigger] endpoints@[i]@),
{
    let inproc = chars_of("inproc://");
    let tcp = chars_of("tcp://");
    proof {
        reveal_strlit("inproc://");
        reveal_strlit("tcp://");
    }
    let mut i: usize = 0;
    while i < endpoints.len()
        invariant
            i <= endpoints@.len(),
            inproc@ == "inproc://"@,
            tcp@ == "tcp://"@,
            forall|j: int| 0 <= j < i ==> valid_endpoint(#[trigger] endpoints@[j]@),
        decreases endpoints.len() - i,
    {
        let ep = chars_of(endpoints[i].as_str());
        if !chars_contain(&ep, &inproc) {
            proof {
                reveal_strlit("tcp://");
            }
            let addr = if chars_occur_at(&ep, &tcp, 0) {
                chars_range(&ep, 6, ep.len())
            } else {
                chars_range(&ep, 0, ep.len())
            };
            proof {
                reveal_strlit("tcp://");
                if occurs_at(ep@, tcp@, 0) {
                    assert(tcp@.len() == 6);
                    assert(addr@ =~= ep@.skip(6));
                } else {
                    assert(addr@ =~= ep@);
                }
            }
            let addr_str = crate::text::string_of(&addr);
            if !is_valid_ip_or_localhost_with_port(addr_str.as_str()) {
                return false;
            }
        }
        i = i + 1;
    }
    true
}


/// A node that takes part in network publishing and subscribing.
pub trait ConnectedNode {
    /// The endpoint its data is published on.
    fn data_endpoint(&self) -> &str;

    /// The endpoint its commands arrive on.
    fn command_endpoint(&self) -> &str;

    /// The clocks that stamp its data.
    fn clockwork(&self) -> &Clockwork;
}

/// Configuration for network endpoints.
#[derive(Clone, Debug)]
pub struct EndpointConfig {
    pub data_publish: String,
    pub data_subscribe: Vec<String>,
    pub command_in: String,
    pub command_out: String,
    pub command_input_endpoints: Vec<String>,
}

impl Default for EndpointConfig {
    /// No endpoints at all.
    fn default() -> (r: Self)
        ensures
            r.data_publish@.len() == 0,
            r.data_subscribe@.len() == 0,
            r.command_in@.len() == 0,
            r.command_out@.len() == 0,
            r.command_input_endpoints@.len() == 0,
    {
        EndpointConfig {
            data_publish: String::new(),
            data_subscribe: Vec::new(),
            command_in: String::new(),
            command_out: String::new(),
            command_input_endpoints: Vec::new(),
        }
    }
}

/// Settings of a connected node: which clock stamps its data, whether it
/// generates a clock of its own or stamps data itself, how often it may
/// publish data and commands, and which data types it takes in.
#[derive(Clone, Debug)]
pub struct ConnectedNodeConfig {
    pub data_clock_name: String,
    pub is_clock_generator: bool,
    pub is_clock_manual: bool,
    pub generated_clock_name: String,
    pub publish_interval_ms: u64,
    pub command_publish_interval_ms: u64,
    pub input_data_filter: Vec<String>,
}

impl Default for ConnectedNodeConfig {
    /// Data stamped by the system clock, no clock generated, data published
    /// without limit and commands at most every 100 ms, no data filter.
    fn default() -> (r: Self)
        ensures
            r.data_clock_name@ == "system_clock"@,
            !r.is_clock_generator,
            !r.is_clock_manual,
            r.generated_clock_name@.len() == 0,
            r.publish_interval_ms == 0,
            r.command_publish_interval_ms == 100,
            r.input_data_filter@.len() == 0,
    {
        ConnectedNodeConfig {
            data_clock_name: "system_clock".to_owned(),
            is_clock_generator: false,
            is_clock_manual: false,
            generated_clock_name: String::new(),
            publish_interval_ms: 0,
            command_publish_interval_ms: 100,
            input_data_filter: Vec::new(),
        }
    }
}

impl ConnectedNodeConfig {
    /// Reads the settings from a node's JSON configuration; each missing
    /// (or mistyped) entry takes its default, and the generated clock is
    /// named after the node unless the configuration names it.
    pub fn from_json(config: &JsonValue, node_name: &str) -> (r: Self)
        ensures
            r.data_clock_name@ == match config.spec_str_field("dataClockName"@) {
                Some(t) => t,
                None => "system_clock"@,
            },
            r.is_clock_generator == match config.spec_bool_field("isClockGenerator"@) {
                Some(b) => b,
                None => false,
            },
            r.is_clock_manual == match config.spec_bool_field("isClockManual"@) {
                Some(b) => b,
                None => false,
            },
            r.generated_clock_name@ == match config.spec_str_field("generatedClockName"@) {
                Some(t) => t,
                None => node_name@ + "_clock"@,
            },
            r.publish_interval_ms == match config.spec_u64_field("publishIntervalMs"@) {
                Some(n) => n,
                None => 0,
            },
            r.command_publish_interval_ms == match config.spec_u64_field(
                "commandPublishIntervalMs"@,
            ) {
                Some(n) => n,
                None => 100,
            },
            r.input_data_filter@.map_values(|s: String| s@) == match config.spec_get(
                "inputDataFilter"@,
            ) {
                Some(JsonValue::Array(items)) => string_items(items@),
                _ => Seq::<Seq<char>>::empty(),
            },
    {
        let data_clock_name = config.value_str("dataClockName", "system_clock");
        let is_clock_generator = config.value_bool("isClockGenerator", false);
        let is_clock_manual = config.value_bool("isClockManual", false);
        let default_clock_name = concat_str(node_name, "_clock");
        let generated_clock_name = config.value_str("generatedClockName", default_clock_name.as_str());
        let publish_interval_ms = config.value_u64("publishIntervalMs", 0);
        let command_publish_interval_ms = config.value_u64("commandPublishIntervalMs", 100);
        let input_data_filter = match config.get("inputDataFilter") {
            Some(v) => match v.as_array() {
                Some(items) => collect_strings(items),
                None => Vec::new(),
            },
            None => Vec::new(),
        };
        proof {
            if !(config.spec_get("inputDataFilter"@) matches Some(JsonValue::Array(_))) {
                assert(input_data_filter@.map_values(|s: String| s@) =~= Seq::<Seq<char>>::empty());
            }
        }
        ConnectedNodeConfig {
            data_clock_name,
            is_clock_generator,
            is_clock_manual,
            generated_clock_name,
            publish_interval_ms,
            command_publish_interval_ms,
            input_data_filter,
        }
    }
}

/// Declares `std::time::Instant`, the monotonic clock reading that a rate
/// limiter measures its time from.
#[verifier::external_type_specification]
#[verifier::external_body]
pub struct ExInstant(std::time::Instant);

/// Reads the monotonic clock.
///
/// Calls `Instant::now()`. Nothing is claimed of the reading.
#[verifier::external_body]
fn instant_now() -> (r: std::time::Instant) {
    std::time::Instant::now()
}

/// Nanoseconds elapsed since `origin` was read.
///
/// Calls `Instant::elapsed` and converts the `Duration` to whole
/// nanoseconds. Nothing is claimed of the value: it depends on the time of
/// the call.
#[verifier::external_body]
fn nanos_since(origin: &std::time::Instant) -> (r: u128) {
    origin.elapsed().as_nanos()
}

/// Time from `then` to `now`, zero when `now` is not later (as
/// `Instant::duration_since` saturates).
pub open spec fn elapsed_nanos(now: u128, then: u128) -> int {
    if now >= then {
        now - then
    } else {
        0
    }
}

/// Whether an output may go out at `now` under a limit of one per
/// `interval_ms` milliseconds, when the last one of its kind went out at
/// `last`: always without a limit or without an earlier output, else once
/// the interval has passed.
pub open spec fn rate_allows(interval_ms: u64, last: Option<u128>, now: u128) -> bool {
    interval_ms == 0 || match last {
        None => true,
        Some(t) => elapsed_nanos(now, t) >= interval_ms * crate::clock::NANOS_PER_MILLI,
    }
}

/// The send times that a rate limiter keeps after deciding on an output of
/// kind `key` at `now`: the time is recorded when a limit is set and the
/// output goes out.
pub open spec fn rate_record(
    stamps: Map<Seq<char>, u128>,
    interval_ms: u64,
    key: Seq<char>,
    now: u128,
) -> Map<Seq<char>, u128> {
    if interval_ms != 0 && rate_allows(interval_ms, stamps.get(key), now) {
        stamps.insert(key, now)
    } else {
        stamps
    }
}

/// Decides on one output of kind `key` at `now` and records its time when it
/// goes out.
fn rate_check(stamps: &mut StringHashMap<u128>, interval_ms: u64, key: &str, now: u128) -> (r: bool)
    ensures
        r == rate_allows(interval_ms, old(stamps)@.get(key@), now),
        final(stamps)@ == rate_record(old(stamps)@, interval_ms, key@, now),
{
    if interval_ms == 0 {
        return true;
    }
    let interval: u128 = interval_ms as u128 * crate::clock::NANOS_PER_MILLI;
    match stamps.get(key) {
        Some(last) => {
            let last = *last;
            let elapsed: u128 = if now >= last { now - last } else { 0 };
            if elapsed < interval {
                return false;
            }
        },
        None => {},
    }
    stamps.insert(key.to_owned(), now);
    true
}

/// Rate limiter for data publishing (per data type) and command publishing
/// (per topic). Times are nanoseconds of the monotonic clock since the
/// limiter was made.
pub struct OutputRateLimiter {
    m_publish_interval_ms: u64,
    m_command_publish_interval_ms: u64,
    m_origin: std::time::Instant,
    m_last_data_publish: StringHashMap<u128>,
    m_last_command_publish: StringHashMap<u128>,
}

impl OutputRateLimiter {
    /// The least time between two published data items of one type.
    pub closed spec fn data_interval_ms(&self) -> u64 {
        self.m_publish_interval_ms
    }

    /// The least time between two published commands of one topic.
    pub closed spec fn command_interval_ms(&self) -> u64 {
        self.m_command_publish_interval_ms
    }

    /// When data of each type was last published.
    pub closed spec fn data_stamps(&self) -> Map<Seq<char>, u128> {
        self.m_last_data_publish@
    }

    /// When a command of each topic was last published.
    pub closed spec fn command_stamps(&self) -> Map<Seq<char>, u128> {
        self.m_last_command_publish@
    }

    pub fn new(publish_interval_ms: u64, command_publish_interval_ms: u64) -> (r: Self)
        ensures
            r.data_interval_ms() == publish_interval_ms,
            r.command_interval_ms() == command_publish_interval_ms,
            r.data_stamps() == Map::<Seq<char>, u128>::empty(),
            r.command_stamps() == Map::<Seq<char>, u128>::empty(),
    {
        let r = OutputRateLimiter {
            m_publish_interval_ms: publish_interval_ms,
            m_command_publish_interval_ms: command_publish_interval_ms,
            m_origin: instant_now(),
            m_last_data_publish: StringHashMap::new(),
            m_last_command_publish: StringHashMap::new(),
        };
        assert(r.data_stamps() =~= Map::<Seq<char>, u128>::empty());
        assert(r.command_stamps() =~= Map::<Seq<char>, u128>::empty());
        r
    }

    /// Decides whether data of type `variant_name` may be published at
    /// `now` (nanoseconds since the limiter was made), and records the time
    /// when it may.
    pub fn should_publish_data_at(&mut self, variant_name: &str, now: u128) -> (r: bool)
        ensures
            r == rate_allows(old(self).data_interval_ms(), old(self).data_stamps().get(variant_name@), now),
            final(self).data_stamps() == rate_record(
                old(self).data_stamps(),
                old(self).data_interval_ms(),
                variant_name@,
                now,
            ),
            final(self).command_stamps() == old(self).command_stamps(),
            final(self).data_interval_ms() == old(self).data_interval_ms(),
            final(self).command_interval_ms() == old(self).command_interval_ms(),
    {
        rate_check(&mut self.m_last_data_publish, self.m_publish_interval_ms, variant_name, now)
    }

    /// Decides whether a command on `topic` may be published at `now`
    /// (nanoseconds since the limiter was made), and records the time when
    /// it may.
    pub fn should_publish_command_at(&mut self, topic: &str, now: u128) -> (r: bool)
        ensures
            r == rate_allows(old(self).command_interval_ms(), old(self).command_stamps().get(topic@), now),
            final(self).command_stamps() == rate_record(
                old(self).command_stamps(),
                old(self).command_interval_ms(),
                topic@,
                now,
            ),
            final(self).data_stamps() == old(self).data_stamps(),
            final(self).data_interval_ms() == old(self).data_interval_ms(),
            final(self).command_interval_ms() == old(self).command_interval_ms(),
    {
        rate_check(&mut self.m_last_command_publish, self.m_command_publish_interval_ms, topic, now)
    }

    /// Returns true if data of type `variant_name` should be published now
    /// (not rate-limited).
    pub fn should_publish_data(&mut self, variant_name: &str) -> (r: bool)
        ensures
            exists|now: u128|
                {
                    &&& r == rate_allows(old(self).data_interval_ms(), old(self).data_stamps().get(variant_name@), now)
                    &&& final(self).data_stamps() == rate_record(
                        old(self).data_stamps(),
                        old(self).data_interval_ms(),
                        variant_name@,
                        now,
                    )
                },
            old(self).data_interval_ms() == 0 ==> r,
            final(self).command_stamps() == old(self).command_stamps(),
            final(self).data_interval_ms() == old(self).data_interval_ms(),
            final(self).command_interval_ms() == old(self).command_interval_ms(),
    {
        let now = nanos_since(&self.m_origin);
        self.should_publish_data_at(variant_name, now)
    }

    /// Returns true if a command on `topic` should be published now (not
    /// rate-limited).
    pub fn should_publish_command(&mut self, topic: &str) -> (r: bool)
        ensures
            exists|now: u128|
                {
                    &&& r == rate_allows(old(self).command_interval_ms(), old(self).command_stamps().get(topic@), now)
                    &&& final(self).command_stamps() == rate_record(
                        old(self).command_stamps(),
                        old(self).command_interval_ms(),
                        topic@,
                        now,
                    )
                },
            old(self).command_interval_ms() == 0 ==> r,
            final(self).data_stamps() == old(self).data_stamps(),
            final(self).data_interval_ms() == old(self).data_interval_ms(),
            final(self).command_interval_ms() == old(self).command_interval_ms(),
    {
        let now = nanos_since(&self.m_origin);
        self.should_publish_command_at(topic, now)
    }
}

/// Under a limit, once an output of kind `key` goes out at `t1`, the next
/// one of that kind is refused until the interval has passed and allowed
/// from then on; what other kinds see is unchanged.
pub proof fn law_rate_limit_per_kind(
    stamps: Map<Seq<char>, u128>,
    interval_ms: u64,
    key: Seq<char>,
    other: Seq<char>,
    t1: u128,
    t2: u128,
)
    requires
        interval_ms > 0,
        rate_allows(interval_ms, stamps.get(key), t1),
        other != key,
    ensures
        rate_allows(interval_ms, rate_record(stamps, interval_ms, key, t1).get(key), t2) == (
        elapsed_nanos(t2, t1) >= interval_ms * crate::clock::NANOS_PER_MILLI),
        rate_record(stamps, interval_ms, key, t1).get(other) == stamps.get(other),
{
}

/// Without a limit every output goes out and nothing is recorded.
pub proof fn law_rate_unlimited(stamps: Map<Seq<char>, u128>, key: Seq<char>, now: u128)
    ensures
        rate_allows(0, stamps.get(key), now),
        rate_record(stamps, 0, key, now) == stamps,
{
}

/// Checks whether an input data item of type `variant_name` passes the data
/// type filter. An empty filter means all data passes.
pub fn passes_data_filter(variant_name: &str, filter: &[String]) -> (r: bool)
    ensures
        r == (filter@.len() == 0 || exists|i: int| 0 <= i < filter@.len() && #[trigger] filter@[i]@ == variant_name@),
{
    if filter.len() == 0 {
        return true;
    }
    let mut i: usize = 0;
    while i < filter.len()
        invariant
            i <= filter@.len(),
            forall|j: int| 0 <= j < i ==> #[trigger] filter@[j]@ != variant_name@,
        decreases filter.len() - i,
    {
        if crate::text::str_equals(filter[i].as_str(), variant_name) {
            return true;
        }
        i = i + 1;
    }
    false
}


impl OutputRateLimiter {
    /// Nanoseconds of the monotonic clock since the limiter was made.
    pub fn now_nanos(&self) -> (r: u128) {
        nanos_since(&self.m_origin)
    }
}

/// Prepares the clocks of a connected node: a node that generates a clock
/// adds a fresh clock of the generated name to the clockwork and stamps its
/// data by it from then on.
pub fn prepare_clocks(config: &mut ConnectedNodeConfig, clockwork: &mut Clockwork)
    requires
        old(clockwork).wf(),
    ensures
        final(clockwork).wf(),
        old(config).is_clock_generator ==> {
            &&& final(clockwork)@.clocks == old(clockwork)@.clocks.insert(
                old(config).generated_clock_name@,
                ClockModel {
                    name: old(config).generated_clock_name@,
                    offset: 0,
                    last_update: 0,
                    initialized: false,
                },
            )
            &&& final(clockwork)@.active == match old(clockwork)@.active {
                Some(n) => Some(n),
                None => Some(old(config).generated_clock_name@),
            }
            &&& final(config).data_clock_name@ == old(config).generated_clock_name@
        },
        !old(config).is_clock_generator ==> final(clockwork)@ == old(clockwork)@
            && final(config).data_clock_name@ == old(config).data_clock_name@,
        final(config).generated_clock_name@ == old(config).generated_clock_name@,
        final(config).is_clock_generator == old(config).is_clock_generator,
        final(config).is_clock_manual == old(config).is_clock_manual,
        final(config).publish_interval_ms == old(config).publish_interval_ms,
        final(config).command_publish_interval_ms == old(config).command_publish_interval_ms,
        final(config).input_data_filter@ == old(config).input_data_filter@,
{
    if config.is_clock_generator {
        let clock = Clock::new(config.generated_clock_name.as_str());
        clockwork.add_clock(clock);
        config.data_clock_name = config.generated_clock_name.clone();
    }
}

/// What becomes of an output item.
#[derive(Debug, PartialEq, Eq)]
pub enum OutputStep {
    /// It is not published.
    Drop,
    /// It is published, with the node's name as its sender id when
    /// `set_sender_id`, and with the time `timestamp` when there is one.
    Publish { set_sender_id: bool, timestamp: Option<TimePoint> },
}

/// The time a node stamps on its output when the system clock reads
/// `sys_now`: the time of its data clock, unless it stamps data itself or
/// that clock is missing or was never set.
pub open spec fn output_stamp(manual: bool, clock_name: Seq<char>, cw: ClockworkModel, sys_now: TimePoint) -> Option<int> {
    if !manual && cw.clocks.contains_key(clock_name) && cw.clocks[clock_name].initialized {
        Some(sys_now.nanos + cw.clocks[clock_name].offset)
    } else {
        None
    }
}

/// `r` publishes the item, filling in its sender id when `set_sender`, and
/// stamping it with `stamp` when there is one.
pub open spec fn publishes(r: OutputStep, set_sender: bool, stamp: Option<int>) -> bool {
    match r {
        OutputStep::Publish { set_sender_id, timestamp } => set_sender_id == set_sender && match stamp {
            Some(t) => timestamp matches Some(tp) && tp.nanos == t,
            None => timestamp is None,
        },
        OutputStep::Drop => false,
    }
}

/// The clocks after a timestamp item that carries `time` (when it carries
/// one) reached a node: a clock-generating node sets its generated clock
/// by it.
pub open spec fn clocks_after_timestamp(
    generator: bool,
    name: Seq<char>,
    cw: ClockworkModel,
    time: Option<TimePoint>,
    sys_now: TimePoint,
) -> ClockworkModel {
    if generator && time is Some {
        ClockworkModel {
            clocks: cw.clocks.insert(
                name,
                ClockModel {
                    name,
                    offset: time->0.nanos - sys_now.nanos,
                    last_update: sys_now.nanos as int,
                    initialized: true,
                },
            ),
            active: cw.active,
        }
    } else {
        cw
    }
}

/// The outcome of deciding on an output item of kind `kind` when the
/// system clock reads `sys_now` and the rate limiter's clock reads
/// `mono_now`, as clocks `before` become `after`, the rate limiter's send
/// times `stamps_before` become `stamps_after`, and the decision is `r`.
/// Timestamp items only set the generated clock and are not published.
/// Other items go out unless their kind is rate-limited, with the node's
/// name when their sender id is empty and the time of the data clock (see
/// `output_stamp`).
pub open spec fn output_outcome(
    config: ConnectedNodeConfig,
    before: ClockworkModel,
    after: ClockworkModel,
    interval_ms: u64,
    stamps_before: Map<Seq<char>, u128>,
    stamps_after: Map<Seq<char>, u128>,
    kind: DataKind,
    data_time: Option<TimePoint>,
    sender_id_empty: bool,
    sys_now: TimePoint,
    mono_now: u128,
    r: OutputStep,
) -> bool {
    if kind == DataKind::Timestamp {
        &&& r == OutputStep::Drop
        &&& after == clocks_after_timestamp(
            config.is_clock_generator,
            config.generated_clock_name@,
            before,
            data_time,
            sys_now,
        )
        &&& stamps_after == stamps_before
    } else {
        let name = variant_name_of(kind);
        let allowed = rate_allows(interval_ms, stamps_before.get(name), mono_now);
        &&& after == before
        &&& stamps_after == rate_record(stamps_before, interval_ms, name, mono_now)
        &&& !allowed ==> r == OutputStep::Drop
        &&& allowed ==> publishes(
            r,
            sender_id_empty,
            output_stamp(config.is_clock_manual, config.data_clock_name@, before, sys_now),
        )
    }
}

/// Decides on an output item of kind `kind` (carrying `data_time` when it
/// is a timestamp item, and with an empty sender id when
/// `sender_id_empty`) when the system clock reads `sys_now` and the rate
/// limiter's clock reads `mono_now`.
pub fn process_output_at(
    config: &ConnectedNodeConfig,
    clockwork: &mut Clockwork,
    limiter: &mut OutputRateLimiter,
    kind: DataKind,
    data_time: Option<TimePoint>,
    sender_id_empty: bool,
    sys_now: TimePoint,
    mono_now: u128,
) -> (r: OutputStep)
    requires
        old(clockwork).wf(),
        in_range(sys_now),
        data_time matches Some(t) ==> in_range(t),
    ensures
        final(clockwork).wf(),
        output_outcome(
            *config,
            old(clockwork)@,
            final(clockwork)@,
            old(limiter).data_interval_ms(),
            old(limiter).data_stamps(),
            final(limiter).data_stamps(),
            kind,
            data_time,
            sender_id_empty,
            sys_now,
            mono_now,
            r,
        ),
        final(limiter).command_stamps() == old(limiter).command_stamps(),
        final(limiter).data_interval_ms() == old(limiter).data_interval_ms(),
        final(limiter).command_interval_ms() == old(limiter).command_interval_ms(),
{
    if kind == DataKind::Timestamp {
        if config.is_clock_generator {
            match data_time {
                Some(ts) => {
                    clockwork.update_clock_at(config.generated_clock_name.as_str(), ts, sys_now);
                },
                None => {},
            }
        }
        return OutputStep::Drop;
    }
    let mut timestamp: Option<TimePoint> = None;
    if !config.is_clock_manual {
        match clockwork.get_clock(config.data_clock_name.as_str()) {
            Some(clock) => {
                if clock.is_initialized() {
                    timestamp = Some(clock.now_at(sys_now));
                }
            },
            None => {},
        }
    }
    if !limiter.should_publish_data_at(kind.variant_name(), mono_now) {
        return OutputStep::Drop;
    }
    OutputStep::Publish { set_sender_id: sender_id_empty, timestamp }
}

/// Decides on an output item now: as `process_output_at` decides for some
/// reading of the system clock and of the rate limiter's clock.
pub fn process_output(
    config: &ConnectedNodeConfig,
    clockwork: &mut Clockwork,
    limiter: &mut OutputRateLimiter,
    kind: DataKind,
    data_time: Option<TimePoint>,
    sender_id_empty: bool,
) -> (r: OutputStep)
    requires
        old(clockwork).wf(),
        data_time matches Some(t) ==> in_range(t),
    ensures
        final(clockwork).wf(),
        exists|sys_now: TimePoint, mono_now: u128|
            in_range(sys_now) && #[trigger] output_outcome(
                *config,
                old(clockwork)@,
                final(clockwork)@,
                old(limiter).data_interval_ms(),
                old(limiter).data_stamps(),
                final(limiter).data_stamps(),
                kind,
                data_time,
                sender_id_empty,
                sys_now,
                mono_now,
                r,
            ),
        final(limiter).command_stamps() == old(limiter).command_stamps(),
        final(limiter).data_interval_ms() == old(limiter).data_interval_ms(),
        final(limiter).command_interval_ms() == old(limiter).command_interval_ms(),
{
    let sys_now = crate::clock::system_now();
    let mono_now = limiter.now_nanos();
    process_output_at(config, clockwork, limiter, kind, data_time, sender_id_empty, sys_now, mono_now)
}


/// Timestamp items are never published, and with no data rate limit every
/// other item is.
pub proof fn law_output_publication(
    config: ConnectedNodeConfig,
    before: ClockworkModel,
    after: ClockworkModel,
    interval_ms: u64,
    stamps_before: Map<Seq<char>, u128>,
    stamps_after: Map<Seq<char>, u128>,
    kind: DataKind,
    data_time: Option<TimePoint>,
    sender_id_empty: bool,
    sys_now: TimePoint,
    mono_now: u128,
    r: OutputStep,
)
    requires
        output_outcome(
            config,
            before,
            after,
            interval_ms,
            stamps_before,
            stamps_after,
            kind,
            data_time,
            sender_id_empty,
            sys_now,
            mono_now,
            r,
        ),
    ensures
        kind == DataKind::Timestamp ==> r == OutputStep::Drop,
        (kind != DataKind::Timestamp && interval_ms == 0) ==> r is Publish,
{
}

} // verus!
