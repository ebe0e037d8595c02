//! The DNS settings of the legacy netconfig file and the DNS priorities
//! that its policy gives to the connections.

use vstd::prelude::*;
use crate::ip::{parsed_ip_address, IpAddress, IpInet};
use crate::model::{
    Connection, ConnectionConfig, ConnectionConfigView, ConnectionView, IpConfigView, Ipv4Method,
    Ipv6Method,
};
use crate::report::{Failure, FailureView, Warning, WarningView};
use crate::state::{index_of_id, is_first_with_id, NetworkState};
use crate::text::{occurs_in, split_by_space, split_on_space, str_contains, str_eq};

verus! {

/// The DNS settings of the legacy configuration.
#[derive(Clone, Debug, PartialEq, Eq, Default)]
pub struct Netconfig {
    pub static_dns_servers: Vec<IpAddress>,
    pub static_dns_searchlist: Option<Vec<String>>,
    /// The policy: `STATIC` or glob patterns for interface names, in the
    /// order of their precedence.
    pub dns_policy: Vec<String>,
    pub warnings: Vec<Warning>,
}

/// The parts of `s` between runs of whitespace, as `str::split_whitespace`
/// gives them by the Unicode property `White_Space`; none of them is empty.
pub uninterp spec fn split_by_whitespace(s: Seq<char>) -> Seq<Seq<char>>;

/// Whether `globset` accepts `pattern` as a glob.
pub uninterp spec fn glob_valid(pattern: Seq<char>) -> bool;

/// Whether the glob `pattern` matches `name` as `globset` matches them.
pub uninterp spec fn glob_match(pattern: Seq<char>, name: Seq<char>) -> bool;

/// The longest pattern that is handed to `globset`, in characters.
///
/// `globset` writes a regular expression for the pattern and does not
/// expect its compilation to fail, which it does where the automaton of
/// the expression takes more than ten megabytes. A character of the
/// pattern gives a handful of states and transitions, of 32 and 8 bytes
/// each, so a pattern of this length takes about a tenth of that at the
/// most. An entry of the policy is matched against interface names, which
/// are far shorter.
pub const MAX_GLOB_LEN: usize = 4096;

/// The most opening braces of a pattern that is handed to `globset`.
///
/// The compilation also fails where the regular expression nests deeper
/// than 250 levels. Only alternatives in braces nest in the expression
/// that `globset` writes: by three levels for each pair of braces (a
/// group, its alternatives, and the sequence within one), around at most
/// five levels that a pattern without braces has. No pattern nests deeper
/// than it has opening braces, so with this many the expression has at
/// most 197 levels.
pub const MAX_GLOB_BRACES: usize = 64;

/// The number of opening braces in `s`.
pub open spec fn brace_count(s: Seq<char>) -> nat
    decreases s.len(),
{
    if s.len() == 0 {
        0
    } else {
        brace_count(s.drop_last()) + if s.last() == '{' {
            1nat
        } else {
            0nat
        }
    }
}

/// Whether a pattern is within what is handed to `globset`: not too long
/// and not with too many braces.
pub open spec fn fits_globset(pattern: Seq<char>) -> bool {
    pattern.len() <= MAX_GLOB_LEN && brace_count(pattern) <= MAX_GLOB_BRACES
}

/// Whether `pattern` is within what is handed to `globset`.
pub fn is_within_globset(pattern: &str) -> (r: bool)
    ensures
        r == fits_globset(pattern@),
{
    let n = pattern.unicode_len();
    if n > MAX_GLOB_LEN {
        return false;
    }
    let mut count: usize = 0;
    let mut i: usize = 0;
    assert(pattern@.take(0) =~= Seq::empty());
    while i < n
        invariant
            i <= n,
            n == pattern@.len(),
            n <= MAX_GLOB_LEN,
            count <= i,
            count == brace_count(pattern@.take(i as int)),
        decreases n - i,
    {
        proof {
            let upto = pattern@.take(i + 1);
            assert(upto.drop_last() =~= pattern@.take(i as int));
            assert(upto.last() == pattern@[i as int]);
        }
        if pattern.get_char(i) == '{' {
            count = count + 1;
        }
        i = i + 1;
    }
    assert(pattern@.take(n as int) =~= pattern@);
    count <= MAX_GLOB_BRACES
}

/// Trusted: `str::split_whitespace` from the standard library. The parts
/// are named, not described.
#[verifier::external_body]
fn split_on_whitespace(s: &str) -> (r: Vec<String>)
    ensures
        r.deep_view() == split_by_whitespace(s@),
{
    s.split_whitespace().map(|part| part.to_string()).collect()
}

/// Trusted: `Glob::new`, `Glob::compile_matcher` and `GlobMatcher::is_match`
/// of `globset`. `None` where `Glob::new` refuses the pattern; else whether
/// the matcher of the pattern matches `name`. Both are named, not
/// described. `compile_matcher` holds an `expect` on the compilation of the
/// regular expression that `globset` writes for the pattern; the bounds on
/// the length and on the braces of the pattern keep away from the limits
/// of size and of nesting depth at which that compilation fails.
#[verifier::external_body]
fn glob_is_match(pattern: &str, name: &str) -> (r: Option<bool>)
    requires
        fits_globset(pattern@),
    ensures
        r == if glob_valid(pattern@) {
            Some(glob_match(pattern@, name@))
        } else {
            None
        },
{
    match globset::Glob::new(pattern) {
        Ok(glob) => Some(glob.compile_matcher().is_match(name)),
        Err(_) => None,
    }
}

/// Whether a policy entry can be used as a glob pattern: it is within what
/// is handed to `globset`, and `globset` accepts it.
pub open spec fn usable_glob(token: Seq<char>) -> bool {
    fits_globset(token) && glob_valid(token)
}

/// Whether the glob `pattern` matches `name`; `None` where the pattern
/// cannot be used as a glob.
pub fn match_glob(pattern: &str, name: &str) -> (r: Option<bool>)
    ensures
        r == if usable_glob(pattern@) {
            Some(glob_match(pattern@, name@))
        } else {
            None
        },
{
    if is_within_globset(pattern) {
        glob_is_match(pattern, name)
    } else {
        None
    }
}

/// Whether a connection has a DNS priority for one of the protocols.
pub open spec fn claimed(c: ConnectionView) -> bool {
    c.ip_config.dns_priority4 is Some || c.ip_config.dns_priority6 is Some
}

/// `c` with the DNS priority `tier` for both protocols.
pub open spec fn with_priority(c: ConnectionView, tier: i32) -> ConnectionView {
    ConnectionView {
        ip_config: IpConfigView {
            dns_priority4: Some(tier),
            dns_priority6: Some(tier),
            ..c.ip_config
        },
        ..c
    }
}

/// Whether the glob `token` claims the connection `c`: its interface
/// matches and no earlier entry has claimed it.
pub open spec fn glob_claims(token: Seq<char>, c: ConnectionView) -> bool {
    c.interface is Some && glob_match(token, c.interface.unwrap()) && !claimed(c)
}

/// What one entry of the policy does at the priority `tier`.
///
/// `STATIC` gives the priority to the loopback connection, the connection
/// with the id `lo`, and fails where there is none. Any other entry is a
/// glob pattern: every connection whose interface matches it and that has
/// no priority yet gets the priority. With the connections comes the
/// failure, if there is one.
pub open spec fn spec_apply_token(conns: Seq<ConnectionView>, token: Seq<char>, tier: i32) -> (
    Seq<ConnectionView>,
    Option<FailureView>,
) {
    if token == "STATIC"@ {
        match index_of_id(conns, "lo"@) {
            Some(i) => (conns.update(i, with_priority(conns[i], tier)), None),
            None => (conns, Some(FailureView::MissingLoopback)),
        }
    } else if !usable_glob(token) {
        (conns, Some(FailureView::InvalidGlob))
    } else {
        (
            Seq::new(
                conns.len(),
                |i: int|
                    if glob_claims(token, conns[i]) {
                        with_priority(conns[i], tier)
                    } else {
                        conns[i]
                    },
            ),
            None,
        )
    }
}

/// The connections after the policy entries `tokens`, the first of which
/// gets the priority `tier` and each following one a priority higher by
/// ten. An empty entry is passed over and uses up no priority. The first
/// entry that fails ends it; what earlier entries did stays.
pub open spec fn spec_dns_policy_onto(conns: Seq<ConnectionView>, tokens: Seq<Seq<char>>, tier: int) -> (
    Seq<ConnectionView>,
    Option<FailureView>,
)
    decreases tokens.len(),
{
    if tokens.len() == 0 {
        (conns, None)
    } else if tokens[0].len() == 0 {
        spec_dns_policy_onto(conns, tokens.drop_first(), tier)
    } else {
        let (next, failure) = spec_apply_token(conns, tokens[0], tier as i32);
        if failure is Some {
            (next, failure)
        } else {
            spec_dns_policy_onto(next, tokens.drop_first(), tier + 10)
        }
    }
}

/// `c` marked to ignore the DNS settings that it learns by itself, unless
/// it has a DNS priority.
pub open spec fn spec_ignore_unclaimed(c: ConnectionView) -> ConnectionView {
    if !claimed(c) {
        ConnectionView { ip_config: IpConfigView { ignore_auto_dns: true, ..c.ip_config }, ..c }
    } else {
        c
    }
}

/// The connections after the whole policy: priorities start at 10, since 0
/// stands for the global default of the target system, and go up in steps
/// of ten, which leaves room for later additions. Where all entries went
/// through, every connection that got no priority is marked to ignore the
/// DNS settings that it learns by itself.
pub open spec fn spec_dns_policy(conns: Seq<ConnectionView>, tokens: Seq<Seq<char>>) -> (
    Seq<ConnectionView>,
    Option<FailureView>,
) {
    let (after, failure) = spec_dns_policy_onto(conns, tokens, 10);
    if failure is Some {
        (after, failure)
    } else {
        (Seq::new(after.len(), |i: int| spec_ignore_unclaimed(after[i])), None)
    }
}

/// Whether two lists of connections have the same ids in the same places.
pub open spec fn same_ids(a: Seq<ConnectionView>, b: Seq<ConnectionView>) -> bool {
    a.len() == b.len() && forall|i: int| 0 <= i < a.len() ==> (#[trigger] a[i]).id == b[i].id
}

fn set_priority(c: &mut Connection, tier: i32)
    ensures
        final(c).deep_view() == with_priority(old(c).deep_view(), tier),
{
    c.ip_config.dns_priority4 = Some(tier);
    c.ip_config.dns_priority6 = Some(tier);
}

fn apply_glob(state: &mut NetworkState, token: &str, tier: i32)
    requires
        usable_glob(token@),
        token@ != "STATIC"@,
    ensures
        final(state).deep_view() == spec_apply_token(old(state).deep_view(), token@, tier).0,
        same_ids(old(state).deep_view(), final(state).deep_view()),
{
    let ghost before = state.deep_view();
    assert(before.len() == state.connections@.len());
    let mut i: usize = 0;
    while i < state.connections.len()
        invariant
            i <= state.connections.len(),
            usable_glob(token@),
            before == old(state).deep_view(),
            before.len() == state.connections@.len(),
            state.deep_view().len() == before.len(),
            forall|k: int|
                0 <= k < i ==> #[trigger] state.deep_view()[k] == if glob_claims(token@, before[k]) {
                    with_priority(before[k], tier)
                } else {
                    before[k]
                },
            forall|k: int| i <= k < before.len() ==> #[trigger] state.deep_view()[k] == before[k],
        decreases state.connections.len() - i,
    {
        let ghost current = state.deep_view();
        assert(current[i as int] == state.connections[i as int].deep_view());
        let matches = match &state.connections[i].interface {
            Some(name) => match glob_is_match(token, name.as_str()) {
                Some(m) => m,
                None => false,
            },
            None => false,
        };
        let unclaimed = state.connections[i].ip_config.dns_priority4.is_none()
            && state.connections[i].ip_config.dns_priority6.is_none();
        if matches && unclaimed {
            set_priority(&mut state.connections[i], tier);
            assert(state.deep_view().len() == state.connections@.len());
            assert(state.deep_view()[i as int] == state.connections[i as int].deep_view());
            assert forall|k: int| 0 <= k < before.len() && k != i implies #[trigger] state.deep_view()[k]
                == current[k] by {
                assert(state.deep_view()[k] == state.connections[k].deep_view());
            }
        }
        i = i + 1;
    }
    assert(state.deep_view() =~= spec_apply_token(before, token@, tier).0);
}


/// The failure of a result, seen through its deep view.
pub open spec fn failure_of(r: Result<(), Failure>) -> Option<FailureView> {
    match r {
        Ok(_) => None,
        Err(e) => Some(e.deep_view()),
    }
}

fn apply_token(state: &mut NetworkState, token: &str, tier: i32) -> (r: Result<(), Failure>)
    requires
        token@.len() > 0,
    ensures
        (final(state).deep_view(), failure_of(r)) == spec_apply_token(
            old(state).deep_view(),
            token@,
            tier,
        ),
        same_ids(old(state).deep_view(), final(state).deep_view()),
{
    let ghost before = state.deep_view();
    assert(before.len() == state.connections@.len());
    if str_eq(token, "STATIC") {
        match state.position("lo") {
            Some(i) => {
                assert(before[i as int] == state.connections[i as int].deep_view());
                set_priority(&mut state.connections[i], tier);
                assert(state.deep_view().len() == state.connections@.len());
                assert(state.deep_view()[i as int] == state.connections[i as int].deep_view());
                assert forall|k: int| 0 <= k < before.len() && k != i implies #[trigger] state.deep_view()[k]
                    == before[k] by {
                    assert(state.deep_view()[k] == state.connections[k].deep_view());
                }
                assert(state.deep_view() =~= before.update(
                    i as int,
                    with_priority(before[i as int], tier),
                ));
                Ok(())
            },
            None => Err(Failure::MissingLoopback),
        }
    } else {
        if match_glob(token, "").is_none() {
            return Err(Failure::InvalidGlob);
        }
        apply_glob(state, token, tier);
        Ok(())
    }
}

/// Gives DNS priorities to the connections as the policy of `netconfig`
/// says.
///
/// The entries are gone through in their order. The first entry that is
/// not empty gives the priority 10, each following one a priority higher
/// by ten. `STATIC` gives its priority to the loopback connection (the
/// connection with the id `lo`), any other entry to every connection whose
/// interface matches it as a glob pattern and that has no priority yet:
/// what an earlier entry has claimed, a later one leaves alone. After the
/// last entry, every connection that got no priority is marked to ignore
/// the DNS settings that it learns by itself. It fails at `STATIC` without
/// a loopback connection and at an entry that cannot be used as a glob
/// pattern; what earlier entries did stays, and nothing is marked.
pub fn apply_dns_policy(netconfig: &Netconfig, nm_state: &mut NetworkState) -> (r: Result<(), Failure>)
    requires
        10 * (netconfig.dns_policy@.len() + 1) <= i32::MAX,
    ensures
        (final(nm_state).deep_view(), failure_of(r)) == spec_dns_policy(
            old(nm_state).deep_view(),
            netconfig.dns_policy.deep_view(),
        ),
        same_ids(old(nm_state).deep_view(), final(nm_state).deep_view()),
{
    let tokens = &netconfig.dns_policy;
    let mut tier: i32 = 10;
    let mut i: usize = 0;
    assert(tokens.deep_view().skip(0) =~= tokens.deep_view());
    while i < tokens.len()
        invariant
            i <= tokens.len(),
            tokens == &netconfig.dns_policy,
            10 * (tokens@.len() + 1) <= i32::MAX,
            10 <= tier <= 10 + 10 * i,
            same_ids(old(nm_state).deep_view(), nm_state.deep_view()),
            spec_dns_policy_onto(old(nm_state).deep_view(), tokens.deep_view(), 10)
                == spec_dns_policy_onto(
                nm_state.deep_view(),
                tokens.deep_view().skip(i as int),
                tier as int,
            ),
        decreases tokens.len() - i,
    {
        assert(tokens.deep_view().len() == tokens@.len());
        assert(tokens.deep_view().skip(i as int)[0] == tokens[i as int]@);
        assert(tokens.deep_view().skip(i as int).drop_first() =~= tokens.deep_view().skip(i + 1));
        let token = tokens[i].as_str();
        if token.unicode_len() > 0 {
            match apply_token(nm_state, token, tier) {
                Ok(()) => {},
                Err(e) => {
                    return Err(e);
                },
            }
            tier = tier + 10;
        }
        i = i + 1;
    }
    assert(tokens.deep_view().len() == tokens@.len());
    ignore_unclaimed(nm_state);
    Ok(())
}

/// The loopback connection as it is made where the target system has none:
/// `lo` with the addresses `127.0.0.1/8` and `::1/128`.
pub open spec fn spec_lo_connection(uuid: u128) -> ConnectionView {
    ConnectionView {
        id: "lo"@,
        interface: Some("lo"@),
        ip_config: IpConfigView {
            method4: Ipv4Method::Manual,
            method6: Ipv6Method::Manual,
            addresses: seq![
                IpInet { address: IpAddress::V4(0x7f00_0001), network_length: 8 },
                IpInet { address: IpAddress::V6(1), network_length: 128 },
            ],
            ..IpConfigView::blank()
        },
        config: ConnectionConfigView::Loopback,
        ..ConnectionView::blank(uuid)
    }
}

/// A loopback connection with the uuid `uuid`.
pub fn create_lo_connection(uuid: u128) -> (r: Connection)
    ensures
        r.deep_view() == spec_lo_connection(uuid),
{
    let mut c = Connection::with_uuid(uuid);
    c.id = "lo".to_owned();
    c.interface = Some("lo".to_owned());
    c.ip_config.method4 = Ipv4Method::Manual;
    c.ip_config.method6 = Ipv6Method::Manual;
    c.ip_config.addresses.push(IpInet { address: IpAddress::V4(0x7f00_0001), network_length: 8 });
    c.ip_config.addresses.push(IpInet { address: IpAddress::V6(1), network_length: 128 });
    c.config = ConnectionConfig::Loopback;
    assert(c.ip_config.addresses@ =~= seq![
        IpInet { address: IpAddress::V4(0x7f00_0001), network_length: 8 },
        IpInet { address: IpAddress::V6(1), network_length: 128 },
    ]);
    c
}

/// The loopback connection with the static DNS settings of `netconfig`:
/// its servers, and its search list where it has one.
pub open spec fn spec_static_dns(netconfig: Netconfig, loopback: ConnectionView) -> ConnectionView {
    ConnectionView {
        ip_config: IpConfigView {
            nameservers: netconfig.static_dns_servers@,
            dns_searchlist: match netconfig.static_dns_searchlist {
                Some(list) => list.deep_view(),
                None => loopback.ip_config.dns_searchlist,
            },
            ..loopback.ip_config
        },
        ..loopback
    }
}

/// The connections with the DNS settings of `netconfig` worked in: the
/// loopback connection with the static DNS settings is added, and the
/// policy gives the priorities and marks the connections that got none. It
/// fails where a connection has the id of the loopback connection already,
/// and where the policy fails; what was done until then stays.
pub open spec fn spec_apply_netconfig(
    conns: Seq<ConnectionView>,
    netconfig: Netconfig,
    loopback: ConnectionView,
) -> (Seq<ConnectionView>, Option<FailureView>) {
    if index_of_id(conns, loopback.id) is Some {
        (conns, Some(FailureView::ConnectionExists))
    } else {
        spec_dns_policy(
            conns.push(spec_static_dns(netconfig, loopback)),
            netconfig.dns_policy.deep_view(),
        )
    }
}

fn ignore_unclaimed(state: &mut NetworkState)
    ensures
        final(state).deep_view() == Seq::new(
            old(state).deep_view().len(),
            |i: int| spec_ignore_unclaimed(old(state).deep_view()[i]),
        ),
        same_ids(old(state).deep_view(), final(state).deep_view()),
{
    let ghost before = state.deep_view();
    assert(before.len() == state.connections@.len());
    let mut i: usize = 0;
    while i < state.connections.len()
        invariant
            i <= state.connections.len(),
            before == old(state).deep_view(),
            before.len() == state.connections@.len(),
            state.deep_view().len() == before.len(),
            forall|k: int| 0 <= k < i ==> #[trigger] state.deep_view()[k] == spec_ignore_unclaimed(before[k]),
            forall|k: int| i <= k < before.len() ==> #[trigger] state.deep_view()[k] == before[k],
        decreases state.connections.len() - i,
    {
        let ghost current = state.deep_view();
        assert(current[i as int] == state.connections[i as int].deep_view());
        let unclaimed = state.connections[i].ip_config.dns_priority4.is_none()
            && state.connections[i].ip_config.dns_priority6.is_none();
        if unclaimed {
            state.connections[i].ip_config.ignore_auto_dns = true;
            assert(state.deep_view().len() == state.connections@.len());
            assert(state.deep_view()[i as int] == state.connections[i as int].deep_view());
            assert forall|k: int| 0 <= k < before.len() && k != i implies #[trigger] state.deep_view()[k]
                == current[k] by {
                assert(state.deep_view()[k] == state.connections[k].deep_view());
            }
        }
        i = i + 1;
    }
    assert(state.deep_view() =~= Seq::new(before.len(), |i: int| spec_ignore_unclaimed(before[i])));
}

/// Works the DNS settings of `netconfig` into the connections. `loopback`
/// is the loopback connection of the target system, or a new one where it
/// has none.
pub fn apply_netconfig(state: &mut NetworkState, netconfig: &Netconfig, loopback: Connection) -> (r:
    Result<(), Failure>)
    requires
        10 * (netconfig.dns_policy@.len() + 1) <= i32::MAX,
    ensures
        (final(state).deep_view(), failure_of(r)) == spec_apply_netconfig(
            old(state).deep_view(),
            *netconfig,
            loopback.deep_view(),
        ),
{
    let mut lo = loopback;
    lo.ip_config.nameservers = netconfig.static_dns_servers.clone();
    assert(lo.ip_config.nameservers@ =~= netconfig.static_dns_servers@);
    match &netconfig.static_dns_searchlist {
        Some(list) => {
            lo.ip_config.dns_searchlist = list.clone();
            assert(lo.ip_config.dns_searchlist.deep_view() =~= list.deep_view());
        },
        None => {},
    }
    assert(lo.deep_view() == spec_static_dns(*netconfig, loopback.deep_view()));
    match state.add_connection(lo) {
        Ok(()) => {},
        Err(e) => {
            return Err(e);
        },
    }
    apply_dns_policy(netconfig, state)
}


/// The policy that the value of `NETCONFIG_DNS_POLICY` stands for: `auto`
/// is `STATIC` before everything else; a value that names the policy
/// `STATIC_FALLBACK`, which is not supported, gives no policy at all; any
/// other value is a list of entries with single spaces between them.
pub open spec fn spec_policy_tokens(value: Option<String>) -> Seq<Seq<char>> {
    match value {
        None => Seq::empty(),
        Some(s) => if s@ == "auto"@ {
            seq!["STATIC"@, "*"@]
        } else if s@.len() == 0 || occurs_in(s@, "STATIC_FALLBACK"@) {
            Seq::empty()
        } else {
            split_by_space(s@)
        },
    }
}

/// Whether the value of `NETCONFIG_DNS_POLICY` names the policy that is
/// not supported.
pub open spec fn spec_policy_unsupported(value: Option<String>) -> bool {
    match value {
        None => false,
        Some(s) => s@ != "auto"@ && s@.len() != 0 && occurs_in(s@, "STATIC_FALLBACK"@),
    }
}

/// The servers and warnings with one more entry of the server list, which
/// is read already: `address` is what `entry` reads as. An entry that is
/// an IP address is a server, any other entry gives a warning that names
/// it.
pub open spec fn spec_server_step(
    done: (Seq<IpAddress>, Seq<WarningView>),
    entry: Seq<char>,
    address: Option<IpAddress>,
) -> (Seq<IpAddress>, Seq<WarningView>) {
    match address {
        Some(a) => (done.0.push(a), done.1),
        None => (done.0, done.1.push(WarningView::InvalidDnsServer { value: entry })),
    }
}

/// The servers and warnings gathered so far, continued with the entries in
/// `rest`, each read as an IP address.
pub open spec fn spec_servers_onto(done: (Seq<IpAddress>, Seq<WarningView>), rest: Seq<Seq<char>>) -> (
    Seq<IpAddress>,
    Seq<WarningView>,
)
    decreases rest.len(),
{
    if rest.len() == 0 {
        done
    } else {
        spec_servers_onto(
            spec_server_step(done, rest[0], parsed_ip_address(rest[0])),
            rest.drop_first(),
        )
    }
}

/// Adds one entry of the server list, which is read already, to the
/// servers or to the warnings.
pub fn dns_server(
    servers: Vec<IpAddress>,
    warnings: Vec<Warning>,
    entry: &String,
    address: Option<IpAddress>,
) -> (r: (Vec<IpAddress>, Vec<Warning>))
    ensures
        (r.0@, r.1.deep_view()) == spec_server_step(
            (servers@, warnings.deep_view()),
            entry@,
            address,
        ),
{
    let mut servers = servers;
    let mut warnings = warnings;
    let ghost w = warnings.deep_view();
    assert(w.len() == warnings@.len());
    match address {
        Some(a) => {
            servers.push(a);
        },
        None => {
            warnings.push(Warning::InvalidDnsServer { value: entry.clone() });
            assert(warnings.deep_view() =~= w.push(WarningView::InvalidDnsServer { value: entry@ }));
        },
    }
    (servers, warnings)
}

/// The entries of the value of `NETCONFIG_DNS_STATIC_SERVERS`: the parts
/// between whitespace, none where the variable is not set.
pub open spec fn spec_server_entries(value: Option<String>) -> Seq<Seq<char>> {
    match value {
        Some(s) => if s@.len() == 0 {
            Seq::empty()
        } else {
            split_by_whitespace(s@)
        },
        None => Seq::empty(),
    }
}

/// The search list that the value of `NETCONFIG_DNS_STATIC_SEARCHLIST`
/// stands for: its parts between single spaces, none where it is empty or
/// not set.
pub open spec fn spec_searchlist(value: Option<String>) -> Option<Seq<Seq<char>>> {
    match value {
        Some(s) => if s@.len() == 0 {
            None
        } else {
            Some(split_by_space(s@))
        },
        None => None,
    }
}

/// Whether the value of `SEND_GRATUITOUS_ARP` asks for something that the
/// migration does not carry over.
pub open spec fn spec_arp_differs(value: Option<String>) -> bool {
    match value {
        Some(s) => s@ != "auto"@,
        None => false,
    }
}

/// The warnings of the netconfig values, in the order policy, servers,
/// gratuitous ARP.
pub open spec fn spec_netconfig_warnings(
    dns_policy: Option<String>,
    static_servers: Option<String>,
    gratuitous_arp: Option<String>,
) -> Seq<WarningView> {
    spec_servers_onto(
        (
            Seq::empty(),
            if spec_policy_unsupported(dns_policy) {
                seq![WarningView::UnsupportedDnsPolicy]
            } else {
                Seq::empty()
            },
        ),
        spec_server_entries(static_servers),
    ).1 + if spec_arp_differs(gratuitous_arp) {
        seq![WarningView::GratuitousArp]
    } else {
        Seq::empty()
    }
}

fn policy_tokens(value: &Option<String>) -> (r: (Vec<String>, bool))
    ensures
        r.0.deep_view() == spec_policy_tokens(*value),
        r.1 == spec_policy_unsupported(*value),
{
    let mut tokens: Vec<String> = Vec::new();
    assert(tokens.deep_view() =~= Seq::empty());
    match value {
        Some(s) => {
            if str_eq(s.as_str(), "auto") {
                tokens.push("STATIC".to_owned());
                tokens.push("*".to_owned());
                assert(tokens.deep_view() =~= seq!["STATIC"@, "*"@]);
                (tokens, false)
            } else if s.as_str().unicode_len() == 0 {
                (tokens, false)
            } else if str_contains(s.as_str(), "STATIC_FALLBACK") {
                (tokens, true)
            } else {
                (split_on_space(s.as_str()), false)
            }
        },
        None => (tokens, false),
    }
}

fn servers(entries: &Vec<String>, warnings: Vec<Warning>) -> (r: (Vec<IpAddress>, Vec<Warning>))
    ensures
        (r.0@, r.1.deep_view()) == spec_servers_onto(
            (Seq::empty(), warnings.deep_view()),
            entries.deep_view(),
        ),
{
    let mut out: Vec<IpAddress> = Vec::new();
    let mut warns = warnings;
    let mut i: usize = 0;
    assert(entries.deep_view().skip(0) =~= entries.deep_view());
    while i < entries.len()
        invariant
            i <= entries.len(),
            spec_servers_onto((Seq::empty(), warnings.deep_view()), entries.deep_view())
                == spec_servers_onto(
                (out@, warns.deep_view()),
                entries.deep_view().skip(i as int),
            ),
        decreases entries.len() - i,
    {
        assert(entries.deep_view().len() == entries@.len());
        assert(entries.deep_view().skip(i as int)[0] == entries[i as int]@);
        assert(entries.deep_view().skip(i as int).drop_first() =~= entries.deep_view().skip(i + 1));
        let address = IpAddress::parse(entries[i].as_str());
        let (servers, warnings) = dns_server(out, warns, &entries[i], address);
        out = servers;
        warns = warnings;
        i = i + 1;
    }
    assert(entries.deep_view().len() == entries@.len());
    (out, warns)
}

/// The DNS settings that the values of the netconfig variables stand for:
/// `NETCONFIG_DNS_POLICY`, `NETCONFIG_DNS_STATIC_SERVERS`,
/// `NETCONFIG_DNS_STATIC_SEARCHLIST` and `SEND_GRATUITOUS_ARP`, each `None`
/// where the variable is not set.
pub fn handle_netconfig_values(
    dns_policy: &Option<String>,
    static_servers: &Option<String>,
    static_searchlist: &Option<String>,
    gratuitous_arp: &Option<String>,
) -> (r: Netconfig)
    ensures
        r.dns_policy.deep_view() == spec_policy_tokens(*dns_policy),
        r.static_dns_servers@ == spec_servers_onto(
            (Seq::empty(), Seq::empty()),
            spec_server_entries(*static_servers),
        ).0,
        r.static_dns_searchlist.deep_view() == spec_searchlist(*static_searchlist),
        r.warnings.deep_view() == spec_netconfig_warnings(
            *dns_policy,
            *static_servers,
            *gratuitous_arp,
        ),
{
    let mut warnings: Vec<Warning> = Vec::new();
    assert(warnings.deep_view() =~= Seq::empty());
    let (tokens, unsupported) = policy_tokens(dns_policy);
    if unsupported {
        warnings.push(Warning::UnsupportedDnsPolicy);
        assert(warnings.deep_view() =~= seq![WarningView::UnsupportedDnsPolicy]);
    }
    let ghost policy_warnings = warnings.deep_view();
    let entries: Vec<String> = match static_servers {
        Some(s) => {
            if s.as_str().unicode_len() == 0 {
                Vec::new()
            } else {
                split_on_whitespace(s.as_str())
            }
        },
        None => Vec::new(),
    };
    assert(entries.deep_view() =~= spec_server_entries(*static_servers));
    let (static_dns_servers, mut warnings) = servers(&entries, warnings);
    proof {
        lemma_servers_independent(
            Seq::empty(),
            policy_warnings,
            Seq::empty(),
            entries.deep_view(),
        );
    }
    let static_dns_searchlist: Option<Vec<String>> = match static_searchlist {
        Some(s) => {
            if s.as_str().unicode_len() == 0 {
                None
            } else {
                Some(split_on_space(s.as_str()))
            }
        },
        None => None,
    };
    let differs = match gratuitous_arp {
        Some(s) => !str_eq(s.as_str(), "auto"),
        None => false,
    };
    let ghost w = warnings.deep_view();
    assert(w.len() == warnings@.len());
    if differs {
        warnings.push(Warning::GratuitousArp);
        assert(warnings.deep_view() =~= w + seq![WarningView::GratuitousArp]);
    } else {
        assert(warnings.deep_view() =~= w + Seq::empty());
    }
    Netconfig { static_dns_servers, static_dns_searchlist, dns_policy: tokens, warnings }
}

/// Which entries are servers does not depend on the warnings so far.
pub proof fn lemma_servers_independent(
    servers: Seq<IpAddress>,
    a: Seq<WarningView>,
    b: Seq<WarningView>,
    rest: Seq<Seq<char>>,
)
    ensures
        spec_servers_onto((servers, a), rest).0 == spec_servers_onto((servers, b), rest).0,
    decreases rest.len(),
{
    if rest.len() > 0 {
        match parsed_ip_address(rest[0]) {
            Some(x) => lemma_servers_independent(servers.push(x), a, b, rest.drop_first()),
            None => lemma_servers_independent(
                servers,
                a.push(WarningView::InvalidDnsServer { value: rest[0] }),
                b.push(WarningView::InvalidDnsServer { value: rest[0] }),
                rest.drop_first(),
            ),
        }
    }
}


/// One entry of the policy leaves the connections in their places, each
/// with its id and interface, and leaves alone every connection that has a
/// priority and is not the loopback connection.
pub proof fn lemma_apply_token(conns: Seq<ConnectionView>, token: Seq<char>, tier: i32)
    ensures
        ({
            let out = spec_apply_token(conns, token, tier).0;
            &&& out.len() == conns.len()
            &&& forall|i: int|
                0 <= i < conns.len() ==> (#[trigger] out[i]).id == conns[i].id && out[i].interface
                    == conns[i].interface
            &&& forall|i: int|
                0 <= i < conns.len() && claimed(conns[i]) && conns[i].id != "lo"@ ==> #[trigger] out[i]
                    == conns[i]
        }),
{
    if token == "STATIC"@ {
        match index_of_id(conns, "lo"@) {
            Some(i) => {
                assert(is_first_with_id(conns, "lo"@, i));
            },
            None => {},
        }
    }
}

/// What an entry of the policy has given, no later entry takes away: a
/// connection that has a priority and is not the loopback connection comes
/// out of the rest of the policy as it went in.
pub proof fn lemma_claimed_stays(conns: Seq<ConnectionView>, tokens: Seq<Seq<char>>, tier: int, i: int)
    requires
        0 <= i < conns.len(),
        claimed(conns[i]),
        conns[i].id != "lo"@,
    ensures
        spec_dns_policy_onto(conns, tokens, tier).0.len() == conns.len(),
        spec_dns_policy_onto(conns, tokens, tier).0[i] == conns[i],
    decreases tokens.len(),
{
    if tokens.len() > 0 {
        if tokens[0].len() == 0 {
            lemma_claimed_stays(conns, tokens.drop_first(), tier, i);
        } else {
            lemma_apply_token(conns, tokens[0], tier as i32);
            let next = spec_apply_token(conns, tokens[0], tier as i32);
            if next.1 is None {
                lemma_claimed_stays(next.0, tokens.drop_first(), tier + 10, i);
            }
        }
    }
}

/// Two connections that the same glob entry claims get the same priority,
/// the priority of that entry, for both protocols, and keep it through the
/// rest of the policy, whatever matches there. (The loopback connection is
/// left aside: `STATIC` gives it its priority whenever it comes.)
pub proof fn lemma_glob_priority(
    conns: Seq<ConnectionView>,
    token: Seq<char>,
    rest: Seq<Seq<char>>,
    tier: i32,
    i: int,
    j: int,
)
    requires
        0 <= i < conns.len(),
        0 <= j < conns.len(),
        token.len() > 0,
        token != "STATIC"@,
        usable_glob(token),
        glob_claims(token, conns[i]),
        glob_claims(token, conns[j]),
        conns[i].id != "lo"@,
        conns[j].id != "lo"@,
    ensures
        ({
            let out = spec_dns_policy_onto(conns, seq![token] + rest, tier as int).0;
            &&& out.len() == conns.len()
            &&& out[i] == with_priority(conns[i], tier)
            &&& out[j] == with_priority(conns[j], tier)
            &&& out[i].ip_config.dns_priority4 == Some(tier)
            &&& out[i].ip_config.dns_priority6 == Some(tier)
            &&& out[j].ip_config.dns_priority4 == Some(tier)
            &&& out[j].ip_config.dns_priority6 == Some(tier)
        }),
{
    let tokens = seq![token] + rest;
    assert(tokens[0] == token);
    assert(tokens.drop_first() =~= rest);
    let next = spec_apply_token(conns, token, tier);
    assert(next.0[i] == with_priority(conns[i], tier));
    assert(next.0[j] == with_priority(conns[j], tier));
    lemma_claimed_stays(next.0, rest, tier + 10, i);
    lemma_claimed_stays(next.0, rest, tier + 10, j);
}


/// `STATIC` gives its priority to one connection at most: whatever it
/// changes is in one place.
pub proof fn lemma_static_claims_one(conns: Seq<ConnectionView>, tier: i32, i: int, j: int)
    requires
        0 <= i < conns.len(),
        0 <= j < conns.len(),
        spec_apply_token(conns, "STATIC"@, tier).0[i] != conns[i],
        spec_apply_token(conns, "STATIC"@, tier).0[j] != conns[j],
    ensures
        i == j,
        index_of_id(conns, "lo"@) == Some(i),
        conns[i].id == "lo"@,
{
    match index_of_id(conns, "lo"@) {
        Some(k) => {
            assert(is_first_with_id(conns, "lo"@, k));
        },
        None => {},
    }
}

/// Whether `after` is `before` but for the DNS priorities, which are
/// either those of `before` or one and the same priority for both
/// protocols, at least `low` and below `high`.
pub open spec fn priority_within(before: ConnectionView, after: ConnectionView, low: int, high: int) -> bool {
    ||| after == before
    ||| exists|tier: i32| low <= tier < high && after == #[trigger] with_priority(before, tier)
}

/// The priorities go up with the entries of the policy: what the entries
/// from the priority `tier` on give to a connection is a priority of at
/// least `tier`, below `tier` plus ten for each entry, and the same for
/// both protocols; nothing else of the connection changes.
pub proof fn lemma_priorities_go_up(conns: Seq<ConnectionView>, tokens: Seq<Seq<char>>, tier: int)
    requires
        0 <= tier,
        tier + 10 * tokens.len() <= i32::MAX,
    ensures
        spec_dns_policy_onto(conns, tokens, tier).0.len() == conns.len(),
        forall|i: int|
            0 <= i < conns.len() ==> priority_within(
                conns[i],
                #[trigger] spec_dns_policy_onto(conns, tokens, tier).0[i],
                tier,
                tier + 10 * tokens.len(),
            ),
    decreases tokens.len(),
{
    let out = spec_dns_policy_onto(conns, tokens, tier).0;
    if tokens.len() > 0 {
        let rest = tokens.drop_first();
        if tokens[0].len() == 0 {
            lemma_priorities_go_up(conns, rest, tier);
            assert forall|i: int| 0 <= i < conns.len() implies priority_within(
                conns[i],
                #[trigger] out[i],
                tier,
                tier + 10 * tokens.len(),
            ) by {
                assert(priority_within(conns[i], out[i], tier, tier + 10 * rest.len()));
                if out[i] != conns[i] {
                    let t = choose|t: i32|
                        tier <= t < tier + 10 * rest.len() && out[i] == #[trigger] with_priority(
                            conns[i],
                            t,
                        );
                    assert(out[i] == with_priority(conns[i], t));
                }
            }
        } else {
            lemma_apply_token(conns, tokens[0], tier as i32);
            let next = spec_apply_token(conns, tokens[0], tier as i32);
            assert forall|i: int| 0 <= i < conns.len() implies #[trigger] next.0[i] == conns[i]
                || next.0[i] == with_priority(conns[i], tier as i32) by {
                if tokens[0] == "STATIC"@ {
                    match index_of_id(conns, "lo"@) {
                        Some(k) => {
                            assert(is_first_with_id(conns, "lo"@, k));
                        },
                        None => {},
                    }
                }
            }
            if next.1 is None {
                lemma_priorities_go_up(next.0, rest, tier + 10);
            }
            assert forall|i: int| 0 <= i < conns.len() implies priority_within(
                conns[i],
                #[trigger] out[i],
                tier,
                tier + 10 * tokens.len(),
            ) by {
                if next.1 is None {
                    assert(priority_within(next.0[i], out[i], tier + 10, tier + 10 + 10 * rest.len()));
                    if out[i] != next.0[i] {
                        let t = choose|t: i32|
                            tier + 10 <= t < tier + 10 + 10 * rest.len() && out[i]
                                == #[trigger] with_priority(next.0[i], t);
                        assert(with_priority(next.0[i], t) == with_priority(conns[i], t));
                        assert(out[i] == with_priority(conns[i], t));
                    } else if out[i] != conns[i] {
                        assert(out[i] == with_priority(conns[i], tier as i32));
                    }
                } else {
                    assert(out[i] == next.0[i]);
                    if out[i] != conns[i] {
                        assert(out[i] == with_priority(conns[i], tier as i32));
                    }
                }
            }
        }
    }
}


/// After a policy that went through, a connection without DNS priority
/// ignores the DNS settings that it learns by itself, and nothing but that
/// mark tells the result from what the entries gave.
pub proof fn lemma_unclaimed_are_marked(conns: Seq<ConnectionView>, tokens: Seq<Seq<char>>, i: int)
    requires
        0 <= i < conns.len(),
        spec_dns_policy(conns, tokens).1 is None,
    ensures
        spec_dns_policy(conns, tokens).0.len() == conns.len(),
        claimed(spec_dns_policy(conns, tokens).0[i]) || spec_dns_policy(
            conns,
            tokens,
        ).0[i].ip_config.ignore_auto_dns,
        spec_dns_policy(conns, tokens).0[i] == spec_ignore_unclaimed(
            spec_dns_policy_onto(conns, tokens, 10).0[i],
        ),
{
    lemma_claimed_len(conns, tokens, 10);
}

/// The policy leaves the connections in their places.
pub proof fn lemma_claimed_len(conns: Seq<ConnectionView>, tokens: Seq<Seq<char>>, tier: int)
    ensures
        spec_dns_policy_onto(conns, tokens, tier).0.len() == conns.len(),
    decreases tokens.len(),
{
    if tokens.len() > 0 {
        if tokens[0].len() == 0 {
            lemma_claimed_len(conns, tokens.drop_first(), tier);
        } else {
            lemma_apply_token(conns, tokens[0], tier as i32);
            let next = spec_apply_token(conns, tokens[0], tier as i32);
            if next.1 is None {
                lemma_claimed_len(next.0, tokens.drop_first(), tier + 10);
            }
        }
    }
}

/// The place of the first entry that matches `name` as a glob, counted
/// from zero over the entries that are not empty; `STATIC` matches no
/// name.
pub open spec fn spec_first_match(tokens: Seq<Seq<char>>, name: Seq<char>) -> Option<nat>
    decreases tokens.len(),
{
    if tokens.len() == 0 {
        None
    } else if tokens[0].len() == 0 {
        spec_first_match(tokens.drop_first(), name)
    } else if tokens[0] != "STATIC"@ && glob_match(tokens[0], name) {
        Some(0)
    } else {
        match spec_first_match(tokens.drop_first(), name) {
            Some(place) => Some(place + 1),
            None => None,
        }
    }
}

/// The first entry that matches decides, seen from the priority `tier`
/// on: where the entries go through, a connection that had no priority and
/// is not the loopback connection gets the priority of the first entry
/// that matches its interface, which is `tier` and ten for each entry in
/// front of it that is not empty; without such an entry, and without an
/// interface, it stays as it is.
pub proof fn lemma_first_match_onto(conns: Seq<ConnectionView>, tokens: Seq<Seq<char>>, tier: int, i: int)
    requires
        0 <= i < conns.len(),
        0 <= tier,
        tier + 10 * tokens.len() <= i32::MAX,
        spec_dns_policy_onto(conns, tokens, tier).1 is None,
        !claimed(conns[i]),
        conns[i].id != "lo"@,
    ensures
        spec_dns_policy_onto(conns, tokens, tier).0.len() == conns.len(),
        spec_dns_policy_onto(conns, tokens, tier).0[i] == match conns[i].interface {
            Some(name) => match spec_first_match(tokens, name) {
                Some(place) => with_priority(conns[i], (tier + 10 * place) as i32),
                None => conns[i],
            },
            None => conns[i],
        },
        conns[i].interface is Some && spec_first_match(tokens, conns[i].interface.unwrap()) is Some
            ==> spec_first_match(tokens, conns[i].interface.unwrap()).unwrap() < tokens.len(),
    decreases tokens.len(),
{
    lemma_claimed_len(conns, tokens, tier);
    if tokens.len() > 0 {
        let rest = tokens.drop_first();
        if tokens[0].len() == 0 {
            lemma_first_match_onto(conns, rest, tier, i);
        } else {
            let next = spec_apply_token(conns, tokens[0], tier as i32);
            lemma_apply_token(conns, tokens[0], tier as i32);
            if tokens[0] == "STATIC"@ {
                let at = index_of_id(conns, "lo"@).unwrap();
                assert(is_first_with_id(conns, "lo"@, at));
                assert(next.0[i] == conns[i]);
                lemma_first_match_onto(next.0, rest, tier + 10, i);
            } else if glob_claims(tokens[0], conns[i]) {
                assert(next.0[i] == with_priority(conns[i], tier as i32));
                lemma_claimed_stays(next.0, rest, tier + 10, i);
            } else {
                assert(next.0[i] == conns[i]);
                lemma_first_match_onto(next.0, rest, tier + 10, i);
            }
        }
    }
}

/// The first entry that matches decides: after a policy that went
/// through, a connection that had no priority and is not the loopback
/// connection has, for both protocols, ten times the place of the first
/// entry that matches its interface, the places counted from one over the
/// entries that are not empty. Where no entry matches, it has no priority
/// and is marked to ignore the DNS settings that it learns by itself.
pub proof fn lemma_first_match_decides(conns: Seq<ConnectionView>, tokens: Seq<Seq<char>>, i: int)
    requires
        0 <= i < conns.len(),
        10 * (tokens.len() + 1) <= i32::MAX,
        spec_dns_policy(conns, tokens).1 is None,
        !claimed(conns[i]),
        conns[i].id != "lo"@,
    ensures
        spec_dns_policy(conns, tokens).0.len() == conns.len(),
        spec_dns_policy(conns, tokens).0[i] == match conns[i].interface {
            Some(name) => match spec_first_match(tokens, name) {
                Some(place) => with_priority(conns[i], (10 * (place + 1)) as i32),
                None => spec_ignore_unclaimed(conns[i]),
            },
            None => spec_ignore_unclaimed(conns[i]),
        },
{
    lemma_first_match_onto(conns, tokens, 10, i);
    lemma_unclaimed_are_marked(conns, tokens, i);
}

/// The place of the last entry `STATIC`, counted from zero over the
/// entries that are not empty.
pub open spec fn spec_last_static(tokens: Seq<Seq<char>>) -> Option<nat>
    decreases tokens.len(),
{
    if tokens.len() == 0 {
        None
    } else if tokens[0].len() == 0 {
        spec_last_static(tokens.drop_first())
    } else {
        match spec_last_static(tokens.drop_first()) {
            Some(place) => Some(place + 1),
            None => if tokens[0] == "STATIC"@ {
                Some(0)
            } else {
                None
            },
        }
    }
}

/// The last `STATIC` decides for the loopback connection, seen from the
/// priority `tier` on: where the entries go through, a loopback
/// connection without interface has the priority of the last entry
/// `STATIC`, whatever it had before; without such an entry it stays as it
/// is.
pub proof fn lemma_last_static_onto(conns: Seq<ConnectionView>, tokens: Seq<Seq<char>>, tier: int, i: int)
    requires
        0 <= tier,
        tier + 10 * tokens.len() <= i32::MAX,
        spec_dns_policy_onto(conns, tokens, tier).1 is None,
        is_first_with_id(conns, "lo"@, i),
        conns[i].interface is None,
    ensures
        spec_dns_policy_onto(conns, tokens, tier).0.len() == conns.len(),
        spec_dns_policy_onto(conns, tokens, tier).0[i] == match spec_last_static(tokens) {
            Some(place) => with_priority(conns[i], (tier + 10 * place) as i32),
            None => conns[i],
        },
        spec_last_static(tokens) is Some ==> spec_last_static(tokens).unwrap() < tokens.len(),
    decreases tokens.len(),
{
    lemma_claimed_len(conns, tokens, tier);
    if tokens.len() > 0 {
        let rest = tokens.drop_first();
        if tokens[0].len() == 0 {
            lemma_last_static_onto(conns, rest, tier, i);
        } else {
            let next = spec_apply_token(conns, tokens[0], tier as i32);
            lemma_apply_token(conns, tokens[0], tier as i32);
            crate::state::lemma_first_exists(conns, "lo"@, i);
            assert(is_first_with_id(next.0, "lo"@, i));
            if tokens[0] == "STATIC"@ {
                assert(next.0[i] == with_priority(conns[i], tier as i32));
            } else {
                assert(next.0[i] == conns[i]);
            }
            lemma_last_static_onto(next.0, rest, tier + 10, i);
        }
    }
}

/// The last `STATIC` decides for the loopback connection: after a policy
/// that went through, a loopback connection without interface has, for
/// both protocols, ten times the place of the last entry `STATIC`, the
/// places counted from one over the entries that are not empty. Without
/// such an entry it keeps what it had, and is marked to ignore the DNS
/// settings that it learns by itself where it had no priority.
pub proof fn lemma_last_static_decides(conns: Seq<ConnectionView>, tokens: Seq<Seq<char>>, i: int)
    requires
        10 * (tokens.len() + 1) <= i32::MAX,
        spec_dns_policy(conns, tokens).1 is None,
        is_first_with_id(conns, "lo"@, i),
        conns[i].interface is None,
    ensures
        spec_dns_policy(conns, tokens).0.len() == conns.len(),
        spec_dns_policy(conns, tokens).0[i] == match spec_last_static(tokens) {
            Some(place) => with_priority(conns[i], (10 * (place + 1)) as i32),
            None => spec_ignore_unclaimed(conns[i]),
        },
{
    lemma_last_static_onto(conns, tokens, 10, i);
    lemma_unclaimed_are_marked(conns, tokens, i);
}

} // verus!
