//! The proxy's configuration model: one route (`ProxyConfig`), the resolved
//! configuration (`Settings`), the command-line values (`Cli`), and the route
//! DSL `[<local_path>]:<remote_port>[/<remote_path>]`.

use crate::cli::Cli;
use crate::error::{Error, ParseError};
use crate::text::{
    find_char, lemma_spec_find_correct, parse_u16, spec_find, spec_parse_u16, spec_u16_string,
    str_eq, u16_to_string,
};
use vstd::prelude::*;

verus! {

/// One configured mapping from a local path prefix to a backend port and
/// backend path.
#[derive(Debug)]
pub struct ProxyConfig {
    pub local_path: String,
    pub remote_port: u16,
    pub remote_path: String,
}

/// The mathematical value of a route: both paths as character sequences.
#[verifier::ext_equal]
pub struct ProxyConfigView {
    pub local_path: Seq<char>,
    pub remote_port: u16,
    pub remote_path: Seq<char>,
}

impl View for ProxyConfig {
    type V = ProxyConfigView;

    open spec fn view(&self) -> ProxyConfigView {
        ProxyConfigView {
            local_path: self.local_path@,
            remote_port: self.remote_port,
            remote_path: self.remote_path@,
        }
    }
}

impl ProxyConfigView {
    /// A route is well formed when both paths begin with `/`.
    pub open spec fn wf(self) -> bool {
        self.local_path.len() > 0 && self.local_path[0] == '/' && self.remote_path.len() > 0
            && self.remote_path[0] == '/'
    }
}

impl Clone for ProxyConfig {
    /// An identical copy of the route.
    fn clone(&self) -> (r: ProxyConfig)
        ensures
            r@ == self@,
    {
        ProxyConfig {
            local_path: self.local_path.clone(),
            remote_port: self.remote_port,
            remote_path: self.remote_path.clone(),
        }
    }
}

impl PartialEq for ProxyConfig {
    fn eq(&self, other: &ProxyConfig) -> (r: bool) {
        str_eq(self.local_path.as_str(), other.local_path.as_str()) && self.remote_port
            == other.remote_port && str_eq(self.remote_path.as_str(), other.remote_path.as_str())
    }
}

impl vstd::std_specs::cmp::PartialEqSpecImpl for ProxyConfig {
    open spec fn obeys_eq_spec() -> bool {
        true
    }

    open spec fn eq_spec(&self, other: &ProxyConfig) -> bool {
        self@ =~= other@
    }
}

/// What parsing the route DSL `[<local_path>]:<remote_port>[/<remote_path>]`
/// returns: everything before the first `:` becomes the local path, the
/// digits after it the backend port, and everything after the next `/` the
/// backend path; a leading `/` is put on both paths. A string without `:`
/// is refused.
pub open spec fn spec_parse_proxy(s: Seq<char>) -> Result<ProxyConfigView, ParseError> {
    match spec_find(s, ':') {
        None => Err(ParseError::ProxyDefinition),
        Some(i) => {
            let local = s.subrange(0, i);
            let rest = s.skip(i + 1);
            let port_text = match spec_find(rest, '/') {
                Some(j) => rest.subrange(0, j),
                None => rest,
            };
            let remote = match spec_find(rest, '/') {
                Some(j) => rest.skip(j + 1),
                None => Seq::<char>::empty(),
            };
            match spec_parse_u16(port_text) {
                Ok(p) => Ok(
                    ProxyConfigView {
                        local_path: seq!['/'] + local,
                        remote_port: p,
                        remote_path: seq!['/'] + remote,
                    },
                ),
                Err(k) => Err(ParseError::ParseInt(k)),
            }
        },
    }
}

/// A parsed route's paths always begin with `/`.
pub proof fn lemma_parsed_proxy_wf(s: Seq<char>)
    ensures
        spec_parse_proxy(s) matches Ok(v) ==> v.wf(),
{
}

/// Law: a route string without `:` is always refused, and one with `:` is
/// never refused for its shape — only its port digits can still fail.
pub proof fn lemma_parse_rejects_missing_colon(s: Seq<char>)
    ensures
        (spec_parse_proxy(s) matches Err(e) && e == ParseError::ProxyDefinition) <==> spec_find(
            s,
            ':',
        ) is None,
{
}

/// Parses one route definition. The grammar is
/// `[<local_path>]:<remote_port>[/<remote_path>]`; both result paths carry a
/// leading `/`, and an absent part means `/` alone.
pub fn parse_proxy_config(s: &str) -> (r: Result<ProxyConfig, Error>)
    ensures
        r is Ok <==> spec_parse_proxy(s@) is Ok,
        r matches Ok(p) ==> spec_parse_proxy(s@) matches Ok(v) && p@ == v,
        r matches Err(e) ==> spec_parse_proxy(s@) matches Err(pe) && e == Error::ParseError(pe),
{
    let n = s.unicode_len();
    proof {
        lemma_spec_find_correct(s@, ':');
    }
    let colon = match find_char(s, ':') {
        None => {
            return Err(Error::ParseError(ParseError::ProxyDefinition));
        },
        Some(i) => i,
    };
    let local = s.substring_char(0, colon);
    let rest = s.substring_char(colon + 1, n);
    proof {
        assert(rest@ =~= s@.skip(colon + 1));
        lemma_spec_find_correct(rest@, '/');
    }
    let m = rest.unicode_len();
    let (port_text, remote) = match find_char(rest, '/') {
        Some(j) => (rest.substring_char(0, j), rest.substring_char(j + 1, m)),
        None => (rest, ""),
    };
    proof {
        reveal_strlit("");
        assert(""@ =~= Seq::<char>::empty());
    }
    let port = match parse_u16(port_text) {
        Ok(p) => p,
        Err(k) => {
            return Err(Error::ParseError(ParseError::ParseInt(k)));
        },
    };
    let local_path = String::from_str("/").concat(local);
    let remote_path = String::from_str("/").concat(remote);
    proof {
        reveal_strlit("/");
        assert("/"@ =~= seq!['/']);
    }
    let p = ProxyConfig { local_path, remote_port: port, remote_path };
    proof {
        assert(p@ =~= spec_parse_proxy(s@).unwrap());
    }
    Ok(p)
}

impl std::str::FromStr for ProxyConfig {
    type Err = Error;

    /// Parses one route definition; see `parse_proxy_config`.
    fn from_str(s: &str) -> Result<ProxyConfig, Error> {
        parse_proxy_config(s)
    }
}

/// The views of a sequence of routes.
pub open spec fn proxies_view(v: Seq<ProxyConfig>) -> Seq<ProxyConfigView> {
    v.map_values(|p: ProxyConfig| p@)
}

/// The text carried by an optional field.
pub open spec fn opt_text(o: Option<String>) -> Option<Seq<char>> {
    match o {
        Some(s) => Some(s@),
        None => None,
    }
}

/// The resolved configuration the proxy serves from.
#[derive(Debug)]
pub struct Settings {
    pub host: String,
    pub local_port: u16,
    pub proxies: Vec<ProxyConfig>,
    pub config: Option<String>,
    pub tls: bool,
    pub pem: Option<String>,
    pub key: Option<String>,
}

/// The mathematical value of a configuration.
#[verifier::ext_equal]
pub struct SettingsView {
    pub host: Seq<char>,
    pub local_port: u16,
    pub proxies: Seq<ProxyConfigView>,
    pub config: Option<Seq<char>>,
    pub tls: bool,
    pub pem: Option<Seq<char>>,
    pub key: Option<Seq<char>>,
}

impl View for Settings {
    type V = SettingsView;

    open spec fn view(&self) -> SettingsView {
        SettingsView {
            host: self.host@,
            local_port: self.local_port,
            proxies: proxies_view(self.proxies@),
            config: opt_text(self.config),
            tls: self.tls,
            pem: opt_text(self.pem),
            key: opt_text(self.key),
        }
    }
}

/// The configuration every run starts from: serve plain HTTP for host
/// `127.0.0.1` on port 80, with no routes.
pub open spec fn spec_default_settings() -> SettingsView {
    SettingsView {
        host: "127.0.0.1"@,
        local_port: 80,
        proxies: Seq::<ProxyConfigView>::empty(),
        config: None,
        tls: false,
        pem: None,
        key: None,
    }
}

impl Default for Settings {
    /// The configuration every run starts from.
    fn default() -> (r: Settings)
        ensures
            r@ == spec_default_settings(),
    {
        let r = Settings {
            host: String::from_str("127.0.0.1"),
            local_port: 80,
            proxies: Vec::new(),
            config: None,
            tls: false,
            pem: None,
            key: None,
        };
        proof {
            assert(r@ =~= spec_default_settings());
        }
        r
    }
}

/// Whether two optional texts carry the same value.
fn opt_str_eq(a: &Option<String>, b: &Option<String>) -> (r: bool)
    ensures
        r == (opt_text(*a) == opt_text(*b)),
{
    match (a, b) {
        (None, None) => true,
        (Some(x), Some(y)) => str_eq(x.as_str(), y.as_str()),
        _ => {
            proof {
                assert(opt_text(*a) != opt_text(*b));
            }
            false
        },
    }
}

/// Whether two route lists carry the same routes in the same order.
fn proxy_vec_eq(a: &Vec<ProxyConfig>, b: &Vec<ProxyConfig>) -> (r: bool)
    ensures
        r == (proxies_view(a@) == proxies_view(b@)),
{
    if a.len() != b.len() {
        proof {
            assert(proxies_view(a@).len() != proxies_view(b@).len());
        }
        return false;
    }
    let n = a.len();
    let mut i: usize = 0;
    while i < n
        invariant
            i <= n,
            n == a@.len(),
            n == b@.len(),
            forall|k: int| 0 <= k < i ==> a@[k]@ =~= b@[k]@,
        decreases n - i,
    {
        if !(a[i] == b[i]) {
            proof {
                assert(proxies_view(a@)[i as int] == a@[i as int]@);
                assert(proxies_view(b@)[i as int] == b@[i as int]@);
            }
            return false;
        }
        i = i + 1;
    }
    proof {
        assert(proxies_view(a@) =~= proxies_view(b@));
    }
    true
}

impl PartialEq for Settings {
    fn eq(&self, other: &Settings) -> (r: bool) {
        str_eq(self.host.as_str(), other.host.as_str()) && self.local_port == other.local_port
            && proxy_vec_eq(&self.proxies, &other.proxies) && opt_str_eq(
            &self.config,
            &other.config,
        ) && self.tls == other.tls && opt_str_eq(&self.pem, &other.pem) && opt_str_eq(
            &self.key,
            &other.key,
        )
    }
}

impl vstd::std_specs::cmp::PartialEqSpecImpl for Settings {
    open spec fn obeys_eq_spec() -> bool {
        true
    }

    open spec fn eq_spec(&self, other: &Settings) -> bool {
        self@ =~= other@
    }
}

impl Settings {
    /// The configuration every run starts from; the same value as `default`.
    pub fn new() -> (r: Settings)
        ensures
            r@ == spec_default_settings(),
    {
        Settings::default()
    }

    /// Combines two partial configurations: every scalar field is taken from
    /// `other`, while the route lists are joined, this configuration's routes
    /// first. Both inputs are left without routes.
    pub fn merge(&mut self, other: &mut Settings) -> (r: Settings)
        ensures
            r@.host == old(other)@.host,
            r@.local_port == old(other)@.local_port,
            r@.proxies == old(self)@.proxies + old(other)@.proxies,
            r@.config == old(other)@.config,
            r@.tls == old(other)@.tls,
            r@.pem == old(other)@.pem,
            r@.key == old(other)@.key,
            final(self)@ == (SettingsView {
                proxies: Seq::<ProxyConfigView>::empty(),
                ..old(self)@
            }),
            final(other)@ == (SettingsView {
                proxies: Seq::<ProxyConfigView>::empty(),
                ..old(other)@
            }),
    {
        let mut proxies: Vec<ProxyConfig> = Vec::new();

        proxies.append(&mut self.proxies);
        proxies.append(&mut other.proxies);

        let r = Settings {
            host: other.host.clone(),
            local_port: other.local_port,
            proxies,
            config: other.config.clone(),
            tls: other.tls,
            pem: other.pem.clone(),
            key: other.key.clone(),
        };
        proof {
            assert(proxies_view(old(self).proxies@ + old(other).proxies@) =~= proxies_view(
                old(self).proxies@,
            ) + proxies_view(old(other).proxies@));
            assert(final(self)@ =~= SettingsView {
                proxies: Seq::<ProxyConfigView>::empty(),
                ..old(self)@
            });
            assert(final(other)@ =~= SettingsView {
                proxies: Seq::<ProxyConfigView>::empty(),
                ..old(other)@
            });
        }
        r
    }
}

/// One line of the configuration listing: the local endpoint and path, an
/// arrow, and the backend port and path, with terminal colour codes.
pub open spec fn spec_proxy_line(host: Seq<char>, local_port: u16, p: ProxyConfigView) -> Seq<
    char,
> {
    "\u{1b}[95m\u{1d25}\u{1b}[0m "@ + host + ":"@ + spec_u16_string(local_port as nat)
        + p.local_path + " \u{1b}[94m\u{27a1}\u{1b}[0m :"@ + spec_u16_string(p.remote_port as nat)
        + p.remote_path
}

/// The configuration listing's lines, one per route, joined with newlines.
pub open spec fn spec_proxy_lines(host: Seq<char>, local_port: u16, ps: Seq<ProxyConfigView>) -> Seq<
    char,
>
    decreases ps.len(),
{
    if ps.len() == 0 {
        Seq::<char>::empty()
    } else if ps.len() == 1 {
        spec_proxy_line(host, local_port, ps[0])
    } else {
        spec_proxy_lines(host, local_port, ps.drop_last()) + "\n"@ + spec_proxy_line(
            host,
            local_port,
            ps.last(),
        )
    }
}

/// The whole configuration listing: the route lines framed by newlines.
pub open spec fn spec_settings_display(s: SettingsView) -> Seq<char> {
    "\n"@ + spec_proxy_lines(s.host, s.local_port, s.proxies) + "\n"@
}

impl Settings {
    /// Renders the configuration listing that is printed at startup: one line
    /// per route, framed by newlines.
    pub fn display_string(&self) -> (r: String)
        ensures
            r@ == spec_settings_display(self@),
    {
        let mut out = String::from_str("\n");
        let n = self.proxies.len();
        let mut i: usize = 0;
        proof {
            assert(proxies_view(self.proxies@).take(0) =~= Seq::<ProxyConfigView>::empty());
        }
        while i < n
            invariant
                i <= n,
                n == self.proxies@.len(),
                out@ == "\n"@ + spec_proxy_lines(
                    self.host@,
                    self.local_port,
                    proxies_view(self.proxies@).take(i as int),
                ),
            decreases n - i,
        {
            if i > 0 {
                out.append("\n");
            }
            out.append("\u{1b}[95m\u{1d25}\u{1b}[0m ");
            out.append(self.host.as_str());
            out.append(":");
            out.append(u16_to_string(self.local_port).as_str());
            out.append(self.proxies[i].local_path.as_str());
            out.append(" \u{1b}[94m\u{27a1}\u{1b}[0m :");
            out.append(u16_to_string(self.proxies[i].remote_port).as_str());
            out.append(self.proxies[i].remote_path.as_str());
            proof {
                let ghost pv = proxies_view(self.proxies@);
                assert(pv.take(i + 1 as int).drop_last() =~= pv.take(i as int));
                assert(pv.take(i + 1 as int).last() == pv[i as int]);
                assert(out@ =~= "\n"@ + spec_proxy_lines(
                    self.host@,
                    self.local_port,
                    pv.take(i + 1 as int),
                ));
            }
            i = i + 1;
        }
        out.append("\n");
        proof {
            assert(proxies_view(self.proxies@).take(n as int) =~= proxies_view(self.proxies@));
        }
        out
    }
}

impl Settings {
    /// Parses each route string of the command line and carries the scalar
    /// fields over. The first route string the grammar refuses decides the
    /// error.
    pub fn from_cli(cli: Cli) -> (r: Result<Settings, Error>)
        ensures
            r is Ok <==> (forall|k: int|
                0 <= k < cli.proxies@.len() ==> spec_parse_proxy(cli.proxies@[k]@) is Ok),
            r matches Ok(s) ==> {
                &&& s@.host == cli.host@
                &&& s@.local_port == cli.local_port
                &&& s@.config == opt_text(cli.config)
                &&& s@.tls == cli.tls
                &&& s@.pem == opt_text(cli.pem)
                &&& s@.key == opt_text(cli.key)
                &&& s@.proxies.len() == cli.proxies@.len()
                &&& forall|k: int|
                    0 <= k < cli.proxies@.len() ==> s@.proxies[k] == spec_parse_proxy(
                        cli.proxies@[k]@,
                    ).unwrap()
            },
            r matches Err(e) ==> exists|k: int|
                0 <= k < cli.proxies@.len() && (#[trigger] spec_parse_proxy(cli.proxies@[k]@)
                    matches Err(pe) && e == Error::ParseError(pe)) && (forall|j: int|
                    0 <= j < k ==> spec_parse_proxy(cli.proxies@[j]@) is Ok),
    {
        let mut proxies: Vec<ProxyConfig> = Vec::new();
        let n = cli.proxies.len();
        let mut i: usize = 0;
        while i < n
            invariant
                i <= n,
                n == cli.proxies@.len(),
                proxies@.len() == i,
                forall|k: int| 0 <= k < i ==> spec_parse_proxy(cli.proxies@[k]@) is Ok,
                forall|k: int|
                    0 <= k < i ==> proxies@[k]@ == spec_parse_proxy(cli.proxies@[k]@).unwrap(),
            decreases n - i,
        {
            match parse_proxy_config(cli.proxies[i].as_str()) {
                Ok(p) => {
                    proxies.push(p);
                },
                Err(e) => {
                    return Err(e);
                },
            }
            i = i + 1;
        }
        let s = Settings {
            host: cli.host,
            local_port: cli.local_port,
            proxies,
            config: cli.config,
            tls: cli.tls,
            pem: cli.pem,
            key: cli.key,
        };
        proof {
            assert(forall|k: int|
                0 <= k < cli.proxies@.len() ==> s@.proxies[k] == spec_parse_proxy(
                    cli.proxies@[k]@,
                ).unwrap());
        }
        Ok(s)
    }
}

impl TryFrom<Cli> for Settings {
    type Error = Error;

    /// Parses the command-line values into a configuration; see `from_cli`.
    fn try_from(value: Cli) -> Result<Settings, Error> {
        Settings::from_cli(value)
    }
}

impl vstd::std_specs::convert::TryFromSpecImpl<Cli> for Settings {
    open spec fn obeys_try_from_spec() -> bool {
        false
    }

    open spec fn try_from_spec(value: Cli) -> Result<Settings, Error> {
        arbitrary()
    }
}

/// The host every configuration starts from when none is given.
pub fn default_host() -> (h: String)
    ensures
        h@ == "127.0.0.1"@,
{
    String::from_str("127.0.0.1")
}

/// The listening port every configuration starts from when none is given.
pub fn default_port() -> (p: u16)
    ensures
        p == 80,
{
    80
}

} // verus!
