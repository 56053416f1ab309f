//! The server's configuration: where it listens, where its database lives,
//! its encryption key, and which embedded page answers a path. The caller
//! reads the command line and the environment and hands over what it found.

use vstd::prelude::*;

use crate::text::{chars_of, decimal, is_ascii_digit, owned, push_char, push_decimal, push_str, string_of};

verus! {

/// The port the server listens on when none is given.
pub const DEFAULT_PORT: u16 = 8080;

/// The host the server listens on when none is given.
pub open spec fn default_host() -> Seq<char> {
    "127.0.0.1"@
}

/// An environment variable as read.
#[derive(Debug, Clone)]
pub enum EnvValue {
    Absent,
    Text(String),
    /// Set, but not to valid Unicode.
    NotUnicode,
}

/// The variables the listen address may come from: `FAILSAFE_LISTEN`,
/// `FAILSAFE_LISTEN_HOST` and `FAILSAFE_LISTEN_PORT`.
#[derive(Debug, Clone)]
pub struct ListenEnv {
    pub listen: EnvValue,
    pub host: EnvValue,
    pub port: EnvValue,
}

/// What the command line says of the listen address: a whole address, or a
/// host or a port.
#[derive(Debug, Clone)]
pub struct ListenConfig {
    pub listen: Option<String>,
    pub host: Option<String>,
    pub port: Option<u16>,
}

/// Where to listen, as resolved; the caller parses it into a socket address.
#[derive(Debug, Clone)]
pub enum ListenTarget {
    /// The address given on the command line.
    Address(String),
    /// The address in `FAILSAFE_LISTEN`; a bad one is reported as
    /// "invalid FAILSAFE_LISTEN: ..." by the caller.
    EnvAddress(String),
    /// A host and a port, to be joined as `host:port`.
    HostPort(String, u16),
}

/// Why a port number does not read, as `u16::from_str` reports it.
pub enum PortFault {
    Empty,
    InvalidDigit,
    Overflow,
}

/// The text `u16`'s parse error gives for a fault.
pub open spec fn port_fault_text(f: PortFault) -> Seq<char> {
    match f {
        PortFault::Empty => "cannot parse integer from empty string"@,
        PortFault::InvalidDigit => "invalid digit found in string"@,
        PortFault::Overflow => "number too large to fit in target type"@,
    }
}

/// Reads the digits of `d` from position `i` on, with `acc` read so far:
/// a non-digit is an invalid digit, and a value past 65535 an overflow,
/// whichever comes first.
pub open spec fn scan_port(d: Seq<char>, i: nat, acc: nat) -> Result<u16, PortFault>
    decreases d.len() - i,
{
    if i >= d.len() {
        Ok(acc as u16)
    } else if !is_ascii_digit(d[i as int]) {
        Err(PortFault::InvalidDigit)
    } else if acc * 10 + (d[i as int] as nat - 48) > 65535 {
        Err(PortFault::Overflow)
    } else {
        scan_port(d, i + 1, (acc * 10 + (d[i as int] as nat - 48)) as nat)
    }
}

/// The port `s` reads as, like `u16::from_str`: decimal digits after an
/// optional `+`.
pub open spec fn parsed_port(s: Seq<char>) -> Result<u16, PortFault> {
    if s.len() == 0 {
        Err(PortFault::Empty)
    } else if s.len() == 1 && (s[0] == '+' || s[0] == '-') {
        Err(PortFault::InvalidDigit)
    } else if s[0] == '+' {
        scan_port(s.drop_first(), 0, 0)
    } else {
        scan_port(s, 0, 0)
    }
}

/// Reads a port number.
pub fn parse_port(text: &str) -> (r: Result<u16, PortFault>)
    ensures
        r == parsed_port(text@),
{
    let cs = chars_of(text);
    if cs.len() == 0 {
        return Err(PortFault::Empty);
    }
    if cs.len() == 1 && (cs[0] == '+' || cs[0] == '-') {
        return Err(PortFault::InvalidDigit);
    }
    let start: usize = if cs[0] == '+' {
        1
    } else {
        0
    };
    let ghost d = if cs@[0] == '+' {
        cs@.drop_first()
    } else {
        cs@
    };
    let mut acc: u32 = 0;
    let mut i: usize = start;
    while i < cs.len()
        invariant
            cs@ == text@,
            cs@.len() > 0,
            start <= i <= cs@.len(),
            start == (if cs@[0] == '+' { 1int } else { 0int }),
            d == (if cs@[0] == '+' { cs@.drop_first() } else { cs@ }),
            acc <= 65535,
            parsed_port(text@) == scan_port(d, (i - start) as nat, acc as nat),
        decreases cs.len() - i,
    {
        let c = cs[i];
        assert(d[(i - start) as int] == cs@[i as int]);
        if !('0' <= c && c <= '9') {
            return Err(PortFault::InvalidDigit);
        }
        let next: u32 = acc * 10 + (c as u32 - 48);
        if next > 65535 {
            return Err(PortFault::Overflow);
        }
        acc = next;
        i = i + 1;
    }
    assert(d.len() == cs@.len() - start);
    Ok(acc as u16)
}

/// The message for a bad `FAILSAFE_LISTEN_PORT`.
pub open spec fn port_env_error(f: Option<PortFault>) -> Seq<char> {
    match f {
        Some(fault) => "invalid FAILSAFE_LISTEN_PORT: "@ + port_fault_text(fault),
        None => "invalid FAILSAFE_LISTEN_PORT: not unicode"@,
    }
}

/// The port in `FAILSAFE_LISTEN_PORT`: none when unset, else the number it
/// holds, or the message saying why it is not one.
pub open spec fn env_port(v: EnvValue) -> Result<Option<u16>, Seq<char>> {
    match v {
        EnvValue::Absent => Ok(None),
        EnvValue::NotUnicode => Err(port_env_error(None)),
        EnvValue::Text(s) => match parsed_port(s@) {
            Ok(p) => Ok(Some(p)),
            Err(f) => Err(port_env_error(Some(f))),
        },
    }
}

/// The text of a variable that is set to Unicode.
pub open spec fn env_text(v: EnvValue) -> Option<Seq<char>> {
    match v {
        EnvValue::Text(s) => Some(s@),
        _ => None,
    }
}

fn read_env_port(v: &EnvValue) -> (r: Result<Option<u16>, String>)
    ensures
        match env_port(*v) {
            Ok(p) => r == Ok::<Option<u16>, String>(p),
            Err(m) => r matches Err(t) && t@ == m,
        },
{
    proof {
        reveal_strlit("invalid FAILSAFE_LISTEN_PORT: ");
    }
    match v {
        EnvValue::Absent => Ok(None),
        EnvValue::NotUnicode => Err(String::from_str("invalid FAILSAFE_LISTEN_PORT: not unicode")),
        EnvValue::Text(s) => match parse_port(s.as_str()) {
            Ok(p) => Ok(Some(p)),
            Err(f) => {
                let mut m = owned("invalid FAILSAFE_LISTEN_PORT: ");
                match f {
                    PortFault::Empty => push_str(&mut m, "cannot parse integer from empty string"),
                    PortFault::InvalidDigit => push_str(&mut m, "invalid digit found in string"),
                    PortFault::Overflow => push_str(&mut m, "number too large to fit in target type"),
                }
                Err(m)
            },
        },
    }
}

/// The host to use when the command line names none: `FAILSAFE_LISTEN_HOST`,
/// else the default.
pub open spec fn fallback_host(env: ListenEnv) -> Seq<char> {
    match env_text(env.host) {
        Some(h) => h,
        None => default_host(),
    }
}

/// `r` is where the server listens, by this precedence: the whole address
/// given on the command line; else, when a host or a port is given there, that
/// host and port, each completed from the environment or the defaults (a bad
/// port in the environment then counts as none); else `FAILSAFE_LISTEN`; else
/// the host and port of the environment or the defaults, where a bad port is
/// an error.
pub open spec fn resolves_to(r: Result<ListenTarget, String>, cfg: ListenConfig, env: ListenEnv) -> bool {
    match cfg.listen {
        Some(a) => r matches Ok(ListenTarget::Address(t)) && t@ == a@,
        None => if cfg.host is Some || cfg.port is Some {
            let host = match cfg.host {
                Some(h) => h@,
                None => fallback_host(env),
            };
            let port = match cfg.port {
                Some(p) => p,
                None => match env_port(env.port) {
                    Ok(Some(p)) => p,
                    _ => DEFAULT_PORT,
                },
            };
            r matches Ok(ListenTarget::HostPort(h, p)) && h@ == host && p == port
        } else {
            match env.listen {
                EnvValue::Text(s) => r matches Ok(ListenTarget::EnvAddress(t)) && t@ == s@,
                _ => match env_port(env.port) {
                    Err(m) => r matches Err(t) && t@ == m,
                    Ok(p) => r matches Ok(ListenTarget::HostPort(h, q)) && h@ == fallback_host(env)
                        && q == (match p {
                        Some(x) => x,
                        None => DEFAULT_PORT,
                    }),
                },
            }
        },
    }
}

/// The host the server listens on, whenever it listens on a host and port
/// rather than a whole address: the host given on the command line; else
/// the text of `FAILSAFE_LISTEN_HOST` when that is set to Unicode text; else
/// 127.0.0.1. In particular a port given on the command line does not make
/// the server ignore `FAILSAFE_LISTEN_HOST`.
pub proof fn lemma_listen_host_precedence(r: Result<ListenTarget, String>, cfg: ListenConfig, env: ListenEnv)
    requires
        resolves_to(r, cfg, env),
        cfg.listen is None,
        r matches Ok(ListenTarget::HostPort(_, _)),
    ensures
        r matches Ok(ListenTarget::HostPort(t, _)) && t@ == (match cfg.host {
            Some(h) => h@,
            None => match env.host {
                EnvValue::Text(h) => h@,
                _ => "127.0.0.1"@,
            },
        }),
{
}

/// A port given on the command line, with neither an address nor a host,
/// is served on that port at the host `FAILSAFE_LISTEN_HOST` names when it
/// is set to Unicode text, and at 127.0.0.1 otherwise, whatever the
/// environment's address and port.
pub proof fn lemma_port_flag_takes_env_host(r: Result<ListenTarget, String>, cfg: ListenConfig, env: ListenEnv)
    requires
        resolves_to(r, cfg, env),
        cfg.listen is None,
        cfg.host is None,
        cfg.port is Some,
    ensures
        env.host matches EnvValue::Text(h) ==> (r matches Ok(ListenTarget::HostPort(t, p)) && t@ == h@ && p
            == cfg.port.unwrap()),
        !(env.host is Text) ==> (r matches Ok(ListenTarget::HostPort(t, p)) && t@ == "127.0.0.1"@ && p
            == cfg.port.unwrap()),
{
}

fn host_or_default(env: &ListenEnv) -> (r: String)
    ensures
        r@ == fallback_host(*env),
{
    match &env.host {
        EnvValue::Text(h) => h.clone(),
        _ => String::from_str("127.0.0.1"),
    }
}

impl ListenConfig {
    /// Resolves where to listen, from the command line and the environment.
    pub fn resolve(&self, env: &ListenEnv) -> (r: Result<ListenTarget, String>)
        ensures
            resolves_to(r, *self, *env),
    {
        if let Some(a) = &self.listen {
            return Ok(ListenTarget::Address(a.clone()));
        }
        if self.host.is_some() || self.port.is_some() {
            let host = match &self.host {
                Some(h) => h.clone(),
                None => host_or_default(env),
            };
            let port = match self.port {
                Some(p) => p,
                None => match read_env_port(&env.port) {
                    Ok(Some(p)) => p,
                    _ => DEFAULT_PORT,
                },
            };
            return Ok(ListenTarget::HostPort(host, port));
        }
        if let EnvValue::Text(s) = &env.listen {
            return Ok(ListenTarget::EnvAddress(s.clone()));
        }
        let host = host_or_default(env);
        let port = match read_env_port(&env.port) {
            Ok(Some(p)) => p,
            Ok(None) => DEFAULT_PORT,
            Err(m) => {
                return Err(m);
            },
        };
        Ok(ListenTarget::HostPort(host, port))
    }
}

/// The `host:port` text of a listen address.
pub fn listen_text(host: &str, port: u16) -> (r: String)
    ensures
        r@ == host@ + seq![':'] + decimal(port as nat),
{
    let mut r = owned(host);
    push_char(&mut r, ':');
    push_decimal(&mut r, port as u64);
    r
}

/// The database URL for an SQLite file at `path`, created when missing.
pub open spec fn sqlite_url(path: Seq<char>) -> Seq<char> {
    "sqlite://"@ + path + "?mode=rwc"@
}

/// The database to use when none is configured: `FAILSAFE_DB_URL` when set,
/// else an SQLite file at `default_path` (under the user's local data
/// directory), when there is one.
pub fn default_database_url(env_url: Option<String>, default_path: Option<String>) -> (r: Option<String>)
    ensures
        match env_url {
            Some(u) => r matches Some(t) && t@ == u@,
            None => match default_path {
                Some(p) => r matches Some(t) && t@ == sqlite_url(p@),
                None => r is None,
            },
        },
{
    if let Some(u) = env_url {
        return Some(u);
    }
    match default_path {
        Some(p) => {
            let mut u = owned("sqlite://");
            push_str(&mut u, p.as_str());
            push_str(&mut u, "?mode=rwc");
            proof {
                reveal_strlit("sqlite://");
                reveal_strlit("?mode=rwc");
            }
            Some(u)
        },
        None => None,
    }
}

/// The first position of `c` in `s`, if any.
pub open spec fn first_index(s: Seq<char>, c: char) -> Option<int> {
    if exists|i: int| 0 <= i < s.len() && s[i] == c && forall|j: int| 0 <= j < i ==> s[j] != c {
        Some(choose|i: int| 0 <= i < s.len() && s[i] == c && forall|j: int| 0 <= j < i ==> s[j] != c)
    } else {
        None
    }
}

/// The file an SQLite URL names: what follows "sqlite://", up to the first
/// "?". Other URLs name no file.
pub open spec fn sqlite_file(url: Seq<char>) -> Option<Seq<char>> {
    if url.len() >= 9 && url.subrange(0, 9) == "sqlite://"@ {
        let rest = url.subrange(9, url.len() as int);
        match first_index(rest, '?') {
            Some(i) => Some(rest.subrange(0, i)),
            None => Some(rest),
        }
    } else {
        None
    }
}

/// The file of an SQLite database URL, whose directory must exist before the
/// database is opened.
pub fn sqlite_file_path(url: &str) -> (r: Option<String>)
    ensures
        match sqlite_file(url@) {
            Some(p) => r matches Some(t) && t@ == p,
            None => r is None,
        },
{
    proof {
        reveal_strlit("sqlite://");
    }
    let cs = chars_of(url);
    let prefix = chars_of("sqlite://");
    assert(prefix@.len() == 9);
    if cs.len() < 9 {
        return None;
    }
    let mut i: usize = 0;
    while i < 9
        invariant
            i <= 9,
            cs@ == url@,
            cs@.len() >= 9,
            prefix@ == "sqlite://"@,
            prefix@.len() == 9,
            forall|j: int| 0 <= j < i ==> cs@[j] == prefix@[j],
        decreases 9 - i,
    {
        if cs[i] != prefix[i] {
            assert(url@.subrange(0, 9)[i as int] != "sqlite://"@[i as int]);
            return None;
        }
        i = i + 1;
    }
    assert(url@.subrange(0, 9) =~= "sqlite://"@);
    let ghost rest = url@.subrange(9, url@.len() as int);
    let mut out: Vec<char> = Vec::new();
    let mut k: usize = 9;
    while k < cs.len()
        invariant
            9 <= k <= cs@.len(),
            cs@ == url@,
            url@.len() >= 9,
            url@.subrange(0, 9) == "sqlite://"@,
            rest == url@.subrange(9, url@.len() as int),
            out@ == rest.subrange(0, k - 9),
            forall|j: int| 0 <= j < k - 9 ==> rest[j] != '?',
        decreases cs.len() - k,
    {
        if cs[k] == '?' {
            proof {
                let p = (k - 9) as int;
                assert(rest[p] == '?');
                let c = choose|i: int| 0 <= i < rest.len() && rest[i] == '?' && forall|j: int| 0 <= j < i ==> rest[j] != '?';
                assert(c == p) by {
                    if c < p {
                        assert(rest[c] != '?');
                    } else if c > p {
                        assert(rest[p] != '?');
                    }
                }
            }
            return Some(string_of(&out));
        }
        out.push(cs[k]);
        k = k + 1;
        assert(out@ =~= rest.subrange(0, k - 9));
    }
    assert(rest.subrange(0, rest.len() as int) =~= rest);
    Some(string_of(&out))
}

/// The encryption key TOTP secrets are sealed under: `FAILSAFE_ENCRYPTION_KEY`,
/// which must be set, and must differ from the token secret `jwt_secret`.
pub fn encryption_key_from(env_key: Option<String>, jwt_secret: &str) -> (r: Result<String, String>)
    ensures
        match env_key {
            Some(k) => if k@ == jwt_secret@ {
                r matches Err(m) && m@ == "FAILSAFE_ENCRYPTION_KEY must differ from FAILSAFE_JWT_SECRET"@
            } else {
                r matches Ok(t) && t@ == k@
            },
            None => r matches Err(m) && m@ == "FAILSAFE_ENCRYPTION_KEY environment variable is required"@,
        },
{
    match env_key {
        Some(k) => {
            if crate::text::same_text(k.as_str(), jwt_secret) {
                Err(String::from_str("FAILSAFE_ENCRYPTION_KEY must differ from FAILSAFE_JWT_SECRET"))
            } else {
                Ok(k)
            }
        },
        None => Err(String::from_str("FAILSAFE_ENCRYPTION_KEY environment variable is required")),
    }
}

/// Number of leading slashes of `s`.
pub open spec fn leading_slashes(s: Seq<char>) -> nat
    decreases s.len(),
{
    if s.len() > 0 && s[0] == '/' {
        1 + leading_slashes(s.drop_first())
    } else {
        0
    }
}

/// The embedded asset a request path asks for: the path without its leading
/// slashes, or "index.html" when nothing is left.
pub open spec fn asset_name(path: Seq<char>) -> Seq<char> {
    let n = leading_slashes(path);
    if n >= path.len() {
        "index.html"@
    } else {
        path.subrange(n as int, path.len() as int)
    }
}

proof fn lemma_leading_slashes(s: Seq<char>, k: nat)
    requires
        k <= s.len(),
        forall|i: int| 0 <= i < k ==> s[i] == '/',
        k < s.len() ==> s[k as int] != '/',
    ensures
        leading_slashes(s) == k,
    decreases s.len(),
{
    if k > 0 {
        assert forall|i: int| 0 <= i < k - 1 implies s.drop_first()[i] == '/' by {
            assert(s.drop_first()[i] == s[i + 1]);
        }
        if k - 1 < s.drop_first().len() {
            assert(s.drop_first()[k - 1] == s[k as int]);
        }
        lemma_leading_slashes(s.drop_first(), (k - 1) as nat);
    }
}

/// The asset that answers a request for `path`.
pub fn asset_path(path: &str) -> (r: String)
    ensures
        r@ == asset_name(path@),
{
    let cs = chars_of(path);
    let mut n: usize = 0;
    while n < cs.len() && cs[n] == '/'
        invariant
            n <= cs@.len(),
            cs@ == path@,
            forall|i: int| 0 <= i < n ==> cs@[i] == '/',
        decreases cs.len() - n,
    {
        n = n + 1;
    }
    proof {
        lemma_leading_slashes(path@, n as nat);
    }
    if n >= cs.len() {
        return String::from_str("index.html");
    }
    let mut out: Vec<char> = Vec::new();
    let mut k: usize = n;
    while k < cs.len()
        invariant
            n <= k <= cs@.len(),
            cs@ == path@,
            out@ == path@.subrange(n as int, k as int),
        decreases cs.len() - k,
    {
        out.push(cs[k]);
        k = k + 1;
        assert(out@ =~= path@.subrange(n as int, k as int));
    }
    string_of(&out)
}

} // verus!
