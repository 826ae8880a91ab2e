//! Which Incus daemon to talk to, by the configuration of the `incus` command
//! line tool: a local Unix socket, or a server over TLS.
//!
//! Reading files and the environment, and connecting, happen outside; what was
//! read comes in as values.

use std::sync::Arc;
use vstd::prelude::*;
use vstd::string::*;

use crate::text::{
    beginnings_are_cut_off, begins_with, concat, decimal, decimal_reads_back, last_index, last_index_spec, nothing_to_cut,
    number, occurs, parse_u16, parts_occur, quote, quoted, rsplit_once, same, split_last, starts_with, text_of, texts, u16_of,
};

verus! {

// ---------------------------------------------------------------------------
// Certificates and keys
// ---------------------------------------------------------------------------

/// The encodings that a private key comes in.
#[derive(Clone, Copy, PartialEq, Eq, Structural, Debug)]
pub enum KeyKind {
    Pkcs1,
    Pkcs8,
    Sec1,
}

/// A private key: its DER bytes and how they are encoded.
pub struct PrivateKey {
    pub kind: KeyKind,
    pub der: Vec<u8>,
}

/// The bytes of each of a list of certificates.
pub open spec fn ders(list: Seq<Vec<u8>>) -> Seq<Seq<u8>> {
    Seq::new(list.len(), |i: int| list[i]@)
}

/// The certificates of a PEM file, as `rustls_pemfile::certs` finds them, or the
/// text of its first error.
pub uninterp spec fn pem_certs(content: Seq<u8>) -> Result<Seq<Seq<u8>>, Seq<char>>;

/// The first private key of a PEM file, as `rustls_pemfile::private_key` finds
/// it, or the text of its error.
pub uninterp spec fn pem_key(content: Seq<u8>) -> Result<Option<(KeyKind, Seq<u8>)>, Seq<char>>;

/// `rustls_pemfile::certs`, collected: the DER bytes of every certificate of a
/// PEM file in order, or the text of the first error. Which it is depends on
/// the bytes of the file alone.
#[verifier::external_body]
fn read_certs(content: &[u8]) -> (r: Result<Vec<Vec<u8>>, String>)
    ensures
        match r {
            Ok(list) => pem_certs(content@) == Ok::<Seq<Seq<u8>>, Seq<char>>(ders(list@)),
            Err(e) => pem_certs(content@) == Err::<Seq<Seq<u8>>, Seq<char>>(e@),
        },
{
    let mut rest = content;
    rustls_pemfile::certs(&mut rest)
        .map(|found| found.map(|cert| cert.as_ref().to_vec()))
        .collect::<Result<Vec<Vec<u8>>, _>>()
        .map_err(|e| e.to_string())
}

/// `rustls_pemfile::private_key`: the first private key of a PEM file, of
/// whichever encoding its label names, nothing where there is none, or the text
/// of an error. Which it is depends on the bytes of the file alone. There are no
/// encodings but these three; a new one would count as no key.
#[verifier::external_body]
fn read_key(content: &[u8]) -> (r: Result<Option<PrivateKey>, String>)
    ensures
        match r {
            Ok(Some(key)) => pem_key(content@) == Ok::<Option<(KeyKind, Seq<u8>)>, Seq<char>>(
                Some((key.kind, key.der@)),
            ),
            Ok(None) => pem_key(content@) == Ok::<Option<(KeyKind, Seq<u8>)>, Seq<char>>(None),
            Err(e) => pem_key(content@) == Err::<Option<(KeyKind, Seq<u8>)>, Seq<char>>(e@),
        },
{
    match rustls_pemfile::private_key(&mut &content[..]) {
        Ok(Some(rustls::pki_types::PrivateKeyDer::Pkcs1(key))) => Ok(
            Some(PrivateKey { kind: KeyKind::Pkcs1, der: key.secret_pkcs1_der().to_vec() }),
        ),
        Ok(Some(rustls::pki_types::PrivateKeyDer::Pkcs8(key))) => Ok(
            Some(PrivateKey { kind: KeyKind::Pkcs8, der: key.secret_pkcs8_der().to_vec() }),
        ),
        Ok(Some(rustls::pki_types::PrivateKeyDer::Sec1(key))) => Ok(
            Some(PrivateKey { kind: KeyKind::Sec1, der: key.secret_sec1_der().to_vec() }),
        ),
        Ok(_) => Ok(None),
        Err(e) => Err(e.to_string()),
    }
}

/// The content of a file, or why it could not be read.
pub open spec fn content_of(read: Result<Vec<u8>, String>) -> Result<Seq<u8>, Seq<char>> {
    match read {
        Ok(bytes) => Ok(bytes@),
        Err(e) => Err(e@),
    }
}

/// What a list of certificates, or the failure to have one, comes to.
pub open spec fn certs_view(certs: Result<Vec<Vec<u8>>, String>) -> Result<
    Seq<Seq<u8>>,
    Seq<char>,
> {
    match certs {
        Ok(list) => Ok(ders(list@)),
        Err(e) => Err(e@),
    }
}

/// What a private key, or the failure to have one, comes to.
pub open spec fn key_view(key: Result<PrivateKey, String>) -> Result<
    (KeyKind, Seq<u8>),
    Seq<char>,
> {
    match key {
        Ok(key) => Ok((key.kind, key.der@)),
        Err(e) => Err(e@),
    }
}

pub open spec fn unreadable(path: Seq<char>, e: Seq<char>) -> Seq<char> {
    "无法读取 "@ + path + ": "@ + e
}

fn unreadable_text(path: &str, e: &str) -> (r: String)
    ensures
        r@ == unreadable(path@, e@),
{
    let mut out: String = "无法读取 ".to_owned();
    out.append(path);
    out.append(": ");
    out.append(e);
    out
}

/// The certificates of a file: what its PEM form holds, or why there are none.
pub open spec fn loaded_certs(path: Seq<char>, read: Result<Seq<u8>, Seq<char>>) -> Result<
    Seq<Seq<u8>>,
    Seq<char>,
> {
    match read {
        Ok(bytes) => found_certs(path, pem_certs(bytes)),
        Err(e) => Err(unreadable(path, e)),
    }
}

pub open spec fn found_certs(path: Seq<char>, found: Result<Seq<Seq<u8>>, Seq<char>>) -> Result<
    Seq<Seq<u8>>,
    Seq<char>,
> {
    match found {
        Ok(list) => Ok(list),
        Err(e) => Err(path + " 不是有效的证书: "@ + e),
    }
}

/// What was found in a file of certificates, an error with the file's name.
pub fn certs_found(path: &str, found: Result<Vec<Vec<u8>>, String>) -> (r: Result<
    Vec<Vec<u8>>,
    String,
>)
    ensures
        certs_view(r) == found_certs(path@, certs_view(found)),
{
    match found {
        Ok(list) => Ok(list),
        Err(e) => {
            let mut out: String = path.to_owned();
            out.append(" 不是有效的证书: ");
            out.append(e.as_str());
            Err(out)
        },
    }
}

/// The certificates of a file, given what reading it came to.
pub fn load_certs(path: &str, read: Result<Vec<u8>, String>) -> (r: Result<Vec<Vec<u8>>, String>)
    ensures
        certs_view(r) == loaded_certs(path@, content_of(read)),
{
    match read {
        Ok(bytes) => certs_found(path, read_certs(bytes.as_slice())),
        Err(e) => Err(unreadable_text(path, e.as_str())),
    }
}

/// The private key of a file: the first that its PEM form holds, or why there is
/// none.
pub open spec fn loaded_key(path: Seq<char>, read: Result<Seq<u8>, Seq<char>>) -> Result<
    (KeyKind, Seq<u8>),
    Seq<char>,
> {
    match read {
        Ok(bytes) => found_key(path, pem_key(bytes)),
        Err(e) => Err(unreadable(path, e)),
    }
}

pub open spec fn found_key(
    path: Seq<char>,
    found: Result<Option<(KeyKind, Seq<u8>)>, Seq<char>>,
) -> Result<(KeyKind, Seq<u8>), Seq<char>> {
    match found {
        Ok(Some(key)) => Ok(key),
        Ok(None) => Err(path + " 是空文件"@),
        Err(e) => Err(path + " 不是有效的私钥: "@ + e),
    }
}

/// What was found in a file of private keys, with errors that name the file.
pub fn key_found(path: &str, found: Result<Option<PrivateKey>, String>) -> (r: Result<
    PrivateKey,
    String,
>)
    ensures
        key_view(r) == found_key(
            path@,
            match found {
                Ok(Some(key)) => Ok(Some((key.kind, key.der@))),
                Ok(None) => Ok(None),
                Err(e) => Err(e@),
            },
        ),
{
    match found {
        Ok(Some(key)) => Ok(key),
        Ok(None) => Err(concat(path, " 是空文件")),
        Err(e) => {
            let mut out: String = path.to_owned();
            out.append(" 不是有效的私钥: ");
            out.append(e.as_str());
            Err(out)
        },
    }
}

/// The private key of a file, given what reading it came to.
pub fn load_key(path: &str, read: Result<Vec<u8>, String>) -> (r: Result<PrivateKey, String>)
    ensures
        key_view(r) == loaded_key(path@, content_of(read)),
{
    match read {
        Ok(bytes) => key_found(path, read_key(bytes.as_slice())),
        Err(e) => Err(unreadable_text(path, e.as_str())),
    }
}

/// Incus servers sign their own certificates, so trust is no chain of
/// authorities: a server is trusted when it presents, byte for byte, the
/// certificate that was saved when it was added.
pub fn verify_server_cert(presented: &[u8], pinned: &[u8]) -> (r: Result<(), String>)
    ensures
        r is Ok <==> presented@ == pinned@,
        r matches Err(e) ==> e@
            == "服务器证书与本地保存的证书不匹配，可能被重新生成过；请重新 `incus remote add`"@,
{
    if same_bytes(presented, pinned) {
        Ok(())
    } else {
        Err(
            "服务器证书与本地保存的证书不匹配，可能被重新生成过；请重新 `incus remote add`".to_owned(),
        )
    }
}

fn same_bytes(a: &[u8], b: &[u8]) -> (r: bool)
    ensures
        r == (a@ == b@),
{
    if a.len() != b.len() {
        return false;
    }
    let mut i: usize = 0;
    while i < a.len()
        invariant
            i <= a@.len(),
            a@.len() == b@.len(),
            forall|j: int| 0 <= j < i ==> a@[j] == b@[j],
        decreases a@.len() - i,
    {
        if a[i] != b[i] {
            return false;
        }
        i += 1;
    }
    assert(a@ =~= b@);
    true
}

// ---------------------------------------------------------------------------
// Files and sockets
// ---------------------------------------------------------------------------

/// A path with one more part: an absolute part replaces the path, any other is
/// added behind a separator.
pub open spec fn joined(base: Seq<char>, part: Seq<char>) -> Seq<char> {
    if begins_with(part, "/"@) {
        part
    } else if base.len() == 0 || base.last() == '/' {
        base + part
    } else {
        base + "/"@ + part
    }
}

pub fn join(base: &str, part: &str) -> (r: String)
    ensures
        r@ == joined(base@, part@),
{
    if starts_with(part, "/") {
        return part.to_owned();
    }
    let n: usize = base.unicode_len();
    if n == 0 || base.get_char(n - 1) == '/' {
        concat(base, part)
    } else {
        let mut out: String = base.to_owned();
        out.append("/");
        out.append(part);
        out
    }
}

/// The part of the environment that says where the configuration is.
pub struct ConfigEnv {
    /// The variable `INCUS_CONF`.
    pub incus_conf: Option<String>,
    /// The variable `HOME`.
    pub home: Option<String>,
    /// The variable `XDG_CONFIG_HOME`.
    pub xdg_config_home: Option<String>,
    /// Whether the host is a Mac.
    pub macos: bool,
}

/// The configuration directory of `incus`: `INCUS_CONF` where it is set,
/// otherwise `incus` in `~/Library/Application Support` on a Mac and in
/// `XDG_CONFIG_HOME` or `~/.config` elsewhere.
pub open spec fn config_dir_of(env: ConfigEnv) -> Result<Seq<char>, Seq<char>> {
    match (env.incus_conf, env.home) {
        (Some(dir), _) => Ok(dir@),
        (None, None) => Err("缺少 HOME 环境变量"@),
        (None, Some(home)) => Ok(
            joined(
                if env.macos {
                    joined(home@, "Library/Application Support"@)
                } else {
                    match env.xdg_config_home {
                        Some(xdg) => xdg@,
                        None => joined(home@, ".config"@),
                    }
                },
                "incus"@,
            ),
        ),
    }
}

pub fn config_dir(env: &ConfigEnv) -> (r: Result<String, String>)
    ensures
        match r {
            Ok(dir) => config_dir_of(*env) == Ok::<Seq<char>, Seq<char>>(dir@),
            Err(e) => config_dir_of(*env) == Err::<Seq<char>, Seq<char>>(e@),
        },
{
    if let Some(dir) = &env.incus_conf {
        return Ok(dir.clone());
    }
    match &env.home {
        None => Err("缺少 HOME 环境变量".to_owned()),
        Some(home) => {
            let base: String = if env.macos {
                join(home.as_str(), "Library/Application Support")
            } else {
                match &env.xdg_config_home {
                    Some(xdg) => xdg.clone(),
                    None => join(home.as_str(), ".config"),
                }
            };
            Ok(join(base.as_str(), "incus"))
        },
    }
}

/// The daemon's local socket: `INCUS_SOCKET` where it is set, otherwise
/// `unix.socket` in `INCUS_DIR`, or else in `/run/incus` if it exists there and
/// in `/var/lib/incus` if not.
pub open spec fn socket_path_of(
    socket: Option<Seq<char>>,
    dir: Option<Seq<char>>,
    run_exists: bool,
) -> Seq<char> {
    match (socket, dir) {
        (Some(path), _) => path,
        (None, Some(dir)) => joined(dir, "unix.socket"@),
        (None, None) => joined(
            if run_exists {
                "/run/incus"@
            } else {
                "/var/lib/incus"@
            },
            "unix.socket"@,
        ),
    }
}

pub fn local_socket_path(socket: Option<String>, dir: Option<String>, run_exists: bool) -> (r:
    String)
    ensures
        r@ == socket_path_of(text_of(socket), text_of(dir), run_exists),
{
    match socket {
        Some(path) => path,
        None => match dir {
            Some(dir) => join(dir.as_str(), "unix.socket"),
            None => if run_exists {
                join("/run/incus", "unix.socket")
            } else {
                join("/var/lib/incus", "unix.socket")
            },
        },
    }
}

// ---------------------------------------------------------------------------
// The choice of a remote
// ---------------------------------------------------------------------------

/// A remote of the configuration.
pub struct RawRemote {
    pub addr: String,
}

/// The configuration of the `incus` command line tool, as far as it matters
/// here. No two of its remotes have the same name.
pub struct RawConfig {
    pub default_remote: Option<String>,
    pub remotes: Vec<(String, RawRemote)>,
}

/// Whether no two remotes have the same name.
pub open spec fn names_differ(remotes: Seq<(String, RawRemote)>) -> bool {
    forall|i: int, j: int|
        0 <= i < j < remotes.len() ==> (#[trigger] remotes[i]).0@ != (#[trigger] remotes[j]).0@
}

/// The address of the first remote with a name.
pub open spec fn address_of(remotes: Seq<(String, RawRemote)>, name: Seq<char>) -> Option<
    Seq<char>,
>
    decreases remotes.len(),
{
    if remotes.len() == 0 {
        None
    } else if remotes[0].0@ == name {
        Some(remotes[0].1.addr@)
    } else {
        address_of(remotes.drop_first(), name)
    }
}

fn find_address<'a>(remotes: &'a Vec<(String, RawRemote)>, name: &str) -> (r: Option<&'a String>)
    ensures
        match r {
            Some(addr) => address_of(remotes@, name@) == Some(addr@),
            None => address_of(remotes@, name@) is None,
        },
{
    let mut i: usize = 0;
    assert(remotes@.skip(0) =~= remotes@);
    while i < remotes.len()
        invariant
            i <= remotes@.len(),
            address_of(remotes@, name@) == address_of(remotes@.skip(i as int), name@),
        decreases remotes@.len() - i,
    {
        if same(remotes[i].0.as_str(), name) {
            return Some(&remotes[i].1.addr);
        }
        assert(remotes@.skip(i as int).drop_first() =~= remotes@.skip(i + 1));
        i += 1;
    }
    None
}

/// Where an address leads: to the local socket, or to a server's host and port.
pub enum Destination {
    Local,
    Server { host: String, port: u16 },
}

/// What a destination comes to: the local socket, or a host and a port.
pub open spec fn destination_view(d: Destination) -> Option<(Seq<char>, u16)> {
    match d {
        Destination::Local => None,
        Destination::Server { host, port } => Some((host@, port)),
    }
}

/// Where an address leads. An empty address and one that begins with `unix://`
/// lead to the local socket; a server is named by `https://`, its host, a colon
/// and its port number.
pub open spec fn destination_of(addr: Seq<char>) -> Result<Option<(Seq<char>, u16)>, Seq<char>> {
    if addr.len() == 0 || begins_with(addr, "unix://"@) {
        Ok(None)
    } else if !begins_with(addr, "https://"@) {
        Err("不支持的 remote 地址: "@ + addr)
    } else {
        match split_last(addr.skip("https://"@.len() as int), ':') {
            None => Err("remote 地址缺少端口: "@ + addr),
            Some((host, port)) => match u16_of(port) {
                None => Err("remote 端口无效: "@ + addr),
                Some(port) => Ok(Some((host, port))),
            },
        }
    }
}

pub fn destination(addr: &str) -> (r: Result<Destination, String>)
    ensures
        match r {
            Ok(d) => destination_of(addr@) == Ok::<Option<(Seq<char>, u16)>, Seq<char>>(
                destination_view(d),
            ),
            Err(e) => destination_of(addr@) == Err::<Option<(Seq<char>, u16)>, Seq<char>>(e@),
        },
{
    if addr.is_empty() || starts_with(addr, "unix://") {
        return Ok(Destination::Local);
    }
    if !starts_with(addr, "https://") {
        return Err(concat("不支持的 remote 地址: ", addr));
    }
    let n: usize = addr.unicode_len();
    let prefix: usize = "https://".unicode_len();
    let rest: &str = addr.substring_char(prefix, n);
    assert(rest@ =~= addr@.skip("https://"@.len() as int));
    match rsplit_once(rest, ':') {
        None => Err(concat("remote 地址缺少端口: ", addr)),
        Some((host, port)) => match parse_u16(port.as_str()) {
            None => Err(concat("remote 端口无效: ", addr)),
            Some(port) => Ok(Destination::Server { host, port }),
        },
    }
}

/// A server's address as it is written: `https://`, host, colon, port.
pub open spec fn written_address(host: Seq<char>, port: u16) -> Seq<char> {
    "https://"@ + host + ":"@ + decimal(port as nat)
}

/// A server's address leads to the host and the port it was written with, also
/// where the host holds colons of its own.
pub proof fn an_address_leads_to_its_server(host: Seq<char>, port: u16)
    ensures
        destination_of(written_address(host, port)) == Ok::<Option<(Seq<char>, u16)>, Seq<char>>(
            Some((host, port)),
        ),
{
    reveal_strlit("https://");
    reveal_strlit("unix://");
    reveal_strlit(":");
    let addr = written_address(host, port);
    let digits = decimal(port as nat);
    let rest = addr.skip(8);
    assert(addr.subrange(0, 8) =~= "https://"@);
    assert(addr.subrange(0, 7)[0] == 'h');
    assert("unix://"@[0] == 'u');
    assert(rest =~= host + seq![':'] + digits);
    decimal_reads_back(port as nat);
    last_index_spec(rest, ':');
    let k = host.len() as int;
    assert(rest[k] == ':');
    assert forall|j: int| k < j < rest.len() implies rest[j] != ':' by {
        assert(rest[j] == digits[j - k - 1]);
    }
    assert(last_index(rest, ':') == k);
    assert(rest.take(k) =~= host);
    assert(rest.skip(k + 1) =~= digits);
    assert(digits[0] != '+');
}

/// Where the daemon is and how to reach it.
pub enum Remote {
    /// A local Unix socket, by its path.
    Local(String),
    Tls { host: String, port: u16, credentials: Credentials },
}

/// What a TLS connection takes: the client's certificates and key, and the
/// certificate that the server has to present.
pub struct Credentials {
    pub client_cert: Vec<Vec<u8>>,
    pub client_key: PrivateKey,
    pub pinned: Vec<u8>,
}

pub open spec fn host_and_port(host: Seq<char>, port: u16) -> Seq<char> {
    host + ":"@ + decimal(port as nat)
}

fn host_port_text(host: &str, port: u16) -> (r: String)
    ensures
        r@ == host_and_port(host@, port),
{
    let mut out: String = host.to_owned();
    out.append(":");
    out.append(number(port as u64).as_str());
    out
}

impl Remote {
    /// What to name as the host of a request. For the local socket it hardly
    /// matters, because the path of the socket has picked the destination.
    pub open spec fn authority_text(self) -> Seq<char> {
        match self {
            Remote::Local(_) => "unix"@,
            Remote::Tls { host, port, .. } => host_and_port(host@, port),
        }
    }

    pub fn authority(&self) -> (r: String)
        ensures
            r@ == self.authority_text(),
    {
        match self {
            Remote::Local(_) => "unix".to_owned(),
            Remote::Tls { host, port, .. } => host_port_text(host.as_str(), *port),
        }
    }

    pub fn is_tls(&self) -> (r: bool)
        ensures
            r == (self is Tls),
    {
        matches!(self, Remote::Tls { .. })
    }
}

/// A server that the configuration chose, and the files that are needed to reach
/// it.
pub struct ServerPlan {
    pub name: String,
    pub host: String,
    pub port: u16,
    pub client_cert_path: String,
    pub client_key_path: String,
    pub pinned_path: String,
}

/// What a configuration comes to: a local socket, or a server whose files have
/// to be read first.
pub enum Plan {
    Local(String),
    Server(ServerPlan),
}

/// Whether a plan is the one for a server of the given name, host and port, with
/// the files of the given configuration directory.
pub open spec fn server_plan_is(
    plan: ServerPlan,
    dir: Seq<char>,
    name: Seq<char>,
    host: Seq<char>,
    port: u16,
) -> bool {
    &&& plan.name@ == name
    &&& plan.host@ == host
    &&& plan.port == port
    &&& plan.client_cert_path@ == joined(dir, "client.crt"@)
    &&& plan.client_key_path@ == joined(dir, "client.key"@)
    &&& plan.pinned_path@ == joined(joined(dir, "servercerts"@), name + ".crt"@)
}

/// Whether a plan, or an error, is what the remote with a name comes to.
pub open spec fn planned(
    r: Result<Plan, String>,
    config: RawConfig,
    dir: Seq<char>,
    socket: Seq<char>,
    name: Seq<char>,
) -> bool {
    match address_of(config.remotes@, name) {
        None => r matches Err(e) && e@ == "配置中找不到 remote "@ + quoted(name),
        Some(addr) => match destination_of(addr) {
            Err(e) => r matches Err(f) && f@ == e,
            Ok(None) => r matches Ok(Plan::Local(path)) && path@ == socket,
            Ok(Some((host, port))) => r matches Ok(Plan::Server(plan)) && server_plan_is(
                plan,
                dir,
                name,
                host,
                port,
            ),
        },
    }
}

/// What the remote with a name comes to.
pub fn plan_named(config: &RawConfig, dir: &str, socket: &str, name: &str) -> (r: Result<
    Plan,
    String,
>)
    ensures
        planned(r, *config, dir@, socket@, name@),
{
    match find_address(&config.remotes, name) {
        None => Err(concat("配置中找不到 remote ", quote(name).as_str())),
        Some(addr) => match destination(addr.as_str()) {
            Err(e) => Err(e),
            Ok(Destination::Local) => Ok(Plan::Local(socket.to_owned())),
            Ok(Destination::Server { host, port }) => Ok(
                Plan::Server(
                    ServerPlan {
                        name: name.to_owned(),
                        host,
                        port,
                        client_cert_path: join(dir, "client.crt"),
                        client_key_path: join(dir, "client.key"),
                        pinned_path: join(
                            join(dir, "servercerts").as_str(),
                            concat(name, ".crt").as_str(),
                        ),
                    },
                ),
            ),
        },
    }
}

/// Whether an address leads to a daemon. That of a mere image server does not.
pub open spec fn reachable(addr: Seq<char>) -> bool {
    destination_of(addr) is Ok
}

/// The names of the remotes that are daemons, in the order of the configuration.
pub open spec fn daemon_names(remotes: Seq<(String, RawRemote)>) -> Seq<Seq<char>>
    decreases remotes.len(),
{
    if remotes.len() == 0 {
        Seq::empty()
    } else if reachable(remotes.last().1.addr@) {
        daemon_names(remotes.drop_last()).push(remotes.last().0@)
    } else {
        daemon_names(remotes.drop_last())
    }
}

proof fn daemon_name_at(remotes: Seq<(String, RawRemote)>, k: int) -> (i: int)
    requires
        0 <= k < daemon_names(remotes).len(),
    ensures
        0 <= i < remotes.len(),
        remotes[i].0@ == daemon_names(remotes)[k],
        reachable(remotes[i].1.addr@),
    decreases remotes.len(),
{
    let front = remotes.drop_last();
    if k < daemon_names(front).len() {
        daemon_name_at(front, k)
    } else {
        remotes.len() - 1
    }
}

proof fn daemon_names_differ(remotes: Seq<(String, RawRemote)>)
    requires
        names_differ(remotes),
    ensures
        daemon_names(remotes).no_duplicates(),
    decreases remotes.len(),
{
    if remotes.len() > 0 {
        let front = remotes.drop_last();
        let before = daemon_names(front);
        let out = daemon_names(remotes);
        daemon_names_differ(front);
        assert forall|i: int, j: int| 0 <= i < j < out.len() implies out[i] != out[j] by {
            if j < before.len() {
                assert(out[i] == before[i] && out[j] == before[j]);
            } else {
                let k = daemon_name_at(front, i);
                assert(remotes[k].0@ != remotes[remotes.len() - 1].0@);
            }
        }
    }
}

/// Where no two remotes have the same name, the first one with a name is the
/// only one: its address is that of every remote with the name.
pub proof fn a_name_has_one_address(remotes: Seq<(String, RawRemote)>, i: int)
    requires
        names_differ(remotes),
        0 <= i < remotes.len(),
    ensures
        address_of(remotes, remotes[i].0@) == Some(remotes[i].1.addr@),
    decreases remotes.len(),
{
    if i > 0 {
        assert(remotes[0].0@ != remotes[i].0@);
        let rest = remotes.drop_first();
        assert(rest[i - 1] == remotes[i]);
        assert forall|a: int, b: int| 0 <= a < b < rest.len() implies (#[trigger] rest[a]).0@ != (
        #[trigger] rest[b]).0@ by {
            assert(rest[a] == remotes[a + 1] && rest[b] == remotes[b + 1]);
        }
        a_name_has_one_address(rest, i - 1);
    }
}

/// The names of the remotes that can be chosen.
pub fn list_remotes(config: &RawConfig) -> (r: Vec<String>)
    ensures
        texts(r@) == daemon_names(config.remotes@),
        names_differ(config.remotes@) ==> texts(r@).no_duplicates(),
{
    proof {
        if names_differ(config.remotes@) {
            daemon_names_differ(config.remotes@);
        }
    }
    let remotes: &Vec<(String, RawRemote)> = &config.remotes;
    let mut out: Vec<String> = Vec::new();
    let mut i: usize = 0;
    assert(texts(out@) =~= Seq::empty());
    while i < remotes.len()
        invariant
            i <= remotes@.len(),
            texts(out@) == daemon_names(remotes@.take(i as int)),
        decreases remotes@.len() - i,
    {
        assert(remotes@.take(i + 1).drop_last() =~= remotes@.take(i as int));
        let ghost before = out@;
        if destination(remotes[i].1.addr.as_str()).is_ok() {
            out.push(remotes[i].0.clone());
            assert(texts(out@) =~= texts(before).push(remotes@[i as int].0@));
        }
        i += 1;
    }
    assert(remotes@.take(i as int) =~= remotes@);
    out
}

/// The name of the remote in use: the configuration's default, `local` where it
/// has none.
pub open spec fn default_name(config: RawConfig) -> Seq<char> {
    match config.default_remote {
        Some(name) => name@,
        None => "local"@,
    }
}

/// The name of the remote that the configuration makes the default.
pub fn default_remote(config: &RawConfig) -> (r: String)
    ensures
        r@ == default_name(*config),
{
    match &config.default_remote {
        Some(name) => name.clone(),
        None => "local".to_owned(),
    }
}

/// What is said of a configuration file that cannot be made sense of.
pub open spec fn unparsed(dir: Seq<char>, error: Seq<char>) -> Seq<char> {
    "无法解析 "@ + joined(dir, "config.yml"@) + ": "@ + error
}

fn unparsed_text(dir: &str, error: &str) -> (r: String)
    ensures
        r@ == unparsed(dir@, error@),
{
    let mut out: String = "无法解析 ".to_owned();
    out.append(join(dir, "config.yml").as_str());
    out.append(": ");
    out.append(error);
    out
}

/// What the configuration comes to. Without a readable configuration file it is
/// the local socket, as it is for `incus` itself; one that cannot be made sense
/// of is an error.
pub fn resolve_once(
    dir: &str,
    socket: &str,
    config: Option<Result<RawConfig, String>>,
) -> (r: Result<Plan, String>)
    ensures
        match config {
            None => r matches Ok(Plan::Local(path)) && path@ == socket@,
            Some(Err(e)) => r matches Err(f) && f@ == unparsed(dir@, e@),
            Some(Ok(config)) => planned(r, config, dir@, socket@, default_name(config)),
        },
{
    match config {
        None => Ok(Plan::Local(socket.to_owned())),
        Some(Err(e)) => Err(unparsed_text(dir, e.as_str())),
        Some(Ok(config)) => {
            let name: String = default_remote(&config);
            plan_named(&config, dir, socket, name.as_str())
        },
    }
}

/// What the remote with a name comes to. Without a readable configuration file
/// there is no such remote; one that cannot be made sense of is an error.
pub fn resolve_named(
    dir: &str,
    socket: &str,
    config: Option<Result<RawConfig, String>>,
    name: &str,
) -> (r: Result<Plan, String>)
    ensures
        match config {
            None => r matches Err(e) && e@ == "配置中找不到 remote "@ + quoted(name@),
            Some(Err(e)) => r matches Err(f) && f@ == unparsed(dir@, e@),
            Some(Ok(config)) => planned(r, config, dir@, socket@, name@),
        },
{
    match config {
        None => Err(concat("配置中找不到 remote ", quote(name).as_str())),
        Some(Err(e)) => Err(unparsed_text(dir, e.as_str())),
        Some(Ok(config)) => plan_named(&config, dir, socket, name),
    }
}

/// The advice given where no certificate of a server has been saved.
pub open spec fn no_pinned_cert(plan: ServerPlan) -> Seq<char> {
    "找不到 "@ + plan.name@ + " 的已保存证书（"@ + plan.pinned_path@
        + "）。先用 `incus remote add "@ + plan.name@ + " https://"@ + host_and_port(
        plan.host@,
        plan.port,
    ) + "` 建立信任，inm 复用的是 CLI 自己保存下来的证书，不会重新弹指纹确认。"@
}

fn no_pinned_cert_text(plan: &ServerPlan) -> (r: String)
    ensures
        r@ == no_pinned_cert(*plan),
{
    let mut out: String = "找不到 ".to_owned();
    out.append(plan.name.as_str());
    out.append(" 的已保存证书（");
    out.append(plan.pinned_path.as_str());
    out.append("）。先用 `incus remote add ");
    out.append(plan.name.as_str());
    out.append(" https://");
    out.append(host_port_text(plan.host.as_str(), plan.port).as_str());
    out.append("` 建立信任，inm 复用的是 CLI 自己保存下来的证书，不会重新弹指纹确认。");
    out
}

/// What a planned server comes to, once its certificates and key are loaded:
/// they all have to be there, and the first saved certificate is the one that
/// the server has to present.
pub open spec fn credentials_of(
    plan: ServerPlan,
    client_cert: Result<Seq<Seq<u8>>, Seq<char>>,
    client_key: Result<(KeyKind, Seq<u8>), Seq<char>>,
    pinned: Result<Seq<Seq<u8>>, Seq<char>>,
) -> Result<(Seq<Seq<u8>>, (KeyKind, Seq<u8>), Seq<u8>), Seq<char>> {
    match (client_cert, client_key, pinned) {
        (Err(e), _, _) => Err(e),
        (Ok(_), Err(e), _) => Err(e),
        (Ok(_), Ok(_), Err(_)) => Err(no_pinned_cert(plan)),
        (Ok(cert), Ok(key), Ok(pinned)) => if pinned.len() == 0 {
            Err(plan.pinned_path@ + " 是空文件"@)
        } else {
            Ok((cert, key, pinned[0]))
        },
    }
}

/// Whether a resolved remote is the planned server with the given credentials,
/// or the given error.
pub open spec fn server_is(
    r: Result<Remote, String>,
    plan: ServerPlan,
    credentials: Result<(Seq<Seq<u8>>, (KeyKind, Seq<u8>), Seq<u8>), Seq<char>>,
) -> bool {
    match credentials {
        Ok((cert, key, pinned)) => {
            &&& r matches Ok(Remote::Tls { host, port, credentials })
            &&& host == plan.host
            &&& port == plan.port
            &&& ders(credentials.client_cert@) == cert
            &&& (credentials.client_key.kind, credentials.client_key.der@) == key
            &&& credentials.pinned@ == pinned
        },
        Err(e) => r matches Err(f) && f@ == e,
    }
}

/// Completes a plan with the certificates and the key that its files gave.
pub fn complete_server(
    plan: ServerPlan,
    client_cert: Result<Vec<Vec<u8>>, String>,
    client_key: Result<PrivateKey, String>,
    pinned: Result<Vec<Vec<u8>>, String>,
) -> (r: Result<Remote, String>)
    ensures
        server_is(
            r,
            plan,
            credentials_of(
                plan,
                certs_view(client_cert),
                key_view(client_key),
                certs_view(pinned),
            ),
        ),
{
    let client_cert: Vec<Vec<u8>> = match client_cert {
        Ok(list) => list,
        Err(e) => return Err(e),
    };
    let client_key: PrivateKey = match client_key {
        Ok(key) => key,
        Err(e) => return Err(e),
    };
    let mut saved: Vec<Vec<u8>> = match pinned {
        Ok(list) => list,
        Err(_) => return Err(no_pinned_cert_text(&plan)),
    };
    if saved.len() == 0 {
        return Err(concat(plan.pinned_path.as_str(), " 是空文件"));
    }
    let ghost first = ders(saved@)[0];
    let pinned: Vec<u8> = saved.swap_remove(0);
    assert(pinned@ == first);
    Ok(
        Remote::Tls {
            host: plan.host,
            port: plan.port,
            credentials: Credentials { client_cert, client_key, pinned },
        },
    )
}

/// Completes a plan with what reading its files came to.
pub fn finish_server(
    plan: ServerPlan,
    client_cert: Result<Vec<u8>, String>,
    client_key: Result<Vec<u8>, String>,
    pinned: Result<Vec<u8>, String>,
) -> (r: Result<Remote, String>)
    ensures
        server_is(
            r,
            plan,
            credentials_of(
                plan,
                loaded_certs(plan.client_cert_path@, content_of(client_cert)),
                loaded_key(plan.client_key_path@, content_of(client_key)),
                loaded_certs(plan.pinned_path@, content_of(pinned)),
            ),
        ),
{
    let client_cert: Result<Vec<Vec<u8>>, String> = load_certs(
        plan.client_cert_path.as_str(),
        client_cert,
    );
    let client_key: Result<PrivateKey, String> = load_key(
        plan.client_key_path.as_str(),
        client_key,
    );
    let pinned: Result<Vec<Vec<u8>>, String> = load_certs(plan.pinned_path.as_str(), pinned);
    complete_server(plan, client_cert, client_key, pinned)
}

/// The remote in use, once it has been resolved.
pub struct RemoteCache {
    pub remote: Option<Arc<Remote>>,
}

/// What an attempt to resolve the remote comes to.
pub open spec fn resolves(
    before: RemoteCache,
    after: RemoteCache,
    attempt: Result<Remote, String>,
    r: Result<Arc<Remote>, String>,
) -> bool {
    match before.remote {
        Some(kept) => r == Ok::<Arc<Remote>, String>(kept) && after == before,
        None => match attempt {
            Ok(remote) => {
                &&& r matches Ok(handed) && *handed == remote
                &&& after.remote == Some(r->Ok_0)
            },
            Err(e) => r == Err::<Arc<Remote>, String>(e) && after.remote is None,
        },
    }
}

impl RemoteCache {
    pub fn new() -> (r: Self)
        ensures
            r.remote is None,
    {
        RemoteCache { remote: None }
    }

    /// The remote that is kept.
    pub fn cached(&self) -> (r: Option<Arc<Remote>>)
        ensures
            r == self.remote,
    {
        match &self.remote {
            Some(remote) => Some(remote.clone()),
            None => None,
        }
    }

    /// Keeps the first remote that was resolved and hands it out. A failure is
    /// not kept: what stood in the way may be mended while the program runs, and
    /// the next attempt counts.
    pub fn resolve(&mut self, attempt: Result<Remote, String>) -> (r: Result<Arc<Remote>, String>)
        ensures
            resolves(*old(self), *final(self), attempt, r),
    {
        if let Some(kept) = self.cached() {
            return Ok(kept);
        }
        match attempt {
            Ok(remote) => {
                let kept: Arc<Remote> = Arc::new(remote);
                self.remote = Some(kept.clone());
                Ok(kept)
            },
            Err(e) => Err(e),
        }
    }
}

// ---------------------------------------------------------------------------
// Connecting
// ---------------------------------------------------------------------------

/// Why a connection could not be made.
pub enum ConnectFailure {
    /// The host did not answer in time.
    Timeout,
    /// The socket could not be connected.
    Socket(String),
    /// The host's name is no name that a certificate could be for.
    HostName,
    /// The TLS handshake failed.
    Handshake(String),
}

/// What the user is told of a failed connection.
pub open spec fn connect_error_text(remote: Remote, failure: ConnectFailure) -> Seq<char> {
    let place = match remote {
        Remote::Local(path) => path@,
        Remote::Tls { host, port, .. } => host_and_port(host@, port),
    };
    let host = match remote {
        Remote::Local(path) => path@,
        Remote::Tls { host, .. } => host@,
    };
    match failure {
        ConnectFailure::Timeout => "连接 "@ + place + " 超时"@,
        ConnectFailure::Socket(e) => "无法连接 "@ + place + ": "@ + e@,
        ConnectFailure::HostName => "无效的主机名: "@ + host,
        ConnectFailure::Handshake(e) => "TLS 握手失败: "@ + e@,
    }
}

/// What the user is told of a failed connection.
pub fn connect_error(remote: &Remote, failure: &ConnectFailure) -> (r: String)
    ensures
        r@ == connect_error_text(*remote, *failure),
{
    let place: String = match remote {
        Remote::Local(path) => path.clone(),
        Remote::Tls { host, port, .. } => host_port_text(host.as_str(), *port),
    };
    let host: &str = match remote {
        Remote::Local(path) => path.as_str(),
        Remote::Tls { host, .. } => host.as_str(),
    };
    match failure {
        ConnectFailure::Timeout => {
            let mut out: String = "连接 ".to_owned();
            out.append(place.as_str());
            out.append(" 超时");
            out
        },
        ConnectFailure::Socket(e) => {
            let mut out: String = "无法连接 ".to_owned();
            out.append(place.as_str());
            out.append(": ");
            out.append(e.as_str());
            out
        },
        ConnectFailure::HostName => concat("无效的主机名: ", host),
        ConnectFailure::Handshake(e) => concat("TLS 握手失败: ", e.as_str()),
    }
}

// ---------------------------------------------------------------------------
// What the operations amount to
// ---------------------------------------------------------------------------

/// Where addresses lead: `unix://` and whatever follows, and no address at all,
/// to the local socket; any other scheme than `https://` nowhere; and a server
/// without a port number nowhere.
pub proof fn where_addresses_lead(rest: Seq<char>, addr: Seq<char>)
    ensures
        destination_of(Seq::empty()) == Ok::<Option<(Seq<char>, u16)>, Seq<char>>(None),
        destination_of("unix://"@ + rest) == Ok::<Option<(Seq<char>, u16)>, Seq<char>>(None),
        addr.len() > 0 && !begins_with(addr, "unix://"@) && !begins_with(addr, "https://"@)
            ==> destination_of(addr) is Err,
        (forall|i: int| 0 <= i < rest.len() ==> rest[i] != ':') ==> destination_of(
            "https://"@ + rest,
        ) is Err,
{
    reveal_strlit("unix://");
    reveal_strlit("https://");
    let unix = "unix://"@ + rest;
    beginnings_are_cut_off(unix, "unix://"@);
    assert(unix.skip("unix://"@.len() as int) =~= rest);
    let https = "https://"@ + rest;
    assert(https.subrange(0, 7)[0] == 'h');
    assert("unix://"@[0] == 'u');
    assert(https.skip(8) =~= rest);
    if forall|i: int| 0 <= i < rest.len() ==> rest[i] != ':' {
        nothing_to_cut(rest, ':');
    }
}

/// A remote is found exactly if one has the name.
pub proof fn remotes_are_found_by_name(remotes: Seq<(String, RawRemote)>, name: Seq<char>)
    ensures
        address_of(remotes, name) is Some <==> exists|i: int|
            0 <= i < remotes.len() && (#[trigger] remotes[i]).0@ == name,
        address_of(remotes, name) matches Some(addr) ==> exists|i: int|
            0 <= i < remotes.len() && (#[trigger] remotes[i]).0@ == name && remotes[i].1.addr@
                == addr,
    decreases remotes.len(),
{
    if remotes.len() > 0 {
        let rest = remotes.drop_first();
        remotes_are_found_by_name(rest, name);
        if remotes[0].0@ != name {
            if let Some(addr) = address_of(rest, name) {
                let i = choose|i: int|
                    0 <= i < rest.len() && (#[trigger] rest[i]).0@ == name && rest[i].1.addr@
                        == addr;
                assert(remotes[i + 1].0@ == name);
            } else {
                assert forall|i: int| 0 <= i < remotes.len() implies (#[trigger] remotes[i]).0@
                    != name by {
                    if i > 0 {
                        assert(rest[i - 1] == remotes[i]);
                    }
                }
            }
        } else {
            assert(remotes[0].0@ == name && remotes[0].1.addr@ == address_of(
                remotes,
                name,
            ).unwrap());
        }
    }
}

/// A remote with a server's address is planned as that server, with the files of
/// the configuration directory; one with a local address as the local socket.
pub proof fn remotes_are_planned_by_their_address(
    r: Result<Plan, String>,
    config: RawConfig,
    dir: Seq<char>,
    socket: Seq<char>,
    i: int,
    host: Seq<char>,
    port: u16,
)
    requires
        0 <= i < config.remotes@.len(),
        names_differ(config.remotes@),
        planned(r, config, dir, socket, config.remotes@[i].0@),
    ensures
        config.remotes@[i].1.addr@ == "https://"@ + host + ":"@ + decimal(port as nat) ==> (
        r matches Ok(Plan::Server(plan)) && plan.host@ == host && plan.port == port && plan.name@
            == config.remotes@[i].0@),
        config.remotes@[i].1.addr@.len() == 0 || begins_with(
            config.remotes@[i].1.addr@,
            "unix://"@,
        ) ==> (r matches Ok(Plan::Local(path)) && path@ == socket),
{
    a_name_has_one_address(config.remotes@, i);
    an_address_leads_to_its_server(host, port);
}

/// The remotes that are offered are those whose address leads somewhere, by name
/// and in the order of the configuration.
pub proof fn remotes_that_lead_somewhere_are_offered(remotes: Seq<(String, RawRemote)>)
    ensures
        daemon_names(remotes) == remotes.filter_map(
            |remote: (String, RawRemote)|
                if destination_of(remote.1.addr@) is Ok {
                    Some(remote.0@)
                } else {
                    None
                },
        ),
    decreases remotes.len(),
{
    if remotes.len() > 0 {
        remotes_that_lead_somewhere_are_offered(remotes.drop_last());
        assert(daemon_names(remotes) =~= remotes.filter_map(
            |remote: (String, RawRemote)|
                if destination_of(remote.1.addr@) is Ok {
                    Some(remote.0@)
                } else {
                    None
                },
        ));
    }
}

/// A server is reached only with everything that it takes: the client's
/// certificates and key, and a saved certificate, of which the first counts. The
/// first thing that is missing is what the error is about.
pub proof fn a_server_takes_all_its_credentials(
    plan: ServerPlan,
    cert: Result<Seq<Seq<u8>>, Seq<char>>,
    key: Result<(KeyKind, Seq<u8>), Seq<char>>,
    pinned: Result<Seq<Seq<u8>>, Seq<char>>,
)
    ensures
        credentials_of(plan, cert, key, pinned) is Ok <==> cert is Ok && key is Ok && (
        pinned matches Ok(list) && list.len() > 0),
        credentials_of(plan, cert, key, pinned) matches Ok((c, k, p)) ==> cert == Ok::<
            Seq<Seq<u8>>,
            Seq<char>,
        >(c) && key == Ok::<(KeyKind, Seq<u8>), Seq<char>>(k) && p == pinned->Ok_0[0],
        cert matches Err(e) ==> credentials_of(plan, cert, key, pinned) == Err::<
            (Seq<Seq<u8>>, (KeyKind, Seq<u8>), Seq<u8>),
            Seq<char>,
        >(e),
        cert is Ok ==> (key matches Err(e) ==> credentials_of(plan, cert, key, pinned) == Err::<
            (Seq<Seq<u8>>, (KeyKind, Seq<u8>), Seq<u8>),
            Seq<char>,
        >(e)),
{
}

/// The directory of the configuration: what the environment names wins over the
/// conventional place, and the home directory is needed only for the latter.
pub proof fn the_environment_names_the_configuration(env: ConfigEnv)
    ensures
        env.incus_conf matches Some(dir) ==> config_dir_of(env) == Ok::<Seq<char>, Seq<char>>(dir@),
        env.incus_conf is None && env.home is None ==> config_dir_of(env) is Err,
        env.incus_conf is None && !env.macos && env.home is Some ==> (
        env.xdg_config_home matches Some(xdg) ==> config_dir_of(env) == Ok::<Seq<char>, Seq<char>>(
            joined(xdg@, "incus"@),
        )),
        config_dir_of(env) is Ok <==> env.incus_conf is Some || env.home is Some,
{
}

/// A path goes on behind a separator, unless there is one already; an absolute
/// one stands for itself.
pub proof fn paths_go_on(base: Seq<char>, part: Seq<char>)
    ensures
        part.len() > 0 && part[0] == '/' ==> joined(base, part) == part,
        base.len() > 0 && base.last() != '/' && (part.len() == 0 || part[0] != '/') ==> joined(
            base,
            part,
        ) == base + seq!['/'] + part,
        base.len() > 0 && base.last() == '/' && (part.len() == 0 || part[0] != '/') ==> joined(
            base,
            part,
        ) == base + part,
{
    reveal_strlit("/");
    assert("/"@ =~= seq!['/']);
    beginnings_are_cut_off(part, "/"@);
    if part.len() > 0 && part[0] == '/' {
        assert(part =~= "/"@ + part.skip(1));
    }
    if begins_with(part, "/"@) {
        assert(part[0] == ("/"@ + part.skip(1))[0]);
    }
}

/// The first success is kept and handed out from then on; a failure is told and
/// not kept, so that the next attempt counts.
pub proof fn only_a_success_is_kept(
    before: RemoteCache,
    between: RemoteCache,
    after: RemoteCache,
    first: Result<Remote, String>,
    second: Result<Remote, String>,
    r: Result<Arc<Remote>, String>,
    again: Result<Arc<Remote>, String>,
)
    requires
        before.remote is None,
        resolves(before, between, first, r),
        resolves(between, after, second, again),
    ensures
        first matches Ok(remote) ==> (r matches Ok(handed) && *handed == remote) && again == r,
        first matches Err(e) ==> r == Err::<Arc<Remote>, String>(e),
        first is Err ==> (second matches Ok(remote) ==> (again matches Ok(handed) && *handed
            == remote)),
        first is Err ==> (second matches Err(e) ==> again == Err::<Arc<Remote>, String>(e)),
{
}

/// Certificates and keys come from their file as they stand in it: all of the
/// certificates, and the key. Without one of them, for whatever reason, there is
/// an error that names the file.
pub proof fn files_give_what_they_hold(path: Seq<char>, content: Seq<u8>, e: Seq<char>)
    ensures
        pem_certs(content) matches Ok(list) ==> loaded_certs(
            path,
            Ok::<Seq<u8>, Seq<char>>(content),
        ) == Ok::<Seq<Seq<u8>>, Seq<char>>(list),
        loaded_certs(path, Ok::<Seq<u8>, Seq<char>>(content)) is Ok <==> pem_certs(content) is Ok,
        pem_key(content) matches Ok(Some(key)) ==> loaded_key(
            path,
            Ok::<Seq<u8>, Seq<char>>(content),
        ) == Ok::<(KeyKind, Seq<u8>), Seq<char>>(key),
        loaded_key(path, Ok::<Seq<u8>, Seq<char>>(content)) is Ok <==> (
        pem_key(content) matches Ok(found) && found is Some),
        loaded_certs(path, Err::<Seq<u8>, Seq<char>>(e)) matches Err(text) && occurs(text, path),
        loaded_key(path, Err::<Seq<u8>, Seq<char>>(e)) matches Err(text) && occurs(text, path),
        loaded_certs(path, Ok::<Seq<u8>, Seq<char>>(content)) matches Err(text) ==> occurs(
            text,
            path,
        ),
        loaded_key(path, Ok::<Seq<u8>, Seq<char>>(content)) matches Err(text) ==> occurs(
            text,
            path,
        ),
{
    a_middle_occurs("无法读取 "@, path, ": "@, e);
    let none = Seq::<char>::empty();
    if let Err(why) = pem_certs(content) {
        a_middle_occurs(none, path, " 不是有效的证书: "@, why);
        assert(none + path =~= path);
    }
    match pem_key(content) {
        Ok(_) => {
            a_middle_occurs(none, path, " 是空文件"@, none);
            assert(none + path =~= path);
            assert(path + " 是空文件"@ + none =~= path + " 是空文件"@);
        },
        Err(why) => {
            a_middle_occurs(none, path, " 不是有效的私钥: "@, why);
            assert(none + path =~= path);
        },
    }
}

proof fn a_middle_occurs(a: Seq<char>, part: Seq<char>, b: Seq<char>, c: Seq<char>)
    ensures
        occurs(a + part + b + c, part),
{
    parts_occur(a, part, b + c);
    assert(a + part + (b + c) =~= a + part + b + c);
}

/// The local socket: the one that is named wins, then that of the directory that
/// is named, then that of the running system, then that of the installed one.
pub proof fn the_socket_is_looked_for_in_order(
    socket: Option<Seq<char>>,
    dir: Option<Seq<char>>,
    run_exists: bool,
)
    ensures
        socket matches Some(path) ==> socket_path_of(socket, dir, run_exists) == path,
        socket is None ==> (dir matches Some(place) ==> socket_path_of(socket, dir, run_exists)
            == joined(place, "unix.socket"@)),
        socket is None && dir is None && run_exists ==> socket_path_of(socket, dir, run_exists)
            == joined("/run/incus"@, "unix.socket"@),
        socket is None && dir is None && !run_exists ==> socket_path_of(socket, dir, run_exists)
            == joined("/var/lib/incus"@, "unix.socket"@),
{
}

} // verus!
