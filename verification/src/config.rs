use vstd::prelude::*;
use configparser::ini::Ini;
use crate::ini::{
    ini_bool, ini_get, ini_getbool, ini_getuint, ini_new, ini_parse, ini_read, ini_uint,
    ini_text_fits, ini_value, plain_name,
};
use vstd::string::*;

verus! {

/// The settings of a running gate: whether to write logs, how many idle
/// caller lines to keep, how many callers are working, and the address of
/// the remote proxy.
pub struct Config {
    write_log: bool,
    minimum_worker: u8,
    working_caller: u8,
    proxy_server_addr: String,
}

/// The data a `Config` holds.
pub struct ConfigView {
    pub write_log: bool,
    pub minimum_worker: u8,
    pub working_caller: u8,
    pub proxy_server_addr: Seq<char>,
}

impl View for Config {
    type V = ConfigView;

    closed spec fn view(&self) -> ConfigView {
        ConfigView {
            write_log: self.write_log,
            minimum_worker: self.minimum_worker,
            working_caller: self.working_caller,
            proxy_server_addr: self.proxy_server_addr@,
        }
    }
}

/// The sections of a settings text that `Ini::read` accepts.
pub open spec fn parsed(text: Seq<char>) -> Map<Seq<char>, Map<Seq<char>, Option<Seq<char>>>> {
    ini_parse(text)->0
}

pub open spec fn common_name() -> Seq<char> {
    seq!['c', 'o', 'm', 'm', 'o', 'n']
}

pub open spec fn app_name() -> Seq<char> {
    seq!['a', 'p', 'p']
}

pub open spec fn write_log_name() -> Seq<char> {
    seq!['w', 'r', 'i', 't', 'e', '_', 'l', 'o', 'g']
}

pub open spec fn client_name() -> Seq<char> {
    seq!['c', 'l', 'i', 'e', 'n', 't']
}

pub open spec fn minimum_worker_name() -> Seq<char> {
    seq!['m', 'i', 'n', 'i', 'm', 'u', 'm', '_', 'w', 'o', 'r', 'k', 'e', 'r']
}

pub open spec fn proxy_server_addr_name() -> Seq<char> {
    seq!['p', 'r', 'o', 'x', 'y', '_', 's', 'e', 'r', 'v', 'e', 'r', '_', 'a', 'd', 'd', 'r']
}

/// A settings text from which `init` can read what it needs: it is short
/// enough for the parser (see `ini_text_fits`), it parses,
/// `[common]` names the app, and `write_log` there is `true` or `false`.
pub open spec fn common_ok(text: Seq<char>) -> bool {
    &&& ini_text_fits(text)
    &&& ini_parse(text) is Some
    &&& ini_value(parsed(text), common_name(), app_name()) is Some
    &&& ini_bool(parsed(text), common_name(), write_log_name()) matches Some(Some(_))
}

/// The app named in `[common]`.
pub open spec fn common_app(text: Seq<char>) -> Seq<char> {
    ini_value(parsed(text), common_name(), app_name())->0
}

/// The `write_log` flag of `[common]`.
pub open spec fn common_write_log(text: Seq<char>) -> bool {
    ini_bool(parsed(text), common_name(), write_log_name())->0->0
}

/// A settings text from which `init_client_side_setting` can read what it
/// needs: it is short enough for the parser, it parses, `[client]` gives
/// `minimum_worker` as a number whose low byte is below 63, and names the
/// proxy address.
pub open spec fn client_ok(text: Seq<char>) -> bool {
    &&& ini_text_fits(text)
    &&& ini_parse(text) is Some
    &&& ini_uint(parsed(text), client_name(), minimum_worker_name()) matches Some(Some(n)) && (
    n as u8) < 63
    &&& ini_value(parsed(text), client_name(), proxy_server_addr_name()) is Some
}

/// The low byte of `minimum_worker` in `[client]`.
pub open spec fn client_minimum_worker(text: Seq<char>) -> u8 {
    (ini_uint(parsed(text), client_name(), minimum_worker_name())->0->0) as u8
}

/// The proxy address in `[client]`.
pub open spec fn client_proxy_server_addr(text: Seq<char>) -> Seq<char> {
    ini_value(parsed(text), client_name(), proxy_server_addr_name())->0
}

/// One operation that changes the settings.
pub enum ConfigOp {
    TurnOn,
    SetWorkingCaller(u8),
    SetMinimumWorker(u8),
    SetProxyServerAddr(Seq<char>),
    /// `init` (or `try_init` on a text it accepts) with this text.
    Init(Seq<char>),
    /// `init_client_side_setting` (or its checked form on a text it
    /// accepts) with this text.
    InitClient(Seq<char>),
}

/// The settings after one operation.
pub open spec fn config_step(c: ConfigView, op: ConfigOp) -> ConfigView {
    match op {
        ConfigOp::TurnOn => ConfigView { write_log: true, ..c },
        ConfigOp::SetWorkingCaller(n) => ConfigView { working_caller: n, ..c },
        ConfigOp::SetMinimumWorker(n) => ConfigView { minimum_worker: n, ..c },
        ConfigOp::SetProxyServerAddr(a) => ConfigView { proxy_server_addr: a, ..c },
        ConfigOp::Init(t) => ConfigView { write_log: c.write_log || common_write_log(t), ..c },
        ConfigOp::InitClient(t) => ConfigView {
            minimum_worker: client_minimum_worker(t),
            proxy_server_addr: client_proxy_server_addr(t),
            ..c
        },
    }
}

/// The settings after a sequence of operations, first to last.
pub open spec fn config_run(c: ConfigView, ops: Seq<ConfigOp>) -> ConfigView
    decreases ops.len(),
{
    if ops.len() == 0 {
        c
    } else {
        config_step(config_run(c, ops.drop_last()), ops.last())
    }
}

/// Once logs are on they stay on, whatever operations follow; the settings
/// start with logs off.
pub proof fn lemma_log_stays_on(c: ConfigView, ops: Seq<ConfigOp>)
    ensures
        c.write_log ==> config_run(c, ops).write_log,
        config_run(c, ops.push(ConfigOp::TurnOn)).write_log,
    decreases ops.len(),
{
    if ops.len() > 0 {
        lemma_log_stays_on(c, ops.drop_last());
    }
    assert(ops.push(ConfigOp::TurnOn).drop_last() =~= ops);
}

/// After `set_minimum_worker(n)`, the pool size reads `n` until the next
/// operation that writes it.
pub proof fn lemma_minimum_worker_kept(c: ConfigView, n: u8, ops: Seq<ConfigOp>)
    requires
        forall|i: int|
            0 <= i < ops.len() ==> !(#[trigger] ops[i] is SetMinimumWorker) && !(ops[i] is InitClient),
    ensures
        config_run(config_step(c, ConfigOp::SetMinimumWorker(n)), ops).minimum_worker == n,
    decreases ops.len(),
{
    if ops.len() > 0 {
        let pre = ops.drop_last();
        assert forall|i: int| 0 <= i < pre.len() implies !(#[trigger] pre[i] is SetMinimumWorker)
            && !(pre[i] is InitClient) by {
            assert(pre[i] == ops[i]);
        }
        lemma_minimum_worker_kept(c, n, pre);
        assert(ops.last() == ops[ops.len() - 1]);
    }
}

/// After `set_proxy_server_addr(s)`, the address reads `s` until the next
/// operation that writes it; before any write it is empty.
pub proof fn lemma_proxy_server_addr_kept(c: ConfigView, a: Seq<char>, ops: Seq<ConfigOp>)
    requires
        forall|i: int|
            0 <= i < ops.len() ==> !(#[trigger] ops[i] is SetProxyServerAddr) && !(
            ops[i] is InitClient),
    ensures
        config_run(config_step(c, ConfigOp::SetProxyServerAddr(a)), ops).proxy_server_addr == a,
    decreases ops.len(),
{
    if ops.len() > 0 {
        let pre = ops.drop_last();
        assert forall|i: int| 0 <= i < pre.len() implies !(#[trigger] pre[i] is SetProxyServerAddr)
            && !(pre[i] is InitClient) by {
            assert(pre[i] == ops[i]);
        }
        lemma_proxy_server_addr_kept(c, a, pre);
        assert(ops.last() == ops[ops.len() - 1]);
    }
}

fn common_str() -> (r: &'static str)
    ensures
        r@ == common_name(),
        plain_name(r@),
{
    proof {
        reveal_strlit("common");
    }
    "common"
}

fn app_str() -> (r: &'static str)
    ensures
        r@ == app_name(),
        plain_name(r@),
{
    proof {
        reveal_strlit("app");
    }
    "app"
}

fn write_log_str() -> (r: &'static str)
    ensures
        r@ == write_log_name(),
        plain_name(r@),
{
    proof {
        reveal_strlit("write_log");
    }
    "write_log"
}

fn client_str() -> (r: &'static str)
    ensures
        r@ == client_name(),
        plain_name(r@),
{
    proof {
        reveal_strlit("client");
    }
    "client"
}

fn minimum_worker_str() -> (r: &'static str)
    ensures
        r@ == minimum_worker_name(),
        plain_name(r@),
{
    proof {
        reveal_strlit("minimum_worker");
    }
    "minimum_worker"
}

fn proxy_server_addr_str() -> (r: &'static str)
    ensures
        r@ == proxy_server_addr_name(),
        plain_name(r@),
{
    proof {
        reveal_strlit("proxy_server_addr");
    }
    "proxy_server_addr"
}

impl Config {
    /// Settings before any file was read: no logs, no workers, no address.
    pub fn new() -> (r: Config)
        ensures
            r@ == (ConfigView {
                write_log: false,
                minimum_worker: 0,
                working_caller: 0,
                proxy_server_addr: Seq::empty(),
            }),
    {
        Config {
            write_log: false,
            minimum_worker: 0,
            working_caller: 0,
            proxy_server_addr: String::new(),
        }
    }

    /// Reads the common settings from the text of the settings file:
    /// switches logs on when `write_log` is true and returns the app name.
    pub fn init(&mut self, text: String) -> (app: String)
        requires
            common_ok(text@),
        ensures
            app@ == common_app(text@),
            final(self)@ == (ConfigView {
                write_log: old(self)@.write_log || common_write_log(text@),
                ..old(self)@
            }),
            final(self)@ == config_step(old(self)@, ConfigOp::Init(text@)),
    {
        let r = Config::load(text);
        let app = ini_get(&r, common_str(), app_str()).unwrap();
        let write_log = ini_getbool(&r, common_str(), write_log_str()).unwrap().unwrap();
        if write_log {
            self.turn_on()
        }
        app
    }

    /// `init` on texts it can read; `None`, with the settings untouched,
    /// on the others.
    pub fn try_init(&mut self, text: String) -> (r: Option<String>)
        ensures
            common_ok(text@) ==> r is Some && r->0@ == common_app(text@) && final(self)@ == (
            ConfigView { write_log: old(self)@.write_log || common_write_log(text@), ..old(self)@ }),
            !common_ok(text@) ==> r is None && final(self)@ == old(self)@,
            common_ok(text@) ==> final(self)@ == config_step(old(self)@, ConfigOp::Init(text@)),
    {
        if text.as_str().unicode_len() >= 0x7fff_0000 {
            return None;
        }
        let mut ini = ini_new();
        if ini_read(&mut ini, text.clone()).is_err() {
            return None;
        }
        if ini_get(&ini, common_str(), app_str()).is_none() {
            return None;
        }
        match ini_getbool(&ini, common_str(), write_log_str()) {
            Ok(Some(_)) => {},
            _ => return None,
        }
        Some(self.init(text))
    }

    /// Reads the client settings from the text of the settings file: the
    /// size of the caller pool (low byte of the number) and the proxy
    /// address.
    pub fn init_client_side_setting(&mut self, text: String)
        requires
            client_ok(text@),
        ensures
            final(self)@ == (ConfigView {
                minimum_worker: client_minimum_worker(text@),
                proxy_server_addr: client_proxy_server_addr(text@),
                ..old(self)@
            }),
            final(self)@ == config_step(old(self)@, ConfigOp::InitClient(text@)),
    {
        let r = Config::load(text);
        let n: u8 = ini_getuint(&r, client_str(), minimum_worker_str()).unwrap().unwrap() as u8;
        let addr = ini_get(&r, client_str(), proxy_server_addr_str()).unwrap();
        self.set_minimum_worker(n);
        self.set_proxy_server_addr(addr);
    }

    /// `init_client_side_setting` on texts it can read; `false`, with the
    /// settings untouched, on the others.
    pub fn try_init_client_side_setting(&mut self, text: String) -> (r: bool)
        ensures
            r == client_ok(text@),
            client_ok(text@) ==> final(self)@ == (ConfigView {
                minimum_worker: client_minimum_worker(text@),
                proxy_server_addr: client_proxy_server_addr(text@),
                ..old(self)@
            }),
            !client_ok(text@) ==> final(self)@ == old(self)@,
            client_ok(text@) ==> final(self)@ == config_step(
                old(self)@,
                ConfigOp::InitClient(text@),
            ),
    {
        if text.as_str().unicode_len() >= 0x7fff_0000 {
            return false;
        }
        let mut ini = ini_new();
        if ini_read(&mut ini, text.clone()).is_err() {
            return false;
        }
        match ini_getuint(&ini, client_str(), minimum_worker_str()) {
            Ok(Some(n)) => {
                if n as u8 >= 63 {
                    return false;
                }
            },
            _ => return false,
        }
        if ini_get(&ini, client_str(), proxy_server_addr_str()).is_none() {
            return false;
        }
        self.init_client_side_setting(text);
        true
    }
}

//[Private]
impl Config {
    fn load(text: String) -> (r: Ini)
        requires
            ini_text_fits(text@),
            ini_parse(text@) is Some,
        ensures
            crate::ini::ini_default_settings(r),
            crate::ini::ini_sections(r) == parsed(text@),
    {
        let mut config = ini_new();
        let _ = ini_read(&mut config, text);
        config
    }
}

impl Config {
    /// Switches logs on.
    pub fn turn_on(&mut self)
        ensures
            final(self)@ == (ConfigView { write_log: true, ..old(self)@ }),
            final(self)@ == config_step(old(self)@, ConfigOp::TurnOn),
    {
        self.write_log = true
    }

    /// Whether logs are off.
    pub fn log_off(&self) -> (r: bool)
        ensures
            r == !self@.write_log,
    {
        if !self.write_log {
            return true;
        }
        false
    }

    pub fn working_caller_count(&self) -> (r: u8)
        ensures
            r == self@.working_caller,
    {
        self.working_caller
    }

    pub fn set_working_caller_count(&mut self, n: u8)
        ensures
            final(self)@ == (ConfigView { working_caller: n, ..old(self)@ }),
            final(self)@ == config_step(old(self)@, ConfigOp::SetWorkingCaller(n)),
    {
        self.working_caller = n;
    }

    pub fn minimum_worker(&self) -> (r: u8)
        ensures
            r == self@.minimum_worker,
    {
        self.minimum_worker
    }

    /// Sets the size of the caller pool, which must stay below a quarter of
    /// the byte range.
    pub fn set_minimum_worker(&mut self, n: u8)
        requires
            n < u8::MAX / 4,
        ensures
            final(self)@ == (ConfigView { minimum_worker: n, ..old(self)@ }),
            final(self)@ == config_step(old(self)@, ConfigOp::SetMinimumWorker(n)),
    {
        self.minimum_worker = n;
    }

    pub fn proxy_server_addr(&self) -> (r: String)
        ensures
            r@ == self@.proxy_server_addr,
    {
        self.proxy_server_addr.clone()
    }

    pub fn set_proxy_server_addr(&mut self, str: String)
        ensures
            final(self)@ == (ConfigView { proxy_server_addr: str@, ..old(self)@ }),
            final(self)@ == config_step(old(self)@, ConfigOp::SetProxyServerAddr(str@)),
    {
        self.proxy_server_addr = str
    }
}

} // verus!
