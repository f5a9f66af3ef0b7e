//! Managed connections: the decisions of a connection that checks its health,
//! reconnects, and negotiates a unique client name.
//!
//! The caller owns the stream and the clock. It performs what these functions
//! ask for, and reports back what happened.

use vstd::prelude::*;
use crate::command::{login, login_spec, rename, rename_spec, select_server_by_port, select_server_by_port_spec};
use crate::error::{Ts3Error, Ts3ErrorView};
use crate::raw::{int_field, int_val_parser, parse_hashmap, put_lines};
use crate::text::{chars_of, decimal_of, decimal_spec, starts_with_spec, substring};
use crate::ClientId;

verus! {

/// The server's error code for a name that another client has.
pub const ERR_NAME_TAKEN: usize = 513;

/// Max name length to allow unique names
pub const MAX_LEN_NAME: usize = 20;

/// Default connection timeout, in milliseconds.
pub const DEFAULT_TIMEOUT_CONN: u64 = 1500;

/// Default timeout for sending and receiving, in milliseconds.
pub const DEFAULT_TIMEOUT_CMD: u64 = 1500;

/// The time between two health checks, in milliseconds. A connection is
/// checked again only once more than this time has passed since its last
/// check; until then it is used as it is.
pub const PING_INTERVAL: u64 = 1000;

/// The part of `name` that the fallback name keeps. A name that leaves two
/// characters or fewer below `max_len` is cut to its first `max_len / 2`
/// characters; any other name is kept whole.
pub open spec fn retry_base(name: Seq<char>, max_len: nat) -> Seq<char> {
    if name.len() + 2 >= max_len && name.len() > max_len / 2 {
        name.take((max_len / 2) as int)
    } else {
        name
    }
}

/// The part of the time stamp `digits` that fits into `room` characters: all
/// of it where there is room, else its last `room` digits.
pub open spec fn retry_suffix(digits: Seq<char>, room: nat) -> Seq<char> {
    if room > digits.len() {
        digits
    } else {
        digits.skip(digits.len() - room)
    }
}

/// The fallback for the name `name` at the time `millis`: the kept part of
/// the name, then the time in decimal, cut to what `max_len` leaves.
pub open spec fn name_retry_spec(name: Seq<char>, max_len: nat, millis: nat) -> Seq<char> {
    let base = retry_base(name, max_len);
    base + retry_suffix(decimal_spec(millis), (max_len - base.len()) as nat)
}

/// The decimal notation of a number has a digit.
pub proof fn lemma_decimal_not_empty(n: nat)
    ensures
        decimal_spec(n).len() >= 1,
    decreases n,
{
    if n >= 10 {
        lemma_decimal_not_empty(n / 10);
    }
}

/// A fallback name is never longer than `max_len`, starts with the kept part
/// of the name, and is longer than that part unless the part fills `max_len`.
pub proof fn lemma_name_retry(name: Seq<char>, max_len: nat, millis: nat)
    ensures
        name_retry_spec(name, max_len, millis).len() <= max_len,
        retry_base(name, max_len).len() <= max_len,
        starts_with_spec(name_retry_spec(name, max_len, millis), retry_base(name, max_len)),
        retry_base(name, max_len).len() < max_len ==> name_retry_spec(name, max_len, millis).len()
            > retry_base(name, max_len).len(),
{
    lemma_decimal_not_empty(millis);
    let base = retry_base(name, max_len);
    let all = name_retry_spec(name, max_len, millis);
    assert(all.take(base.len() as int) == base);
}

/// The fallback for the name `name` at the time `millis`, in at most
/// `max_len` characters.
pub fn calc_name_retry_at(name: &str, max_len: usize, millis: u128) -> (r: String)
    ensures
        r@ == name_retry_spec(name@, max_len as nat, millis as nat),
{
    let chars = chars_of(name);
    let n = chars.len();
    let near = max_len < 2 || n >= max_len - 2;
    let keep: usize = if near && n > max_len / 2 {
        max_len / 2
    } else {
        n
    };
    let mut out = substring(&chars, 0, keep);
    proof {
        assert(chars@.subrange(0, keep as int) == retry_base(name@, max_len as nat));
    }
    let digits = chars_of(decimal_of(millis).as_str());
    let room = max_len - keep;
    let from: usize = if room > digits.len() {
        0
    } else {
        digits.len() - room
    };
    let tail = substring(&digits, from, digits.len());
    proof {
        assert(digits@.subrange(from as int, digits@.len() as int) == retry_suffix(
            digits@,
            room as nat,
        ));
    }
    out.append(tail.as_str());
    out
}

/// The time in milliseconds since the Unix epoch, or `None` where the clock
/// stands before it.
///
/// Trusted: calls `SystemTime::elapsed` on `UNIX_EPOCH`, which gives the time
/// from the epoch to now, or an error where now is earlier. Nothing is
/// claimed of the number.
#[verifier::external_body]
fn unix_millis() -> (r: Option<u128>) {
    match std::time::UNIX_EPOCH.elapsed() {
        Ok(d) => Some(d.as_millis()),
        Err(_) => None,
    }
}

/// The parameters of a managed connection.
#[derive(Debug)]
pub struct ManagedConfig {
    addr: String,
    user: String,
    password: String,
    server_port: u16,
    conn_timeout: u64,
    cmd_timeout: u64,
    name: Option<String>,
}

/// The view of a `ManagedConfig`.
pub struct ManagedConfigView {
    pub addr: Seq<char>,
    pub user: Seq<char>,
    pub password: Seq<char>,
    pub server_port: u16,
    pub conn_timeout: u64,
    pub cmd_timeout: u64,
    pub name: Option<Seq<char>>,
}

/// The view of an optional name.
pub open spec fn name_view(name: Option<String>) -> Option<Seq<char>> {
    match name {
        Some(n) => Some(n@),
        None => None,
    }
}

impl View for ManagedConfig {
    type V = ManagedConfigView;

    closed spec fn view(&self) -> ManagedConfigView {
        ManagedConfigView {
            addr: self.addr@,
            user: self.user@,
            password: self.password@,
            server_port: self.server_port,
            conn_timeout: self.conn_timeout,
            cmd_timeout: self.cmd_timeout,
            name: name_view(self.name),
        }
    }
}

impl Clone for ManagedConfig {
    fn clone(&self) -> (r: ManagedConfig)
        ensures
            r@ == self@,
    {
        ManagedConfig {
            addr: self.addr.clone(),
            user: self.user.clone(),
            password: self.password.clone(),
            server_port: self.server_port,
            conn_timeout: self.conn_timeout,
            cmd_timeout: self.cmd_timeout,
            name: match &self.name {
                Some(n) => Some(n.clone()),
                None => None,
            },
        }
    }
}

impl ManagedConfig {
    /// A configuration for the query port at `addr` and the virtual server on
    /// `server_port`, with the default timeouts and without a name.
    pub fn new(addr: String, server_port: u16, user: String, password: String) -> (r: ManagedConfig)
        ensures
            r@ == (ManagedConfigView {
                addr: addr@,
                user: user@,
                password: password@,
                server_port,
                conn_timeout: DEFAULT_TIMEOUT_CONN,
                cmd_timeout: DEFAULT_TIMEOUT_CMD,
                name: None,
            }),
    {
        ManagedConfig {
            addr,
            user,
            password,
            server_port,
            conn_timeout: DEFAULT_TIMEOUT_CONN,
            cmd_timeout: DEFAULT_TIMEOUT_CMD,
            name: None,
        }
    }

    /// Sets the name that the client asks for. A name of more than
    /// `MAX_LEN_NAME` characters is refused when the connection is made.
    pub fn name(self, name: String) -> (r: ManagedConfig)
        ensures
            r@ == (ManagedConfigView { name: Some(name@), ..self@ }),
    {
        let mut cfg = self;
        cfg.name = Some(name);
        cfg
    }

    /// Sets the timeout for connecting, in milliseconds.
    pub fn connection_timeout(self, timeout: u64) -> (r: ManagedConfig)
        ensures
            r@ == (ManagedConfigView { conn_timeout: timeout, ..self@ }),
    {
        let mut cfg = self;
        cfg.conn_timeout = timeout;
        cfg
    }

    /// Sets the timeout for sending and receiving, in milliseconds.
    pub fn timeout(self, timeout: u64) -> (r: ManagedConfig)
        ensures
            r@ == (ManagedConfigView { cmd_timeout: timeout, ..self@ }),
    {
        let mut cfg = self;
        cfg.cmd_timeout = timeout;
        cfg
    }

    /// The address of the query port.
    pub fn addr(&self) -> (r: &str)
        ensures
            r@ == self@.addr,
    {
        self.addr.as_str()
    }

    /// The two timeouts, in milliseconds: for connecting, and for sending and
    /// receiving.
    pub fn timeouts(&self) -> (r: (u64, u64))
        ensures
            r.0 == self@.conn_timeout,
            r.1 == self@.cmd_timeout,
    {
        (self.conn_timeout, self.cmd_timeout)
    }
}

/// The command whose answer the handshake waits for.
#[derive(Debug, Clone, Copy, PartialEq, Eq, Structural)]
pub enum ConnectStage {
    /// The login.
    Login,
    /// The selection of the virtual server.
    SelectServer,
    /// The first attempt to set the name.
    Rename,
    /// The second attempt, with the fallback name.
    RenameRetry,
}

/// What the handshake asks for next.
#[derive(Debug)]
pub enum ConnectStep {
    /// Send `command`, and report its outcome for `stage`.
    Send { stage: ConnectStage, command: String },
    /// The connection is ready.
    Ready,
    /// The handshake failed.
    Failed(Ts3Error),
}

/// The view of a `ConnectStep`.
pub enum ConnectStepView {
    Send { stage: ConnectStage, command: Seq<char> },
    Ready,
    Failed(Ts3ErrorView),
}

impl View for ConnectStep {
    type V = ConnectStepView;

    open spec fn view(&self) -> ConnectStepView {
        match self {
            ConnectStep::Send { stage, command } => ConnectStepView::Send {
                stage: *stage,
                command: command@,
            },
            ConnectStep::Ready => ConnectStepView::Ready,
            ConnectStep::Failed(e) => ConnectStepView::Failed(e@),
        }
    }
}

/// The view of a command's outcome.
pub open spec fn outcome_view(outcome: Result<(), Ts3Error>) -> Result<(), Ts3ErrorView> {
    match outcome {
        Ok(()) => Ok(()),
        Err(e) => Err(e@),
    }
}

/// Whether `e` is the server's answer that another client has the name.
pub open spec fn is_name_taken(e: Ts3ErrorView) -> bool {
    e matches Ts3ErrorView::ServerError { response } && response.id == ERR_NAME_TAKEN
}

/// The handshake's first step once the stream is open: the login.
pub open spec fn connect_spec(cfg: ManagedConfigView) -> ConnectStepView {
    ConnectStepView::Send { stage: ConnectStage::Login, command: login_spec(cfg.user, cfg.password) }
}

/// The step after the virtual server was selected: nothing more without a
/// name; a failure for a name that is too long; else the first attempt to set
/// the name.
pub open spec fn name_step(name: Option<Seq<char>>) -> ConnectStepView {
    match name {
        None => ConnectStepView::Ready,
        Some(n) => if n.len() > MAX_LEN_NAME {
            ConnectStepView::Failed(
                Ts3ErrorView::InvalidNameLength { length: n.len() as usize, expected: MAX_LEN_NAME },
            )
        } else {
            ConnectStepView::Send { stage: ConnectStage::Rename, command: rename_spec(n) }
        },
    }
}

/// The step after the first attempt to set the name `name` ended with
/// `outcome`, at the time `millis`: ready after a success; one more attempt,
/// with the fallback name, where the server answered that the name is taken;
/// failed with the same error after any other failure.
pub open spec fn name_fallback_spec(
    name: Seq<char>,
    outcome: Result<(), Ts3ErrorView>,
    millis: nat,
) -> ConnectStepView {
    match outcome {
        Ok(()) => ConnectStepView::Ready,
        Err(e) => if is_name_taken(e) {
            ConnectStepView::Send {
                stage: ConnectStage::RenameRetry,
                command: rename_spec(name_retry_spec(name, MAX_LEN_NAME as nat, millis)),
            }
        } else {
            ConnectStepView::Failed(e)
        },
    }
}

/// The step after the command of `stage` ended with `outcome`, at the time
/// `millis`. Every failure ends the handshake, but for the one that
/// `name_fallback_spec` answers with a second attempt.
pub open spec fn connect_next_spec(
    cfg: ManagedConfigView,
    stage: ConnectStage,
    outcome: Result<(), Ts3ErrorView>,
    millis: nat,
) -> ConnectStepView {
    match stage {
        ConnectStage::Login => match outcome {
            Ok(()) => ConnectStepView::Send {
                stage: ConnectStage::SelectServer,
                command: select_server_by_port_spec(cfg.server_port),
            },
            Err(e) => ConnectStepView::Failed(e),
        },
        ConnectStage::SelectServer => match outcome {
            Ok(()) => name_step(cfg.name),
            Err(e) => ConnectStepView::Failed(e),
        },
        ConnectStage::Rename => match cfg.name {
            Some(n) => name_fallback_spec(n, outcome, millis),
            None => match outcome {
                Ok(()) => ConnectStepView::Ready,
                Err(e) => ConnectStepView::Failed(e),
            },
        },
        ConnectStage::RenameRetry => match outcome {
            Ok(()) => ConnectStepView::Ready,
            Err(e) => ConnectStepView::Failed(e),
        },
    }
}

/// What happened to a managed connection.
#[derive(Debug, Clone, Copy, PartialEq, Eq, Structural)]
pub enum HealthEvent {
    /// The caller wants to use the connection.
    Access,
    /// The health check succeeded.
    PingOk,
    /// The health check failed.
    PingFailed,
    /// The connection was made anew.
    Reconnected,
}

/// What to do with a managed connection.
#[derive(Debug, Clone, Copy, PartialEq, Eq, Structural)]
pub enum HealthAction {
    /// Use the connection.
    Use,
    /// Check the connection with the cheapest command, and report `PingOk` or
    /// `PingFailed`.
    Ping,
    /// Make the connection anew, and report `Reconnected`; where that fails,
    /// hand the failure to the caller.
    Reconnect,
}

/// The state of a managed connection, apart from the stream itself.
#[derive(Debug)]
pub struct ManagedConnection {
    cfg: ManagedConfig,
    last_ping: u64,
    conn_id: Option<ClientId>,
}

/// The view of a `ManagedConnection`.
pub struct ManagedConnectionView {
    /// The configuration that the connection was made from.
    pub cfg: ManagedConfigView,
    /// The time of the last health check, in milliseconds of the caller's
    /// clock.
    pub last_ping: u64,
    /// The client's own id, once it was asked for.
    pub conn_id: Option<ClientId>,
}

impl View for ManagedConnection {
    type V = ManagedConnectionView;

    closed spec fn view(&self) -> ManagedConnectionView {
        ManagedConnectionView { cfg: self.cfg@, last_ping: self.last_ping, conn_id: self.conn_id }
    }
}

/// The time from `last_ping` to `now`; none where the clock went back.
pub open spec fn elapsed(last_ping: u64, now: u64) -> int {
    if now >= last_ping {
        now - last_ping
    } else {
        0
    }
}

/// Whether a connection last checked at `last_ping` is due for a check at
/// `now`: it is once more than `PING_INTERVAL` has passed.
pub open spec fn check_due(last_ping: u64, now: u64) -> bool {
    elapsed(last_ping, now) > PING_INTERVAL
}

/// The state after `event` at the time `now`.
pub open spec fn health_state(
    state: ManagedConnectionView,
    event: HealthEvent,
    now: u64,
) -> ManagedConnectionView {
    match event {
        HealthEvent::Access => state,
        HealthEvent::PingOk => ManagedConnectionView { last_ping: now, ..state },
        HealthEvent::PingFailed => state,
        HealthEvent::Reconnected => ManagedConnectionView {
            last_ping: now,
            conn_id: None,
            ..state
        },
    }
}

/// What to do after `event` at the time `now`.
pub open spec fn health_action(
    state: ManagedConnectionView,
    event: HealthEvent,
    now: u64,
) -> HealthAction {
    match event {
        HealthEvent::Access => if check_due(state.last_ping, now) {
            HealthAction::Ping
        } else {
            HealthAction::Use
        },
        HealthEvent::PingOk => HealthAction::Use,
        HealthEvent::PingFailed => HealthAction::Reconnect,
        HealthEvent::Reconnected => HealthAction::Use,
    }
}

/// An access no later than `PING_INTERVAL` after the last check uses the
/// connection as it is: no check, and the state stays as it was. An access
/// at the very time of the last check is the plainest case.
pub proof fn lemma_recent_check_is_used(state: ManagedConnectionView, now: u64)
    requires
        elapsed(state.last_ping, now) <= PING_INTERVAL,
    ensures
        health_action(state, HealthEvent::Access, now) == HealthAction::Use,
        health_state(state, HealthEvent::Access, now) == state,
        health_action(state, HealthEvent::Access, state.last_ping) == HealthAction::Use,
{
}

/// An access more than `PING_INTERVAL` after the last check asks for a check,
/// and leaves the state as it was until the check's outcome is reported.
pub proof fn lemma_old_check_is_renewed(state: ManagedConnectionView, now: u64)
    requires
        elapsed(state.last_ping, now) > PING_INTERVAL,
    ensures
        health_action(state, HealthEvent::Access, now) == HealthAction::Ping,
        health_state(state, HealthEvent::Access, now) == state,
{
}

impl ManagedConnection {
    /// The handshake's first step once the stream is open.
    pub fn connect(cfg: &ManagedConfig) -> (r: ConnectStep)
        ensures
            r@ == connect_spec(cfg@),
    {
        ConnectStep::Send {
            stage: ConnectStage::Login,
            command: login(cfg.user.as_str(), cfg.password.as_str()),
        }
    }

    /// The handshake's step after the command of `stage` ended with
    /// `outcome`, at the time `millis` in milliseconds since the Unix epoch.
    pub fn connect_next(
        cfg: &ManagedConfig,
        stage: ConnectStage,
        outcome: Result<(), Ts3Error>,
        millis: u128,
    ) -> (r: ConnectStep)
        ensures
            r@ == connect_next_spec(cfg@, stage, outcome_view(outcome), millis as nat),
    {
        match stage {
            ConnectStage::Login => match outcome {
                Ok(()) => ConnectStep::Send {
                    stage: ConnectStage::SelectServer,
                    command: select_server_by_port(cfg.server_port),
                },
                Err(e) => ConnectStep::Failed(e),
            },
            ConnectStage::SelectServer => match outcome {
                Ok(()) => match &cfg.name {
                    None => ConnectStep::Ready,
                    Some(n) => {
                        // prevent underflow in name fallback
                        let length = chars_of(n.as_str()).len();
                        if length > MAX_LEN_NAME {
                            ConnectStep::Failed(
                                Ts3Error::InvalidNameLength { length, expected: MAX_LEN_NAME },
                            )
                        } else {
                            ConnectStep::Send {
                                stage: ConnectStage::Rename,
                                command: rename(n.as_str()),
                            }
                        }
                    },
                },
                Err(e) => ConnectStep::Failed(e),
            },
            ConnectStage::Rename => match &cfg.name {
                Some(n) => Self::set_name_fallback(n.as_str(), outcome, millis),
                None => match outcome {
                    Ok(()) => ConnectStep::Ready,
                    Err(e) => ConnectStep::Failed(e),
                },
            },
            ConnectStage::RenameRetry => match outcome {
                Ok(()) => ConnectStep::Ready,
                Err(e) => ConnectStep::Failed(e),
            },
        }
    }

    /// The step after the first attempt to set the name: falls back to the
    /// name with the time stamp where the name is taken, once.
    pub fn set_name_fallback(name: &str, outcome: Result<(), Ts3Error>, millis: u128) -> (r:
        ConnectStep)
        ensures
            r@ == name_fallback_spec(name@, outcome_view(outcome), millis as nat),
    {
        match outcome {
            Ok(()) => ConnectStep::Ready,
            Err(e) => {
                let taken = match e.error_response() {
                    Some(response) => response.id == ERR_NAME_TAKEN,
                    None => false,
                };
                if taken {
                    ConnectStep::Send {
                        stage: ConnectStage::RenameRetry,
                        command: rename(calc_name_retry_at(name, MAX_LEN_NAME, millis).as_str()),
                    }
                } else {
                    ConnectStep::Failed(e)
                }
            },
        }
    }

    /// The fallback for the name `name` at the present time: the name, cut
    /// to half of `MAX_LEN_NAME` where it leaves no room, and the time in
    /// milliseconds since the Unix epoch, cut to the room that is left. A
    /// clock that stands before the epoch counts as time 0.
    pub fn calc_name_retry(name: &str) -> (r: String)
        ensures
            exists|millis: nat| r@ == name_retry_spec(name@, MAX_LEN_NAME as nat, millis),
            r@.len() <= MAX_LEN_NAME,
            starts_with_spec(r@, retry_base(name@, MAX_LEN_NAME as nat)),
            r@.len() > retry_base(name@, MAX_LEN_NAME as nat).len(),
    {
        let millis: u128 = match unix_millis() {
            Some(t) => t,
            None => 0,
        };
        proof {
            lemma_name_retry(name@, MAX_LEN_NAME as nat, millis as nat);
        }
        calc_name_retry_at(name, MAX_LEN_NAME, millis)
    }

    /// The state of a connection that was made from `config` at the time
    /// `now`.
    pub fn new(config: ManagedConfig, now: u64) -> (r: ManagedConnection)
        ensures
            r@ == (ManagedConnectionView { cfg: config@, last_ping: now, conn_id: None }),
    {
        ManagedConnection { cfg: config, last_ping: now, conn_id: None }
    }

    /// The configuration that the connection was made from.
    pub fn config(&self) -> (r: &ManagedConfig)
        ensures
            r@ == self@.cfg,
    {
        &self.cfg
    }

    /// Takes note of `event` at the time `now`, and says what to do. On an
    /// access the connection is used as it is unless more than
    /// `PING_INTERVAL` has passed since its last check; only then a check is
    /// asked for. A check that succeeded is noted with its time; one that
    /// failed asks for a new connection, and the new connection forgets the
    /// client's id.
    pub fn get(&mut self, event: HealthEvent, now: u64) -> (r: HealthAction)
        ensures
            final(self)@ == health_state(old(self)@, event, now),
            r == health_action(old(self)@, event, now),
    {
        match event {
            HealthEvent::Access => {
                let passed: u64 = if now >= self.last_ping {
                    now - self.last_ping
                } else {
                    0
                };
                if passed > PING_INTERVAL {
                    HealthAction::Ping
                } else {
                    HealthAction::Use
                }
            },
            HealthEvent::PingOk => {
                self.last_ping = now;
                HealthAction::Use
            },
            HealthEvent::PingFailed => HealthAction::Reconnect,
            HealthEvent::Reconnected => {
                self.force_reconnect();
                self.last_ping = now;
                HealthAction::Use
            },
        }
    }

    /// Forgets what was known of the old connection, after the caller made
    /// the connection anew.
    pub fn force_reconnect(&mut self)
        ensures
            final(self)@ == (ManagedConnectionView { conn_id: None, ..old(self)@ }),
    {
        self.conn_id = None;
    }

    /// The client's own id, where it is known.
    pub fn conn_id(&self) -> (r: Option<ClientId>)
        ensures
            r == self@.conn_id,
    {
        self.conn_id
    }

    /// Reads the client's own id from the answer to `whoami`, and keeps it.
    pub fn read_conn_id(&mut self, whoami: Vec<String>) -> (r: Result<ClientId, Ts3Error>)
        ensures
            match r {
                Ok(id) => int_field::<ClientId>(
                    put_lines(Map::empty(), whoami.deep_view(), false),
                    "client_id"@,
                ) == Ok::<_, Ts3ErrorView>(id as int) && final(self)@ == (ManagedConnectionView {
                    conn_id: Some(id),
                    ..old(self)@
                }),
                Err(e) => int_field::<ClientId>(
                    put_lines(Map::empty(), whoami.deep_view(), false),
                    "client_id"@,
                ) == Err::<int, _>(e@) && final(self)@ == old(self)@,
            },
    {
        let mut res = parse_hashmap(whoami, false);
        match int_val_parser::<ClientId>(&mut res, "client_id") {
            Ok(clid) => {
                self.conn_id = Some(clid);
                Ok(clid)
            },
            Err(e) => Err(e),
        }
    }

    /// The configuration for a second connection like this one, with the
    /// name `new_name` where one is given.
    pub fn clone(&self, new_name: Option<String>) -> (r: ManagedConfig)
        ensures
            r@ == match new_name {
                Some(n) => ManagedConfigView { name: Some(n@), ..self@.cfg },
                None => self@.cfg,
            },
    {
        let cfg = self.cfg.clone();
        match new_name {
            Some(n) => cfg.name(n),
            None => cfg,
        }
    }
}

} // verus!
