//! What a connector's parts say to one another: the outcome of a frame, of an authentication,
//! and what an account may do.

use crate::encoded_pdu::RawPdu;
use crate::error::RsmsError;
use crate::frame::Frame;
use vstd::prelude::*;

verus! {

/// The bit that makes a request's command its response's command.
pub const RESPONSE_COMMAND_MASK: u32 = 0x80000000;

/// What cuts frames out of a byte stream.
///
/// The spec functions have bodies only so that ordinary Rust can implement the trait without
/// them; a verified implementation gives its own.
pub trait FrameDecoder: Send + Sync {
    /// Whether the decoder may take these frames from a stream, or refuse it, and leave that
    /// much of it.
    open spec fn takes(
        &self,
        res: Result<Vec<Frame>, RsmsError>,
        before: Seq<u8>,
        after: Seq<u8>,
    ) -> bool {
        arbitrary()
    }

    /// Takes the complete frames from the front of `buf`.
    fn decode_frames(&self, buf: &mut Vec<u8>) -> (res: Result<Vec<Frame>, RsmsError>)
        ensures
            self.takes(res, old(buf)@, final(buf)@),
    ;
}

impl<D: FrameDecoder> FrameDecoder for Box<D> {
    open spec fn takes(
        &self,
        res: Result<Vec<Frame>, RsmsError>,
        before: Seq<u8>,
        after: Seq<u8>,
    ) -> bool {
        (**self).takes(res, before, after)
    }

    fn decode_frames(&self, buf: &mut Vec<u8>) -> Result<Vec<Frame>, RsmsError> {
        (**self).decode_frames(buf)
    }
}

/// What becomes of a frame that its protocol has dealt with.
#[derive(Debug, Clone, Copy, PartialEq, Eq, Structural)]
pub enum HandleResult {
    /// The business handlers get it too.
    Continue,
    /// Nobody else gets it.
    Stop,
}

impl HandleResult {
    pub fn should_continue(&self) -> (yes: bool)
        ensures
            yes == (*self == HandleResult::Continue),
    {
        match self {
            HandleResult::Continue => true,
            HandleResult::Stop => false,
        }
    }
}

/// The verdict on a login.
#[derive(Debug, Clone)]
pub struct AuthResult {
    /// 0 for a login that is let in, else the reason for the refusal.
    pub status: u32,
    pub account: String,
    pub message: Option<String>,
}

impl AuthResult {
    /// Lets the account in.
    pub fn success(account: &str) -> (res: Self)
        ensures
            res.status == 0,
            res.account@ == account@,
            res.message is None,
    {
        AuthResult { status: 0, account: account.to_owned(), message: None }
    }

    /// Refuses the login.
    pub fn failure(status: u32, message: &str) -> (res: Self)
        ensures
            res.status == status,
            res.account@ == Seq::<char>::empty(),
            res.message matches Some(m) && m@ == message@,
    {
        AuthResult { status, account: String::new(), message: Some(message.to_owned()) }
    }
}

/// What a client proves its identity with.
#[derive(Debug, Clone)]
pub enum AuthCredentials {
    Smgp { client_id: String, authenticator: [u8; 16], version: u8 },
    Sgip { login_name: String, login_password: String },
    Cmpp { source_addr: String, authenticator_source: [u8; 16], version: u8, timestamp: u32 },
    Smpp { system_id: String, password: String, interface_version: u8 },
}

/// Credentials as a mathematical value.
#[verifier::ext_equal]
pub enum Credentials {
    Smgp { client_id: Seq<char>, authenticator: Seq<u8>, version: u8 },
    Sgip { login_name: Seq<char>, login_password: Seq<char> },
    Cmpp {
        source_addr: Seq<char>,
        authenticator_source: Seq<u8>,
        version: u8,
        timestamp: u32,
    },
    Smpp { system_id: Seq<char>, password: Seq<char>, interface_version: u8 },
}

impl View for AuthCredentials {
    type V = Credentials;

    open spec fn view(&self) -> Credentials {
        match self {
            AuthCredentials::Smgp { client_id, authenticator, version } => Credentials::Smgp {
                client_id: client_id@,
                authenticator: authenticator@,
                version: *version,
            },
            AuthCredentials::Sgip { login_name, login_password } => Credentials::Sgip {
                login_name: login_name@,
                login_password: login_password@,
            },
            AuthCredentials::Cmpp { source_addr, authenticator_source, version, timestamp } =>
                Credentials::Cmpp {
                source_addr: source_addr@,
                authenticator_source: authenticator_source@,
                version: *version,
                timestamp: *timestamp,
            },
            AuthCredentials::Smpp { system_id, password, interface_version } => Credentials::Smpp {
                system_id: system_id@,
                password: password@,
                interface_version: *interface_version,
            },
        }
    }
}

/// What an account may do.
#[derive(Debug, Clone, Copy, PartialEq, Eq, Structural)]
pub struct AccountConfig {
    pub max_connections: u8,
    pub window_size: u16,
    pub max_fetch_threads: u8,
    pub fetch_interval_ms: u32,
    pub enabled: bool,
    pub max_qps: u64,
    pub window_size_ms: u64,
    pub submit_resp_timeout_secs: u64,
}

impl Default for AccountConfig {
    /// Nothing at all.
    fn default() -> (config: Self)
        ensures
            config == (AccountConfig {
                max_connections: 0,
                window_size: 0,
                max_fetch_threads: 0,
                fetch_interval_ms: 0,
                enabled: false,
                max_qps: 0,
                window_size_ms: 0,
                submit_resp_timeout_secs: 0,
            }),
    {
        AccountConfig {
            max_connections: 0,
            window_size: 0,
            max_fetch_threads: 0,
            fetch_interval_ms: 0,
            enabled: false,
            max_qps: 0,
            window_size_ms: 0,
            submit_resp_timeout_secs: 0,
        }
    }
}

impl AccountConfig {
    /// What an account may do unless it is told otherwise.
    pub open spec fn usual() -> AccountConfig {
        AccountConfig {
            max_connections: 1,
            window_size: 16,
            max_fetch_threads: 1,
            fetch_interval_ms: 500,
            enabled: true,
            max_qps: 100,
            window_size_ms: 1000,
            submit_resp_timeout_secs: 30,
        }
    }

    pub fn new() -> (config: Self)
        ensures
            config == Self::usual(),
    {
        AccountConfig {
            max_connections: 1,
            window_size: 16,
            max_fetch_threads: 1,
            fetch_interval_ms: 500,
            enabled: true,
            max_qps: 100,
            window_size_ms: 1000,
            submit_resp_timeout_secs: 30,
        }
    }

    pub fn with_max_connections(self, max: u8) -> (config: Self)
        ensures
            config == (AccountConfig { max_connections: max, ..self }),
    {
        AccountConfig { max_connections: max, ..self }
    }

    pub fn with_window_size(self, size: u16) -> (config: Self)
        ensures
            config == (AccountConfig { window_size: size, ..self }),
    {
        AccountConfig { window_size: size, ..self }
    }

    pub fn with_max_fetch_threads(self, threads: u8) -> (config: Self)
        ensures
            config == (AccountConfig { max_fetch_threads: threads, ..self }),
    {
        AccountConfig { max_fetch_threads: threads, ..self }
    }

    pub fn with_fetch_interval(self, interval_ms: u32) -> (config: Self)
        ensures
            config == (AccountConfig { fetch_interval_ms: interval_ms, ..self }),
    {
        AccountConfig { fetch_interval_ms: interval_ms, ..self }
    }

    pub fn with_max_qps(self, qps: u64) -> (config: Self)
        ensures
            config == (AccountConfig { max_qps: qps, ..self }),
    {
        AccountConfig { max_qps: qps, ..self }
    }

    pub fn with_window_size_ms(self, ms: u64) -> (config: Self)
        ensures
            config == (AccountConfig { window_size_ms: ms, ..self }),
    {
        AccountConfig { window_size_ms: ms, ..self }
    }
}

/// How often the accounts' connections are looked at.
#[derive(Debug, Clone, Copy, PartialEq, Eq, Structural)]
pub struct AccountPoolConfig {
    pub check_interval_ms: u32,
}

impl Default for AccountPoolConfig {
    fn default() -> (config: Self)
        ensures
            config.check_interval_ms == 0,
    {
        AccountPoolConfig { check_interval_ms: 0 }
    }
}

impl AccountPoolConfig {
    pub fn new() -> (config: Self)
        ensures
            config.check_interval_ms == 5000,
    {
        AccountPoolConfig { check_interval_ms: 5000 }
    }

    pub fn with_check_interval(self, interval_ms: u32) -> (config: Self)
        ensures
            config.check_interval_ms == interval_ms,
    {
        AccountPoolConfig { check_interval_ms: interval_ms }
    }
}

/// What a message source hands out to be sent.
#[derive(Debug)]
pub enum MessageItem {
    /// A message of one PDU.
    Single(RawPdu),
    /// The segments of a long message, in order. They go out one behind the other, and all on
    /// the same connection.
    Group { items: Vec<RawPdu> },
}

/// The bytes of PDUs.
pub open spec fn pdu_views(pdus: Seq<RawPdu>) -> Seq<Seq<u8>> {
    Seq::new(pdus.len(), |i: int| pdus[i]@)
}

impl MessageItem {
    /// The PDUs of the item, in the order in which they are sent.
    pub open spec fn pdus(self) -> Seq<Seq<u8>> {
        match self {
            MessageItem::Single(pdu) => seq![pdu@],
            MessageItem::Group { items } => pdu_views(items@),
        }
    }
}

/// The PDUs of a batch of items, in the order in which they are sent.
pub open spec fn batch_pdus(items: Seq<MessageItem>) -> Seq<Seq<u8>>
    decreases items.len(),
{
    if items.len() == 0 {
        Seq::empty()
    } else {
        batch_pdus(items.drop_last()) + items.last().pdus()
    }
}

/// The PDUs of a batch of items, in the order in which they are sent: the segments of a long
/// message stay together.
pub fn batch(items: Vec<MessageItem>) -> (pdus: Vec<RawPdu>)
    ensures
        pdu_views(pdus@) == batch_pdus(items@),
{
    let mut pdus: Vec<RawPdu> = Vec::new();
    let mut i: usize = 0;
    assert(pdu_views(pdus@) =~= batch_pdus(items@.take(0)));
    while i < items.len()
        invariant
            i <= items@.len(),
            pdu_views(pdus@) == batch_pdus(items@.take(i as int)),
        decreases items@.len() - i,
    {
        let ghost before = pdu_views(pdus@);
        let ghost upto = items@.take(i + 1);
        assert(upto.drop_last() =~= items@.take(i as int));
        match &items[i] {
            MessageItem::Single(pdu) => {
                pdus.push(pdu.clone());
                assert(pdu_views(pdus@) =~= before + upto.last().pdus());
            },
            MessageItem::Group { items: group } => {
                let mut j: usize = 0;
                assert(pdu_views(pdus@) =~= before + pdu_views(group@).take(0));
                while j < group.len()
                    invariant
                        j <= group@.len(),
                        pdu_views(pdus@) == before + pdu_views(group@).take(j as int),
                    decreases group@.len() - j,
                {
                    let ghost so_far = pdu_views(pdus@);
                    pdus.push(group[j].clone());
                    assert(pdu_views(pdus@) =~= so_far.push(group@[j as int]@));
                    assert(pdu_views(group@).take(j + 1) =~= pdu_views(group@).take(j as int).push(
                        group@[j as int]@,
                    ));
                    assert(pdu_views(pdus@) =~= before + pdu_views(group@).take(j + 1));
                    j = j + 1;
                }
                assert(pdu_views(group@).take(j as int) =~= pdu_views(group@));
            },
        }
        i = i + 1;
    }
    assert(items@.take(i as int) =~= items@);
    pdus
}

/// The segments of a long message go out one behind the other: they stand together in the
/// batch, behind what the items before it hand out.
pub proof fn law_group_stays_together(items: Seq<MessageItem>, at: int)
    requires
        0 <= at < items.len(),
    ensures
        ({
            let start = batch_pdus(items.take(at)).len() as int;
            let group = items[at].pdus();
            &&& start + group.len() <= batch_pdus(items).len()
            &&& batch_pdus(items).subrange(start, start + group.len()) == group
        }),
    decreases items.len(),
{
    let start = batch_pdus(items.take(at)).len() as int;
    let group = items[at].pdus();
    if at == items.len() - 1 {
        assert(items.drop_last() =~= items.take(at));
        assert(batch_pdus(items).subrange(start, start + group.len()) =~= group);
    } else {
        law_group_stays_together(items.drop_last(), at);
        assert(items.drop_last().take(at) =~= items.take(at));
        assert(items.drop_last()[at] == items[at]);
        assert(batch_pdus(items).subrange(start, start + group.len()) =~= batch_pdus(
            items.drop_last(),
        ).subrange(start, start + group.len()));
    }
}

/// What goes out of a batch, item by item: of a message its PDU, of a group its PDUs in order, and
/// nothing else.
pub proof fn law_batch(items: Seq<MessageItem>, item: MessageItem)
    ensures
        batch_pdus(Seq::empty()).len() == 0,
        item matches MessageItem::Single(pdu) ==> batch_pdus(items.push(item)) == batch_pdus(
            items,
        ).push(pdu@),
        item matches MessageItem::Group { items: group } ==> {
            let all = batch_pdus(items.push(item));
            let start = batch_pdus(items).len();
            &&& all.len() == start + group@.len()
            &&& all.subrange(0, start as int) == batch_pdus(items)
            &&& forall|i: int|
                #![trigger group@[i]]
                0 <= i < group@.len() ==> all[start + i] == group@[i]@
        },
{
    assert(items.push(item).drop_last() =~= items);
    match item {
        MessageItem::Single(pdu) => {
            assert(batch_pdus(items.push(item)) =~= batch_pdus(items).push(pdu@));
        },
        MessageItem::Group { items: group } => {
            let all = batch_pdus(items.push(item));
            let start = batch_pdus(items).len();
            assert(all.subrange(0, start as int) =~= batch_pdus(items));
        },
    }
}

/// What a decision about a login says: a login that is let in has status 0 and its account, and
/// one that is refused the status and the text that it was refused with.
pub proof fn law_decisions(
    account: &str,
    yes: AuthResult,
    status: u32,
    message: &str,
    no: AuthResult,
)
    requires
        call_ensures(AuthResult::success, (account,), yes),
        call_ensures(AuthResult::failure, (status, message), no),
    ensures
        yes.status == 0,
        yes.account@ == account@,
        no.status == status,
        no.account@.len() == 0,
        no.message matches Some(m) && m@ == message@,
{
}

/// What an account may do unless it is told otherwise.
pub proof fn law_usual_account(config: AccountConfig)
    requires
        call_ensures(AccountConfig::new, (), config),
    ensures
        config.max_connections == 1,
        config.window_size == 16,
        config.max_fetch_threads == 1,
        config.fetch_interval_ms == 500,
        config.enabled,
        config.max_qps == 100,
        config.window_size_ms == 1000,
        config.submit_resp_timeout_secs == 30,
{
}

/// Each setting of an account changes what it is for and nothing else.
pub proof fn law_account_settings(config: AccountConfig, n: u64, after: AccountConfig)
    ensures
        n < 256 && call_ensures(AccountConfig::with_max_connections, (config, n as u8), after)
            ==> after.max_connections == n && after == (AccountConfig {
            max_connections: after.max_connections,
            ..config
        }),
        n < 65536 && call_ensures(AccountConfig::with_window_size, (config, n as u16), after)
            ==> after.window_size == n && after == (AccountConfig {
            window_size: after.window_size,
            ..config
        }),
        n < 256 && call_ensures(AccountConfig::with_max_fetch_threads, (config, n as u8), after)
            ==> after.max_fetch_threads == n && after == (AccountConfig {
            max_fetch_threads: after.max_fetch_threads,
            ..config
        }),
        n < 0x1_0000_0000 && call_ensures(
            AccountConfig::with_fetch_interval,
            (config, n as u32),
            after,
        ) ==> after.fetch_interval_ms == n && after == (AccountConfig {
            fetch_interval_ms: after.fetch_interval_ms,
            ..config
        }),
        call_ensures(AccountConfig::with_max_qps, (config, n), after) ==> after.max_qps == n
            && after == (AccountConfig { max_qps: after.max_qps, ..config }),
        call_ensures(AccountConfig::with_window_size_ms, (config, n), after)
            ==> after.window_size_ms == n && after == (AccountConfig {
            window_size_ms: after.window_size_ms,
            ..config
        }),
{
}

} // verus!
