//! The pipe that clients connect to, and who they are.
use vstd::prelude::*;

use crate::error::{Error, ErrorView, Result};
use crate::pipe_io::HRESULT_PIPE_CONNECTED;
use crate::text;
use crate::wide;

verus! {

/// The size of a pipe's buffers, in bytes.
pub const PIPE_BUFFER_SIZE: u32 = 65_536;

/// How many frames may wait to be written to a client.
pub const FRAME_CHANNEL_SIZE: usize = 1_000;

/// Both sides read and write.
pub const PIPE_ACCESS_DUPLEX: u32 = 3;

/// A pipe of bytes, whose calls wait.
pub const PIPE_MODE: u32 = 0;

/// Only the system and the administrators may connect.
pub const PIPE_SECURITY: &'static str = "D:(A;;GA;;;SY)(A;;GA;;;BA)";

/// What an instance of the pipe is created with.
#[derive(Debug)]
pub struct PipeInstance {
    /// The name of the pipe in UTF-16, followed by a zero.
    pub name: Vec<u16>,
    /// Who may connect, in UTF-16, followed by a zero.
    pub security: Vec<u16>,
    pub open_mode: u32,
    pub pipe_mode: u32,
    pub max_instances: u32,
    pub out_buffer_size: u32,
    pub in_buffer_size: u32,
    pub default_timeout: u32,
    /// Whether the processes that the agent launches get the handle too.
    pub inherit_handle: bool,
}

/// What the server does next.
#[derive(Debug)]
pub enum ListenStep {
    /// Every slot is taken: wait until a client leaves.
    WaitForSlot,
    /// Create an instance of the pipe and wait for a client. A slot is taken for it.
    CreateInstance(PipeInstance),
}

/// What came of waiting for a client.
#[derive(Debug, Clone, Copy, PartialEq, Eq, Structural)]
pub enum ConnectEvent {
    Connected,
    /// The wait has failed with this code.
    Failed(i32),
    /// The task that waits has failed.
    TaskFailed,
}

/// What to do with an instance of the pipe.
#[derive(Debug, Clone, Copy, PartialEq, Eq, Structural)]
pub enum ConnectStep {
    /// Serve the client.
    Serve,
    /// Close the instance.
    Close,
}

/// A call that fails while the server listens.
#[derive(Debug, Clone, Copy, PartialEq, Eq, Structural)]
pub enum ListenCall {
    CreateSecurityDescriptor,
    CreateNamedPipe,
    /// A pipe for a process.
    CreatePipe,
}

/// A call that fails while a client's identity is found out.
#[derive(Debug, Clone, Copy, PartialEq, Eq, Structural)]
pub enum IdentityCall {
    Impersonate,
    OpenToken,
    GetTokenInformation,
    ConvertSid,
    LookupAccount,
}

/// What is said of a call that fails while the server listens.
pub open spec fn listen_call_text(call: ListenCall) -> Seq<char> {
    match call {
        ListenCall::CreateSecurityDescriptor => "Failed to create security descriptor: "@,
        ListenCall::CreateNamedPipe => "Failed to create named pipe: "@,
        ListenCall::CreatePipe => "Failed to create pipe: "@,
    }
}

/// What is said of a call that fails while a client's identity is found out.
pub open spec fn identity_call_text(call: IdentityCall) -> Seq<char> {
    match call {
        IdentityCall::Impersonate => "Failed to impersonate client: "@,
        IdentityCall::OpenToken => "Failed to open thread token: "@,
        IdentityCall::GetTokenInformation => "Failed to get token info: "@,
        IdentityCall::ConvertSid => "Failed to convert SID: "@,
        IdentityCall::LookupAccount => "Failed to lookup account: "@,
    }
}

/// The error of a call that fails while the server listens.
pub fn listen_error(call: ListenCall, reason: &str) -> (e: Error)
    ensures
        e@ == ErrorView::Service(listen_call_text(call) + reason@),
{
    let said = match call {
        ListenCall::CreateSecurityDescriptor => "Failed to create security descriptor: ",
        ListenCall::CreateNamedPipe => "Failed to create named pipe: ",
        ListenCall::CreatePipe => "Failed to create pipe: ",
    };
    Error::Service(text::joined(said, reason))
}

/// The error of a call that fails while a client's identity is found out.
pub fn identity_error(call: IdentityCall, reason: &str) -> (e: Error)
    ensures
        e@ == ErrorView::AuthorizationFailed(identity_call_text(call) + reason@),
{
    let said = match call {
        IdentityCall::Impersonate => "Failed to impersonate client: ",
        IdentityCall::OpenToken => "Failed to open thread token: ",
        IdentityCall::GetTokenInformation => "Failed to get token info: ",
        IdentityCall::ConvertSid => "Failed to convert SID: ",
        IdentityCall::LookupAccount => "Failed to lookup account: ",
    };
    Error::AuthorizationFailed(text::joined(said, reason))
}

/// `p` is an instance of the pipe `name` for `max` clients.
pub open spec fn is_instance(p: PipeInstance, name: Seq<char>, max: usize) -> bool {
    &&& p.name@ == wide::utf16(name).push(0)
    &&& p.security@ == wide::utf16(PIPE_SECURITY@).push(0)
    &&& p.open_mode == PIPE_ACCESS_DUPLEX
    &&& p.pipe_mode == PIPE_MODE
    &&& p.max_instances == max as u32
    &&& p.out_buffer_size == PIPE_BUFFER_SIZE
    &&& p.in_buffer_size == PIPE_BUFFER_SIZE
    &&& p.default_timeout == 0
    &&& !p.inherit_handle
}

/// The server, with a slot for every client that it can serve at a time.
pub struct PipeServer {
    pipe_name: String,
    max_concurrent_clients: usize,
    active_clients: usize,
}

impl PipeServer {
    #[verifier::type_invariant]
    spec fn wf(self) -> bool {
        self.active_clients <= self.max_concurrent_clients
    }

    /// The name of the pipe.
    pub closed spec fn name(self) -> Seq<char> {
        self.pipe_name@
    }

    /// How many clients can be served at a time.
    pub closed spec fn max_clients(self) -> usize {
        self.max_concurrent_clients
    }

    /// How many slots are taken.
    pub closed spec fn clients(self) -> usize {
        self.active_clients
    }

    pub fn new(pipe_name: String, max_concurrent_clients: usize) -> (s: Self)
        ensures
            s.name() == pipe_name@,
            s.max_clients() == max_concurrent_clients,
            s.clients() == 0,
    {
        PipeServer { pipe_name, max_concurrent_clients, active_clients: 0 }
    }

    /// Takes a slot for the next client and says what to create for it, where a slot is free. There
    /// are never more slots taken than clients can be served.
    pub fn start_listening(&mut self) -> (s: ListenStep)
        ensures
            final(self).name() == old(self).name(),
            final(self).max_clients() == old(self).max_clients(),
            final(self).clients() <= final(self).max_clients(),
            old(self).clients() == old(self).max_clients() ==> s is WaitForSlot
                && final(self).clients() == old(self).clients(),
            old(self).clients() < old(self).max_clients() ==> {
                &&& s matches ListenStep::CreateInstance(p) && is_instance(
                    p,
                    old(self).name(),
                    old(self).max_clients(),
                )
                &&& final(self).clients() == old(self).clients() + 1
            },
    {
        proof {
            use_type_invariant(&*self);
        }
        if self.active_clients >= self.max_concurrent_clients {
            return ListenStep::WaitForSlot;
        }
        let p = self.create_pipe_instance();
        self.active_clients = self.active_clients + 1;
        ListenStep::CreateInstance(p)
    }

    /// A client has left, or none has come: its slot is free again.
    pub fn client_left(&mut self)
        ensures
            final(self).name() == old(self).name(),
            final(self).max_clients() == old(self).max_clients(),
            final(self).clients() == (if old(self).clients() > 0 {
                old(self).clients() - 1
            } else {
                0
            }),
    {
        proof {
            use_type_invariant(&*self);
        }
        if self.active_clients > 0 {
            self.active_clients = self.active_clients - 1;
        }
    }

    /// What an instance of the pipe is created with.
    pub fn create_pipe_instance(&self) -> (p: PipeInstance)
        ensures
            is_instance(p, self.name(), self.max_clients()),
    {
        PipeInstance {
            name: wide::to_wide_null(self.pipe_name.as_str()),
            security: wide::to_wide_null(PIPE_SECURITY),
            open_mode: PIPE_ACCESS_DUPLEX,
            pipe_mode: PIPE_MODE,
            max_instances: self.max_concurrent_clients as u32,
            out_buffer_size: PIPE_BUFFER_SIZE,
            in_buffer_size: PIPE_BUFFER_SIZE,
            default_timeout: 0,
            inherit_handle: false,
        }
    }

    /// What to do with an instance of the pipe. That the client was there before the wait began is
    /// no failure.
    pub fn connected(event: ConnectEvent) -> (s: ConnectStep)
        ensures
            s is Serve <==> event is Connected || event == ConnectEvent::Failed(
                HRESULT_PIPE_CONNECTED,
            ),
    {
        match event {
            ConnectEvent::Connected => ConnectStep::Serve,
            ConnectEvent::Failed(code) => {
                if code == HRESULT_PIPE_CONNECTED {
                    ConnectStep::Serve
                } else {
                    ConnectStep::Close
                }
            },
            ConnectEvent::TaskFailed => ConnectStep::Close,
        }
    }
}

/// An account of a domain, or of none.
pub open spec fn qualified(domain: Seq<char>, name: Seq<char>) -> Seq<char> {
    if domain.len() == 0 {
        name
    } else {
        domain + "\\"@ + name
    }
}

/// How long the buffers for the name and the domain of an account are to be.
pub fn account_buffer_sizes(name_len: u32, domain_len: u32) -> (r: Result<(usize, usize)>)
    ensures
        r is Ok <==> name_len != 0,
        r matches Ok(sizes) ==> sizes == (name_len as usize, domain_len as usize),
        r matches Err(e) ==> e@ == ErrorView::AuthorizationFailed("Failed to get account name size"@),
{
    if name_len == 0 {
        return Err(Error::AuthorizationFailed("Failed to get account name size".to_owned()));
    }
    Ok((name_len as usize, domain_len as usize))
}

/// The account whose name and domain were written into the buffers, in UTF-16 and padded with
/// zeros.
pub fn account_name(name: Vec<u16>, domain: Vec<u16>) -> (s: String)
    ensures
        s@ == qualified(
            wide::lossy(wide::trimmed(domain@)),
            wide::lossy(wide::trimmed(name@)),
        ),
{
    let name = wide::lossy_text(wide::without_trailing_zeros(name).as_slice());
    let domain = wide::lossy_text(wide::without_trailing_zeros(domain).as_slice());
    if domain.as_str().is_empty() {
        name
    } else {
        let mut s = text::joined(domain.as_str(), "\\");
        s.append(name.as_str());
        s
    }
}

/// Who a client is: its account, or its SID where the account is not to be had.
pub fn client_identity(sid: Result<String>, account: Result<String>) -> (r: Result<String>)
    ensures
        r == (match sid {
            Err(e) => Err::<String, Error>(e),
            Ok(s) => match account {
                Ok(a) => Ok(a),
                Err(_) => Ok(s),
            },
        }),
{
    match sid {
        Err(e) => Err(e),
        Ok(s) => match account {
            Ok(a) => Ok(a),
            Err(_) => Ok(s),
        },
    }
}

/// An account of a domain is the domain, a backslash and its name, whole; one of no domain is its
/// name.
pub proof fn law_qualified(domain: Seq<char>, name: Seq<char>)
    ensures
        qualified(Seq::empty(), name) == name,
        domain.len() > 0 ==> qualified(domain, name) == domain + seq!['\\'] + name,
{
    reveal_strlit("\\");
    assert("\\"@ =~= seq!['\\']);
}

/// What is read from the buffers for an account that was written into them, whatever its length and
/// however many zeros come after it.
pub proof fn law_account(domain: Seq<char>, name: Seq<char>, zeros: Seq<u16>)
    requires
        forall|i: int| 0 <= i < zeros.len() ==> #[trigger] zeros[i] == 0,
        !domain.contains('\0'),
        !name.contains('\0'),
    ensures
        qualified(
            wide::lossy(wide::trimmed(wide::utf16(domain) + zeros)),
            wide::lossy(wide::trimmed(wide::utf16(name) + zeros)),
        ) == (if domain.len() == 0 {
            name
        } else {
            domain + seq!['\\'] + name
        }),
{
    wide::lemma_padded(domain, zeros);
    wide::lemma_padded(name, zeros);
    law_qualified(domain, name);
    if domain.len() == 0 {
        assert(domain =~= Seq::empty());
    }
}

/// An instance of the pipe is for reading and writing bytes, with buffers of 65536 bytes each way,
/// under the name of the server and for as many clients as it serves, open to the system and the
/// administrators alone, and not handed to processes that are launched.
pub proof fn law_instances(p: PipeInstance, name: Seq<char>, max: usize)
    requires
        is_instance(p, name, max),
    ensures
        wide::lossy(p.name@.drop_last()) == name,
        p.name@.last() == 0,
        wide::lossy(p.security@.drop_last()) == "D:(A;;GA;;;SY)(A;;GA;;;BA)"@,
        p.security@.last() == 0,
        p.open_mode == 3,
        p.pipe_mode == 0,
        p.max_instances == max as u32,
        p.out_buffer_size == 65536,
        p.in_buffer_size == 65536,
        p.default_timeout == 0,
        !p.inherit_handle,
{
    wide::law_utf16_is_readable(name);
    wide::law_utf16_is_readable(PIPE_SECURITY@);
    assert(p.name@.drop_last() =~= wide::utf16(name));
    assert(p.security@.drop_last() =~= wide::utf16(PIPE_SECURITY@));
}

/// What is said of a call that fails names the call.
pub proof fn law_call_texts(listen: ListenCall, identity: IdentityCall)
    ensures
        listen_call_text(listen) == (match listen {
            ListenCall::CreateSecurityDescriptor => "Failed to create security descriptor: "@,
            ListenCall::CreateNamedPipe => "Failed to create named pipe: "@,
            ListenCall::CreatePipe => "Failed to create pipe: "@,
        }),
        identity_call_text(identity) == (match identity {
            IdentityCall::Impersonate => "Failed to impersonate client: "@,
            IdentityCall::OpenToken => "Failed to open thread token: "@,
            IdentityCall::GetTokenInformation => "Failed to get token info: "@,
            IdentityCall::ConvertSid => "Failed to convert SID: "@,
            IdentityCall::LookupAccount => "Failed to lookup account: "@,
        }),
{
}

} // verus!
