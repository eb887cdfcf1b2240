//! The decisions of the grpc server: who may call, what it is set up with, and who gets messages.

use crate::keys::bytes_equal;
use crate::message::Message;
use crate::map_keys::keys_of;
use std::collections::HashMap;
use vstd::prelude::*;
use vstd::utf8::encode_utf8;

verus! {

broadcast use vstd::std_specs::hash::group_hash_axioms;

/// Whether packets go out at once on the server's connections.
pub const TCP_NODELAY: bool = true;

/// After how many seconds without traffic a connection is probed.
pub const TCP_KEEPALIVE_SECONDS: u64 = 20;

/// Why a call is refused.
#[derive(Debug, Clone, Copy, PartialEq, Eq, Structural)]
pub enum Code {
    Unauthenticated,
    Internal,
    Unimplemented,
}

/// The answer to a call that is refused.
#[derive(Debug, Clone, Copy, PartialEq, Eq)]
pub struct Status {
    pub code: Code,
    pub message: &'static str,
}

/// Decides whether a call may pass. Where the server has a token, the call must bring the same;
/// `token` is what it brings.
pub fn authorize(x_token: Option<&str>, token: Option<&[u8]>) -> (result: Result<(), Status>)
    ensures
        result is Ok <==> (x_token matches Some(expected) ==> (token matches Some(bytes) && bytes@
            == encode_utf8(expected@))),
        result matches Err(status) ==> status.code == Code::Unauthenticated && status.message@
            == "No valid auth token"@,
{
    match x_token {
        Some(expected) => {
            let valid: bool = match token {
                Some(bytes) => bytes_equal(bytes, expected.as_bytes()),
                None => false,
            };
            if valid {
                Ok(())
            } else {
                Err(Status { code: Code::Unauthenticated, message: "No valid auth token" })
            }
        },
        None => Ok(()),
    }
}

/// The answer to the methods that this server does not offer: ping, and all that ask for a block
/// hash, a block height or a slot.
pub fn disabled() -> (status: Status)
    ensures
        status.code == Code::Unimplemented,
        status.message@ == "method disabled"@,
{
    Status { code: Code::Unimplemented, message: "method disabled" }
}

/// The answer to a call that subscribes, once it was tried to register the client.
pub fn subscribe_raw_reply(registered: bool) -> (result: Result<(), Status>)
    ensures
        result is Ok <==> registered,
        result matches Err(status) ==> status.code == Code::Internal && status.message@
            == "failed to register raw client"@,
{
    if registered {
        Ok(())
    } else {
        Err(Status { code: Code::Internal, message: "failed to register raw client" })
    }
}

/// How messages are compressed.
#[derive(Debug, Clone, Copy, PartialEq, Eq, Structural)]
pub enum CompressionEncoding {
    Gzip,
    Zstd,
}

/// How the server is configured.
#[derive(Debug, Clone)]
pub struct ConfigGrpc {
    /// Whether a certificate and a key are given.
    pub tls: bool,
    pub server_http2_adaptive_window: Option<bool>,
    pub server_http2_keepalive_interval_ms: Option<u64>,
    pub server_http2_keepalive_timeout_ms: Option<u64>,
    pub server_initial_connection_window_size: Option<u32>,
    pub server_initial_stream_window_size: Option<u32>,
    pub max_decoding_message_size: usize,
    pub compression_accept: Vec<CompressionEncoding>,
    pub compression_send: Vec<CompressionEncoding>,
    /// The token that a call must bring, where it must.
    pub x_token: Option<String>,
}

/// One thing that the server is set up with.
#[derive(Debug, Clone, Copy, PartialEq, Eq, Structural)]
pub enum ServerOption {
    Tls,
    Http2AdaptiveWindow(bool),
    Http2KeepaliveInterval(u64),
    Http2KeepaliveTimeout(u64),
    InitialConnectionWindowSize(u32),
    InitialStreamWindowSize(u32),
    MaxDecodingMessageSize(usize),
    AcceptCompressed(CompressionEncoding),
    SendCompressed(CompressionEncoding),
}

/// One option, if it is there.
pub open spec fn option_of<T>(value: Option<T>, make: spec_fn(T) -> ServerOption) -> Seq<
    ServerOption,
> {
    match value {
        Some(value) => seq![make(value)],
        None => Seq::empty(),
    }
}

impl ConfigGrpc {
    /// What the transport is set up with: what is given, and nothing else.
    pub open spec fn transport_options(self) -> Seq<ServerOption> {
        option_of(
            if self.tls {
                Some(())
            } else {
                None
            },
            |given: ()| ServerOption::Tls,
        ) + option_of(
            self.server_http2_adaptive_window,
            |enabled: bool| ServerOption::Http2AdaptiveWindow(enabled),
        ) + option_of(
            self.server_http2_keepalive_interval_ms,
            |ms: u64| ServerOption::Http2KeepaliveInterval(ms),
        ) + option_of(
            self.server_http2_keepalive_timeout_ms,
            |ms: u64| ServerOption::Http2KeepaliveTimeout(ms),
        ) + option_of(
            self.server_initial_connection_window_size,
            |size: u32| ServerOption::InitialConnectionWindowSize(size),
        ) + option_of(
            self.server_initial_stream_window_size,
            |size: u32| ServerOption::InitialStreamWindowSize(size),
        )
    }

    /// What the service is set up with: the largest message that it reads, then each way of
    /// compressing that it takes, then each that it may use.
    pub open spec fn service_options(self) -> Seq<ServerOption> {
        seq![ServerOption::MaxDecodingMessageSize(self.max_decoding_message_size)]
            + self.compression_accept@.map_values(
            |encoding: CompressionEncoding| ServerOption::AcceptCompressed(encoding),
        ) + self.compression_send@.map_values(
            |encoding: CompressionEncoding| ServerOption::SendCompressed(encoding),
        )
    }

    /// Lists what the transport is set up with.
    pub fn list_transport_options(&self) -> (options: Vec<ServerOption>)
        ensures
            options@ == self.transport_options(),
    {
        let ghost tls = option_of(
            if self.tls {
                Some(())
            } else {
                None
            },
            |given: ()| ServerOption::Tls,
        );
        let ghost window = option_of(
            self.server_http2_adaptive_window,
            |enabled: bool| ServerOption::Http2AdaptiveWindow(enabled),
        );
        let ghost interval = option_of(
            self.server_http2_keepalive_interval_ms,
            |ms: u64| ServerOption::Http2KeepaliveInterval(ms),
        );
        let ghost timeout = option_of(
            self.server_http2_keepalive_timeout_ms,
            |ms: u64| ServerOption::Http2KeepaliveTimeout(ms),
        );
        let ghost connection = option_of(
            self.server_initial_connection_window_size,
            |size: u32| ServerOption::InitialConnectionWindowSize(size),
        );
        let ghost stream = option_of(
            self.server_initial_stream_window_size,
            |size: u32| ServerOption::InitialStreamWindowSize(size),
        );
        let mut options: Vec<ServerOption> = Vec::new();
        if self.tls {
            options.push(ServerOption::Tls);
        }
        assert(options@ =~= tls);
        if let Some(enabled) = self.server_http2_adaptive_window {
            options.push(ServerOption::Http2AdaptiveWindow(enabled));
        }
        assert(options@ =~= tls + window);
        if let Some(ms) = self.server_http2_keepalive_interval_ms {
            options.push(ServerOption::Http2KeepaliveInterval(ms));
        }
        assert(options@ =~= tls + window + interval);
        if let Some(ms) = self.server_http2_keepalive_timeout_ms {
            options.push(ServerOption::Http2KeepaliveTimeout(ms));
        }
        assert(options@ =~= tls + window + interval + timeout);
        if let Some(size) = self.server_initial_connection_window_size {
            options.push(ServerOption::InitialConnectionWindowSize(size));
        }
        assert(options@ =~= tls + window + interval + timeout + connection);
        if let Some(size) = self.server_initial_stream_window_size {
            options.push(ServerOption::InitialStreamWindowSize(size));
        }
        assert(options@ =~= tls + window + interval + timeout + connection + stream);
        options
    }

    /// Lists what the service is set up with.
    pub fn list_service_options(&self) -> (options: Vec<ServerOption>)
        ensures
            options@ == self.service_options(),
    {
        let mut options: Vec<ServerOption> = Vec::new();
        options.push(ServerOption::MaxDecodingMessageSize(self.max_decoding_message_size));
        let ghost first = options@;
        let ghost accept = |encoding: CompressionEncoding| ServerOption::AcceptCompressed(encoding);
        let ghost send = |encoding: CompressionEncoding| ServerOption::SendCompressed(encoding);
        let mut i: usize = 0;
        while i < self.compression_accept.len()
            invariant
                i <= self.compression_accept@.len(),
                accept == |encoding: CompressionEncoding| ServerOption::AcceptCompressed(encoding),
                options@ == first + self.compression_accept@.take(i as int).map_values(accept),
            decreases self.compression_accept@.len() - i,
        {
            options.push(ServerOption::AcceptCompressed(self.compression_accept[i]));
            i += 1;
            assert(options@ =~= first + self.compression_accept@.take(i as int).map_values(accept));
        }
        assert(self.compression_accept@.take(i as int) =~= self.compression_accept@);
        let ghost second = options@;
        let mut j: usize = 0;
        while j < self.compression_send.len()
            invariant
                j <= self.compression_send@.len(),
                send == |encoding: CompressionEncoding| ServerOption::SendCompressed(encoding),
                options@ == second + self.compression_send@.take(j as int).map_values(send),
            decreases self.compression_send@.len() - j,
        {
            options.push(ServerOption::SendCompressed(self.compression_send[j]));
            j += 1;
            assert(options@ =~= second + self.compression_send@.take(j as int).map_values(send));
        }
        assert(self.compression_send@.take(j as int) =~= self.compression_send@);
        assert(options@ =~= self.service_options());
        options
    }
}

/// The service: it gives each client its number.
#[derive(Debug, Clone, Copy, PartialEq, Eq, Structural)]
pub struct GrpcService {
    subscribe_id: usize,
}

/// What a server is made of.
pub struct ServerSetup {
    pub service: GrpcService,
    pub transport_options: Vec<ServerOption>,
    pub service_options: Vec<ServerOption>,
    /// The token that a call must bring, where it must.
    pub x_token: Option<String>,
}

/// What an optional text says.
pub open spec fn text_of(text: Option<String>) -> Option<Seq<char>> {
    match text {
        Some(text) => Some(text@),
        None => None,
    }
}

impl GrpcService {
    /// The number that the next client gets.
    pub closed spec fn upcoming(self) -> usize {
        self.subscribe_id
    }

    /// The service, which has no clients yet, what it is set up with, and the token that
    /// [`authorize`] asks of each call.
    pub fn create(config: &ConfigGrpc) -> (setup: ServerSetup)
        ensures
            setup.service.upcoming() == 0,
            setup.transport_options@ == config.transport_options(),
            setup.service_options@ == config.service_options(),
            text_of(setup.x_token) == text_of(config.x_token),
    {
        ServerSetup {
            service: GrpcService { subscribe_id: 0 },
            transport_options: config.list_transport_options(),
            service_options: config.list_service_options(),
            x_token: match &config.x_token {
                Some(token) => Some(token.clone()),
                None => None,
            },
        }
    }

    /// The number of a client that subscribes. After the largest number comes zero again.
    pub fn subscribe_raw(&mut self) -> (client_id: u64)
        ensures
            client_id == old(self).upcoming(),
            final(self).upcoming() == if old(self).upcoming() == usize::MAX {
                0
            } else {
                (old(self).upcoming() + 1) as usize
            },
    {
        let client_id: u64 = self.subscribe_id as u64;
        self.subscribe_id = if self.subscribe_id == usize::MAX { 0 } else { self.subscribe_id + 1 };
        client_id
    }
}

/// What is asked of those that keep the clients.
pub enum ClientCommand<S> {
    /// A client wants messages.
    Subscribe { client_id: u64, sender: S },
    /// A client wants no more.
    Unsubscribe { client_id: u64 },
    /// A message goes to all clients.
    Broadcast { message: Message },
}

/// What became of a command.
pub enum CommandOutcome {
    /// The client is one of so many.
    Subscribed { client_id: u64, total: usize },
    /// So many clients are left.
    Unsubscribed { client_id: u64, remaining: usize },
    /// The message is to be sent to these clients.
    Send { message: Message, client_ids: Vec<u64> },
}

/// The clients that get messages, each with the channel to it.
pub struct ClientRegistry<S> {
    clients: HashMap<u64, S>,
}

impl<S> View for ClientRegistry<S> {
    type V = Map<u64, S>;

    closed spec fn view(&self) -> Map<u64, S> {
        self.clients@
    }
}

impl<S> ClientRegistry<S> {
    /// A registry without clients.
    pub fn new() -> (registry: Self)
        ensures
            registry@ == Map::<u64, S>::empty(),
    {
        ClientRegistry { clients: HashMap::new() }
    }

    /// Adds a client, in place of one with its number, and says how many there are.
    pub fn subscribe(&mut self, client_id: u64, sender: S) -> (count: usize)
        ensures
            final(self)@ == old(self)@.insert(client_id, sender),
            count == final(self)@.dom().len(),
    {
        self.clients.insert(client_id, sender);
        self.clients.len()
    }

    /// Drops a client, and says how many are left.
    pub fn unsubscribe(&mut self, client_id: u64) -> (count: usize)
        ensures
            final(self)@ == old(self)@.remove(client_id),
            count == final(self)@.dom().len(),
    {
        self.clients.remove(&client_id);
        assert(self@ =~= old(self)@.remove(client_id));
        self.clients.len()
    }

    /// Does what a command asks for.
    pub fn on_command(&mut self, command: ClientCommand<S>) -> (outcome: CommandOutcome)
        ensures
            match command {
                ClientCommand::Subscribe { client_id, sender } => {
                    &&& final(self)@ == old(self)@.insert(client_id, sender)
                    &&& outcome == (CommandOutcome::Subscribed {
                        client_id,
                        total: final(self)@.dom().len() as usize,
                    })
                },
                ClientCommand::Unsubscribe { client_id } => {
                    &&& final(self)@ == old(self)@.remove(client_id)
                    &&& outcome == (CommandOutcome::Unsubscribed {
                        client_id,
                        remaining: final(self)@.dom().len() as usize,
                    })
                },
                ClientCommand::Broadcast { message } => {
                    &&& final(self)@ == old(self)@
                    &&& outcome matches CommandOutcome::Send { message: sent, client_ids }
                    &&& sent == message
                    &&& client_ids@.no_duplicates()
                    &&& client_ids@.to_set() == old(self)@.dom()
                },
            },
    {
        match command {
            ClientCommand::Subscribe { client_id, sender } => {
                let total: usize = self.subscribe(client_id, sender);
                CommandOutcome::Subscribed { client_id, total }
            },
            ClientCommand::Unsubscribe { client_id } => {
                let remaining: usize = self.unsubscribe(client_id);
                CommandOutcome::Unsubscribed { client_id, remaining }
            },
            ClientCommand::Broadcast { message } => {
                let client_ids = self.client_ids();
                CommandOutcome::Send { message, client_ids }
            },
        }
    }

    /// The numbers of all clients, in whatever order.
    pub fn client_ids(&self) -> (ids: Vec<u64>)
        ensures
            ids@.no_duplicates(),
            ids@.to_set() == self@.dom(),
    {
        keys_of(&self.clients)
    }

    /// The channel to a client.
    pub fn sender(&self, client_id: u64) -> (sender: Option<&S>)
        ensures
            match sender {
                Some(s) => self@.contains_key(client_id) && self@[client_id] == *s,
                None => !self@.contains_key(client_id),
            },
    {
        self.clients.get(&client_id)
    }

    /// Notes whether a message could be sent to a client. One to whom it could not is dropped,
    /// which is worth a warning.
    pub fn on_sent(&mut self, client_id: u64, sent: bool) -> (warn: bool)
        ensures
            warn == !sent,
            final(self)@ == if sent {
                old(self)@
            } else {
                old(self)@.remove(client_id)
            },
    {
        if !sent {
            self.clients.remove(&client_id);
            assert(self@ =~= old(self)@.remove(client_id));
        }
        !sent
    }
}

/// The clients that are left once it was noted for each of some clients whether a message could be
/// sent to it.
pub open spec fn after_broadcast<S>(clients: Map<u64, S>, sends: Seq<(u64, bool)>) -> Map<u64, S>
    decreases sends.len(),
{
    if sends.len() == 0 {
        clients
    } else {
        let before = after_broadcast(clients, sends.drop_last());
        if sends.last().1 {
            before
        } else {
            before.remove(sends.last().0)
        }
    }
}

/// A broadcast drops the clients to whom it could not be sent, and no others.
pub proof fn law_broadcast_keeps_the_connected<S>(
    clients: Map<u64, S>,
    sends: Seq<(u64, bool)>,
    client_id: u64,
)
    ensures
        after_broadcast(clients, sends).contains_key(client_id) <==> clients.contains_key(client_id)
            && !sends.contains((client_id, false)),
        after_broadcast(clients, sends).contains_key(client_id) ==> after_broadcast(
            clients,
            sends,
        )[client_id] == clients[client_id],
    decreases sends.len(),
{
    if sends.len() > 0 {
        let rest = sends.drop_last();
        law_broadcast_keeps_the_connected(clients, rest, client_id);
        if rest.contains((client_id, false)) {
            let i = choose|i: int| 0 <= i < rest.len() && rest[i] == (client_id, false);
            assert(sends[i] == (client_id, false));
        }
        if sends.contains((client_id, false)) && sends.last() != (client_id, false) {
            let i = choose|i: int| 0 <= i < sends.len() && sends[i] == (client_id, false);
            assert(rest[i] == (client_id, false));
        }
    }
}

} // verus!
