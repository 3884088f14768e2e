//! The main thread's handle on a client's thread.

use vstd::prelude::*;
use crate::server::account_manager::{
    AccountLog, AccountManager, AccountManagerView, account_named, is_id, lemma_find_first_found, account_with_id, connected_position, logged_at,
    login_outcome, logout_outcome,
};
use crate::server::client::Message;
use crate::server::error::ChannelError;
use crate::server::threading::Channel;
use crate::shared::networking::SocketAddress;

verus! {

/// What answering the request `msg` of the client at `ip` does to the
/// accounts, from `before` to `after`: a login or a logout as the account
/// manager performs it, nothing when refused or for anything else.
pub open spec fn manager_step(
    before: AccountManagerView,
    after: AccountManagerView,
    ip: SocketAddress,
    msg: Message,
) -> bool {
    match msg {
        Message::LoginRequest { username, password } => match login_outcome(before, username@, password@) {
            Err(_) => after == before,
            Ok(id) => {
                &&& after.connected == before.connected.push(id)
                &&& logged_at(
                    before.accounts,
                    after.accounts,
                    account_named(before.accounts, username@).unwrap(),
                    AccountLog::Connection(ip.ip),
                )
            },
        },
        Message::LogoutRequest { id } => match logout_outcome(before, id) {
            Err(_) => after == before,
            Ok(()) => {
                &&& after.connected == before.connected.remove(
                    connected_position(before.connected, id).unwrap(),
                )
                &&& logged_at(
                    before.accounts,
                    after.accounts,
                    account_with_id(before.accounts, id).unwrap(),
                    AccountLog::Disconnection,
                )
            },
        },
        _ => after == before,
    }
}

/// The main thread's answer to a request of the client at `ip`: a login or
/// a logout on the accounts. Responses are not requests: they get no answer.
pub fn respond(account_mgr: &mut AccountManager, ip: SocketAddress, msg: Message) -> (r: Option<Message>)
    ensures
        msg matches Message::LoginRequest { username, password } ==> (r matches Some(
            Message::LoginResponse(res),
        ) && res == login_outcome(old(account_mgr)@, username@, password@) && (res is Err
            ==> final(account_mgr)@ == old(account_mgr)@) && (res matches Ok(id) ==> {
            &&& final(account_mgr)@.connected == old(account_mgr)@.connected.push(id)
            &&& logged_at(
                old(account_mgr)@.accounts,
                final(account_mgr)@.accounts,
                account_named(old(account_mgr)@.accounts, username@).unwrap(),
                AccountLog::Connection(ip.ip),
            )
        })),
        msg matches Message::LogoutRequest { id } ==> (r matches Some(Message::LogoutResponse(res))
            && res == logout_outcome(old(account_mgr)@, id) && (res is Err ==> final(account_mgr)@
            == old(account_mgr)@) && (res is Ok ==> {
            &&& final(account_mgr)@.connected == old(account_mgr)@.connected.remove(
                connected_position(old(account_mgr)@.connected, id).unwrap(),
            )
            &&& logged_at(
                old(account_mgr)@.accounts,
                final(account_mgr)@.accounts,
                account_with_id(old(account_mgr)@.accounts, id).unwrap(),
                AccountLog::Disconnection,
            )
        })),
        msg is LoginResponse || msg is LogoutResponse ==> r is None && final(account_mgr)@ == old(
            account_mgr,
        )@,
        manager_step(old(account_mgr)@, final(account_mgr)@, ip, msg),
        old(account_mgr)@.inv() ==> final(account_mgr)@.inv(),
{
    match msg {
        Message::LoginRequest { username, password } => Some(
            Message::LoginResponse(account_mgr.login(username, password, ip.ip)),
        ),
        Message::LogoutRequest { id } => Some(Message::LogoutResponse(account_mgr.logout(id))),
        Message::LoginResponse(_) | Message::LogoutResponse(_) => None,
    }
}

/// The main thread's end of the channel to one client's thread.
pub struct ClientHandle {
    channel: Channel<Message>,
    pub ip: SocketAddress,
    running: std::sync::Arc<std::sync::atomic::AtomicBool>,
    /// The messages taken from the client's thread, in order.
    received: Ghost<Seq<Message>>,
    /// The messages handed to the channel for the client's thread, in order.
    replied: Ghost<Seq<Message>>,
}

/// The answer owed to the message `m` from a client's thread when the
/// accounts are `mgr`: the login's or the logout's own result; none for a
/// message that is not a request.
pub open spec fn reply_to(mgr: AccountManagerView, m: Message) -> Option<Message> {
    match m {
        Message::LoginRequest { username, password } => Some(
            Message::LoginResponse(login_outcome(mgr, username@, password@)),
        ),
        Message::LogoutRequest { id } => Some(Message::LogoutResponse(logout_outcome(mgr, id))),
        _ => None,
    }
}

impl ClientHandle {
    /// The client's address.
    pub closed spec fn address(&self) -> SocketAddress {
        self.ip
    }

    /// The messages this handle has taken from the client's thread, in order.
    pub closed spec fn received(&self) -> Seq<Message> {
        self.received@
    }

    /// The messages this handle has sent to the client's thread, in order.
    pub closed spec fn replied(&self) -> Seq<Message> {
        self.replied@
    }

    /// The handle of the client at `ip`, served by the thread on the other
    /// end of `channel`, which clears `running` when it ends.
    pub fn from_parts(
        channel: Channel<Message>,
        ip: SocketAddress,
        running: std::sync::Arc<std::sync::atomic::AtomicBool>,
    ) -> (r: ClientHandle)
        ensures
            r.address() == ip,
            r.received().len() == 0,
            r.replied().len() == 0,
    {
        ClientHandle { channel, ip, running, received: Ghost(Seq::empty()), replied: Ghost(Seq::empty()) }
    }

    /// Takes the message waiting from the client's thread, if any.
    fn take_message(&mut self) -> (r: Option<Message>)
        ensures
            r is None ==> final(self).received() == old(self).received(),
            r matches Some(m) ==> final(self).received() == old(self).received().push(m),
            final(self).replied() == old(self).replied(),
            final(self).address() == old(self).address(),
    {
        match self.channel.try_recv() {
            Ok(m) => {
                proof {
                    self.received@ = self.received@.push(m);
                }
                Some(m)
            },
            Err(_) => None,
        }
    }

    /// Sends `m` to the client's thread.
    fn reply(&mut self, m: Message) -> (r: Result<(), ChannelError<Message>>)
        ensures
            final(self).replied() == old(self).replied().push(m),
            final(self).received() == old(self).received(),
            final(self).address() == old(self).address(),
            r matches Err(e) ==> e is Send,
    {
        proof {
            self.replied@ = self.replied@.push(m);
        }
        self.channel.send(m)
    }

    /// Answers the client's waiting request, if any, on the accounts, then
    /// reports whether the client's thread has ended. A response arriving
    /// where a request is expected is an error. At most one message is
    /// taken; a request gets exactly one answer, the login's or logout's own
    /// result on the accounts, and nothing is sent otherwise.
    pub fn update(&mut self, account_mgr: &mut AccountManager) -> (r: Result<(), ChannelError<Message>>)
        ensures
            r matches Err(e) ==> e is Send || e is Other,
            final(account_mgr)@ == old(account_mgr)@ || exists|m: Message|
                (m is LoginRequest || m is LogoutRequest) && #[trigger] manager_step(
                    old(account_mgr)@,
                    final(account_mgr)@,
                    old(self).address(),
                    m,
                ),
            old(account_mgr)@.inv() ==> final(account_mgr)@.inv(),
            final(self).address() == old(self).address(),
            final(self).received() == old(self).received() || final(self).received() == old(
                self,
            ).received().push(final(self).received().last()),
            final(self).received() == old(self).received() ==> {
                &&& final(account_mgr)@ == old(account_mgr)@
                &&& final(self).replied() == old(self).replied()
            },
            final(self).received().len() == old(self).received().len() + 1 ==> {
                let m = final(self).received().last();
                &&& (m is LoginRequest || m is LogoutRequest) ==> {
                    &&& manager_step(old(account_mgr)@, final(account_mgr)@, old(self).address(), m)
                    &&& final(self).replied() == old(self).replied().push(
                        reply_to(old(account_mgr)@, m).unwrap(),
                    )
                }
                &&& (m is LoginResponse || m is LogoutResponse) ==> {
                    &&& final(account_mgr)@ == old(account_mgr)@
                    &&& final(self).replied() == old(self).replied()
                    &&& r is Err
                }
            },
            final(self).replied() == old(self).replied() || final(self).replied() == old(
                self,
            ).replied().push(final(self).replied().last()),
            final(self).replied().len() == old(self).replied().len() + 1 ==> {
                let a = final(self).replied().last();
                &&& a matches Message::LoginResponse(Ok(id)) ==> final(account_mgr)@.connected
                    == old(account_mgr)@.connected.push(id)
                &&& a matches Message::LoginResponse(Err(_)) ==> final(account_mgr)@ == old(
                    account_mgr,
                )@
                &&& a matches Message::LogoutResponse(Ok(())) ==> final(account_mgr)@.connected.len()
                    + 1 == old(account_mgr)@.connected.len()
                &&& a matches Message::LogoutResponse(Err(_)) ==> final(account_mgr)@ == old(
                    account_mgr,
                )@
                &&& a is LoginResponse || a is LogoutResponse
            },
    {
        if let Some(msg) = self.take_message() {
            let ghost m = msg;
            proof {
                if let Message::LogoutRequest { id } = m {
                    lemma_find_first_found(account_mgr@.connected, is_id(id));
                }
            }
            match respond(account_mgr, self.ip, msg) {
                Some(response) => {
                    self.reply(response)?;
                },
                None => {
                    return Err(ChannelError::Other("Received a response where a request was expected"));
                },
            }
        }
        if !self.running.load(std::sync::atomic::Ordering::Relaxed) {
            return Err(ChannelError::Other("Target thread has exited"));
        }
        Ok(())
    }
}

} // verus!
