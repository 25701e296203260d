//! The remote server's bookkeeping of its websocket clients.

use vstd::prelude::*;

verus! {

/// A websocket client and whether it is still connected.
pub struct Connection<T> {
    pub connected: bool,
    pub client: T,
}

/// What reading from a client yielded.
#[derive(Clone, Copy, Debug, PartialEq, Eq, Structural)]
pub enum ClientEvent {
    /// The client closed the connection.
    Close,
    /// A binary message that says the client's socket opened.
    Opened,
    /// A binary message with a cell style.
    CellStyle,
    /// Any other message.
    OtherMessage,
    /// Nothing to read yet.
    WouldBlock,
    /// Reading failed.
    Error,
}

/// What the server does after reading from a client.
#[derive(Clone, Copy, Debug, PartialEq, Eq, Structural)]
pub enum ClientReaction {
    /// Nothing.
    Ignore,
    /// Send the client a cell style.
    SendCellStyle,
    /// Print the message.
    Print,
    /// Log the error.
    LogError,
}

/// Whether the client stays connected after the event, and the reaction:
/// a client that opened gets a cell style, a closed or failing client is
/// dropped.
pub fn on_client_event(connected: bool, event: ClientEvent) -> (r: (bool, ClientReaction))
    ensures
        r == match event {
            ClientEvent::Close => (false, ClientReaction::Ignore),
            ClientEvent::Opened => (connected, ClientReaction::SendCellStyle),
            ClientEvent::CellStyle => (connected, ClientReaction::Ignore),
            ClientEvent::OtherMessage => (connected, ClientReaction::Print),
            ClientEvent::WouldBlock => (connected, ClientReaction::Ignore),
            ClientEvent::Error => (false, ClientReaction::LogError),
        },
{
    match event {
        ClientEvent::Close => (false, ClientReaction::Ignore),
        ClientEvent::Opened => (connected, ClientReaction::SendCellStyle),
        ClientEvent::CellStyle => (connected, ClientReaction::Ignore),
        ClientEvent::OtherMessage => (connected, ClientReaction::Print),
        ClientEvent::WouldBlock => (connected, ClientReaction::Ignore),
        ClientEvent::Error => (false, ClientReaction::LogError),
    }
}

pub open spec fn is_connected<T>() -> spec_fn(Connection<T>) -> bool {
    |c: Connection<T>| c.connected
}

/// Drops the clients that are no longer connected, keeping the order of
/// the others.
pub fn retain_connected<T>(clients: &mut Vec<Connection<T>>)
    ensures
        final(clients)@ == old(clients)@.filter(is_connected::<T>()),
{
    let ghost old_s = clients@;
    let ghost mut k: int = 0;
    let mut i: usize = 0;
    while i < clients.len()
        invariant
            0 <= k <= old_s.len(),
            clients@ == old_s.take(k).filter(is_connected::<T>()) + old_s.skip(k),
            i == old_s.take(k).filter(is_connected::<T>()).len(),
        decreases clients.len() - i,
    {
        let ghost kept = old_s.take(k).filter(is_connected::<T>());
        assert(k < old_s.len()) by {
            if k >= old_s.len() {
                assert(old_s.skip(k) =~= Seq::<Connection<T>>::empty());
            }
        }
        assert(clients@[i as int] == old_s[k]);
        assert(old_s.take(k + 1).drop_last() =~= old_s.take(k));
        assert(old_s.take(k + 1).last() == old_s[k]);
        assert(old_s.take(k + 1).len() > 0);
        reveal(Seq::filter);
        assert(old_s.take(k + 1).filter(is_connected::<T>()) == {
            let sub = old_s.take(k + 1).drop_last().filter(is_connected::<T>());
            if (is_connected::<T>())(old_s[k]) { sub.push(old_s[k]) } else { sub }
        });
        if clients[i].connected {
            proof {
                assert(old_s.take(k + 1).filter(is_connected::<T>()) == kept.push(old_s[k]));
                assert(kept.push(old_s[k]) + old_s.skip(k + 1) =~= kept + old_s.skip(k));
                k = k + 1;
            }
            i = i + 1;
        } else {
            clients.remove(i);
            proof {
                assert(old_s.take(k + 1).filter(is_connected::<T>()) == kept);
                assert(clients@ =~= kept + old_s.skip(k + 1));
                k = k + 1;
            }
        }
    }
    proof {
        if k < old_s.len() {
            assert(clients@.len() > i);
        }
        assert(old_s.take(k) =~= old_s);
        assert(old_s.skip(k) =~= Seq::<Connection<T>>::empty());
        assert(clients@ =~= old_s.filter(is_connected::<T>()));
    }
}

} // verus!
