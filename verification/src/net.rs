//! The runner's table of connected peers and its answers to socket events.
//! The socket itself, and the text of an address, stay with the caller.

use vstd::prelude::*;
use crate::log::{Logs, history_after_add};

verus! {

broadcast use vstd::seq_lib::group_seq_properties;

/// A peer's socket address, as plain numbers.
#[derive(Clone, Copy, PartialEq, Eq, Structural, Debug)]
pub enum PeerAddr {
    V4 { ip: u32, port: u16 },
    V6 { ip6: u128, port: u16, flowinfo: u32, scope_id: u32 },
}

/// An event of the peer-to-peer socket.
#[derive(Clone, Copy, PartialEq, Eq, Structural, Debug)]
pub enum NetEvent {
    /// A packet arrived from the address.
    Packet(PeerAddr),
    /// A peer connected.
    Connect(PeerAddr),
    /// A peer stopped answering.
    Timeout(PeerAddr),
    /// A peer disconnected.
    Disconnect(PeerAddr),
}

/// The peers seen connecting, each once, in the order they connected.
pub struct NetMgr {
    remotes: Vec<PeerAddr>,
}

/// Whether `x` is another address than `a`.
pub open spec fn other_than(a: PeerAddr) -> spec_fn(PeerAddr) -> bool {
    |x: PeerAddr| x != a
}

/// `s` without the occurrences of `a`.
pub open spec fn without(s: Seq<PeerAddr>, a: PeerAddr) -> Seq<PeerAddr> {
    s.filter(other_than(a))
}

/// The log line of an event, given the text of its address (none for packets).
pub open spec fn event_note(event: NetEvent, addr_text: Seq<char>) -> Option<Seq<char>> {
    match event {
        NetEvent::Packet(_) => None,
        NetEvent::Connect(_) => Some("Connect from :"@ + addr_text),
        NetEvent::Timeout(_) => Some("Timeout from :"@ + addr_text),
        NetEvent::Disconnect(_) => Some("Disconnect from :"@ + addr_text),
    }
}

/// The peer table after `event`: a connecting peer is added once, a
/// disconnecting one removed; other events leave the table as it is.
pub open spec fn remotes_after(remotes: Seq<PeerAddr>, event: NetEvent) -> Seq<PeerAddr> {
    match event {
        NetEvent::Connect(a) => if remotes.contains(a) {
            remotes
        } else {
            remotes.push(a)
        },
        NetEvent::Disconnect(a) => without(remotes, a),
        _ => remotes,
    }
}

/// The address to greet after `event`: the sender of a packet that is not a
/// known peer.
pub open spec fn reply_to(remotes: Seq<PeerAddr>, event: NetEvent) -> Option<PeerAddr> {
    match event {
        NetEvent::Packet(a) => if remotes.contains(a) {
            None
        } else {
            Some(a)
        },
        _ => None,
    }
}

impl View for NetMgr {
    type V = Seq<PeerAddr>;

    closed spec fn view(&self) -> Seq<PeerAddr> {
        self.remotes@
    }
}

impl NetMgr {
    #[verifier::type_invariant]
    spec fn unique_peers(self) -> bool {
        self.remotes@.no_duplicates()
    }

    /// An empty table.
    pub fn new() -> (res: NetMgr)
        ensures
            res@ == Seq::<PeerAddr>::empty(),
    {
        NetMgr { remotes: Vec::new() }
    }

    /// Whether `addr` is a known peer.
    pub fn contains(&self, addr: PeerAddr) -> (res: bool)
        ensures
            res == self@.contains(addr),
    {
        let n = self.remotes.len();
        let mut i: usize = 0;
        while i < n
            invariant
                n == self.remotes@.len(),
                i <= n,
                forall|j: int| 0 <= j < i ==> self.remotes@[j] != addr,
            decreases n - i,
        {
            if self.remotes[i] == addr {
                assert(self.remotes@[i as int] == addr);
                return true;
            }
            i = i + 1;
        }
        false
    }

    /// The peers, in the order they connected.
    pub fn remotes(&self) -> (res: &Vec<PeerAddr>)
        ensures
            res@ == self@,
            res@.no_duplicates(),
    {
        proof {
            use_type_invariant(self);
        }
        &self.remotes
    }

    /// `remotes` without `addr`.
    fn remove_peer(remotes: &Vec<PeerAddr>, addr: PeerAddr) -> (res: Vec<PeerAddr>)
        requires
            remotes@.no_duplicates(),
        ensures
            res@ == without(remotes@, addr),
            res@.no_duplicates(),
    {
        let n = remotes.len();
        let mut kept: Vec<PeerAddr> = Vec::new();
        let mut i: usize = 0;
        let ghost pred = other_than(addr);
        assert(remotes@.subrange(0, 0).filter(pred) =~= Seq::<PeerAddr>::empty());
        while i < n
            invariant
                n == remotes@.len(),
                i <= n,
                remotes@.no_duplicates(),
                pred == other_than(addr),
                kept@ == remotes@.subrange(0, i as int).filter(pred),
                kept@.no_duplicates(),
                forall|y: PeerAddr| kept@.contains(y) ==> remotes@.subrange(0, i as int).contains(y),
            decreases n - i,
        {
            let x = remotes[i];
            let ghost pre = remotes@.subrange(0, i as int);
            let ghost old_kept = kept@;
            proof {
                pre.lemma_filter_push(x, pred);
                assert(remotes@.subrange(0, i + 1) =~= pre.push(x));
                if pre.contains(x) {
                    let k = choose|k: int| 0 <= k < pre.len() && pre[k] == x;
                    assert(remotes@[k] == remotes@[i as int]);
                }
                assert(!old_kept.contains(x));
            }
            if x != addr {
                kept.push(x);
                proof {
                    assert forall|p: int, q: int|
                        0 <= p < kept@.len() && 0 <= q < kept@.len() && p != q implies kept@[p]
                        != kept@[q] by {
                        if p < old_kept.len() && q < old_kept.len() {
                            assert(old_kept[p] != old_kept[q]);
                        } else if p < old_kept.len() {
                            assert(old_kept.contains(kept@[p]));
                        } else {
                            assert(old_kept.contains(kept@[q]));
                        }
                    }
                }
            }
            proof {
                assert forall|y: PeerAddr| kept@.contains(y) implies remotes@.subrange(
                    0,
                    i + 1,
                ).contains(y) by {
                    if y == x {
                        assert(remotes@.subrange(0, i + 1)[i as int] == x);
                    } else {
                        let k = choose|k: int| 0 <= k < kept@.len() && kept@[k] == y;
                        assert(old_kept[k] == y);
                        assert(old_kept.contains(y));
                        let m = choose|m: int| 0 <= m < pre.len() && pre[m] == y;
                        assert(remotes@.subrange(0, i + 1)[m] == y);
                    }
                }
            }
            i = i + 1;
        }
        assert(remotes@.subrange(0, n as int) =~= remotes@);
        kept
    }

    /// Answers one socket event: logs connects, timeouts and disconnects
    /// (with `addr_text`, the printed form of the event's address), keeps the
    /// peer table, and returns the address that a packet from an unknown
    /// peer should be greeted at.
    pub fn handle_event(&mut self, event: NetEvent, addr_text: &str, logs: &mut Logs) -> (reply:
        Option<PeerAddr>)
        ensures
            final(self)@ == remotes_after(old(self)@, event),
            reply == reply_to(old(self)@, event),
            event matches NetEvent::Timeout(_) ==> final(self)@ == old(self)@,
            event matches NetEvent::Packet(_) ==> final(self)@ == old(self)@,
            event_note(event, addr_text@) is None ==> final(logs)@ == old(logs)@,
            final(logs).start() == old(logs).start(),
            event_note(event, addr_text@) matches Some(note) ==> exists|secs: u64|
                final(logs)@ == history_after_add(old(logs)@, secs, note),
    {
        proof {
            use_type_invariant(&*self);
        }
        let (reply, note) = match event {
            NetEvent::Packet(addr) => {
                if !self.contains(addr) {
                    (Some(addr), None)
                } else {
                    (None, None)
                }
            },
            NetEvent::Connect(addr) => {
                if !self.contains(addr) {
                    let mut remotes: Vec<PeerAddr> = Vec::new();
                    std::mem::swap(&mut remotes, &mut self.remotes);
                    remotes.push(addr);
                    self.remotes = remotes;
                }
                (None, Some(String::from_str("Connect from :")))
            },
            NetEvent::Timeout(_) => (None, Some(String::from_str("Timeout from :"))),
            NetEvent::Disconnect(addr) => {
                let remotes = Self::remove_peer(&self.remotes, addr);
                self.remotes = remotes;
                (None, Some(String::from_str("Disconnect from :")))
            },
        };
        if let Some(mut line) = note {
            line.append(addr_text);
            logs.add(line);
            proof {
                let w = choose|secs: u64| logs@ == history_after_add(old(logs)@, secs, line@);
                assert(logs@ == history_after_add(old(logs)@, w, event_note(event, addr_text@)->0));
            }
        }
        reply
    }

    /// Logs that sending to a peer failed, with the error's text.
    pub fn report_send_error(logs: &mut Logs, err_text: &str)
        ensures
            final(logs).start() == old(logs).start(),
            exists|secs: u64|
                final(logs)@ == history_after_add(old(logs)@, secs, "Send error: "@ + err_text@),
    {
        let mut note = String::from_str("Send error: ");
        note.append(err_text);
        logs.add(note);
    }
}


/// A peer that connects is known afterwards, and no other peer is added.
pub proof fn lemma_connect_adds_peer(remotes: Seq<PeerAddr>, a: PeerAddr, x: PeerAddr)
    ensures
        remotes_after(remotes, NetEvent::Connect(a)).contains(a),
        remotes_after(remotes, NetEvent::Connect(a)).contains(x) <==> (remotes.contains(x) || x
            == a),
{
    if !remotes.contains(a) {
        assert(remotes.push(a)[remotes.len() as int] == a);
        if remotes.contains(x) {
            let k = choose|k: int| 0 <= k < remotes.len() && remotes[k] == x;
            assert(remotes.push(a)[k] == x);
        }
        if remotes.push(a).contains(x) && x != a {
            let k = choose|k: int| 0 <= k < remotes.len() + 1 && remotes.push(a)[k] == x;
            assert(remotes[k] == x);
        }
    }
}

/// A peer that disconnects is forgotten, and every other peer stays known.
pub proof fn lemma_disconnect_forgets_peer(remotes: Seq<PeerAddr>, a: PeerAddr, x: PeerAddr)
    ensures
        !remotes_after(remotes, NetEvent::Disconnect(a)).contains(a),
        x != a ==> (remotes_after(remotes, NetEvent::Disconnect(a)).contains(x)
            <==> remotes.contains(x)),
{
    let f = without(remotes, a);
    if f.contains(a) {
        let k = choose|k: int| 0 <= k < f.len() && f[k] == a;
        remotes.lemma_filter_pred(other_than(a), k);
    }
    if x != a {
        if remotes.contains(x) {
            let k = choose|k: int| 0 <= k < remotes.len() && remotes[k] == x;
            remotes.lemma_filter_contains(other_than(a), k);
        }
        if f.contains(x) {
            remotes.lemma_filter_contains_rev(other_than(a), x);
        }
    }
}

/// A packet is answered with a greeting exactly when its sender is not a
/// known peer, and the greeting goes to the sender.
pub proof fn lemma_greet_unknown_senders(remotes: Seq<PeerAddr>, a: PeerAddr)
    ensures
        reply_to(remotes, NetEvent::Packet(a)) == (if remotes.contains(a) {
            None
        } else {
            Some(a)
        }),
        remotes_after(remotes, NetEvent::Packet(a)) == remotes,
{
}


/// Only connects and disconnects change the peer table: a timeout or a packet
/// leaves every peer where it is, and a timed-out peer stays known (so its
/// next packet is not greeted as a stranger's).
pub proof fn lemma_timeouts_and_packets_keep_peers(remotes: Seq<PeerAddr>, a: PeerAddr)
    ensures
        remotes_after(remotes, NetEvent::Timeout(a)) == remotes,
        remotes_after(remotes, NetEvent::Packet(a)) == remotes,
        remotes.contains(a) ==> reply_to(remotes_after(remotes, NetEvent::Timeout(a)), NetEvent::Packet(a)) is None,
{
}

} // verus!
