//! The connections that are told of every event: each is a sender kept
//! with the address of its socket.

use vstd::prelude::*;

verus! {

/// The address of a socket: its IP address, as a number, whether that is
/// an IPv6 one, and its port.
#[derive(Clone, Copy, Debug, PartialEq, Eq, Structural)]
pub struct ListenerAddr {
    pub ip: u128,
    pub is_v6: bool,
    pub port: u16,
}

impl ListenerAddr {
    /// The IPv4 address `a.b.c.d` with port `port`.
    pub fn v4(a: u8, b: u8, c: u8, d: u8, port: u16) -> (r: ListenerAddr)
        ensures
            r.ip == a * 0x1000000 + b * 0x10000 + c * 0x100 + d,
            !r.is_v6,
            r.port == port,
    {
        let ip: u128 = (a as u128) * 0x1000000 + (b as u128) * 0x10000 + (c as u128) * 0x100 + (d as u128);
        ListenerAddr { ip, is_v6: false, port }
    }
}

/// Keeps the connections to tell of events, in the order they came.
#[derive(Debug)]
pub struct Notifier<S> {
    listeners: Vec<(S, ListenerAddr)>,
}

impl<S> View for Notifier<S> {
    type V = Seq<(S, ListenerAddr)>;

    closed spec fn view(&self) -> Seq<(S, ListenerAddr)> {
        self.listeners@
    }
}

/// Whether a listener is not at `addr`.
pub open spec fn not_at<S>(addr: ListenerAddr) -> spec_fn((S, ListenerAddr)) -> bool {
    |l: (S, ListenerAddr)| l.1 != addr
}

/// The listeners of `s` that are not at `addr`, in order.
pub open spec fn without_addr<S>(s: Seq<(S, ListenerAddr)>, addr: ListenerAddr) -> Seq<(S, ListenerAddr)> {
    s.filter(not_at(addr))
}

/// Removing the listeners at an address leaves none there.
pub proof fn lemma_removed_gone<S>(s: Seq<(S, ListenerAddr)>, addr: ListenerAddr)
    ensures
        forall|i: int| 0 <= i < without_addr(s, addr).len() ==> (#[trigger] without_addr(s, addr)[i]).1 != addr,
{
    broadcast use vstd::seq_lib::group_filter_ensures;
}

/// Adding a listener at an address where there was none, and then removing
/// the listeners at that address, gives back the listeners there were.
pub proof fn lemma_add_then_remove<S>(s: Seq<(S, ListenerAddr)>, sender: S, addr: ListenerAddr)
    requires
        forall|i: int| 0 <= i < s.len() ==> (#[trigger] s[i]).1 != addr,
    ensures
        without_addr(s.push((sender, addr)), addr) == s,
{
    let f = not_at::<S>(addr);
    s.lemma_filter_push((sender, addr), f);
    lemma_filter_all(s, f);
}

/// Filtering keeps a sequence whose items all pass.
proof fn lemma_filter_all<A>(s: Seq<A>, f: spec_fn(A) -> bool)
    requires
        forall|i: int| 0 <= i < s.len() ==> f(#[trigger] s[i]),
    ensures
        s.filter(f) == s,
    decreases s.len(),
{
    reveal(Seq::filter);
    if s.len() > 0 {
        lemma_filter_all(s.drop_last(), f);
        assert(s.drop_last().push(s.last()) == s);
    }
}

impl<S> Notifier<S> {
    /// A notifier with no listener.
    pub fn new() -> (r: Notifier<S>)
        ensures
            r@ == Seq::<(S, ListenerAddr)>::empty(),
    {
        Notifier { listeners: Vec::new() }
    }

    /// Adds a listener: a new connection.
    pub fn add_listener(&mut self, sender: S, addr: ListenerAddr)
        ensures
            final(self)@ == old(self)@.push((sender, addr)),
    {
        self.listeners.push((sender, addr));
    }

    /// Removes every listener at `addr`: a connection that was dropped.
    pub fn remove_listener(&mut self, addr: &ListenerAddr)
        ensures
            final(self)@ == without_addr(old(self)@, *addr),
    {
        let ghost s0 = self.listeners@;
        let mut kept: Vec<(S, ListenerAddr)> = Vec::new();
        let mut rest: Vec<(S, ListenerAddr)> = Vec::new();
        std::mem::swap(&mut rest, &mut self.listeners);
        let ghost f = not_at::<S>(*addr);
        let mut i: usize = 0;
        assert(s0.skip(0) == s0);
        assert(s0.take(0).filter(f) =~= Seq::<(S, ListenerAddr)>::empty()) by {
            reveal(Seq::filter);
        }
        assert(s0.len() == rest.len());
        while rest.len() > 0
            invariant
                i + rest@.len() == s0.len(),
                s0.len() <= usize::MAX,
                rest@ == s0.skip(i as int),
                kept@ == s0.take(i as int).filter(f),
                f == not_at::<S>(*addr),
            decreases rest@.len(),
        {
            assert(rest@[0] == s0[i as int]);
            let l = rest.remove(0);
            proof {
                assert(s0.take(i + 1) == s0.take(i as int).push(l));
                s0.take(i as int).lemma_filter_push(l, f);
            }
            if l.1 != *addr {
                kept.push(l);
            }
            assert(rest@ == s0.skip(i + 1));
            i = i + 1;
        }
        assert(s0.take(i as int) == s0);
        self.listeners = kept;
    }

    /// The listeners, in the order they came.
    pub fn listeners(&self) -> (r: &Vec<(S, ListenerAddr)>)
        ensures
            r@ == self@,
    {
        &self.listeners
    }
}

} // verus!
