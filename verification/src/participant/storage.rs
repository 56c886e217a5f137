//! The membership table: one record per connection handle, in the order in
//! which the handles were first recorded.
//!
//! A record is either unresolved (the connection was accepted and its peer has
//! not yet said where it listens) or resolved to the peer's public address.
//! The table keeps three promises at all times: no handle has two records, no
//! public address is resolved by two handles, and none is the address of the
//! node that owns the table. Where two handles claim one address, the first
//! claim stands and the later handle leaves the table.

use crate::network::{Endpoint, SocketAddr};
use vstd::prelude::*;

verus! {

/// What a connection handle has to offer the table: the address of the socket
/// at its other end, and a test for being the same handle.
pub trait ParticipantEndpoint: Copy {
    /// The address of the socket at the other end of the connection.
    spec fn remote(&self) -> SocketAddr;

    /// The address of the socket at the other end of the connection.
    fn addr(&self) -> (a: SocketAddr)
        ensures
            a == self.remote(),
    ;

    /// Whether the two handles are the same handle.
    fn same(&self, other: &Self) -> (b: bool)
        ensures
            b == (*self == *other),
    ;
}

impl ParticipantEndpoint for Endpoint {
    open spec fn remote(&self) -> SocketAddr {
        self.addr
    }

    fn addr(&self) -> (a: SocketAddr) {
        self.addr
    }

    fn same(&self, other: &Self) -> (b: bool) {
        *self == *other
    }
}

/// What the table knows of the peer behind one handle.
#[derive(Clone, Copy, Debug, PartialEq, Eq, Structural)]
pub enum ParticipantInfo {
    /// The connection was accepted; the peer has not announced its public
    /// address.
    Unresolved,
    /// The peer's public address: announced by the peer, or the address that
    /// was dialed.
    Resolved(SocketAddr),
}

/// One row of the table.
#[derive(Debug)]
pub struct Record<T> {
    pub endpoint: T,
    pub info: ParticipantInfo,
}

/// A handle to send to, with the address under which its peer is shown.
#[derive(Debug, PartialEq)]
pub struct ParticipantAddress<T: ParticipantEndpoint> {
    pub public: SocketAddr,
    pub endpoint: T,
}

/// The address under which a record's peer is shown: the public address of a
/// resolved record, the remote socket of an unresolved one.
pub open spec fn shown<T: ParticipantEndpoint>(r: Record<T>) -> SocketAddr {
    match r.info {
        ParticipantInfo::Resolved(public) => public,
        ParticipantInfo::Unresolved => r.endpoint.remote(),
    }
}

/// Whether the table has a record for the handle.
pub open spec fn holds<T>(rs: Seq<Record<T>>, e: T) -> bool {
    exists|i: int| 0 <= i < rs.len() && (#[trigger] rs[i]).endpoint == e
}

/// The place of the handle's record, where the table has one.
pub open spec fn slot<T>(rs: Seq<Record<T>>, e: T) -> int {
    choose|i: int| 0 <= i < rs.len() && (#[trigger] rs[i]).endpoint == e
}

/// What the table knows of the handle, if it has a record for it.
pub open spec fn info_of<T>(rs: Seq<Record<T>>, e: T) -> Option<ParticipantInfo> {
    if holds(rs, e) {
        Some(rs[slot(rs, e)].info)
    } else {
        None
    }
}

/// The public address that the handle is resolved to, if it is.
pub open spec fn public_of<T>(rs: Seq<Record<T>>, e: T) -> Option<SocketAddr> {
    match info_of(rs, e) {
        Some(ParticipantInfo::Resolved(public)) => Some(public),
        _ => None,
    }
}

/// Whether some record is resolved to the address.
pub open spec fn knows<T>(rs: Seq<Record<T>>, a: SocketAddr) -> bool {
    exists|i: int| 0 <= i < rs.len() && (#[trigger] rs[i]).info == ParticipantInfo::Resolved(a)
}

/// Whether a record of another handle than `e` is resolved to the address.
pub open spec fn claimed_elsewhere<T>(rs: Seq<Record<T>>, e: T, a: SocketAddr) -> bool {
    exists|i: int|
        0 <= i < rs.len() && (#[trigger] rs[i]).endpoint != e && rs[i].info
            == ParticipantInfo::Resolved(a)
}

/// The table with the handle's record set to `info`: in place where the
/// handle has a record, at the end where it has none.
pub open spec fn put<T>(rs: Seq<Record<T>>, e: T, info: ParticipantInfo) -> Seq<Record<T>> {
    if holds(rs, e) {
        rs.update(slot(rs, e), Record { endpoint: e, info })
    } else {
        rs.push(Record { endpoint: e, info })
    }
}

/// The table without the handle's record.
pub open spec fn without<T>(rs: Seq<Record<T>>, e: T) -> Seq<Record<T>> {
    if holds(rs, e) {
        rs.remove(slot(rs, e))
    } else {
        rs
    }
}

/// Whether handle `e` may be resolved to `a` in a table owned by `own`: `a`
/// is not the owner's address and no other handle is resolved to it.
pub open spec fn admits<T>(own: SocketAddr, rs: Seq<Record<T>>, e: T, a: SocketAddr) -> bool {
    a != own && !claimed_elsewhere(rs, e, a)
}

/// The table after handle `e` claims the public address `a`: resolved where
/// the table admits it; otherwise the first claim stands and `e` leaves the
/// table.
pub open spec fn claim<T>(own: SocketAddr, rs: Seq<Record<T>>, e: T, a: SocketAddr) -> Seq<
    Record<T>,
> {
    if admits(own, rs, e, a) {
        put(rs, e, ParticipantInfo::Resolved(a))
    } else {
        without(rs, e)
    }
}

/// The table after the peer behind `e` announces the public address `a`: the
/// claim of an unresolved handle; for a handle that is resolved already, or
/// has no record, nothing changes.
pub open spec fn announce<T>(own: SocketAddr, rs: Seq<Record<T>>, e: T, a: SocketAddr) -> Seq<
    Record<T>,
> {
    if info_of(rs, e) == Some(ParticipantInfo::Unresolved) {
        claim(own, rs, e, a)
    } else {
        rs
    }
}

/// The addresses to share with a peer: the owner's own, then every record's
/// shown address, in table order.
pub open spec fn roster<T: ParticipantEndpoint>(own: SocketAddr, rs: Seq<Record<T>>) -> Seq<
    SocketAddr,
> {
    seq![own] + rs.map_values(|r: Record<T>| shown(r))
}

/// The handles to broadcast to, one per record, in table order.
pub open spec fn targets<T: ParticipantEndpoint>(rs: Seq<Record<T>>) -> Seq<
    ParticipantAddress<T>,
> {
    rs.map_values(|r: Record<T>| ParticipantAddress { public: shown(r), endpoint: r.endpoint })
}

/// The table's promises: every handle has at most one record, every public
/// address is resolved by at most one handle, and no handle is resolved to
/// the owner's address.
pub open spec fn well_formed<T>(own: SocketAddr, rs: Seq<Record<T>>) -> bool {
    &&& forall|i: int, j: int|
        0 <= i < j < rs.len() ==> (#[trigger] rs[i]).endpoint != (#[trigger] rs[j]).endpoint
    &&& forall|i: int, j: int|
        0 <= i < j < rs.len() && (#[trigger] rs[i]).info is Resolved ==> rs[i].info
            != (#[trigger] rs[j]).info
    &&& forall|i: int|
        0 <= i < rs.len() ==> (#[trigger] rs[i]).info != ParticipantInfo::Resolved(own)
}

/// Removing a record keeps the table's promises, and the handle is gone.
pub proof fn lemma_without<T>(own: SocketAddr, rs: Seq<Record<T>>, e: T)
    requires
        well_formed(own, rs),
    ensures
        well_formed(own, without(rs, e)),
        !holds(without(rs, e), e),
        forall|a: SocketAddr| knows(without(rs, e), a) ==> knows(rs, a),
{
    if holds(rs, e) {
        let k = slot(rs, e);
        let out = rs.remove(k);
        assert forall|i: int| 0 <= i < out.len() implies (#[trigger] out[i]) == rs[if i < k {
            i
        } else {
            i + 1
        }] by {}
        assert forall|i: int| 0 <= i < out.len() implies (#[trigger] out[i]).endpoint != e by {
            let _ = rs[if i < k { i } else { i + 1 }];
        }
        assert forall|a: SocketAddr| knows(out, a) implies knows(rs, a) by {
            let i = choose|i: int|
                0 <= i < out.len() && (#[trigger] out[i]).info == ParticipantInfo::Resolved(a);
            let _ = rs[if i < k { i } else { i + 1 }];
        }
    }
}

/// Setting a record to unresolved keeps the table's promises.
pub proof fn lemma_put_unresolved<T>(own: SocketAddr, rs: Seq<Record<T>>, e: T)
    requires
        well_formed(own, rs),
    ensures
        well_formed(own, put(rs, e, ParticipantInfo::Unresolved)),
        info_of(put(rs, e, ParticipantInfo::Unresolved), e) == Some(ParticipantInfo::Unresolved),
{
    let out = put(rs, e, ParticipantInfo::Unresolved);
    if holds(rs, e) {
        let k = slot(rs, e);
        assert(out[k].endpoint == e);
    } else {
        assert(out[rs.len() as int].endpoint == e);
    }
    assert(holds(out, e));
}

/// A claim keeps the table's promises. Where the table admits it, the handle
/// is resolved to the address afterwards; where not, the handle is gone.
/// Either way every address that was known stays known, unless it was the
/// claiming handle's own earlier address.
pub proof fn lemma_claim<T>(own: SocketAddr, rs: Seq<Record<T>>, e: T, a: SocketAddr)
    requires
        well_formed(own, rs),
    ensures
        well_formed(own, claim(own, rs, e, a)),
        admits(own, rs, e, a) ==> info_of(claim(own, rs, e, a), e) == Some(
            ParticipantInfo::Resolved(a),
        ),
        !admits(own, rs, e, a) ==> !holds(claim(own, rs, e, a), e),
        a != own ==> knows(claim(own, rs, e, a), a),
{
    let out = claim(own, rs, e, a);
    if admits(own, rs, e, a) {
        if holds(rs, e) {
            let k = slot(rs, e);
            assert(out[k].endpoint == e);
            assert(out[k].info == ParticipantInfo::Resolved(a));
        } else {
            assert(out[rs.len() as int].endpoint == e);
            assert(out[rs.len() as int].info == ParticipantInfo::Resolved(a));
        }
        assert(holds(out, e));
        assert(knows(out, a));
    } else {
        lemma_without(own, rs, e);
        if a != own {
            let i = choose|i: int|
                0 <= i < rs.len() && (#[trigger] rs[i]).endpoint != e && rs[i].info
                    == ParticipantInfo::Resolved(a);
            if holds(rs, e) {
                let k = slot(rs, e);
                let j = if i < k {
                    i
                } else {
                    i - 1
                };
                assert(out[j] == rs[i]);
            }
            assert(knows(out, a));
        }
    }
}

/// The membership table of one node.
pub struct ParticipantsStorage<T: ParticipantEndpoint> {
    records: Vec<Record<T>>,
    self_pub_addr: SocketAddr,
}

fn find<T: ParticipantEndpoint>(records: &Vec<Record<T>>, endpoint: &T) -> (found: Option<usize>)
    ensures
        match found {
            Some(i) => i < records.len() && records[i as int].endpoint == *endpoint,
            None => !holds(records@, *endpoint),
        },
{
    let mut i: usize = 0;
    while i < records.len()
        invariant
            i <= records.len(),
            forall|j: int| 0 <= j < i ==> (#[trigger] records[j]).endpoint != *endpoint,
        decreases records.len() - i,
    {
        if records[i].endpoint.same(endpoint) {
            return Some(i);
        }
        i += 1;
    }
    None
}

fn resolved_elsewhere<T: ParticipantEndpoint>(
    records: &Vec<Record<T>>,
    endpoint: &T,
    addr: SocketAddr,
) -> (b: bool)
    ensures
        b == claimed_elsewhere(records@, *endpoint, addr),
{
    let mut i: usize = 0;
    while i < records.len()
        invariant
            i <= records.len(),
            forall|j: int|
                0 <= j < i ==> !((#[trigger] records[j]).endpoint != *endpoint && records[j].info
                    == ParticipantInfo::Resolved(addr)),
        decreases records.len() - i,
    {
        if !records[i].endpoint.same(endpoint) && records[i].info == ParticipantInfo::Resolved(
            addr,
        ) {
            return true;
        }
        i += 1;
    }
    false
}

impl<T: ParticipantEndpoint> View for ParticipantsStorage<T> {
    type V = Seq<Record<T>>;

    /// The records, in table order.
    closed spec fn view(&self) -> Seq<Record<T>> {
        self.records@
    }
}

impl<T: ParticipantEndpoint> ParticipantsStorage<T> {
    #[verifier::type_invariant]
    spec fn inv(&self) -> bool {
        well_formed(self.self_pub_addr, self.records@)
    }

    /// The public address of the node that owns the table.
    pub closed spec fn own(&self) -> SocketAddr {
        self.self_pub_addr
    }

    /// An empty table for the node that listens on `self_pub_addr`.
    pub fn new(self_pub_addr: SocketAddr) -> (storage: Self)
        ensures
            storage.own() == self_pub_addr,
            storage@ == Seq::<Record<T>>::empty(),
            well_formed(storage.own(), storage@),
    {
        Self { records: Vec::new(), self_pub_addr }
    }

    /// The public address of the node that owns the table.
    pub fn self_pub_addr(&self) -> (a: SocketAddr)
        ensures
            a == self.own(),
            well_formed(self.own(), self@),
    {
        proof {
            use_type_invariant(self);
        }
        self.self_pub_addr
    }

    /// The number of records.
    pub fn len(&self) -> (n: usize)
        ensures
            n == self@.len(),
    {
        self.records.len()
    }

    /// Whether some record is resolved to `addr`.
    pub fn is_known_participant(&self, addr: SocketAddr) -> (known: bool)
        ensures
            known == knows(self@, addr),
    {
        let mut i: usize = 0;
        while i < self.records.len()
            invariant
                i <= self.records.len(),
                forall|j: int|
                    0 <= j < i ==> (#[trigger] self.records[j]).info != ParticipantInfo::Resolved(
                        addr,
                    ),
            decreases self.records.len() - i,
        {
            if self.records[i].info == ParticipantInfo::Resolved(addr) {
                return true;
            }
            i += 1;
        }
        false
    }

    /// Records a connection that was accepted: its handle is unresolved until
    /// its peer announces itself.
    pub fn add_accepted_participant(&mut self, endpoint: T)
        ensures
            final(self).own() == old(self).own(),
            final(self)@ == put(old(self)@, endpoint, ParticipantInfo::Unresolved),
            well_formed(final(self).own(), final(self)@),
    {
        proof {
            use_type_invariant(&*self);
            lemma_put_unresolved(self.self_pub_addr, self.records@, endpoint);
        }
        let found = find(&self.records, &endpoint);
        let mut records = Vec::new();
        std::mem::swap(&mut records, &mut self.records);
        let record = Record { endpoint, info: ParticipantInfo::Unresolved };
        match found {
            Some(i) => {
                records.set(i, record);
            },
            None => {
                records.push(record);
            },
        }
        self.records = records;
    }

    /// Records a connection that this node dialed: its handle claims the
    /// address that was dialed. Returns whether the claim was refused, in
    /// which case the handle has no record afterwards and its connection is
    /// to be closed.
    pub fn add_known_participant(&mut self, endpoint: T) -> (refused: bool)
        ensures
            final(self).own() == old(self).own(),
            final(self)@ == claim(old(self).own(), old(self)@, endpoint, endpoint.remote()),
            refused == !admits(old(self).own(), old(self)@, endpoint, endpoint.remote()),
            well_formed(final(self).own(), final(self)@),
    {
        let addr = endpoint.addr();
        self.claim_for(endpoint, addr)
    }

    /// Takes the announcement of a peer's public address. An unresolved
    /// handle claims the address; a handle that is resolved already, or has
    /// no record, is left as it is. Returns whether a claim was made and
    /// refused, in which case the handle has no record afterwards and its
    /// connection is to be closed.
    pub fn add_unknown_participant(&mut self, endpoint: T, pub_addr: SocketAddr) -> (refused: bool)
        ensures
            final(self).own() == old(self).own(),
            final(self)@ == announce(old(self).own(), old(self)@, endpoint, pub_addr),
            refused == (info_of(old(self)@, endpoint) == Some(ParticipantInfo::Unresolved)
                && !admits(old(self).own(), old(self)@, endpoint, pub_addr)),
            well_formed(final(self).own(), final(self)@),
    {
        proof {
            use_type_invariant(&*self);
        }
        let found = find(&self.records, &endpoint);
        match found {
            Some(i) => {
                if self.records[i].info == ParticipantInfo::Unresolved {
                    self.claim_for(endpoint, pub_addr)
                } else {
                    false
                }
            },
            None => false,
        }
    }

    fn claim_for(&mut self, endpoint: T, addr: SocketAddr) -> (refused: bool)
        ensures
            final(self).own() == old(self).own(),
            final(self)@ == claim(old(self).own(), old(self)@, endpoint, addr),
            refused == !admits(old(self).own(), old(self)@, endpoint, addr),
            well_formed(final(self).own(), final(self)@),
    {
        proof {
            use_type_invariant(&*self);
            lemma_claim(self.self_pub_addr, self.records@, endpoint, addr);
        }
        let found = find(&self.records, &endpoint);
        let refused = addr == self.self_pub_addr || resolved_elsewhere(
            &self.records,
            &endpoint,
            addr,
        );
        let mut records = Vec::new();
        std::mem::swap(&mut records, &mut self.records);
        let record = Record { endpoint, info: ParticipantInfo::Resolved(addr) };
        match found {
            Some(i) => {
                if refused {
                    records.remove(i);
                } else {
                    records.set(i, record);
                }
            },
            None => {
                if !refused {
                    records.push(record);
                }
            },
        }
        self.records = records;
        refused
    }

    /// Removes the handle's record, if there is one.
    pub fn drop(&mut self, endpoint: T)
        ensures
            final(self).own() == old(self).own(),
            final(self)@ == without(old(self)@, endpoint),
            !holds(final(self)@, endpoint),
            well_formed(final(self).own(), final(self)@),
    {
        proof {
            use_type_invariant(&*self);
            lemma_without(self.self_pub_addr, self.records@, endpoint);
        }
        let found = find(&self.records, &endpoint);
        if let Some(i) = found {
            let mut records = Vec::new();
            std::mem::swap(&mut records, &mut self.records);
            records.remove(i);
            self.records = records;
        }
    }

    /// The addresses to share with a peer: this node's own, then every
    /// record's shown address.
    pub fn get_participants_list(&self) -> (list: Vec<SocketAddr>)
        ensures
            list@ == roster(self.own(), self@),
    {
        let mut list: Vec<SocketAddr> = Vec::new();
        list.push(self.self_pub_addr);
        let mut i: usize = 0;
        while i < self.records.len()
            invariant
                i <= self.records.len(),
                list@ == roster(self.self_pub_addr, self.records@.take(i as int)),
            decreases self.records.len() - i,
        {
            let addr = match self.records[i].info {
                ParticipantInfo::Resolved(public) => public,
                ParticipantInfo::Unresolved => self.records[i].endpoint.addr(),
            };
            list.push(addr);
            proof {
                assert(self.records@.take(i + 1) == self.records@.take(i as int).push(
                    self.records@[i as int],
                ));
            }
            i += 1;
        }
        proof {
            assert(self.records@.take(i as int) == self.records@);
        }
        list
    }

    /// The handles to broadcast to, one per record, each with the address
    /// under which its peer is shown.
    pub fn receivers(&self) -> (list: Vec<ParticipantAddress<T>>)
        ensures
            list@ == targets(self@),
    {
        let mut list: Vec<ParticipantAddress<T>> = Vec::new();
        let mut i: usize = 0;
        while i < self.records.len()
            invariant
                i <= self.records.len(),
                list@ == targets(self.records@.take(i as int)),
            decreases self.records.len() - i,
        {
            let endpoint = self.records[i].endpoint;
            let public = match self.records[i].info {
                ParticipantInfo::Resolved(public) => public,
                ParticipantInfo::Unresolved => endpoint.addr(),
            };
            list.push(ParticipantAddress { public, endpoint });
            proof {
                assert(self.records@.take(i + 1) == self.records@.take(i as int).push(
                    self.records@[i as int],
                ));
            }
            i += 1;
        }
        proof {
            assert(self.records@.take(i as int) == self.records@);
        }
        list
    }

    /// The public address that the handle is resolved to; none for a handle
    /// that is unresolved or has no record.
    pub fn get_pub_addr(&self, endpoint: &T) -> (public: Option<SocketAddr>)
        ensures
            public == public_of(self@, *endpoint),
    {
        proof {
            use_type_invariant(self);
        }
        match find(&self.records, endpoint) {
            Some(i) => match self.records[i].info {
                ParticipantInfo::Resolved(public) => Some(public),
                ParticipantInfo::Unresolved => None,
            },
            None => None,
        }
    }
}

} // verus!
