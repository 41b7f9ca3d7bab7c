//! The host's registry of connected peers.
//!
//! One entry per connection, in the order the connections were enrolled. An
//! entry starts without an identity; a `SyncReq` or a
//! `UserJoined` binds one, and a `UserJoined` marks the entry as joined. No
//! two entries share an address.

use super::{User, UserView};
use crate::schema::PeerAddr;
use vstd::prelude::*;

verus! {

/// What the host knows of one connection.
#[derive(Debug, PartialEq, Eq)]
pub struct PeerEntry {
    pub addr: PeerAddr,
    pub user: Option<User>,
    pub joined: bool,
}

/// A [`PeerEntry`] as plain values.
pub struct PeerEntryView {
    pub addr: PeerAddr,
    pub user: Option<UserView>,
    pub joined: bool,
}

impl View for PeerEntry {
    type V = PeerEntryView;

    open spec fn view(&self) -> PeerEntryView {
        PeerEntryView {
            addr: self.addr,
            user: match self.user {
                Some(u) => Some(u@),
                None => None,
            },
            joined: self.joined,
        }
    }
}

impl Clone for PeerEntry {
    fn clone(&self) -> (r: Self)
        ensures
            r == *self,
    {
        PeerEntry {
            addr: self.addr,
            user: match &self.user {
                Some(u) => Some(u.clone()),
                None => None,
            },
            joined: self.joined,
        }
    }
}

/// The entry of a connection that has said nothing yet.
pub open spec fn fresh_entry(addr: PeerAddr) -> PeerEntryView {
    PeerEntryView { addr, user: None, joined: false }
}

/// The entries whose address is not `addr`.
pub open spec fn other_than(addr: PeerAddr) -> spec_fn(PeerEntryView) -> bool {
    |e: PeerEntryView| e.addr != addr
}

/// The entries that have joined, have an identity, and are not at `addr`.
pub open spec fn joined_other_than(addr: PeerAddr) -> spec_fn(PeerEntryView) -> bool {
    |e: PeerEntryView| e.joined && e.user is Some && e.addr != addr
}

/// The addresses that are not the excepted one.
pub open spec fn not_excepted(except: Option<PeerAddr>) -> spec_fn(PeerAddr) -> bool {
    |a: PeerAddr| except != Some(a)
}

/// What binding `user` to `addr` does to one entry; `joins` marks it joined.
pub open spec fn bind_entry(addr: PeerAddr, user: UserView, joins: bool) -> spec_fn(
    PeerEntryView,
) -> PeerEntryView {
    |e: PeerEntryView|
        if e.addr == addr {
            PeerEntryView { addr, user: Some(user), joined: e.joined || joins }
        } else {
            e
        }
}

/// Some entry has the address `addr`.
pub open spec fn reg_has(reg: Seq<PeerEntryView>, addr: PeerAddr) -> bool {
    exists|i: int| 0 <= i < reg.len() && (#[trigger] reg[i]).addr == addr
}

/// Some entry has the address `addr` and is marked as joined.
pub open spec fn reg_joined(reg: Seq<PeerEntryView>, addr: PeerAddr) -> bool {
    exists|i: int| 0 <= i < reg.len() && (#[trigger] reg[i]).addr == addr && reg[i].joined
}

/// No two entries share an address.
pub open spec fn reg_distinct(reg: Seq<PeerEntryView>) -> bool {
    forall|i: int, j: int|
        0 <= i < j < reg.len() ==> (#[trigger] reg[i]).addr != (#[trigger] reg[j]).addr
}

/// The identity bound to an entry, if any, carries the entry's own address,
/// and an entry that has joined has an identity.
pub open spec fn entry_true(e: PeerEntryView) -> bool {
    &&& e.user is Some ==> e.user.unwrap().addr == Some(e.addr)
    &&& e.joined ==> e.user is Some
}

/// Every identity in the registry carries the address of its own entry, and
/// every entry that has joined has one.
pub open spec fn reg_true(reg: Seq<PeerEntryView>) -> bool {
    forall|i: int| 0 <= i < reg.len() ==> entry_true(#[trigger] reg[i])
}

/// The addresses of the entries, in order.
pub open spec fn reg_addrs(reg: Seq<PeerEntryView>) -> Seq<PeerAddr> {
    reg.map_values(|e: PeerEntryView| e.addr)
}

/// The registry without the entry of `addr`.
pub open spec fn reg_without(reg: Seq<PeerEntryView>, addr: PeerAddr) -> Seq<PeerEntryView> {
    reg.filter(other_than(addr))
}

/// The registry after a connection from `addr` was enrolled: any earlier entry
/// of that address is gone, and a fresh one stands last.
pub open spec fn reg_enroll(reg: Seq<PeerEntryView>, addr: PeerAddr) -> Seq<PeerEntryView> {
    reg_without(reg, addr).push(fresh_entry(addr))
}

/// The registry after `user` was bound to the entry of `addr`.
pub open spec fn reg_bind(
    reg: Seq<PeerEntryView>,
    addr: PeerAddr,
    user: UserView,
    joins: bool,
) -> Seq<PeerEntryView> {
    reg.map_values(bind_entry(addr, user, joins))
}

/// The addresses to which a broadcast goes: all of them, or all but one.
pub open spec fn recipients(reg: Seq<PeerEntryView>, except: Option<PeerAddr>) -> Seq<PeerAddr> {
    reg_addrs(reg).filter(not_excepted(except))
}

/// The identities of the peers that have joined, other than the one at
/// `addr`, in the order of the registry.
pub open spec fn reg_users_except(reg: Seq<PeerEntryView>, addr: PeerAddr) -> Seq<UserView> {
    reg.filter(joined_other_than(addr)).map_values(|e: PeerEntryView| e.user.unwrap())
}

/// What is registered once `addr` is removed: every other peer as before,
/// joined or not as before, and `addr` no more.
pub proof fn lemma_without_has(reg: Seq<PeerEntryView>, addr: PeerAddr, b: PeerAddr)
    ensures
        reg_has(reg_without(reg, addr), b) <==> (reg_has(reg, b) && b != addr),
        reg_joined(reg_without(reg, addr), b) <==> (reg_joined(reg, b) && b != addr),
    decreases reg.len(),
{
    let out = reg_without(reg, addr);
    if reg.len() == 0 {
        reveal(Seq::filter);
        assert(out =~= reg);
    } else {
        let rest = reg.drop_last();
        let last = reg.last();
        lemma_without_has(rest, addr, b);
        let sub = reg_without(rest, addr);
        assert(reg =~= rest.push(last));
        rest.lemma_filter_push(last, other_than(addr));
        if reg_has(out, b) {
            let i = choose|i: int| 0 <= i < out.len() && (#[trigger] out[i]).addr == b;
            if i < sub.len() {
                assert(sub[i].addr == b);
                assert(reg_has(sub, b));
                assert(reg_has(rest, b));
                let k = choose|k: int| 0 <= k < rest.len() && (#[trigger] rest[k]).addr == b;
                assert(reg[k].addr == b);
            } else {
                assert(reg[reg.len() - 1].addr == b);
            }
        }
        if reg_has(reg, b) && b != addr {
            let k = choose|k: int| 0 <= k < reg.len() && (#[trigger] reg[k]).addr == b;
            if k < rest.len() {
                assert(rest[k].addr == b);
                assert(reg_has(rest, b));
                assert(reg_has(sub, b));
                let i = choose|i: int| 0 <= i < sub.len() && (#[trigger] sub[i]).addr == b;
                assert(out[i].addr == b);
            } else {
                assert(out[out.len() - 1].addr == b);
            }
        }
        if reg_joined(out, b) {
            let i = choose|i: int|
                0 <= i < out.len() && (#[trigger] out[i]).addr == b && out[i].joined;
            if i < sub.len() {
                assert(sub[i].addr == b && sub[i].joined);
                assert(reg_joined(sub, b));
                assert(reg_joined(rest, b));
                let k = choose|k: int|
                    0 <= k < rest.len() && (#[trigger] rest[k]).addr == b && rest[k].joined;
                assert(reg[k].addr == b && reg[k].joined);
            } else {
                assert(reg[reg.len() - 1].addr == b && reg[reg.len() - 1].joined);
            }
        }
        if reg_joined(reg, b) && b != addr {
            let k = choose|k: int|
                0 <= k < reg.len() && (#[trigger] reg[k]).addr == b && reg[k].joined;
            if k < rest.len() {
                assert(rest[k].addr == b && rest[k].joined);
                assert(reg_joined(rest, b));
                assert(reg_joined(sub, b));
                let i = choose|i: int|
                    0 <= i < sub.len() && (#[trigger] sub[i]).addr == b && sub[i].joined;
                assert(out[i].addr == b && out[i].joined);
            } else {
                assert(out[out.len() - 1].addr == b && out[out.len() - 1].joined);
            }
        }
    }
}

/// Removing an address keeps the addresses distinct, never lengthens the
/// registry, and changes nothing where the address was not registered.
pub proof fn lemma_without(reg: Seq<PeerEntryView>, addr: PeerAddr)
    ensures
        reg_distinct(reg) ==> reg_distinct(reg_without(reg, addr)),
        reg_true(reg) ==> reg_true(reg_without(reg, addr)),
        reg_without(reg, addr).len() <= reg.len(),
        !reg_has(reg, addr) ==> reg_without(reg, addr) == reg,
    decreases reg.len(),
{
    let out = reg_without(reg, addr);
    if reg_true(reg) {
        assert forall|i: int| 0 <= i < out.len() implies entry_true(#[trigger] out[i]) by {
            assert(out.contains(out[i]));
            reg.lemma_filter_contains_rev(other_than(addr), out[i]);
            let k = choose|k: int| 0 <= k < reg.len() && reg[k] == out[i];
            assert(entry_true(reg[k]));
        }
    }
    if reg.len() == 0 {
        reveal(Seq::filter);
        assert(out =~= reg);
    } else {
        let rest = reg.drop_last();
        let last = reg.last();
        lemma_without(rest, addr);
        let sub = reg_without(rest, addr);
        assert(reg =~= rest.push(last));
        rest.lemma_filter_push(last, other_than(addr));
        if reg_distinct(reg) {
            assert forall|i: int, j: int| 0 <= i < j < rest.len() implies (#[trigger] rest[i]).addr
                != (#[trigger] rest[j]).addr by {
                assert(reg[i].addr != reg[j].addr);
            }
            assert forall|i: int, j: int| 0 <= i < j < out.len() implies (#[trigger] out[i]).addr
                != (#[trigger] out[j]).addr by {
                if j < sub.len() {
                    assert(sub[i].addr != sub[j].addr);
                } else {
                    assert(sub[i].addr == out[i].addr);
                    if sub[i].addr == last.addr {
                        assert(reg_has(sub, last.addr));
                        lemma_without_has(rest, addr, last.addr);
                        let k = choose|k: int|
                            0 <= k < rest.len() && (#[trigger] rest[k]).addr == last.addr;
                        assert(reg[k].addr != reg[reg.len() - 1].addr);
                    }
                }
            }
        }
        if !reg_has(reg, addr) {
            assert(reg[reg.len() - 1].addr != addr);
            if reg_has(rest, addr) {
                let k = choose|k: int| 0 <= k < rest.len() && (#[trigger] rest[k]).addr == addr;
                assert(reg[k].addr == addr);
            }
            assert(out =~= reg);
        }
    }
}

/// Enrolling an address registers it, not joined and without an identity,
/// leaves every other peer as it was, and keeps the addresses distinct.
pub proof fn lemma_enroll(reg: Seq<PeerEntryView>, addr: PeerAddr, b: PeerAddr)
    ensures
        reg_has(reg_enroll(reg, addr), b) <==> (reg_has(reg, b) || b == addr),
        reg_joined(reg_enroll(reg, addr), b) <==> (reg_joined(reg, b) && b != addr),
        reg_distinct(reg) ==> reg_distinct(reg_enroll(reg, addr)),
        reg_true(reg) ==> reg_true(reg_enroll(reg, addr)),
{
    lemma_without(reg, addr);
    if reg_true(reg) {
        let grown = reg_enroll(reg, addr);
        assert forall|i: int| 0 <= i < grown.len() implies entry_true(#[trigger] grown[i]) by {
            if i < grown.len() - 1 {
                assert(entry_true(reg_without(reg, addr)[i]));
            }
        }
    }
    lemma_without_has(reg, addr, b);
    lemma_without_has(reg, addr, addr);
    let sub = reg_without(reg, addr);
    let out = reg_enroll(reg, addr);
    assert(out[out.len() - 1].addr == addr);
    if reg_has(out, b) && b != addr {
        let i = choose|i: int| 0 <= i < out.len() && (#[trigger] out[i]).addr == b;
        assert(sub[i].addr == b);
    }
    if reg_has(sub, b) {
        let i = choose|i: int| 0 <= i < sub.len() && (#[trigger] sub[i]).addr == b;
        assert(out[i].addr == b);
    }
    if reg_joined(out, b) {
        let i = choose|i: int|
            0 <= i < out.len() && (#[trigger] out[i]).addr == b && out[i].joined;
        assert(sub[i].addr == b && sub[i].joined);
        assert(reg_joined(sub, b));
        assert(reg_has(sub, b));
    }
    if reg_joined(sub, b) {
        let i = choose|i: int|
            0 <= i < sub.len() && (#[trigger] sub[i]).addr == b && sub[i].joined;
        assert(out[i].addr == b && out[i].joined);
    }
    if reg_distinct(reg) {
        assert forall|i: int, j: int| 0 <= i < j < out.len() implies (#[trigger] out[i]).addr != (
        #[trigger] out[j]).addr by {
            if j < sub.len() {
                assert(sub[i].addr != sub[j].addr);
            } else {
                assert(sub[i].addr == out[i].addr);
                if sub[i].addr == addr {
                    assert(reg_has(sub, addr));
                }
            }
        }
    }
}

/// Binding an identity changes no address, so it keeps them distinct and
/// registers the same peers.
pub proof fn lemma_bind(reg: Seq<PeerEntryView>, addr: PeerAddr, user: UserView, joins: bool)
    ensures
        reg_addrs(reg_bind(reg, addr, user, joins)) == reg_addrs(reg),
        reg_bind(reg, addr, user, joins).len() == reg.len(),
        reg_distinct(reg) ==> reg_distinct(reg_bind(reg, addr, user, joins)),
        reg_true(reg) && user.addr == Some(addr) ==> reg_true(reg_bind(reg, addr, user, joins)),
        forall|b: PeerAddr| reg_has(reg_bind(reg, addr, user, joins), b) <==> reg_has(reg, b),
        forall|b: PeerAddr|
            reg_joined(reg_bind(reg, addr, user, joins), b) <==> (reg_joined(reg, b) || (b == addr
                && joins && reg_has(reg, addr))),
{
    let out = reg_bind(reg, addr, user, joins);
    assert(reg_addrs(out) =~= reg_addrs(reg));
    if reg_true(reg) && user.addr == Some(addr) {
        assert forall|i: int| 0 <= i < out.len() implies entry_true(#[trigger] out[i]) by {
            assert(entry_true(reg[i]));
        }
    }
    if reg_distinct(reg) {
        assert forall|i: int, j: int| 0 <= i < j < out.len() implies (#[trigger] out[i]).addr != (
        #[trigger] out[j]).addr by {
            assert(reg[i].addr != reg[j].addr);
        }
    }
    assert forall|b: PeerAddr| reg_has(out, b) <==> reg_has(reg, b) by {
        if reg_has(out, b) {
            let i = choose|i: int| 0 <= i < out.len() && (#[trigger] out[i]).addr == b;
            assert(reg[i].addr == b);
        }
        if reg_has(reg, b) {
            let i = choose|i: int| 0 <= i < reg.len() && (#[trigger] reg[i]).addr == b;
            assert(out[i].addr == b);
        }
    }
    assert forall|b: PeerAddr|
        reg_joined(out, b) <==> (reg_joined(reg, b) || (b == addr && joins && reg_has(
            reg,
            addr,
        ))) by {
        if reg_joined(out, b) {
            let i = choose|i: int|
                0 <= i < out.len() && (#[trigger] out[i]).addr == b && out[i].joined;
            assert(reg[i].addr == b);
            if !(b == addr && joins) {
                assert(reg[i].joined);
            }
        }
        if reg_joined(reg, b) {
            let i = choose|i: int|
                0 <= i < reg.len() && (#[trigger] reg[i]).addr == b && reg[i].joined;
            assert(out[i].addr == b && out[i].joined);
        }
        if b == addr && joins && reg_has(reg, addr) {
            let i = choose|i: int| 0 <= i < reg.len() && (#[trigger] reg[i]).addr == addr;
            assert(out[i].addr == b && out[i].joined);
        }
    }
}

/// A broadcast reaches exactly the registered addresses other than the
/// excepted one.
pub proof fn lemma_recipients(reg: Seq<PeerEntryView>, except: Option<PeerAddr>, a: PeerAddr)
    ensures
        recipients(reg, except).contains(a) <==> (reg_has(reg, a) && except != Some(a)),
{
    let addrs = reg_addrs(reg);
    let pred = not_excepted(except);
    if recipients(reg, except).contains(a) {
        addrs.lemma_filter_contains_rev(pred, a);
        let i = choose|i: int| 0 <= i < addrs.len() && addrs[i] == a;
        assert(reg[i].addr == a);
        let k = choose|k: int|
            0 <= k < addrs.filter(pred).len() && addrs.filter(pred)[k] == a;
        addrs.lemma_filter_pred(pred, k);
    }
    if reg_has(reg, a) && except != Some(a) {
        let i = choose|i: int| 0 <= i < reg.len() && (#[trigger] reg[i]).addr == a;
        assert(addrs[i] == a);
        addrs.lemma_filter_contains(pred, i);
    }
}

/// Every identity handed out for a `SyncReq` from `addr` belongs to a peer
/// that has joined, other than `addr`, and carries that peer's address.
pub proof fn lemma_users_except(reg: Seq<PeerEntryView>, addr: PeerAddr, k: int)
    requires
        reg_true(reg),
        0 <= k < reg_users_except(reg, addr).len(),
    ensures
        reg_users_except(reg, addr)[k].addr is Some,
        reg_users_except(reg, addr)[k].addr != Some(addr),
        reg_joined(reg, reg_users_except(reg, addr)[k].addr.unwrap()),
{
    let kept = reg.filter(joined_other_than(addr));
    reg.lemma_filter_pred(joined_other_than(addr), k);
    assert(kept.contains(kept[k]));
    reg.lemma_filter_contains_rev(joined_other_than(addr), kept[k]);
    let i = choose|i: int| 0 <= i < reg.len() && reg[i] == kept[k];
    assert(entry_true(reg[i]));
    assert(reg[i].addr == kept[k].addr && reg[i].joined);
}

/// Every peer that has joined, other than the one at `addr`, is among the
/// identities handed out for a `SyncReq` from `addr`.
pub proof fn lemma_users_except_has_all(reg: Seq<PeerEntryView>, addr: PeerAddr, a: PeerAddr)
    requires
        reg_true(reg),
        reg_joined(reg, a),
        a != addr,
    ensures
        exists|k: int|
            0 <= k < reg_users_except(reg, addr).len() && (#[trigger] reg_users_except(
                reg,
                addr,
            )[k]).addr == Some(a),
{
    let i = choose|i: int| 0 <= i < reg.len() && (#[trigger] reg[i]).addr == a && reg[i].joined;
    assert(entry_true(reg[i]));
    let kept = reg.filter(joined_other_than(addr));
    reg.lemma_filter_contains(joined_other_than(addr), i);
    let k = choose|k: int| 0 <= k < kept.len() && kept[k] == reg[i];
    assert(reg_users_except(reg, addr)[k].addr == Some(a));
}

/// The host's registry of connected peers.
#[derive(Debug)]
pub struct PeerRegistry {
    entries: Vec<PeerEntry>,
}

impl View for PeerRegistry {
    type V = Seq<PeerEntryView>;

    closed spec fn view(&self) -> Seq<PeerEntryView> {
        self.entries@.map_values(|e: PeerEntry| e@)
    }
}

impl PeerRegistry {
    /// No two entries share an address. Every registry that this module
    /// hands out is well formed, and its methods keep it so.
    pub open spec fn wf(&self) -> bool {
        reg_distinct(self@)
    }

    /// A registry without entries.
    pub fn new() -> (r: Self)
        ensures
            r@ == Seq::<PeerEntryView>::empty(),
            r.wf(),
    {
        let r = PeerRegistry { entries: Vec::new() };
        assert(r@ =~= Seq::<PeerEntryView>::empty());
        r
    }

    /// The number of entries.
    pub fn len(&self) -> (n: usize)
        ensures
            n == self@.len(),
    {
        self.entries.len()
    }

    /// Whether `addr` is registered.
    pub fn contains(&self, addr: PeerAddr) -> (r: bool)
        ensures
            r == reg_has(self@, addr),
    {
        let mut i: usize = 0;
        while i < self.entries.len()
            invariant
                i <= self.entries.len(),
                forall|j: int| 0 <= j < i ==> (#[trigger] self@[j]).addr != addr,
            decreases self.entries.len() - i,
        {
            if self.entries[i].addr == addr {
                assert(self@[i as int].addr == addr);
                return true;
            }
            i += 1;
        }
        false
    }

    /// Whether `addr` is registered and has joined.
    pub fn is_joined(&self, addr: PeerAddr) -> (r: bool)
        ensures
            r == reg_joined(self@, addr),
    {
        let mut i: usize = 0;
        while i < self.entries.len()
            invariant
                i <= self.entries.len(),
                forall|j: int|
                    0 <= j < i ==> !((#[trigger] self@[j]).addr == addr && self@[j].joined),
            decreases self.entries.len() - i,
        {
            if self.entries[i].addr == addr && self.entries[i].joined {
                assert(self@[i as int].addr == addr && self@[i as int].joined);
                return true;
            }
            i += 1;
        }
        false
    }

    /// Takes the entry of `addr` out, if there is one.
    pub fn remove(&mut self, addr: PeerAddr)
        ensures
            final(self)@ == reg_without(old(self)@, addr),
            old(self).wf() ==> final(self).wf(),
    {
        let ghost reg = self@;
        let mut kept: Vec<PeerEntry> = Vec::new();
        let mut i: usize = 0;
        while i < self.entries.len()
            invariant
                i <= self.entries.len(),
                self@ == reg,
                kept@.map_values(|e: PeerEntry| e@) == reg_without(reg.take(i as int), addr),
            decreases self.entries.len() - i,
        {
            let e = self.entries[i].clone();
            proof {
                assert(reg.take(i + 1) =~= reg.take(i as int).push(reg[i as int]));
                reg.take(i as int).lemma_filter_push(reg[i as int], other_than(addr));
                assert(kept@.push(e).map_values(|e: PeerEntry| e@) =~= kept@.map_values(
                    |e: PeerEntry| e@,
                ).push(e@));
            }
            if e.addr != addr {
                kept.push(e);
            }
            i += 1;
        }
        proof {
            assert(reg.take(reg.len() as int) =~= reg);
            lemma_without(reg, addr);
        }
        self.entries = kept;
    }

    /// Registers a new connection from `addr`. An earlier entry of the same
    /// address is replaced.
    pub fn enroll(&mut self, addr: PeerAddr)
        ensures
            final(self)@ == reg_enroll(old(self)@, addr),
            old(self).wf() ==> final(self).wf(),
    {
        let ghost reg = self@;
        self.remove(addr);
        proof {
            lemma_enroll(reg, addr, addr);
            assert(self.entries@.push(PeerEntry { addr, user: None, joined: false }).map_values(
                |e: PeerEntry| e@,
            ) =~= self@.push(fresh_entry(addr)));
        }
        self.entries.push(PeerEntry { addr, user: None, joined: false });
    }

    /// Binds `user` to the entry of `addr`, and marks it joined if `joins`.
    /// Without such an entry nothing changes.
    pub fn bind(&mut self, addr: PeerAddr, user: User, joins: bool)
        ensures
            final(self)@ == reg_bind(old(self)@, addr, user@, joins),
            old(self).wf() ==> final(self).wf(),
    {
        let ghost reg = self@;
        let mut next: Vec<PeerEntry> = Vec::new();
        let mut i: usize = 0;
        while i < self.entries.len()
            invariant
                i <= self.entries.len(),
                self@ == reg,
                next@.map_values(|e: PeerEntry| e@) == reg_bind(
                    reg.take(i as int),
                    addr,
                    user@,
                    joins,
                ),
            decreases self.entries.len() - i,
        {
            let e = self.entries[i].clone();
            let b = if e.addr == addr {
                PeerEntry { addr, user: Some(user.clone()), joined: e.joined || joins }
            } else {
                e
            };
            proof {
                assert(reg[i as int] == self.entries@[i as int]@);
                assert(b@ == bind_entry(addr, user@, joins)(reg[i as int]));
                assert(reg.take(i + 1) =~= reg.take(i as int).push(reg[i as int]));
                assert(reg_bind(reg.take(i + 1), addr, user@, joins) =~= reg_bind(
                    reg.take(i as int),
                    addr,
                    user@,
                    joins,
                ).push(bind_entry(addr, user@, joins)(reg[i as int])));
                assert(next@.push(b).map_values(|e: PeerEntry| e@) =~= next@.map_values(
                    |e: PeerEntry| e@,
                ).push(b@));
                assert(next@.push(b).map_values(|e: PeerEntry| e@) =~= reg_bind(
                    reg.take(i + 1),
                    addr,
                    user@,
                    joins,
                ));
            }
            next.push(b);
            i += 1;
        }
        proof {
            assert(reg.take(reg.len() as int) =~= reg);
            lemma_bind(reg, addr, user@, joins);
        }
        self.entries = next;
    }

    /// Takes every entry out.
    pub fn clear(&mut self)
        ensures
            final(self)@ == Seq::<PeerEntryView>::empty(),
            final(self).wf(),
    {
        let empty: Vec<PeerEntry> = Vec::new();
        assert(empty@.map_values(|e: PeerEntry| e@) =~= Seq::<PeerEntryView>::empty());
        self.entries = empty;
    }

    /// The registered addresses in order, without `except` if one is given.
    pub fn recipients(&self, except: Option<PeerAddr>) -> (r: Vec<PeerAddr>)
        ensures
            r@ == recipients(self@, except),
    {
        let ghost reg = self@;
        let ghost addrs = reg_addrs(reg);
        let mut out: Vec<PeerAddr> = Vec::new();
        let mut i: usize = 0;
        while i < self.entries.len()
            invariant
                i <= self.entries.len(),
                self@ == reg,
                addrs == reg_addrs(reg),
                out@ == addrs.take(i as int).filter(not_excepted(except)),
            decreases self.entries.len() - i,
        {
            let a = self.entries[i].addr;
            proof {
                assert(addrs.take(i + 1) =~= addrs.take(i as int).push(addrs[i as int]));
                addrs.take(i as int).lemma_filter_push(addrs[i as int], not_excepted(except));
            }
            let skip = match except {
                Some(x) => x == a,
                None => false,
            };
            if !skip {
                out.push(a);
            }
            i += 1;
        }
        proof {
            assert(addrs.take(addrs.len() as int) =~= addrs);
        }
        out
    }

    /// The identities of the peers that have joined, other than the one at
    /// `addr`, in the order of the registry.
    pub fn users_except(&self, addr: PeerAddr) -> (r: Vec<User>)
        ensures
            super::users_view(r@) == reg_users_except(self@, addr),
    {
        let ghost reg = self@;
        let mut out: Vec<User> = Vec::new();
        let mut i: usize = 0;
        while i < self.entries.len()
            invariant
                i <= self.entries.len(),
                self@ == reg,
                super::users_view(out@) == reg_users_except(reg.take(i as int), addr),
            decreases self.entries.len() - i,
        {
            proof {
                assert(reg.take(i + 1) =~= reg.take(i as int).push(reg[i as int]));
                reg.take(i as int).lemma_filter_push(reg[i as int], joined_other_than(addr));
            }
            if self.entries[i].joined && self.entries[i].addr != addr {
                match &self.entries[i].user {
                    Some(u) => {
                        let c = u.clone();
                        proof {
                            assert(super::users_view(out@.push(c)) =~= super::users_view(
                                out@,
                            ).push(c@));
                            assert(reg_users_except(reg.take(i + 1), addr) =~= reg_users_except(
                                reg.take(i as int),
                                addr,
                            ).push(c@));
                        }
                        out.push(c);
                    },
                    None => {},
                }
            }
            i += 1;
        }
        proof {
            assert(reg.take(reg.len() as int) =~= reg);
        }
        out
    }
}

} // verus!
