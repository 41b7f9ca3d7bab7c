//! The protocol: the messages on the wire, the host's registry of peers, and
//! the two state machines, host and client.

pub mod client;
pub mod guarantees;
pub mod message;
pub mod registry;
pub mod server;

use crate::schema::{Color, PeerAddr};
use vstd::prelude::*;

verus! {

/// A participant: a stable name, the address the host saw the connection come
/// from (absent until the host has assigned it), and a display colour.
#[derive(Debug, PartialEq, Eq)]
pub struct User {
    pub id: String,
    pub addr: Option<PeerAddr>,
    pub color: Color,
}

/// A [`User`] as plain values.
pub struct UserView {
    pub id: Seq<char>,
    pub addr: Option<PeerAddr>,
    pub color: Color,
}

impl View for User {
    type V = UserView;

    open spec fn view(&self) -> UserView {
        UserView { id: self.id@, addr: self.addr, color: self.color }
    }
}

impl Clone for User {
    fn clone(&self) -> (r: Self)
        ensures
            r == *self,
    {
        User { id: self.id.clone(), addr: self.addr, color: self.color }
    }
}

impl User {
    /// The same user seen at `addr`.
    pub open spec fn spec_at(u: UserView, addr: PeerAddr) -> UserView {
        UserView { addr: Some(addr), ..u }
    }

    /// Replaces whatever address the user carries by `addr`.
    pub fn at(self, addr: PeerAddr) -> (u: Self)
        ensures
            u@ == Self::spec_at(self@, addr),
    {
        User { id: self.id, addr: Some(addr), color: self.color }
    }
}

/// The users of a list, each as plain values.
pub open spec fn users_view(v: Seq<User>) -> Seq<UserView> {
    v.map_values(|u: User| u@)
}

/// A copy of a list of users.
pub fn clone_users(v: &Vec<User>) -> (r: Vec<User>)
    ensures
        users_view(r@) == users_view(v@),
{
    let mut out: Vec<User> = Vec::new();
    let mut i: usize = 0;
    while i < v.len()
        invariant
            i <= v.len(),
            users_view(out@) == users_view(v@.take(i as int)),
        decreases v.len() - i,
    {
        let u = v[i].clone();
        proof {
            assert(v@.take(i + 1) =~= v@.take(i as int).push(v@[i as int]));
            assert(users_view(out@.push(u)) =~= users_view(out@).push(u@));
            assert(users_view(v@.take(i as int).push(v@[i as int])) =~= users_view(
                v@.take(i as int),
            ).push(v@[i as int]@));
        }
        out.push(u);
        i += 1;
    }
    proof {
        assert(v@.take(v.len() as int) =~= v@);
    }
    out
}

} // verus!
