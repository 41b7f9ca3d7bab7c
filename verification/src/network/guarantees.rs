//! What holds of a host over whole runs.
//!
//! A [`World`] is a host together with the store of messages it writes to. An
//! [`Event`] is one thing that happens to the host. The theorems below speak
//! of single steps and of arbitrary sequences of events, and are proved from
//! the step functions of [`super::server`] alone.

use super::message::{
    server_frame, user_frame, MessageTypeView, MessageView, ServerMsgView, UserMsgView,
};
use super::registry::{
    lemma_users_except, lemma_users_except_has_all, lemma_without_has, recipients, reg_has,
    reg_joined, reg_users_except,
};
use super::server::{
    credential_ok, lemma_recipients_all, lemma_steps_keep_wf, peer_state, sends, server_wf,
    spec_accept, spec_ban, spec_disconnect, spec_handle_message, spec_stop, ActionView,
    ServerView, SHUTDOWN_GRACE_MILLIS,
};
use super::{User, UserView};
use crate::schema::{PeerAddr, TextMessage, TextMessageView, Timestamp};
use vstd::prelude::*;

verus! {

/// One thing that happens to a host.
pub enum Event {
    /// A connection comes in.
    Accept { addr: PeerAddr },
    /// A frame arrives on a connection, at the time `now` of the host's clock.
    Frame { addr: PeerAddr, msg: MessageView, now: Timestamp },
    /// A connection ends.
    Disconnect { addr: PeerAddr },
    /// The owner of the room is named.
    SetOwner { addr: PeerAddr },
    /// The host shuts down.
    Stop,
}

/// A host and the store it writes to.
#[verifier::ext_equal]
pub struct World {
    pub server: ServerView,
    pub store: Seq<TextMessageView>,
}

/// The messages of the room `room_id`.
pub open spec fn in_room(room_id: Seq<char>) -> spec_fn(TextMessageView) -> bool {
    |m: TextMessageView| m.room_id == room_id
}

/// What the store returns when asked for the messages of a room: those of
/// that room, in the order in which they were stored.
pub open spec fn find_messages(store: Seq<TextMessageView>, room_id: Seq<char>) -> Seq<
    TextMessageView,
> {
    store.filter(in_room(room_id))
}

/// The messages that a list of actions asks to be stored, in order.
pub open spec fn persisted(actions: Seq<ActionView>) -> Seq<TextMessageView>
    decreases actions.len(),
{
    if actions.len() == 0 {
        Seq::<TextMessageView>::empty()
    } else {
        let before = persisted(actions.drop_last());
        match actions.last() {
            ActionView::Persist { msg } => before.push(msg),
            _ => before,
        }
    }
}

/// One step of the world: the host takes the event, reading the history of its
/// room from the store where it needs it, and the store takes what the host
/// asks to be stored.
pub open spec fn world_step(w: World, e: Event) -> (World, Seq<ActionView>) {
    let (server, actions) = match e {
        Event::Accept { addr } => spec_accept(w.server, addr),
        Event::Frame { addr, msg, now } => spec_handle_message(
            w.server,
            addr,
            msg,
            now,
            find_messages(w.store, w.server.room.id),
        ),
        Event::Disconnect { addr } => spec_disconnect(w.server, addr),
        Event::SetOwner { addr } => (
            ServerView { owner_addr: Some(addr), ..w.server },
            Seq::<ActionView>::empty(),
        ),
        Event::Stop => spec_stop(w.server),
    };
    (World { server, store: w.store + persisted(actions) }, actions)
}

/// The world after a sequence of events.
pub open spec fn world_run(w: World, events: Seq<Event>) -> World
    decreases events.len(),
{
    if events.len() == 0 {
        w
    } else {
        world_step(world_run(w, events.drop_last()), events.last()).0
    }
}

/// A host stays well formed whatever happens to it.
pub proof fn lemma_run_keeps_wf(w: World, events: Seq<Event>)
    requires
        server_wf(w.server),
    ensures
        server_wf(world_run(w, events).server),
    decreases events.len(),
{
    if events.len() > 0 {
        lemma_run_keeps_wf(w, events.drop_last());
        let mid = world_run(w, events.drop_last());
        match events.last() {
            Event::Accept { addr } => {
                lemma_steps_keep_wf(mid.server, addr, arbitrary(), arbitrary(), arbitrary());
            },
            Event::Frame { addr, msg, now } => {
                lemma_steps_keep_wf(
                    mid.server,
                    addr,
                    msg,
                    now,
                    find_messages(mid.store, mid.server.room.id),
                );
            },
            Event::Disconnect { addr } => {
                lemma_steps_keep_wf(mid.server, addr, arbitrary(), arbitrary(), arbitrary());
            },
            Event::SetOwner { addr } => {},
            Event::Stop => {
                lemma_steps_keep_wf(
                    mid.server,
                    arbitrary(),
                    arbitrary(),
                    arbitrary(),
                    arbitrary(),
                );
            },
        }
    }
}

/// A ban list only grows: what one step finds banned, it leaves banned.
pub proof fn lemma_step_keeps_bans(w: World, e: Event, a: PeerAddr)
    requires
        w.server.room.banned_addrs.contains(a),
    ensures
        world_step(w, e).0.server.room.banned_addrs.contains(a),
{
    let before = w.server.room.banned_addrs;
    let after = world_step(w, e).0.server.room.banned_addrs;
    let i = choose|i: int| 0 <= i < before.len() && before[i] == a;
    if after != before {
        assert(after == before.push(after.last()));
        assert(after[i] == a);
    }
}

/// Once an address is banned, it stays banned and unregistered whatever
/// happens, and a connection from it is refused: the host asks that it be
/// closed, and nothing else changes.
pub proof fn lemma_banned_is_refused(w: World, events: Seq<Event>, target: PeerAddr)
    requires
        server_wf(w.server),
        w.server.room.banned_addrs.contains(target),
    ensures
        world_run(w, events).server.room.banned_addrs.contains(target),
        !reg_has(world_run(w, events).server.peers, target),
        spec_accept(world_run(w, events).server, target) == (
            world_run(w, events).server,
            seq![ActionView::Close { addr: target }],
        ),
    decreases events.len(),
{
    lemma_run_keeps_wf(w, events);
    if events.len() > 0 {
        lemma_banned_is_refused(w, events.drop_last(), target);
        lemma_step_keeps_bans(world_run(w, events.drop_last()), events.last(), target);
    }
}

/// When the owner's `BanReq` is served, the target is banned from then on.
pub proof fn lemma_ban_takes_effect(
    s: ServerView,
    owner: PeerAddr,
    target: PeerAddr,
    passwd: Option<Seq<char>>,
    now: Timestamp,
    history: Seq<TextMessageView>,
)
    requires
        s.owner_addr == Some(owner),
        reg_has(s.peers, owner),
        credential_ok(s.room, user_frame(UserMsgView::BanReq { addr: target }, passwd)),
    ensures
        spec_handle_message(
            s,
            owner,
            user_frame(UserMsgView::BanReq { addr: target }, passwd),
            now,
            history,
        ).0.room.banned_addrs.contains(target),
        !reg_has(
            spec_handle_message(
                s,
                owner,
                user_frame(UserMsgView::BanReq { addr: target }, passwd),
                now,
                history,
            ).0.peers,
            target,
        ),
{
    let after = spec_ban(s, target).0;
    assert(after.room.banned_addrs[after.room.banned_addrs.len() - 1] == target);
    lemma_without_has(s.peers, target, target);
}

/// The address whose ban `a` announces, if `a` delivers a `BanConfirm`.
pub open spec fn ban_confirmed_by(a: ActionView) -> Option<PeerAddr> {
    match a {
        ActionView::Send { msg, .. } => match msg.msg_type {
            MessageTypeView::Server(ServerMsgView::BanConfirm { addr }) => Some(addr),
            _ => None,
        },
        _ => None,
    }
}

/// The address that `e` asks to ban, if `e` is the arrival of a `BanReq`.
pub open spec fn ban_requested_by(e: Event) -> Option<PeerAddr> {
    match e {
        Event::Frame { msg, .. } => match msg.msg_type {
            MessageTypeView::User(UserMsgView::BanReq { addr }) => Some(addr),
            _ => None,
        },
        _ => None,
    }
}

/// A `BanConfirm` goes out only when the owner, registered and with a
/// credential that opens the room, asked for that very ban.
pub proof fn lemma_only_owner_bans(w: World, e: Event, k: int)
    requires
        0 <= k < world_step(w, e).1.len(),
        ban_confirmed_by(world_step(w, e).1[k]) is Some,
    ensures
        ban_requested_by(e) == ban_confirmed_by(world_step(w, e).1[k]),
        e matches Event::Frame { addr, msg, .. } ==> w.server.owner_addr == Some(addr) && reg_has(
            w.server.peers,
            addr,
        ) && credential_ok(w.server.room, msg),
{
}

/// A `BanReq` from any address but the owner's changes nothing and reaches
/// nobody else: the host either stays silent or, where the credential does
/// not open the room, answers the sender alone with `AuthFailure`.
pub proof fn lemma_foreign_ban_is_ignored(
    s: ServerView,
    addr: PeerAddr,
    target: PeerAddr,
    passwd: Option<Seq<char>>,
    now: Timestamp,
    history: Seq<TextMessageView>,
)
    requires
        s.owner_addr != Some(addr),
    ensures
        spec_handle_message(
            s,
            addr,
            user_frame(UserMsgView::BanReq { addr: target }, passwd),
            now,
            history,
        ) == (
            s,
            if reg_has(s.peers, addr) && !credential_ok(
                s.room,
                user_frame(UserMsgView::BanReq { addr: target }, passwd),
            ) {
                seq![
                    ActionView::Send { to: addr, msg: server_frame(ServerMsgView::AuthFailure) },
                ]
            } else {
                Seq::<ActionView>::empty()
            },
        ),
{
}

/// What one delivered frame shows of other peers: nothing but addresses that
/// the host itself saw. `e` is the event that caused the delivery `a`.
pub open spec fn shows_only_observed(s: ServerView, e: Event, a: ActionView) -> bool {
    match a {
        ActionView::Send { to, msg } => match msg.msg_type {
            MessageTypeView::User(UserMsgView::UserJoined { user }) => {
                &&& e matches Event::Frame { addr, .. }
                &&& reg_has(s.peers, addr)
                &&& user.addr == Some(addr)
                &&& to != addr
            },
            MessageTypeView::Server(ServerMsgView::Sync { user_addr, users, .. }) => {
                &&& e matches Event::Frame { addr, .. }
                &&& to == addr
                &&& user_addr == addr
                &&& forall|j: int|
                    0 <= j < users.len() ==> {
                        &&& (#[trigger] users[j]).addr is Some
                        &&& users[j].addr != Some(addr)
                        &&& reg_joined(s.peers, users[j].addr.unwrap())
                    }
            },
            MessageTypeView::Server(ServerMsgView::UserLeft { addr }) => {
                &&& reg_joined(s.peers, addr)
                &&& to != addr
            },
            _ => true,
        },
        _ => true,
    }
}

/// Whatever address a peer declares for itself, the others see the one the
/// host saw: a `UserJoined` is passed on with the address of the connection it
/// came on, a `Sync` lists each user under the address of that user's own
/// connection, which has joined, and a `UserLeft` names a connection that
/// had joined.
pub proof fn lemma_observed_address(w: World, e: Event, k: int)
    requires
        server_wf(w.server),
        0 <= k < world_step(w, e).1.len(),
    ensures
        shows_only_observed(w.server, e, world_step(w, e).1[k]),
{
    let s = w.server;
    let acts = world_step(w, e).1;
    match acts[k] {
        ActionView::Send { to, msg } => {
            match msg.msg_type {
                MessageTypeView::User(UserMsgView::UserJoined { user }) => {
                    match e {
                        Event::Frame { addr, msg: got, now } => {
                            assert(reg_has(s.peers, addr));
                            let r = recipients(s.peers, Some(addr));
                            assert(r.contains(r[k]));
                            super::registry::lemma_recipients(s.peers, Some(addr), r[k]);
                        },
                        _ => {},
                    }
                },
                MessageTypeView::Server(ServerMsgView::Sync { user_addr, users, .. }) => {
                    match e {
                        Event::Frame { addr, msg: got, now } => {
                            assert(users == reg_users_except(s.peers, addr));
                            assert forall|j: int| 0 <= j < users.len() implies {
                                &&& (#[trigger] users[j]).addr is Some
                                &&& users[j].addr != Some(addr)
                                &&& reg_joined(s.peers, users[j].addr.unwrap())
                            } by {
                                lemma_users_except(s.peers, addr, j);
                            }
                        },
                        _ => {},
                    }
                },
                MessageTypeView::Server(ServerMsgView::UserLeft { addr: gone }) => {
                    lemma_left_not_told(s, e, k, gone);
                },
                _ => {},
            }
        },
        _ => {},
    }
}

/// A `UserLeft` never goes to the peer that left.
proof fn lemma_left_not_told(s: ServerView, e: Event, k: int, gone: PeerAddr)
    requires
        server_wf(s),
        0 <= k < world_step(World { server: s, store: arbitrary() }, e).1.len(),
        world_step(World { server: s, store: arbitrary() }, e).1[k] matches ActionView::Send {
            msg,
            ..
        } && msg.msg_type == MessageTypeView::Server(ServerMsgView::UserLeft { addr: gone }),
    ensures
        reg_joined(s.peers, gone),
        world_step(World { server: s, store: arbitrary() }, e).1[k] matches ActionView::Send {
            to,
            ..
        } && to != gone,
{
    let acts = world_step(World { server: s, store: arbitrary() }, e).1;
    let rest = recipients(super::registry::reg_without(s.peers, gone), None);
    let left = sends(rest, server_frame(ServerMsgView::UserLeft { addr: gone }));
    assert(reg_joined(s.peers, gone));
    assert(exists|j: int| 0 <= j < left.len() && left[j] == acts[k]) by {
        match e {
            Event::Disconnect { addr } => {
                assert(left[k] == acts[k]);
            },
            Event::Frame { addr, msg, now } => {
                let n = acts.len() - left.len();
                assert(left[k - n] == acts[k]);
            },
            _ => {},
        }
    }
    let j = choose|j: int| 0 <= j < left.len() && left[j] == acts[k];
    assert(rest.contains(rest[j]));
    super::registry::lemma_recipients(super::registry::reg_without(s.peers, gone), None, rest[j]);
    lemma_without_has(s.peers, gone, rest[j]);
}

/// A delivery asks for nothing to be stored.
pub proof fn lemma_sends_persist_nothing(to: Seq<PeerAddr>, msg: MessageView)
    ensures
        persisted(sends(to, msg)) == Seq::<TextMessageView>::empty(),
    decreases to.len(),
{
    if to.len() > 0 {
        lemma_sends_persist_nothing(to.drop_last(), msg);
        assert(sends(to, msg).drop_last() =~= sends(to.drop_last(), msg));
    }
}

/// What two lists of actions ask to be stored is what the first asks,
/// followed by what the second asks.
pub proof fn lemma_persisted_concat(a: Seq<ActionView>, b: Seq<ActionView>)
    ensures
        persisted(a + b) == persisted(a) + persisted(b),
    decreases b.len(),
{
    if b.len() == 0 {
        assert(a + b =~= a);
        assert(persisted(a) + persisted(b) =~= persisted(a));
    } else {
        lemma_persisted_concat(a, b.drop_last());
        assert((a + b).drop_last() =~= a + b.drop_last());
        assert((a + b).last() == b.last());
        match b.last() {
            ActionView::Persist { msg } => {
                assert(persisted(a + b) =~= persisted(a) + persisted(b));
            },
            _ => {},
        }
    }
}

/// `e` is the arrival of a chat message for the host's room, from a
/// registered peer and with a credential that opens the room.
pub open spec fn is_chat_from_member(s: ServerView, e: Event) -> bool {
    match e {
        Event::Frame { addr, msg, .. } => {
            &&& reg_has(s.peers, addr)
            &&& credential_ok(s.room, msg)
            &&& match msg.msg_type {
                MessageTypeView::User(UserMsgView::Normal { msg: text }) => text.room_id
                    == s.room.id,
                _ => false,
            }
        },
        _ => false,
    }
}

/// The time at which `e` arrived, where `e` is an arrival.
pub open spec fn arrival_time(e: Event) -> Timestamp {
    match e {
        Event::Frame { now, .. } => now,
        _ => Timestamp { secs: 0, nanos: 0 },
    }
}

/// The chat message that `e` brought, stamped with its time of arrival.
pub open spec fn chat_as_stored(e: Event) -> TextMessageView {
    match e {
        Event::Frame { msg, now, .. } => match msg.msg_type {
            MessageTypeView::User(UserMsgView::Normal { msg: text }) => TextMessage::spec_stamped(
                text,
                now,
            ),
            _ => arbitrary(),
        },
        _ => arbitrary(),
    }
}

/// The chat messages that `chats` brought, each stamped with its time of
/// arrival, in the order of arrival.
pub open spec fn chats_as_stored(chats: Seq<Event>) -> Seq<TextMessageView> {
    chats.map_values(|e: Event| chat_as_stored(e))
}

/// A run of chat messages from members changes nothing of the host, and
/// adds to the history of its room exactly those messages, each stamped with
/// its time of arrival, in the order of arrival.
pub proof fn lemma_chats_are_stored_in_order(w: World, chats: Seq<Event>)
    requires
        forall|i: int| 0 <= i < chats.len() ==> is_chat_from_member(w.server, #[trigger] chats[i]),
    ensures
        world_run(w, chats).server == w.server,
        world_run(w, chats).store == w.store + chats_as_stored(chats),
        find_messages(world_run(w, chats).store, w.server.room.id) == find_messages(
            w.store,
            w.server.room.id,
        ) + chats_as_stored(chats),
    decreases chats.len(),
{
    let id = w.server.room.id;
    let stamped = chats_as_stored(chats);
    if chats.len() == 0 {
        assert(w.store + stamped =~= w.store);
        assert(find_messages(w.store, id) + stamped =~= find_messages(w.store, id));
    } else {
        let before = chats.drop_last();
        let e = chats.last();
        assert forall|i: int| 0 <= i < before.len() implies is_chat_from_member(
            w.server,
            #[trigger] before[i],
        ) by {
            assert(before[i] == chats[i]);
        }
        lemma_chats_are_stored_in_order(w, before);
        let mid = world_run(w, before);
        assert(is_chat_from_member(w.server, chats[chats.len() - 1]));
        match e {
            Event::Frame { addr, msg, now } => {
                let m = chat_as_stored(e);
                let to = recipients(mid.server.peers, Some(addr));
                let frame = user_frame(UserMsgView::Normal { msg: m }, None);
                let acts = world_step(mid, e).1;
                assert(acts == seq![ActionView::Persist { msg: m }] + sends(to, frame));
                lemma_persisted_concat(seq![ActionView::Persist { msg: m }], sends(to, frame));
                lemma_sends_persist_nothing(to, frame);
                assert(seq![ActionView::Persist { msg: m }].drop_last() =~= Seq::<
                    ActionView,
                >::empty());
                assert(persisted(Seq::<ActionView>::empty()) =~= Seq::<TextMessageView>::empty());
                assert(seq![ActionView::Persist { msg: m }].last() == ActionView::Persist {
                    msg: m,
                });
                assert(persisted(seq![ActionView::Persist { msg: m }]) =~= seq![m]);
                assert(persisted(acts) =~= seq![m]);
                let earlier = chats_as_stored(before);
                assert(stamped =~= earlier.push(m));
                assert(world_run(w, chats).store =~= mid.store.push(m));
                assert(world_run(w, chats).store =~= w.store + stamped);
                mid.store.lemma_filter_push(m, in_room(id));
                assert(find_messages(world_run(w, chats).store, id) =~= find_messages(
                    w.store,
                    id,
                ) + stamped);
            },
            _ => {},
        }
    }
}

/// After any run of chat messages from members, a `SyncReq` from a member is
/// answered with the room's history as it stood before, followed by exactly
/// those messages in the order in which they arrived; and where the host's
/// clock never ran backwards while they arrived, their timestamps never
/// decrease.
pub proof fn lemma_sync_returns_chats_in_order(
    w: World,
    chats: Seq<Event>,
    requester: PeerAddr,
    user: UserView,
    passwd: Option<Seq<char>>,
    now: Timestamp,
)
    requires
        forall|i: int| 0 <= i < chats.len() ==> is_chat_from_member(w.server, #[trigger] chats[i]),
        forall|i: int, j: int|
            0 <= i <= j < chats.len() ==> arrival_time(#[trigger] chats[i]).le(
                arrival_time(#[trigger] chats[j]),
            ),
        reg_has(w.server.peers, requester),
        credential_ok(w.server.room, user_frame(UserMsgView::SyncReq { user }, passwd)),
    ensures
        world_step(
            world_run(w, chats),
            Event::Frame {
                addr: requester,
                msg: user_frame(UserMsgView::SyncReq { user }, passwd),
                now,
            },
        ).1 == seq![
            ActionView::Send {
                to: requester,
                msg: server_frame(
                    ServerMsgView::Sync {
                        user_addr: requester,
                        room_id: w.server.room.id,
                        messages: find_messages(w.store, w.server.room.id) + chats_as_stored(chats),
                        users: reg_users_except(w.server.peers, requester),
                    },
                ),
            },
        ],
        forall|i: int, j: int|
            0 <= i <= j < chats.len() ==> {
                &&& (#[trigger] chats_as_stored(chats)[i]).timestamp
                    is Some
                &&& (#[trigger] chats_as_stored(chats)[j]).timestamp
                    is Some
                &&& chats_as_stored(chats)[i].timestamp.unwrap().le(
                    chats_as_stored(chats)[j].timestamp.unwrap(),
                )
            },
{
    lemma_chats_are_stored_in_order(w, chats);
    let stamped = chats_as_stored(chats);
    assert forall|i: int, j: int| 0 <= i <= j < chats.len() implies {
        &&& (#[trigger] stamped[i]).timestamp is Some
        &&& (#[trigger] stamped[j]).timestamp is Some
        &&& stamped[i].timestamp.unwrap().le(stamped[j].timestamp.unwrap())
    } by {
        assert(is_chat_from_member(w.server, chats[i]));
        assert(is_chat_from_member(w.server, chats[j]));
        assert(arrival_time(chats[i]).le(arrival_time(chats[j])));
    }
}

/// Shutting down twice is shutting down once: the second time nothing is
/// done and nothing changes.
pub proof fn lemma_stop_is_idempotent(s: ServerView)
    ensures
        spec_stop(spec_stop(s).0) == (spec_stop(s).0, Seq::<ActionView>::empty()),
{
}

/// A shutdown tells every peer before it closes any connection: with `n`
/// peers registered, the first `n` actions deliver `ServerShutdown` to them
/// in order, the next is the grace period, and the last `n` close them in
/// the same order.
pub proof fn lemma_shutdown_tells_before_closing(s: ServerView, k: int)
    requires
        !s.stopped,
        0 <= k < s.peers.len(),
    ensures
        spec_stop(s).1.len() == 2 * s.peers.len() + 1,
        spec_stop(s).1[k] == (ActionView::Send {
            to: s.peers[k].addr,
            msg: server_frame(ServerMsgView::ServerShutdown),
        }),
        spec_stop(s).1[s.peers.len() as int] == (ActionView::Wait {
            millis: SHUTDOWN_GRACE_MILLIS,
        }),
        spec_stop(s).1[s.peers.len() + 1 + k] == (ActionView::Close { addr: s.peers[k].addr }),
{
    lemma_recipients_all(s.peers);
}

/// A chat message is never sent back to the peer it came from.
pub proof fn lemma_chat_is_not_echoed(
    s: ServerView,
    addr: PeerAddr,
    text: TextMessageView,
    passwd: Option<Seq<char>>,
    now: Timestamp,
    history: Seq<TextMessageView>,
    k: int,
)
    requires
        0 <= k < spec_handle_message(
            s,
            addr,
            user_frame(UserMsgView::Normal { msg: text }, passwd),
            now,
            history,
        ).1.len(),
        credential_ok(s.room, user_frame(UserMsgView::Normal { msg: text }, passwd)),
    ensures
        spec_handle_message(
            s,
            addr,
            user_frame(UserMsgView::Normal { msg: text }, passwd),
            now,
            history,
        ).1[k] matches ActionView::Send { to, .. } ==> to != addr,
{
    if reg_has(s.peers, addr) && k > 0 {
        let to = recipients(s.peers, Some(addr));
        assert(to.contains(to[k - 1]));
        super::registry::lemma_recipients(s.peers, Some(addr), to[k - 1]);
    }
}

/// A request that is declined for its credential is answered to its sender
/// and has no other effect: nothing is stored, nobody else hears of it, no
/// connection is closed, and every peer stands where it stood.
pub proof fn lemma_declined_request_changes_nothing(
    s: ServerView,
    addr: PeerAddr,
    msg: MessageView,
    now: Timestamp,
    history: Seq<TextMessageView>,
)
    requires
        reg_has(s.peers, addr),
        !credential_ok(s.room, msg),
    ensures
        spec_handle_message(s, addr, msg, now, history) == (
            s,
            seq![ActionView::Send { to: addr, msg: server_frame(ServerMsgView::AuthFailure) }],
        ),
        persisted(spec_handle_message(s, addr, msg, now, history).1) == Seq::<
            TextMessageView,
        >::empty(),
        forall|a: PeerAddr|
            peer_state(spec_handle_message(s, addr, msg, now, history).0, a) == peer_state(s, a),
{
    let acts = spec_handle_message(s, addr, msg, now, history).1;
    assert(acts.drop_last() =~= Seq::<ActionView>::empty());
    assert(persisted(acts.drop_last()) =~= Seq::<TextMessageView>::empty());
}

/// Whatever is stored carries the host's own timestamp: a message goes to the
/// store only when a frame brought it, stamped with the time at which that
/// frame arrived.
pub proof fn lemma_stored_is_stamped_by_host(w: World, e: Event, k: int)
    requires
        0 <= k < world_step(w, e).1.len(),
        world_step(w, e).1[k] is Persist,
    ensures
        e is Frame,
        world_step(w, e).1[k] == (ActionView::Persist { msg: chat_as_stored(e) }),
        chat_as_stored(e).timestamp == Some(arrival_time(e)),
{
}

/// A `SyncReq` is answered with every peer that has joined but the one that
/// asks: each of them is listed, under the address of its own connection.
pub proof fn lemma_sync_lists_every_joined_peer(
    s: ServerView,
    requester: PeerAddr,
    user: UserView,
    passwd: Option<Seq<char>>,
    now: Timestamp,
    history: Seq<TextMessageView>,
    other: PeerAddr,
)
    requires
        server_wf(s),
        reg_has(s.peers, requester),
        credential_ok(s.room, user_frame(UserMsgView::SyncReq { user }, passwd)),
        reg_joined(s.peers, other),
        other != requester,
    ensures
        spec_handle_message(
            s,
            requester,
            user_frame(UserMsgView::SyncReq { user }, passwd),
            now,
            history,
        ).1 == seq![
            ActionView::Send {
                to: requester,
                msg: server_frame(
                    ServerMsgView::Sync {
                        user_addr: requester,
                        room_id: s.room.id,
                        messages: history,
                        users: reg_users_except(s.peers, requester),
                    },
                ),
            },
        ],
        exists|k: int|
            0 <= k < reg_users_except(s.peers, requester).len() && (#[trigger] reg_users_except(
                s.peers,
                requester,
            )[k]).addr == Some(other),
{
    lemma_users_except_has_all(s.peers, requester, other);
}

/// When the owner bans a connected peer, that peer is told of it: among the
/// actions is the delivery of the `BanConfirm` to the banned address itself.
pub proof fn lemma_banned_peer_is_told(s: ServerView, target: PeerAddr)
    requires
        reg_has(s.peers, target),
    ensures
        exists|k: int|
            0 <= k < spec_ban(s, target).1.len() && #[trigger] spec_ban(s, target).1[k] == (
            ActionView::Send {
                to: target,
                msg: server_frame(ServerMsgView::BanConfirm { addr: target }),
            }),
{
    lemma_recipients_all(s.peers);
    let i = choose|i: int| 0 <= i < s.peers.len() && (#[trigger] s.peers[i]).addr == target;
    let told = sends(
        recipients(s.peers, None),
        server_frame(ServerMsgView::BanConfirm { addr: target }),
    );
    assert(told[i] == (ActionView::Send {
        to: target,
        msg: server_frame(ServerMsgView::BanConfirm { addr: target }),
    }));
    assert(spec_ban(s, target).1[i] == told[i]);
}

} // verus!
