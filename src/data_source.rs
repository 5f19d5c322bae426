use vstd::prelude::*;
use std::rc::Rc;
use uapi::OwnedFd;
use crate::client::{is_server_id, Client, ClientError};
use crate::wire::{
    arg_kinds, lemma_message_round_trip, spec_frame, spec_parse_args,
    arg_fits, arg_views, args_bytes, args_fds, format_message, message_bytes, share_fd, Arg,
    ArgValue, FrameError, MsgFormatter, spec_parse_empty_payload, spec_parse_str_payload, spec_parse_uint_payload, MsgParser,
    MsgParserError,
};
use crate::actions::{
    is_single_action, lemma_select_action_single, select_action, spec_select_action,
    valid_mask, DND_ALL, DND_NONE,
};

verus! {

/// Opcode of the `offer` request.
pub const OFFER: u32 = 0;

/// Opcode of the `destroy` request.
pub const DESTROY: u32 = 1;

/// Opcode of the `set_actions` request.
pub const SET_ACTIONS: u32 = 2;

/// Protocol error code: the action mask is invalid.
pub const INVALID_ACTION_MASK: u32 = 0;

/// Protocol error code: the source was used for another purpose before.
pub const INVALID_SOURCE: u32 = 1;

/// The receiver accepted a MIME type.
pub const OFFER_STATE_ACCEPTED: u32 = 1;

/// The drop has been performed.
pub const OFFER_STATE_DROPPED: u32 = 2;

/// The negotiation record of one selection or drag-and-drop session.
#[derive(Clone, Copy, Debug, PartialEq, Eq, Structural)]
pub struct SharedState {
    /// `OFFER_STATE_ACCEPTED` and `OFFER_STATE_DROPPED` flags.
    pub state: u32,
    /// The actions the receiver accepts.
    pub receiver_actions: u32,
    /// The action the receiver prefers.
    pub receiver_preferred_action: u32,
    /// The action the server selected.
    pub selected_action: u32,
}

impl SharedState {
    /// The record of a fresh session.
    pub open spec fn spec_new() -> SharedState {
        SharedState { state: 0, receiver_actions: 0, receiver_preferred_action: 0, selected_action: 0 }
    }

    /// A fresh session record.
    pub fn new() -> (r: SharedState)
        ensures
            r == SharedState::spec_new(),
    {
        SharedState { state: 0, receiver_actions: 0, receiver_preferred_action: 0, selected_action: 0 }
    }

    /// The receiver accepted a MIME type.
    pub open spec fn accepted(&self) -> bool {
        self.state & OFFER_STATE_ACCEPTED != 0
    }

    /// The drop has been performed.
    pub open spec fn dropped(&self) -> bool {
        self.state & OFFER_STATE_DROPPED != 0
    }
}

/// An event the server sends to the owner of a data source.
#[derive(Debug)]
pub enum SourceEvent {
    /// The receiver accepted this MIME type, or none.
    Target(Option<String>),
    /// Write the data in this MIME type to this file descriptor.
    Send(String, Rc<OwnedFd>),
    /// The source is no longer used.
    Cancelled,
    /// The user dropped the data on the receiver.
    DndDropPerformed,
    /// The receiver finished with the data.
    DndFinished,
    /// The selected action changed.
    Action(u32),
}

/// An event the server sends to the receiver of a data offer.
#[derive(Debug)]
pub enum OfferEvent {
    /// The source offers this MIME type.
    Offer(String),
    /// The source offers these actions.
    SourceActions(u32),
    /// The selected action changed.
    Action(u32),
    /// The source is gone; the offer is destroyed next.
    Cancelled,
}

/// The handle a receiver holds on a data source, with the events sent to it.
pub struct WlDataOffer {
    pub id: u32,
    pub client: u64,
    pub events: Vec<OfferEvent>,
}

impl WlDataOffer {
    /// Destroys the offer at its receiver: removes it from `receiver`'s
    /// objects, where `receiver` is the client the offer was made for.
    pub fn destroy_at(&self, receiver: &mut Client) -> (r: Result<(), ClientError>)
        requires
            old(receiver).wf(),
        ensures
            final(receiver).wf(),
            r is Ok <==> old(receiver).id == self.client && old(receiver).object_set().contains(
                self.id,
            ),
            r is Err ==> r == Err::<(), ClientError>(ClientError::UnknownId(self.id))
                && final(receiver).objects@ == old(receiver).objects@,
            old(receiver).id == self.client ==> final(receiver).object_set() == old(
                receiver,
            ).object_set().remove(self.id),
            final(receiver).id == old(receiver).id,
            final(receiver).next_server_id == old(receiver).next_server_id,
            final(receiver).server_ids == old(receiver).server_ids,
    {
        if receiver.id != self.client {
            return Err(ClientError::UnknownId(self.id));
        }
        receiver.remove_obj(self.id)
    }
}

/// What a data source has been used for.
#[derive(Clone, Copy, Debug, PartialEq, Eq, Structural)]
pub enum SourceRole {
    Unused,
    Selection,
    DragAndDrop,
}

/// The state of a data source.
pub struct SourceData {
    /// The owning client.
    pub client: u64,
    /// The offered MIME types, in the order offered, without duplicates.
    pub mime_types: Vec<String>,
    /// The drag-and-drop actions, once set.
    pub actions: Option<u32>,
    /// The current session.
    pub shared: SharedState,
    /// The live offers.
    pub offers: Vec<WlDataOffer>,
    /// Offers that were cancelled and wait to be destroyed at their
    /// receivers, oldest first.
    pub cancelled: Vec<WlDataOffer>,
    /// What the source has been used for.
    pub role: SourceRole,
}

/// A data source: the provider of a selection or of a drag-and-drop
/// payload, with the events sent to its owner.
pub struct WlDataSource {
    pub id: u32,
    pub data: SourceData,
    pub events: Vec<SourceEvent>,
}

/// The last action sent in `events`, or none.
pub open spec fn last_offer_action(events: Seq<OfferEvent>) -> u32
    decreases events.len(),
{
    if events.len() == 0 {
        DND_NONE
    } else {
        match events.last() {
            OfferEvent::Action(a) => a,
            _ => last_offer_action(events.drop_last()),
        }
    }
}

/// The last action sent in `events`, or none.
pub open spec fn last_source_action(events: Seq<SourceEvent>) -> u32
    decreases events.len(),
{
    if events.len() == 0 {
        DND_NONE
    } else {
        match events.last() {
            SourceEvent::Action(a) => a,
            _ => last_source_action(events.drop_last()),
        }
    }
}

proof fn lemma_offer_push(events: Seq<OfferEvent>, e: OfferEvent)
    ensures
        last_offer_action(events.push(e)) == match e {
            OfferEvent::Action(a) => a,
            _ => last_offer_action(events),
        },
{
    assert(events.push(e).drop_last() =~= events);
}

proof fn lemma_source_push(events: Seq<SourceEvent>, e: SourceEvent)
    ensures
        last_source_action(events.push(e)) == match e {
            SourceEvent::Action(a) => a,
            _ => last_source_action(events),
        },
{
    assert(events.push(e).drop_last() =~= events);
}

/// `events` are what a new offer receives before the receiver is entered:
/// each MIME type in order, the source's actions where set, and the
/// selected action where one is selected.
pub open spec fn offer_prelude(
    events: Seq<OfferEvent>,
    mimes: Seq<Seq<char>>,
    actions: Option<u32>,
    selected: u32,
) -> bool {
    let n = mimes.len() as int;
    let k = n + if actions is Some {
        1int
    } else {
        0int
    };
    &&& events.len() == k + if selected != DND_NONE {
        1int
    } else {
        0int
    }
    &&& forall|i: int| 0 <= i < n ==> (#[trigger] events[i]) is Offer && events[i]->Offer_0@ == mimes[i]
    &&& actions is Some ==> events[n] == OfferEvent::SourceActions(actions->Some_0)
    &&& selected != DND_NONE ==> events[k] == OfferEvent::Action(selected)
}

/// Once the drop has been performed, the pointer leaving sends the owner
/// nothing and cancels no offer: the source stays as the drop left it.
pub proof fn lemma_no_cancel_after_drop(s0: WlDataSource, s1: WlDataSource, s2: WlDataSource)
    requires
        WlDataSource::drop_performed(s0, s1),
        WlDataSource::leave_handled(s1, s2),
    ensures
        s2 == s1,
        s2.events@ == s0.events@.push(SourceEvent::DndDropPerformed),
        s2.data.offers == s0.data.offers,
{
    let st = s0.data.shared.state;
    assert((st | 2u32) & 2u32 != 0) by (bit_vector);
    assert(s1.dropped());
}

proof fn lemma_no_action(events: Seq<OfferEvent>)
    requires
        forall|i: int| 0 <= i < events.len() ==> !((#[trigger] events[i]) is Action),
    ensures
        last_offer_action(events) == DND_NONE,
    decreases events.len(),
{
    if events.len() > 0 {
        assert(!(events[events.len() - 1] is Action));
        lemma_no_action(events.drop_last());
    }
}

/// `new` holds the offers of `old`, each with `e` appended to its events.
pub open spec fn offers_pushed(old: Seq<WlDataOffer>, new: Seq<WlDataOffer>, e: OfferEvent) -> bool {
    &&& new.len() == old.len()
    &&& forall|i: int|
        0 <= i < old.len() ==> (#[trigger] new[i]).id == old[i].id && new[i].client == old[i].client
            && new[i].events@ == old[i].events@.push(e)
}

/// `new` has no live offer; each live offer of `old`, in order and with
/// `Cancelled` appended to its events, follows the offers `old` had
/// cancelled before.
pub open spec fn offers_cancelled(old: SourceData, new: SourceData) -> bool {
    let n = old.cancelled@.len() as int;
    &&& new.offers@.len() == 0
    &&& new.cancelled@.len() == n + old.offers@.len()
    &&& new.cancelled@.subrange(0, n) == old.cancelled@
    &&& forall|i: int|
        #![trigger old.offers@[i]]
        0 <= i < old.offers@.len() ==> new.cancelled@[n + i].id == old.offers@[i].id
            && new.cancelled@[n + i].client == old.offers@[i].client
            && new.cancelled@[n + i].events@ == old.offers@[i].events@.push(OfferEvent::Cancelled)
}

/// The opcode and the arguments of the message that carries `e`.
pub open spec fn source_event_message(e: SourceEvent) -> (u32, Seq<ArgValue>) {
    match e {
        SourceEvent::Target(m) => (
            0,
            seq![
                ArgValue::OptStr(
                    match m {
                        Some(m) => Some(m@),
                        None => None,
                    },
                ),
            ],
        ),
        SourceEvent::Send(m, fd) => (1, seq![ArgValue::Str(m@), ArgValue::Fd(fd)]),
        SourceEvent::Cancelled => (2, Seq::empty()),
        SourceEvent::DndDropPerformed => (3, Seq::empty()),
        SourceEvent::DndFinished => (4, Seq::empty()),
        SourceEvent::Action(a) => (5, seq![ArgValue::Uint(a)]),
    }
}

/// An event written as a message by `format_event` frames back as the
/// source's id, the event's opcode and the message's size, and its
/// arguments, file descriptors included, read back as the event's own.
pub proof fn lemma_source_event_round_trip(
    id: u32,
    e: SourceEvent,
    rest: Seq<u8>,
    fd_rest: Seq<Rc<OwnedFd>>,
)
    requires
        forall|i: int|
            0 <= i < source_event_message(e).1.len() ==> arg_fits(
                #[trigger] source_event_message(e).1[i],
            ),
        8 + args_bytes(source_event_message(e).1).len() <= 0xffff,
    ensures
        ({
            let (opcode, args) = source_event_message(e);
            let msg = message_bytes(id, opcode, args);
            &&& spec_frame(msg + rest) == Ok::<(u32, u32, int), FrameError>(
                (id, opcode, msg.len() as int),
            )
            &&& spec_parse_args(arg_kinds(args), msg, 8, args_fds(args) + fd_rest, 0) == Ok::<
                (Seq<ArgValue>, int, int),
                MsgParserError,
            >((args, msg.len() as int, args_fds(args).len() as int))
        }),
{
    let (opcode, args) = source_event_message(e);
    lemma_message_round_trip(id, opcode, args, rest, fd_rest);
}

/// `0`, or exactly one action.
pub open spec fn none_or_single(action: u32) -> bool {
    action == DND_NONE || is_single_action(action)
}

impl WlDataSource {
    /// The offered MIME types as character sequences.
    pub open spec fn mime_view(&self) -> Seq<Seq<char>> {
        self.data.mime_types@.map_values(|m: String| m@)
    }

    /// MIME types are unique; every action mask is valid; the preferred and
    /// the selected actions are each none or a single action.
    pub open spec fn wf(&self) -> bool {
        &&& self.mime_view().no_duplicates()
        &&& match self.data.actions {
            Some(a) => valid_mask(a),
            None => true,
        }
        &&& valid_mask(self.data.shared.receiver_actions)
        &&& none_or_single(self.data.shared.receiver_preferred_action)
        &&& none_or_single(self.data.shared.selected_action)
    }

    /// Every live offer, and the source itself, last saw the selected action.
    pub open spec fn in_parity(&self) -> bool {
        &&& last_source_action(self.events@) == self.data.shared.selected_action
        &&& forall|i: int|
            0 <= i < self.data.offers@.len() ==> last_offer_action(
                (#[trigger] self.data.offers@[i]).events@,
            ) == self.data.shared.selected_action
    }

    /// The drop has been performed in the current session.
    pub open spec fn dropped(&self) -> bool {
        self.data.shared.dropped()
    }

    /// `new` is `old` with `e` sent to the owner.
    pub open spec fn sent(old: WlDataSource, new: WlDataSource, e: SourceEvent) -> bool {
        &&& new.id == old.id
        &&& new.data == old.data
        &&& new.events@ == old.events@.push(e)
    }

    /// `new` is `old` with the selected action recomputed from the source's
    /// and the receiver's actions and, where it changed, sent to every offer
    /// and to the owner.
    pub open spec fn selection_updated(old: WlDataSource, new: WlDataSource) -> bool {
        match old.data.actions {
            None => new == old,
            Some(a) => {
                let sel = spec_select_action(
                    a,
                    old.data.shared.receiver_actions,
                    old.data.shared.receiver_preferred_action,
                );
                if sel == old.data.shared.selected_action {
                    new == old
                } else {
                    &&& new.id == old.id
                    &&& new.data.client == old.data.client
                    &&& new.data.mime_types == old.data.mime_types
                    &&& new.data.actions == old.data.actions
                    &&& new.data.role == old.data.role
                    &&& new.data.cancelled == old.data.cancelled
                    &&& new.data.shared == (SharedState { selected_action: sel, ..old.data.shared })
                    &&& offers_pushed(old.data.offers@, new.data.offers@, OfferEvent::Action(sel))
                    &&& new.events@ == old.events@.push(SourceEvent::Action(sel))
                }
            },
        }
    }

    /// `new` is `old` after the pointer left: the session is reset, the
    /// owner is told that no MIME type and no action are selected, and every
    /// offer is gone.
    pub open spec fn left(old: WlDataSource, new: WlDataSource) -> bool {
        &&& new.id == old.id
        &&& new.data.client == old.data.client
        &&& new.data.mime_types == old.data.mime_types
        &&& new.data.actions == old.data.actions
        &&& new.data.role == old.data.role
        &&& new.data.shared == SharedState::spec_new()
        &&& offers_cancelled(old.data, new.data)
        &&& new.events@ == old.events@.push(SourceEvent::Target(None)).push(
            SourceEvent::Action(DND_NONE),
        )
    }

    /// `new` is `old` with the MIME type `m` added at the end and offered to
    /// every live offer, unless `old` offers it already.
    pub open spec fn mime_added(old: WlDataSource, new: WlDataSource, m: Seq<char>) -> bool {
        if old.mime_view().contains(m) {
            new == old
        } else {
            &&& new.id == old.id
            &&& new.events == old.events
            &&& new.data.client == old.data.client
            &&& new.data.actions == old.data.actions
            &&& new.data.role == old.data.role
            &&& new.data.shared == old.data.shared
            &&& new.data.cancelled == old.data.cancelled
            &&& new.mime_view() == old.mime_view().push(m)
            &&& new.data.offers@.len() == old.data.offers@.len()
            &&& forall|i: int|
                0 <= i < old.data.offers@.len() ==> {
                    let o = #[trigger] new.data.offers@[i];
                    &&& o.id == old.data.offers@[i].id
                    &&& o.client == old.data.offers@[i].client
                    &&& o.events@.drop_last() == old.data.offers@[i].events@
                    &&& o.events@.len() == old.data.offers@[i].events@.len() + 1
                    &&& o.events@.last() is Offer
                    &&& o.events@.last()->Offer_0@ == m
                }
        }
    }

    /// `new` is `old` with every live offer cancelled.
    pub open spec fn all_offers_cancelled(old: WlDataSource, new: WlDataSource) -> bool {
        &&& new.id == old.id
        &&& new.events == old.events
        &&& new.data.client == old.data.client
        &&& new.data.mime_types == old.data.mime_types
        &&& new.data.actions == old.data.actions
        &&& new.data.role == old.data.role
        &&& new.data.shared == old.data.shared
        &&& offers_cancelled(old.data, new.data)
    }

    /// `s` with the receiver's actions replaced.
    pub open spec fn with_receiver(s: WlDataSource, actions: u32, preferred: u32) -> WlDataSource {
        WlDataSource {
            data: SourceData {
                shared: SharedState {
                    receiver_actions: actions,
                    receiver_preferred_action: preferred,
                    ..s.data.shared
                },
                ..s.data
            },
            ..s
        }
    }

    /// `s` with the session flags replaced.
    pub open spec fn with_state(s: WlDataSource, state: u32) -> WlDataSource {
        WlDataSource {
            data: SourceData { shared: SharedState { state, ..s.data.shared }, ..s.data },
            ..s
        }
    }

    /// `new` is `old` after the drop: the owner is told and the session is
    /// marked dropped.
    pub open spec fn drop_performed(old: WlDataSource, new: WlDataSource) -> bool {
        &&& new.id == old.id
        &&& new.data == WlDataSource::with_state(old, old.data.shared.state | OFFER_STATE_DROPPED).data
        &&& new.events@ == old.events@.push(SourceEvent::DndDropPerformed)
    }

    /// `new` is `old` after the pointer left: unchanged once the drop has
    /// been performed, otherwise as `left` says.
    pub open spec fn leave_handled(old: WlDataSource, new: WlDataSource) -> bool {
        if old.dropped() {
            new == old
        } else {
            WlDataSource::left(old, new)
        }
    }

    /// A source of `client` at `id`, with nothing offered yet.
    pub fn new(id: u32, client: u64) -> (r: WlDataSource)
        ensures
            r.wf(),
            r.in_parity(),
            r.id == id,
            r.data.client == client,
            r.data.mime_types@.len() == 0,
            r.data.actions is None,
            r.data.shared == SharedState::spec_new(),
            r.data.offers@.len() == 0,
            r.data.cancelled@.len() == 0,
            r.data.role == SourceRole::Unused,
            r.events@.len() == 0,
    {
        let r = WlDataSource {
            id,
            data: SourceData {
                client,
                mime_types: Vec::new(),
                actions: None,
                shared: SharedState::new(),
                offers: Vec::new(),
                cancelled: Vec::new(),
                role: SourceRole::Unused,
            },
            events: Vec::new(),
        };
        assert(r.mime_view() =~= Seq::empty());
        assert(0u32 & 7u32 == 0 && 0u32 & !7u32 == 0) by (bit_vector);
        r
    }

    /// Ends the session when the pointer leaves the receiver, unless the
    /// drop has already been performed.
    pub fn on_leave(&mut self)
        requires
            old(self).wf(),
        ensures
            final(self).wf(),
            WlDataSource::leave_handled(*old(self), *final(self)),
            final(self).dropped() == old(self).dropped(),
            old(self).in_parity() ==> final(self).in_parity(),
            !old(self).dropped() ==> final(self).in_parity(),
    {
        if self.data.shared.state & OFFER_STATE_DROPPED != 0 {
            return;
        }
        self.data.shared = SharedState::new();
        self.send_target(None);
        self.send_action(DND_NONE);
        self.cancel_offers();
        proof {
            lemma_source_push(old(self).events@, SourceEvent::Target(None));
            lemma_source_push(
                old(self).events@.push(SourceEvent::Target(None)),
                SourceEvent::Action(DND_NONE),
            );
            assert(0u32 & 7u32 == 0 && 0u32 & !7u32 == 0 && 0u32 & 2u32 == 0) by (bit_vector);
        }
    }

    /// Recomputes the selected action and, where it changed, sends it to
    /// every offer and to the owner. Does nothing while the source has no
    /// actions.
    pub fn update_selected_action(&mut self)
        requires
            old(self).wf(),
        ensures
            final(self).wf(),
            WlDataSource::selection_updated(*old(self), *final(self)),
            final(self).data.shared.state == old(self).data.shared.state,
            old(self).in_parity() ==> final(self).in_parity(),
    {
        let server_actions = match self.data.actions {
            Some(n) => n,
            None => return,
        };
        let shared = self.data.shared;
        let action = select_action(
            server_actions,
            shared.receiver_actions,
            shared.receiver_preferred_action,
        );
        proof {
            lemma_select_action_single(
                server_actions,
                shared.receiver_actions,
                shared.receiver_preferred_action,
            );
        }
        if shared.selected_action == action {
            return;
        }
        self.data.shared.selected_action = action;
        let mut i: usize = 0;
        while i < self.data.offers.len()
            invariant
                self.id == old(self).id,
                self.events == old(self).events,
                self.data.client == old(self).data.client,
                self.data.mime_types == old(self).data.mime_types,
                self.data.actions == old(self).data.actions,
                self.data.role == old(self).data.role,
                self.data.cancelled == old(self).data.cancelled,
                self.data.shared == (SharedState { selected_action: action, ..old(self).data.shared }),
                self.data.offers@.len() == old(self).data.offers@.len(),
                i <= self.data.offers@.len(),
                forall|j: int|
                    0 <= j < i ==> (#[trigger] self.data.offers@[j]).id == old(self).data.offers@[j].id
                        && self.data.offers@[j].client == old(self).data.offers@[j].client
                        && self.data.offers@[j].events@ == old(self).data.offers@[j].events@.push(
                        OfferEvent::Action(action),
                    ),
                forall|j: int| i <= j < self.data.offers@.len() ==> #[trigger] self.data.offers@[j]
                    == old(self).data.offers@[j],
            decreases self.data.offers@.len() - i,
        {
            self.data.offers[i].events.push(OfferEvent::Action(action));
            i = i + 1;
        }
        self.send_action(action);
        proof {
            lemma_source_push(old(self).events@, SourceEvent::Action(action));
            assert forall|j: int| 0 <= j < self.data.offers@.len() implies last_offer_action(
                (#[trigger] self.data.offers@[j]).events@,
            ) == action by {
                lemma_offer_push(old(self).data.offers@[j].events@, OfferEvent::Action(action));
            }
        }
    }

    /// Calls `f` on every live offer, in order.
    pub fn for_each_data_offer<C: Fn(&WlDataOffer)>(&self, f: C)
        requires
            forall|o: &WlDataOffer| f.requires((o,)),
        ensures
            forall|i: int|
                0 <= i < self.data.offers@.len() ==> f.ensures((&self.data.offers@[i],), ()),
    {
        let mut i: usize = 0;
        while i < self.data.offers.len()
            invariant
                i <= self.data.offers@.len(),
                forall|o: &WlDataOffer| f.requires((o,)),
                forall|k: int| 0 <= k < i ==> f.ensures((&self.data.offers@[k],), ()),
            decreases self.data.offers@.len() - i,
        {
            f(&self.data.offers[i]);
            i = i + 1;
        }
    }

    /// Whether releasing the pointer now drops the data: an action is
    /// selected and the receiver accepted a MIME type.
    pub fn can_drop(&self) -> (r: bool)
        ensures
            r == (self.data.shared.selected_action != DND_NONE && self.data.shared.accepted()),
    {
        self.data.shared.selected_action != DND_NONE && self.data.shared.state
            & OFFER_STATE_ACCEPTED != 0
    }

    /// Performs the drop: tells the owner and marks the session dropped.
    pub fn on_drop(&mut self)
        requires
            old(self).wf(),
        ensures
            final(self).wf(),
            final(self).dropped(),
            WlDataSource::drop_performed(*old(self), *final(self)),
            old(self).in_parity() ==> final(self).in_parity(),
    {
        self.send_dnd_drop_performed();
        self.data.shared.state = self.data.shared.state | OFFER_STATE_DROPPED;
        proof {
            lemma_source_push(old(self).events@, SourceEvent::DndDropPerformed);
            let s = old(self).data.shared.state;
            assert((s | 2u32) & 2u32 != 0) by (bit_vector);
        }
    }

    /// Whether the source offers `mime_type`.
    pub fn has_mime_type(&self, mime_type: &String) -> (r: bool)
        ensures
            r == self.mime_view().contains(mime_type@),
    {
        let mut k: usize = 0;
        while k < self.data.mime_types.len()
            invariant
                k <= self.mime_view().len(),
                forall|j: int| 0 <= j < k ==> self.mime_view()[j] != mime_type@,
            decreases self.data.mime_types@.len() - k,
        {
            if self.data.mime_types[k] == *mime_type {
                assert(self.mime_view()[k as int] == mime_type@);
                return true;
            }
            k = k + 1;
        }
        false
    }

    /// Adds a MIME type and offers it to every live offer, unless the
    /// source offers it already.
    pub fn add_mime_type(&mut self, mime_type: String)
        requires
            old(self).wf(),
        ensures
            final(self).wf(),
            WlDataSource::mime_added(*old(self), *final(self), mime_type@),
            old(self).in_parity() ==> final(self).in_parity(),
    {
        if self.has_mime_type(&mime_type) {
            return;
        }
        let mut i: usize = 0;
        while i < self.data.offers.len()
            invariant
                self.id == old(self).id,
                self.events == old(self).events,
                self.data == (SourceData { offers: self.data.offers, ..old(self).data }),
                self.data.offers@.len() == old(self).data.offers@.len(),
                i <= self.data.offers@.len(),
                forall|j: int|
                    0 <= j < i ==> {
                        let o = #[trigger] self.data.offers@[j];
                        &&& o.id == old(self).data.offers@[j].id
                        &&& o.client == old(self).data.offers@[j].client
                        &&& o.events@.drop_last() == old(self).data.offers@[j].events@
                        &&& o.events@.len() == old(self).data.offers@[j].events@.len() + 1
                        &&& o.events@.last() is Offer
                        &&& o.events@.last()->Offer_0@ == mime_type@
                    },
                forall|j: int| i <= j < self.data.offers@.len() ==> #[trigger] self.data.offers@[j]
                    == old(self).data.offers@[j],
            decreases self.data.offers@.len() - i,
        {
            let m = mime_type.clone();
            self.data.offers[i].events.push(OfferEvent::Offer(m));
            proof {
                let ev = self.data.offers@[i as int].events@;
                assert(ev.drop_last() =~= old(self).data.offers@[i as int].events@);
            }
            i = i + 1;
        }
        self.data.mime_types.push(mime_type);
        proof {
            assert(self.mime_view() =~= old(self).mime_view().push(mime_type@));
            assert forall|j: int| 0 <= j < self.data.offers@.len() implies last_offer_action(
                (#[trigger] self.data.offers@[j]).events@,
            ) == last_offer_action(old(self).data.offers@[j].events@) by {
                let ev = self.data.offers@[j].events@;
                assert(ev =~= ev.drop_last().push(ev.last()));
                lemma_offer_push(ev.drop_last(), ev.last());
            }
        }
    }

    /// Handles the `offer` request: reads a MIME type and adds it.
    pub fn offer(&mut self, parser: &mut MsgParser) -> (r: Result<(), OfferError>)
        requires
            old(self).wf(),
            old(parser).wf(),
        ensures
            final(self).wf(),
            final(parser).wf(),
            old(self).in_parity() ==> final(self).in_parity(),
            match spec_parse_str_payload(old(parser).buf@, old(parser).pos as int) {
                Ok(m) => r is Ok && WlDataSource::mime_added(*old(self), *final(self), m),
                Err(e) => r == Err::<(), OfferError>(OfferError::ParseFailed(e)) && *final(self)
                    == *old(self),
            },
    {
        let mime_type = match parser.str() {
            Ok(m) => m,
            Err(e) => return Err(OfferError::ParseFailed(e)),
        };
        if let Err(e) = parser.eof() {
            return Err(OfferError::ParseFailed(e));
        }
        self.add_mime_type(mime_type);
        Ok(())
    }

    /// Handles the `set_actions` request: sets the drag-and-drop actions,
    /// once, to a mask of known actions.
    pub fn set_actions(&mut self, parser: &mut MsgParser) -> (r: Result<(), SetActionsError>)
        requires
            old(self).wf(),
            old(parser).wf(),
        ensures
            final(self).wf(),
            final(parser).wf(),
            old(self).in_parity() ==> final(self).in_parity(),
            match spec_parse_uint_payload(old(parser).buf@, old(parser).pos as int) {
                Ok(a) => if old(self).data.actions is Some {
                    r == Err::<(), SetActionsError>(SetActionsError::AlreadySet) && *final(self)
                        == *old(self)
                } else if !valid_mask(a) {
                    r == Err::<(), SetActionsError>(SetActionsError::InvalidActions) && *final(self)
                        == *old(self)
                } else {
                    r is Ok && *final(self) == (WlDataSource {
                        data: SourceData { actions: Some(a), ..old(self).data },
                        ..*old(self)
                    })
                },
                Err(e) => r == Err::<(), SetActionsError>(SetActionsError::ParseFailed(e))
                    && *final(self) == *old(self),
            },
    {
        let dnd_actions = match parser.uint() {
            Ok(a) => a,
            Err(e) => return Err(SetActionsError::ParseFailed(e)),
        };
        if let Err(e) = parser.eof() {
            return Err(SetActionsError::ParseFailed(e));
        }
        if self.data.actions.is_some() {
            return Err(SetActionsError::AlreadySet);
        }
        if dnd_actions & !DND_ALL != 0 {
            return Err(SetActionsError::InvalidActions);
        }
        self.data.actions = Some(dnd_actions);
        Ok(())
    }

    /// Severs the source from its offers.
    pub fn break_loops(&mut self)
        requires
            old(self).wf(),
        ensures
            final(self).wf(),
            old(self).in_parity() ==> final(self).in_parity(),
            WlDataSource::all_offers_cancelled(*old(self), *final(self)),
    {
        self.cancel_offers();
    }

    /// Cancels every live offer: each gets `Cancelled` and moves to the
    /// offers that wait to be destroyed at their receivers.
    pub fn cancel_offers(&mut self)
        ensures
            final(self).id == old(self).id,
            final(self).events == old(self).events,
            final(self).data == (SourceData {
                offers: final(self).data.offers,
                cancelled: final(self).data.cancelled,
                ..old(self).data
            }),
            offers_cancelled(old(self).data, final(self).data),
    {
        let mut offers: Vec<WlDataOffer> = Vec::new();
        std::mem::swap(&mut offers, &mut self.data.offers);
        let ghost taken = offers@;
        let _len: usize = offers.len();
        let ghost n = self.data.cancelled@.len() as int;
        let mut k: usize = 0;
        while offers.len() > 0
            invariant
                self.id == old(self).id,
                self.events == old(self).events,
                self.data == (SourceData {
                    offers: self.data.offers,
                    cancelled: self.data.cancelled,
                    ..old(self).data
                }),
                taken == old(self).data.offers@,
                taken.len() <= usize::MAX,
                n == old(self).data.cancelled@.len(),
                self.data.offers@.len() == 0,
                k <= taken.len(),
                offers@ == taken.subrange(k as int, taken.len() as int),
                self.data.cancelled@.len() == n + k,
                self.data.cancelled@.subrange(0, n) == old(self).data.cancelled@,
                forall|i: int|
                    #![trigger taken[i]]
                    0 <= i < k ==> self.data.cancelled@[n + i].id == taken[i].id
                        && self.data.cancelled@[n + i].client == taken[i].client
                        && self.data.cancelled@[n + i].events@ == taken[i].events@.push(
                        OfferEvent::Cancelled,
                    ),
            decreases offers@.len(),
        {
            assert(k < taken.len());
            let mut o = offers.remove(0);
            assert(o == taken[k as int]);
            o.events.push(OfferEvent::Cancelled);
            let ghost before = self.data.cancelled@;
            self.data.cancelled.push(o);
            proof {
                assert(self.data.cancelled@.subrange(0, n) =~= before.subrange(0, n));
                assert(offers@ =~= taken.subrange(k + 1, taken.len() as int));
                assert forall|i: int| #![trigger taken[i]] 0 <= i < k + 1 implies self.data.cancelled@[n + i].id
                    == taken[i].id && self.data.cancelled@[n + i].client == taken[i].client
                    && self.data.cancelled@[n + i].events@ == taken[i].events@.push(
                    OfferEvent::Cancelled,
                ) by {
                    if i < k {
                        assert(self.data.cancelled@[n + i] == before[n + i]);
                    }
                }
            }
            k = k + 1;
        }
    }

    /// Hands out the cancelled offers for destruction at their receivers.
    pub fn take_cancelled_offers(&mut self) -> (r: Vec<WlDataOffer>)
        ensures
            r@ == old(self).data.cancelled@,
            final(self).data.cancelled@.len() == 0,
            final(self).id == old(self).id,
            final(self).events == old(self).events,
            final(self).data == (SourceData { cancelled: final(self).data.cancelled, ..old(self).data }),
    {
        let mut r: Vec<WlDataOffer> = Vec::new();
        std::mem::swap(&mut r, &mut self.data.cancelled);
        r
    }

    /// Handles the `destroy` request: cancels every offer and removes the
    /// source from its client's objects.
    pub fn destroy(&mut self, client: &mut Client, parser: &mut MsgParser) -> (r: Result<
        (),
        DestroyError,
    >)
        requires
            old(self).wf(),
            old(client).wf(),
            old(parser).wf(),
        ensures
            final(self).wf(),
            final(client).wf(),
            final(parser).wf(),
            match spec_parse_empty_payload(old(parser).buf@, old(parser).pos as int) {
                Ok(_) => {
                    &&& WlDataSource::all_offers_cancelled(*old(self), *final(self))
                    &&& final(client).object_set() == old(client).object_set().remove(old(self).id)
                    &&& final(client).id == old(client).id
                    &&& final(client).server_ids == old(client).server_ids
                    &&& (r is Ok <==> old(client).object_set().contains(old(self).id))
                    &&& r is Err ==> r == Err::<(), DestroyError>(
                        DestroyError::ClientError(ClientError::UnknownId(old(self).id)),
                    )
                },
                Err(e) => r == Err::<(), DestroyError>(DestroyError::ParseFailed(e))
                    && *final(self) == *old(self) && *final(client) == *old(client),
            },
    {
        if let Err(e) = parser.eof() {
            return Err(DestroyError::ParseFailed(e));
        }
        self.break_loops();
        match client.remove_obj(self.id) {
            Ok(()) => Ok(()),
            Err(e) => Err(DestroyError::ClientError(e)),
        }
    }

    /// The number of requests of the interface.
    pub fn num_requests(&self) -> (r: u32)
        ensures
            r == SET_ACTIONS + 1,
    {
        SET_ACTIONS + 1
    }

    /// Dispatches a request by its opcode.
    pub fn handle_request(&mut self, client: &mut Client, opcode: u32, parser: &mut MsgParser) -> (r:
        Result<(), WlDataSourceError>)
        requires
            old(self).wf(),
            old(client).wf(),
            old(parser).wf(),
        ensures
            final(self).wf(),
            final(client).wf(),
            old(self).in_parity() ==> final(self).in_parity(),
            opcode != DESTROY ==> *final(client) == *old(client),
            opcode == OFFER ==> match spec_parse_str_payload(old(parser).buf@, old(parser).pos as int) {
                Ok(m) => r is Ok && WlDataSource::mime_added(*old(self), *final(self), m),
                Err(e) => r == Err::<(), WlDataSourceError>(
                    WlDataSourceError::OfferError(OfferError::ParseFailed(e)),
                ) && *final(self) == *old(self),
            },
            opcode == SET_ACTIONS ==> match spec_parse_uint_payload(old(parser).buf@, old(parser).pos as int) {
                Ok(a) => if old(self).data.actions is Some {
                    r == Err::<(), WlDataSourceError>(
                        WlDataSourceError::SetActionsError(SetActionsError::AlreadySet),
                    ) && *final(self) == *old(self)
                } else if !valid_mask(a) {
                    r == Err::<(), WlDataSourceError>(
                        WlDataSourceError::SetActionsError(SetActionsError::InvalidActions),
                    ) && *final(self) == *old(self)
                } else {
                    r is Ok && *final(self) == (WlDataSource {
                        data: SourceData { actions: Some(a), ..old(self).data },
                        ..*old(self)
                    })
                },
                Err(e) => r == Err::<(), WlDataSourceError>(
                    WlDataSourceError::SetActionsError(SetActionsError::ParseFailed(e)),
                ) && *final(self) == *old(self),
            },
            opcode == DESTROY ==> match spec_parse_empty_payload(old(parser).buf@, old(parser).pos as int) {
                Ok(_) => {
                    &&& WlDataSource::all_offers_cancelled(*old(self), *final(self))
                    &&& final(client).object_set() == old(client).object_set().remove(old(self).id)
                    &&& (r is Ok <==> old(client).object_set().contains(old(self).id))
                    &&& r is Err ==> r == Err::<(), WlDataSourceError>(
                        WlDataSourceError::DestroyError(
                            DestroyError::ClientError(ClientError::UnknownId(old(self).id)),
                        ),
                    )
                },
                Err(e) => r == Err::<(), WlDataSourceError>(
                    WlDataSourceError::DestroyError(DestroyError::ParseFailed(e)),
                ) && *final(self) == *old(self) && *final(client) == *old(client),
            },
            opcode > SET_ACTIONS ==> r == Err::<(), WlDataSourceError>(
                WlDataSourceError::UnknownRequest(opcode),
            ) && *final(self) == *old(self),
    {
        if opcode == OFFER {
            match self.offer(parser) {
                Ok(()) => Ok(()),
                Err(e) => Err(WlDataSourceError::OfferError(e)),
            }
        } else if opcode == DESTROY {
            match self.destroy(client, parser) {
                Ok(()) => Ok(()),
                Err(e) => Err(WlDataSourceError::DestroyError(e)),
            }
        } else if opcode == SET_ACTIONS {
            match self.set_actions(parser) {
                Ok(()) => Ok(()),
                Err(e) => Err(WlDataSourceError::SetActionsError(e)),
            }
        } else {
            Err(WlDataSourceError::UnknownRequest(opcode))
        }
    }

    /// Creates the offer `id` for the receiving `client` and sends it the
    /// MIME types, the source's actions and the selected action.
    pub fn create_offer(&mut self, id: u32, client: u64)
        requires
            old(self).wf(),
        ensures
            final(self).wf(),
            old(self).in_parity() ==> final(self).in_parity(),
            final(self).id == old(self).id,
            final(self).events == old(self).events,
            final(self).data == (SourceData { offers: final(self).data.offers, ..old(self).data }),
            final(self).data.offers@.len() == old(self).data.offers@.len() + 1,
            final(self).data.offers@.drop_last() == old(self).data.offers@,
            final(self).data.offers@.last().id == id,
            final(self).data.offers@.last().client == client,
            offer_prelude(
                final(self).data.offers@.last().events@,
                old(self).mime_view(),
                old(self).data.actions,
                old(self).data.shared.selected_action,
            ),
    {
        let mut events: Vec<OfferEvent> = Vec::new();
        let mut i: usize = 0;
        while i < self.data.mime_types.len()
            invariant
                *self == *old(self),
                i <= self.data.mime_types@.len(),
                events@.len() == i,
                forall|j: int|
                    0 <= j < i ==> (#[trigger] events@[j]) is Offer && events@[j]->Offer_0@
                        == self.mime_view()[j],
            decreases self.data.mime_types@.len() - i,
        {
            events.push(OfferEvent::Offer(self.data.mime_types[i].clone()));
            i = i + 1;
        }
        if let Some(a) = self.data.actions {
            events.push(OfferEvent::SourceActions(a));
        }
        let selected = self.data.shared.selected_action;
        if selected != DND_NONE {
            events.push(OfferEvent::Action(selected));
        }
        proof {
            if selected == DND_NONE {
                lemma_no_action(events@);
            }
        }
        self.data.offers.push(WlDataOffer { id, client, events });
        proof {
            assert(self.data.offers@.drop_last() =~= old(self).data.offers@);
        }
    }

    /// Creates an offer for `receiver` at the next id of its server range,
    /// as when the receiver gains focus, and returns that id.
    pub fn create_offer_for(&mut self, receiver: &mut Client) -> (r: Result<u32, ClientError>)
        requires
            old(self).wf(),
            old(receiver).wf(),
        ensures
            final(self).wf(),
            final(receiver).wf(),
            old(self).in_parity() ==> final(self).in_parity(),
            old(receiver).next_server_id > 0xffff_ffff ==> r == Err::<u32, ClientError>(
                ClientError::ServerIdsExhausted,
            ) && *final(self) == *old(self) && *final(receiver) == *old(receiver),
            r is Ok ==> {
                let id = r->Ok_0;
                &&& id == old(receiver).next_server_id
                &&& is_server_id(id)
                &&& forall|i: int|
                    0 <= i < old(receiver).server_ids@.len() ==> old(receiver).server_ids@[i] < id
                &&& final(receiver).server_ids@ == old(receiver).server_ids@.push(id)
                &&& final(receiver).object_set() == old(receiver).object_set().insert(id)
                &&& final(self).id == old(self).id
                &&& final(self).events == old(self).events
                &&& final(self).data == (SourceData {
                    offers: final(self).data.offers,
                    ..old(self).data
                })
                &&& final(self).data.offers@.drop_last() == old(self).data.offers@
                &&& final(self).data.offers@.last().id == id
                &&& final(self).data.offers@.last().client == old(receiver).id
                &&& offer_prelude(
                    final(self).data.offers@.last().events@,
                    old(self).mime_view(),
                    old(self).data.actions,
                    old(self).data.shared.selected_action,
                )
            },
            old(receiver).next_server_id <= 0xffff_ffff ==> r is Ok,
    {
        let id = match receiver.alloc_server_id() {
            Ok(id) => id,
            Err(e) => return Err(e),
        };
        self.create_offer(id, receiver.id);
        Ok(id)
    }

    /// Handles the receiver's `accept`: tells the owner the accepted MIME
    /// type and records whether one was accepted.
    pub fn offer_accept(&mut self, mime_type: Option<String>)
        requires
            old(self).wf(),
        ensures
            final(self).wf(),
            old(self).in_parity() ==> final(self).in_parity(),
            final(self).dropped() == old(self).dropped(),
            final(self).data.shared.accepted() == mime_type is Some,
            final(self).id == old(self).id,
            final(self).data == WlDataSource::with_state(
                *old(self),
                if mime_type is Some {
                    old(self).data.shared.state | OFFER_STATE_ACCEPTED
                } else {
                    old(self).data.shared.state & !OFFER_STATE_ACCEPTED
                },
            ).data,
            final(self).events@ == old(self).events@.push(SourceEvent::Target(mime_type)),
    {
        let accepted = mime_type.is_some();
        self.send_target(mime_type);
        let st = self.data.shared.state;
        if accepted {
            self.data.shared.state = st | OFFER_STATE_ACCEPTED;
        } else {
            self.data.shared.state = st & !OFFER_STATE_ACCEPTED;
        }
        proof {
            lemma_source_push(old(self).events@, SourceEvent::Target(mime_type));
            assert((st | 1u32) & 2u32 == st & 2u32 && (st & !1u32) & 2u32 == st & 2u32) by (bit_vector);
            assert((st | 1u32) & 1u32 != 0 && (st & !1u32) & 1u32 == 0) by (bit_vector);
        }
    }

    /// Handles the receiver's `set_actions`: records the actions it accepts
    /// and the one it prefers, then recomputes the selected action.
    pub fn offer_set_actions(&mut self, dnd_actions: u32, preferred_action: u32) -> (r: Result<
        (),
        OfferSetActionsError,
    >)
        requires
            old(self).wf(),
        ensures
            final(self).wf(),
            old(self).in_parity() ==> final(self).in_parity(),
            final(self).dropped() == old(self).dropped(),
            !valid_mask(dnd_actions) ==> r == Err::<(), OfferSetActionsError>(
                OfferSetActionsError::InvalidActionMask,
            ) && *final(self) == *old(self),
            valid_mask(dnd_actions) && !none_or_single(preferred_action) ==> r == Err::<
                (),
                OfferSetActionsError,
            >(OfferSetActionsError::InvalidAction) && *final(self) == *old(self),
            valid_mask(dnd_actions) && none_or_single(preferred_action) ==> r is Ok
                && WlDataSource::selection_updated(
                WlDataSource::with_receiver(*old(self), dnd_actions, preferred_action),
                *final(self),
            ),
    {
        if dnd_actions & !DND_ALL != 0 {
            return Err(OfferSetActionsError::InvalidActionMask);
        }
        if preferred_action != DND_NONE && preferred_action != 1 && preferred_action != 2
            && preferred_action != 4 {
            return Err(OfferSetActionsError::InvalidAction);
        }
        self.data.shared.receiver_actions = dnd_actions;
        self.data.shared.receiver_preferred_action = preferred_action;
        assert(*self == WlDataSource::with_receiver(*old(self), dnd_actions, preferred_action));
        self.update_selected_action();
        Ok(())
    }

    /// Handles the receiver's `finish`: tells the owner that the receiver is
    /// done, which is only allowed after an accepted drop.
    pub fn offer_finish(&mut self) -> (r: Result<(), FinishError>)
        ensures
            !old(self).dropped() ==> r == Err::<(), FinishError>(FinishError::NotDropped)
                && *final(self) == *old(self),
            old(self).dropped() && !old(self).data.shared.accepted() ==> r == Err::<
                (),
                FinishError,
            >(FinishError::NotAccepted) && *final(self) == *old(self),
            old(self).dropped() && old(self).data.shared.accepted() ==> r is Ok
                && WlDataSource::sent(*old(self), *final(self), SourceEvent::DndFinished),
    {
        if self.data.shared.state & OFFER_STATE_DROPPED == 0 {
            return Err(FinishError::NotDropped);
        }
        if self.data.shared.state & OFFER_STATE_ACCEPTED == 0 {
            return Err(FinishError::NotAccepted);
        }
        self.send_dnd_finished();
        Ok(())
    }

    /// Handles the release of the pointer: performs the drop where an
    /// action is selected and a MIME type accepted; otherwise ends the
    /// session as when the pointer leaves and tells the owner that the
    /// source is cancelled. Returns whether the drop was performed.
    pub fn on_pointer_release(&mut self) -> (r: bool)
        requires
            old(self).wf(),
        ensures
            final(self).wf(),
            old(self).in_parity() ==> final(self).in_parity(),
            r == (old(self).data.shared.selected_action != DND_NONE
                && old(self).data.shared.accepted()),
            r ==> WlDataSource::drop_performed(*old(self), *final(self)),
            !r && old(self).dropped() ==> WlDataSource::sent(
                *old(self),
                *final(self),
                SourceEvent::Cancelled,
            ),
            !r && !old(self).dropped() ==> {
                &&& final(self).id == old(self).id
                &&& final(self).data.client == old(self).data.client
                &&& final(self).data.mime_types == old(self).data.mime_types
                &&& final(self).data.actions == old(self).data.actions
                &&& final(self).data.role == old(self).data.role
                &&& final(self).data.shared == SharedState::spec_new()
                &&& offers_cancelled(old(self).data, final(self).data)
                &&& final(self).events@ == old(self).events@.push(SourceEvent::Target(None)).push(
                    SourceEvent::Action(DND_NONE),
                ).push(SourceEvent::Cancelled)
            },
    {
        if self.can_drop() {
            self.on_drop();
            true
        } else {
            self.on_leave();
            let ghost mid = *self;
            self.send_cancelled();
            proof {
                lemma_source_push(mid.events@, SourceEvent::Cancelled);
            }
            false
        }
    }

    /// Marks the source as used for `role`: a source serves either a
    /// selection or a drag, never both.
    pub fn use_as(&mut self, role: SourceRole) -> (r: Result<(), UseSourceError>)
        requires
            role != SourceRole::Unused,
        ensures
            r is Ok <==> (old(self).data.role == SourceRole::Unused || old(self).data.role == role),
            r is Ok ==> *final(self) == (WlDataSource {
                data: SourceData { role, ..old(self).data },
                ..*old(self)
            }),
            r is Err ==> r == Err::<(), UseSourceError>(UseSourceError::InvalidSource)
                && *final(self) == *old(self),
    {
        if self.data.role != SourceRole::Unused && self.data.role != role {
            return Err(UseSourceError::InvalidSource);
        }
        self.data.role = role;
        Ok(())
    }

    /// Writes the event `e` to this source as a wire message. Fails where
    /// the message would not fit in the header's size field.
    pub fn format_event(&self, e: &SourceEvent) -> (r: Result<MsgFormatter, FrameError>)
        requires
            forall|i: int|
                0 <= i < source_event_message(*e).1.len() ==> arg_fits(
                    #[trigger] source_event_message(*e).1[i],
                ),
        ensures
            ({
                let (opcode, args) = source_event_message(*e);
                &&& r is Ok <==> 8 + args_bytes(args).len() <= 0xffff
                &&& r is Err ==> r == Err::<MsgFormatter, FrameError>(FrameError::TooLarge)
                &&& r is Ok ==> r->Ok_0.buf@ == message_bytes(self.id, opcode, args)
                    && r->Ok_0.fds@ == args_fds(args)
            }),
    {
        let mut args: Vec<Arg> = Vec::new();
        let opcode: u16 = match e {
            SourceEvent::Target(m) => {
                let m2 = match m {
                    Some(m) => Some(m.clone()),
                    None => None,
                };
                args.push(Arg::OptStr(m2));
                0
            },
            SourceEvent::Send(m, fd) => {
                args.push(Arg::Str(m.clone()));
                args.push(Arg::Fd(share_fd(fd)));
                1
            },
            SourceEvent::Cancelled => 2,
            SourceEvent::DndDropPerformed => 3,
            SourceEvent::DndFinished => 4,
            SourceEvent::Action(a) => {
                args.push(Arg::Uint(*a));
                5
            },
        };
        assert(arg_views(args@) =~= source_event_message(*e).1);
        assert(opcode as u32 == source_event_message(*e).0);
        format_message(self.id, opcode, &args)
    }

    /// Tells the owner that the source is no longer used.
    pub fn send_cancelled(&mut self)
        ensures
            WlDataSource::sent(*old(self), *final(self), SourceEvent::Cancelled),
    {
        self.events.push(SourceEvent::Cancelled);
    }

    /// Asks the owner to write the data in `mime_type` to `fd`.
    pub fn send_send(&mut self, mime_type: String, fd: Rc<OwnedFd>)
        ensures
            WlDataSource::sent(*old(self), *final(self), SourceEvent::Send(mime_type, fd)),
    {
        self.events.push(SourceEvent::Send(mime_type, fd));
    }

    /// Tells the owner which MIME type the receiver accepted.
    pub fn send_target(&mut self, mime_type: Option<String>)
        ensures
            WlDataSource::sent(*old(self), *final(self), SourceEvent::Target(mime_type)),
    {
        self.events.push(SourceEvent::Target(mime_type));
    }

    /// Tells the owner that the receiver finished with the data.
    pub fn send_dnd_finished(&mut self)
        ensures
            WlDataSource::sent(*old(self), *final(self), SourceEvent::DndFinished),
    {
        self.events.push(SourceEvent::DndFinished);
    }

    /// Tells the owner the selected action.
    pub fn send_action(&mut self, dnd_action: u32)
        ensures
            WlDataSource::sent(*old(self), *final(self), SourceEvent::Action(dnd_action)),
    {
        self.events.push(SourceEvent::Action(dnd_action));
    }

    /// Tells the owner that the drop was performed.
    pub fn send_dnd_drop_performed(&mut self)
        ensures
            WlDataSource::sent(*old(self), *final(self), SourceEvent::DndDropPerformed),
    {
        self.events.push(SourceEvent::DndDropPerformed);
    }
}

/// Why a request to a data source failed.
#[derive(Clone, Copy, Debug, PartialEq, Eq, Structural)]
pub enum WlDataSourceError {
    ClientError(ClientError),
    OfferError(OfferError),
    DestroyError(DestroyError),
    SetActionsError(SetActionsError),
    /// The opcode names no request of the interface.
    UnknownRequest(u32),
}

/// Why an `offer` request failed.
#[derive(Clone, Copy, Debug, PartialEq, Eq, Structural)]
pub enum OfferError {
    ParseFailed(MsgParserError),
    ClientError(ClientError),
}

/// Why a `destroy` request failed.
#[derive(Clone, Copy, Debug, PartialEq, Eq, Structural)]
pub enum DestroyError {
    ParseFailed(MsgParserError),
    ClientError(ClientError),
}

/// Why a `set_actions` request failed.
#[derive(Clone, Copy, Debug, PartialEq, Eq, Structural)]
pub enum SetActionsError {
    ParseFailed(MsgParserError),
    ClientError(ClientError),
    /// The mask holds bits outside the known actions.
    InvalidActions,
    /// The actions have been set before.
    AlreadySet,
}

/// Why a receiver's `set_actions` on an offer failed.
#[derive(Clone, Copy, Debug, PartialEq, Eq, Structural)]
pub enum OfferSetActionsError {
    /// The mask holds bits outside the known actions.
    InvalidActionMask,
    /// The preferred action is not a single action.
    InvalidAction,
}

/// Why a receiver's `finish` on an offer failed.
#[derive(Clone, Copy, Debug, PartialEq, Eq, Structural)]
pub enum FinishError {
    /// The drop has not been performed.
    NotDropped,
    /// The receiver accepted no MIME type.
    NotAccepted,
}

/// Why a source could not be used for a selection or a drag.
#[derive(Clone, Copy, Debug, PartialEq, Eq, Structural)]
pub enum UseSourceError {
    /// The source was used for the other purpose before.
    InvalidSource,
}

} // verus!
