use jay::actions::{select_action, DND_ASK, DND_COPY, DND_MOVE, DND_NONE};
use jay::client::{Client, ClientError};
use jay::data_source::{
    FinishError, OfferError, OfferEvent, OfferSetActionsError, SetActionsError, SharedState,
    SourceEvent, SourceRole, UseSourceError, WlDataSource, WlDataSourceError, DESTROY, OFFER,
    SET_ACTIONS,
};
use jay::wire::{parse_frame, Arg, ArgKind, MsgFormatter, MsgParser, MsgParserError};
use std::cell::Cell;
use std::rc::Rc;

fn str_payload(s: &str) -> MsgParser {
    let mut f = MsgFormatter::new();
    f.string(&s.to_string());
    MsgParser::new(f.buf, vec![])
}

fn uint_payload(x: u32) -> MsgParser {
    let mut f = MsgFormatter::new();
    f.uint(x);
    MsgParser::new(f.buf, vec![])
}

fn last_source_action(s: &WlDataSource) -> Option<u32> {
    s.events.iter().rev().find_map(|e| match e {
        SourceEvent::Action(a) => Some(*a),
        _ => None,
    })
}

fn last_offer_action(events: &[OfferEvent]) -> Option<u32> {
    events.iter().rev().find_map(|e| match e {
        OfferEvent::Action(a) => Some(*a),
        _ => None,
    })
}

fn dnd_source(actions: u32) -> WlDataSource {
    let mut s = WlDataSource::new(3, 1);
    s.use_as(SourceRole::DragAndDrop).unwrap();
    s.set_actions(&mut uint_payload(actions)).unwrap();
    s
}

#[test]
fn clipboard_selection() {
    let mut a = Client::new(1);
    a.add_client_obj(3).unwrap();
    let mut s = WlDataSource::new(3, a.id);
    assert_eq!(s.use_as(SourceRole::Selection), Ok(()));
    s.offer(&mut str_payload("text/plain")).unwrap();
    s.offer(&mut str_payload("text/html")).unwrap();
    let mut b = Client::new(2);
    let offer_id = s.create_offer_for(&mut b).unwrap();
    assert_eq!(offer_id, 0xff00_0001);
    assert!(b.contains(offer_id));
    let offer = &s.data.offers[0];
    assert_eq!(offer.id, 0xff00_0001);
    assert_eq!(offer.events.len(), 2);
    assert!(matches!(&offer.events[0], OfferEvent::Offer(m) if m == "text/plain"));
    assert!(matches!(&offer.events[1], OfferEvent::Offer(m) if m == "text/html"));
    let (fd, _peer) = uapi::pipe().unwrap();
    let fd = Rc::new(fd);
    s.send_send("text/plain".to_string(), fd.clone());
    assert!(matches!(s.events.last(),
        Some(SourceEvent::Send(m, f)) if m == "text/plain" && Rc::ptr_eq(f, &fd)));
}

#[test]
fn dnd_accept_and_copy() {
    let mut s = dnd_source(DND_COPY | DND_MOVE);
    s.create_offer(0xff00_0001, 2);
    s.create_offer(0xff00_0002, 2);
    s.offer_accept(Some("image/png".to_string()));
    assert!(matches!(s.events.last(), Some(SourceEvent::Target(Some(m))) if m == "image/png"));
    assert_eq!(s.offer_set_actions(DND_COPY | DND_MOVE, DND_COPY), Ok(()));
    assert_eq!(s.data.shared.selected_action, DND_COPY);
    assert_eq!(last_source_action(&s), Some(DND_COPY));
    for o in &s.data.offers {
        assert_eq!(last_offer_action(&o.events), Some(DND_COPY));
    }
    assert!(s.can_drop());
    assert!(s.on_pointer_release());
    assert!(matches!(s.events.last(), Some(SourceEvent::DndDropPerformed)));
    assert_eq!(s.offer_finish(), Ok(()));
    assert!(matches!(s.events.last(), Some(SourceEvent::DndFinished)));
}

#[test]
fn dnd_no_common_action() {
    let mut s = dnd_source(DND_COPY);
    s.create_offer(0xff00_0001, 2);
    s.offer_accept(Some("text/plain".to_string()));
    s.offer_set_actions(DND_MOVE, DND_MOVE).unwrap();
    assert_eq!(s.data.shared.selected_action, DND_NONE);
    assert!(!s.can_drop());
    assert!(!s.on_pointer_release());
    assert!(matches!(s.events.last(), Some(SourceEvent::Cancelled)));
    assert!(!s.events.iter().any(|e| matches!(e, SourceEvent::DndDropPerformed)));
    assert!(s.data.offers.is_empty());
}

#[test]
fn leave_before_drop_resets_session() {
    let mut s = dnd_source(DND_COPY);
    s.create_offer(0xff00_0001, 2);
    s.offer_accept(Some("text/plain".to_string()));
    s.offer_set_actions(DND_COPY, DND_COPY).unwrap();
    assert_eq!(last_source_action(&s), Some(DND_COPY));
    let before = s.events.len();
    s.on_leave();
    assert!(s.data.offers.is_empty());
    assert_eq!(s.data.cancelled.len(), 1);
    assert!(matches!(s.data.cancelled[0].events.last(), Some(OfferEvent::Cancelled)));
    assert_eq!(s.events.len(), before + 2);
    assert!(matches!(s.events[before], SourceEvent::Target(None)));
    assert!(matches!(s.events[before + 1], SourceEvent::Action(0)));
    assert_eq!(s.data.shared, SharedState::new());
}

#[test]
fn double_set_actions_fails() {
    let mut c = Client::new(1);
    let mut s = WlDataSource::new(3, 1);
    assert_eq!(
        s.handle_request(&mut c, SET_ACTIONS, &mut uint_payload(DND_COPY)),
        Ok(())
    );
    assert_eq!(
        s.handle_request(&mut c, SET_ACTIONS, &mut uint_payload(DND_MOVE)),
        Err(WlDataSourceError::SetActionsError(SetActionsError::AlreadySet))
    );
    assert_eq!(s.data.actions, Some(DND_COPY));
}

#[test]
fn client_gone_mid_drag() {
    let mut a = Client::new(1);
    a.add_client_obj(3).unwrap();
    let mut b = Client::new(2);
    let mut s = dnd_source(DND_COPY);
    let offer_id = s.create_offer_for(&mut b).unwrap();
    s.break_loops();
    assert!(s.data.offers.is_empty());
    s.break_loops();
    assert!(s.data.offers.is_empty());
    let cancelled = s.take_cancelled_offers();
    assert_eq!(cancelled.len(), 1);
    assert!(s.data.cancelled.is_empty());
    let o = &cancelled[0];
    assert_eq!(o.id, offer_id);
    assert!(matches!(o.events.last(), Some(OfferEvent::Cancelled)));
    assert_eq!(o.destroy_at(&mut a), Err(ClientError::UnknownId(offer_id)));
    assert_eq!(o.destroy_at(&mut b), Ok(()));
    assert!(!b.contains(offer_id));
    assert_eq!(a.remove_obj(3), Ok(()));
    assert!(!a.contains(3));
}

#[test]
fn later_offers_get_larger_ids() {
    let mut b = Client::new(2);
    let mut s = dnd_source(DND_COPY);
    let first = s.create_offer_for(&mut b).unwrap();
    s.on_leave();
    for o in s.take_cancelled_offers() {
        o.destroy_at(&mut b).unwrap();
    }
    let second = s.create_offer_for(&mut b).unwrap();
    assert!(second > first);
    assert!(!b.contains(first));
}

#[test]
fn invalid_actions_rejected() {
    let mut s = WlDataSource::new(3, 1);
    assert_eq!(
        s.set_actions(&mut uint_payload(8)),
        Err(SetActionsError::InvalidActions)
    );
    assert_eq!(s.data.actions, None);
    assert_eq!(
        s.set_actions(&mut uint_payload(DND_COPY | DND_MOVE | DND_ASK)),
        Ok(())
    );
}

#[test]
fn set_actions_parse_errors() {
    let mut s = WlDataSource::new(3, 1);
    let mut short = MsgParser::new(vec![1, 0], vec![]);
    assert_eq!(
        s.set_actions(&mut short),
        Err(SetActionsError::ParseFailed(MsgParserError::UnexpectedEof))
    );
    let mut long = MsgParser::new(vec![1, 0, 0, 0, 0, 0, 0, 0], vec![]);
    assert_eq!(
        s.set_actions(&mut long),
        Err(SetActionsError::ParseFailed(MsgParserError::TrailingData))
    );
    assert_eq!(s.data.actions, None);
}

#[test]
fn offer_deduplicates_mime_types() {
    let mut s = WlDataSource::new(3, 1);
    s.create_offer(0xff00_0001, 2);
    s.offer(&mut str_payload("text/plain")).unwrap();
    s.offer(&mut str_payload("text/plain")).unwrap();
    assert_eq!(s.data.mime_types, vec!["text/plain".to_string()]);
    assert_eq!(s.data.offers[0].events.len(), 1);
    assert!(s.has_mime_type(&"text/plain".to_string()));
    assert!(!s.has_mime_type(&"text/html".to_string()));
}

#[test]
fn offer_null_string_fails() {
    let mut s = WlDataSource::new(3, 1);
    let mut p = uint_payload(0);
    assert_eq!(
        s.offer(&mut p),
        Err(OfferError::ParseFailed(MsgParserError::NullString))
    );
    assert!(s.data.mime_types.is_empty());
}

#[test]
fn destroy_removes_source() {
    let mut c = Client::new(1);
    c.add_client_obj(3).unwrap();
    let mut s = dnd_source(DND_COPY);
    s.create_offer(0xff00_0001, 2);
    let mut p = MsgParser::new(vec![], vec![]);
    assert_eq!(s.handle_request(&mut c, DESTROY, &mut p), Ok(()));
    assert!(s.data.offers.is_empty());
    assert_eq!(s.data.cancelled.len(), 1);
    assert_eq!(s.data.cancelled[0].id, 0xff00_0001);
    assert!(!c.contains(3));
    let mut p = MsgParser::new(vec![], vec![]);
    assert!(matches!(
        s.handle_request(&mut c, DESTROY, &mut p),
        Err(WlDataSourceError::DestroyError(_))
    ));
}

#[test]
fn unknown_opcode_fails() {
    let mut c = Client::new(1);
    let mut s = WlDataSource::new(3, 1);
    let mut p = MsgParser::new(vec![], vec![]);
    assert_eq!(
        s.handle_request(&mut c, 3, &mut p),
        Err(WlDataSourceError::UnknownRequest(3))
    );
    assert_eq!(s.num_requests(), 3);
    assert_eq!(
        s.handle_request(&mut c, OFFER, &mut str_payload("a")),
        Ok(())
    );
}

#[test]
fn source_roles_are_exclusive() {
    let mut s = WlDataSource::new(3, 1);
    assert_eq!(s.use_as(SourceRole::Selection), Ok(()));
    assert_eq!(s.use_as(SourceRole::Selection), Ok(()));
    assert_eq!(
        s.use_as(SourceRole::DragAndDrop),
        Err(UseSourceError::InvalidSource)
    );
    assert_eq!(s.data.role, SourceRole::Selection);
}

#[test]
fn receiver_set_actions_errors() {
    let mut s = dnd_source(DND_COPY);
    assert_eq!(
        s.offer_set_actions(16, DND_COPY),
        Err(OfferSetActionsError::InvalidActionMask)
    );
    assert_eq!(
        s.offer_set_actions(DND_COPY, DND_COPY | DND_MOVE),
        Err(OfferSetActionsError::InvalidAction)
    );
    assert_eq!(s.data.shared, SharedState::new());
}

#[test]
fn finish_requires_accepted_drop() {
    let mut s = dnd_source(DND_COPY);
    assert_eq!(s.offer_finish(), Err(FinishError::NotDropped));
    s.on_drop();
    assert_eq!(s.offer_finish(), Err(FinishError::NotAccepted));
    s.offer_accept(Some("text/plain".to_string()));
    assert_eq!(s.offer_finish(), Ok(()));
}

#[test]
fn leave_after_drop_sends_nothing() {
    let mut s = dnd_source(DND_COPY);
    s.create_offer(0xff00_0001, 2);
    s.offer_accept(Some("text/plain".to_string()));
    s.offer_set_actions(DND_COPY, DND_COPY).unwrap();
    assert!(s.on_pointer_release());
    let events = s.events.len();
    s.on_leave();
    assert_eq!(s.events.len(), events);
    assert_eq!(s.data.offers.len(), 1);
    assert_eq!(s.data.shared.selected_action, DND_COPY);
}

#[test]
fn offers_follow_selected_action() {
    let mut s = dnd_source(DND_COPY | DND_MOVE);
    s.create_offer(0xff00_0001, 2);
    s.offer_set_actions(DND_MOVE, DND_MOVE).unwrap();
    s.create_offer(0xff00_0002, 2);
    s.offer_set_actions(DND_COPY | DND_MOVE, DND_COPY).unwrap();
    for o in &s.data.offers {
        assert_eq!(last_offer_action(&o.events), last_source_action(&s));
    }
    assert_eq!(last_source_action(&s), Some(DND_COPY));
    let late = &s.data.offers[1];
    assert!(matches!(late.events[0], OfferEvent::SourceActions(3)));
    assert!(matches!(late.events[1], OfferEvent::Action(2)));
}

#[test]
fn update_without_actions_does_nothing() {
    let mut s = WlDataSource::new(3, 1);
    s.create_offer(0xff00_0001, 2);
    s.data.shared.receiver_actions = DND_COPY;
    s.update_selected_action();
    assert_eq!(s.data.shared.selected_action, DND_NONE);
    assert!(s.events.is_empty());
}

#[test]
fn for_each_visits_every_offer() {
    let mut s = WlDataSource::new(3, 1);
    s.create_offer(0xff00_0001, 2);
    s.create_offer(0xff00_0002, 2);
    let seen = Cell::new(0u32);
    s.for_each_data_offer(|o| seen.set(seen.get() + o.id - 0xff00_0000));
    assert_eq!(seen.get(), 3);
}

#[test]
fn send_events_append() {
    let mut s = WlDataSource::new(3, 1);
    s.send_cancelled();
    s.send_target(None);
    s.send_action(DND_MOVE);
    s.send_dnd_drop_performed();
    s.send_dnd_finished();
    assert!(matches!(s.events[0], SourceEvent::Cancelled));
    assert!(matches!(s.events[1], SourceEvent::Target(None)));
    assert!(matches!(s.events[2], SourceEvent::Action(2)));
    assert!(matches!(s.events[3], SourceEvent::DndDropPerformed));
    assert!(matches!(s.events[4], SourceEvent::DndFinished));
}

#[test]
fn no_preference_selects_lowest_common_action() {
    let mut s = dnd_source(DND_MOVE | DND_ASK);
    s.create_offer(0xff00_0001, 2);
    s.offer_set_actions(7, DND_NONE).unwrap();
    assert_eq!(s.data.shared.selected_action, DND_MOVE);
    assert_eq!(last_offer_action(&s.data.offers[0].events), Some(DND_MOVE));
}

#[test]
fn action_resolution_values() {
    assert_eq!(select_action(7, 7, DND_MOVE), DND_MOVE);
    assert_eq!(select_action(DND_COPY | DND_MOVE, DND_MOVE | DND_ASK, DND_COPY), DND_MOVE);
    assert_eq!(select_action(DND_COPY, DND_MOVE, DND_COPY), DND_NONE);
    assert_eq!(select_action(7, 6, DND_COPY), DND_MOVE);
    assert_eq!(select_action(4, 7, DND_NONE), DND_ASK);
    assert_eq!(select_action(DND_MOVE | DND_ASK, 7, DND_NONE), DND_MOVE);
    assert_eq!(select_action(DND_COPY, DND_MOVE, DND_NONE), DND_NONE);
}

#[test]
fn send_event_round_trip() {
    let mut s = WlDataSource::new(3, 1);
    let (fd, _peer) = uapi::pipe().unwrap();
    let fd = Rc::new(fd);
    s.send_send("text/plain".to_string(), fd.clone());
    let msg = s.format_event(&s.events[0]).unwrap();
    assert_eq!(msg.buf.len(), 12 + 12);
    assert_eq!(parse_frame(&msg.buf), Ok((3, 1, 24)));
    assert_eq!(msg.fds.len(), 1);
    let mut p = MsgParser::new(msg.buf, msg.fds);
    p.pos = 8;
    let args = p.args(&vec![ArgKind::Str, ArgKind::Fd]).unwrap();
    assert!(matches!(&args[0], Arg::Str(m) if m == "text/plain"));
    assert!(matches!(&args[1], Arg::Fd(f) if Rc::ptr_eq(f, &fd)));
    assert_eq!(p.eof(), Ok(()));
}

#[test]
fn target_and_action_events_format() {
    let mut s = WlDataSource::new(7, 1);
    s.send_target(None);
    s.send_action(DND_MOVE);
    s.send_cancelled();
    let t = s.format_event(&s.events[0]).unwrap();
    assert_eq!(t.buf, vec![7, 0, 0, 0, 0, 0, 12, 0, 0, 0, 0, 0]);
    let a = s.format_event(&s.events[1]).unwrap();
    assert_eq!(a.buf, vec![7, 0, 0, 0, 5, 0, 12, 0, 2, 0, 0, 0]);
    let c = s.format_event(&s.events[2]).unwrap();
    assert_eq!(c.buf, vec![7, 0, 0, 0, 2, 0, 8, 0]);
}
