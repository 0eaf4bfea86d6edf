use broadcast_hub::actors::{inbound_step, outbound_step, InboundAction, LineRead, OutboundAction};
use broadcast_hub::hub::Hub;
use broadcast_hub::message::{is_sentinel, lists, ConnId, IpAddress, Message, ScopeKind};
use broadcast_hub::wire::render_message;

fn v4(port: u16) -> ConnId {
    ConnId { ip: IpAddress::V4(127, 0, 0, 1), port }
}

fn post(me: ConnId, text: &str) -> Message {
    match inbound_step(me, LineRead::Line(text.to_string())) {
        InboundAction::Post(m) => m,
        _ => panic!("expected a post"),
    }
}

fn written(me: ConnId, m: &Message) -> Option<String> {
    match outbound_step(me, m) {
        OutboundAction::Write(s) => Some(s),
        OutboundAction::Skip => None,
        OutboundAction::Stop => panic!("unexpected stop"),
    }
}

/// Routes `m` through the hub: every registered connection's outbound
/// step runs on it, and all sends succeed.
fn deliver(hub: &mut Hub<u32>, m: &Message) -> Vec<(ConnId, Option<String>)> {
    let mut out = Vec::new();
    for i in 0..hub.len() {
        let id = hub.recipient_id(i);
        out.push((id, written(id, m)));
    }
    let sent = vec![true; hub.len()];
    hub.finish_route(m, &sent);
    out
}

#[test]
fn hello_to_all_reaches_everyone() {
    let (a, b, c) = (v4(40001), v4(40002), v4(40003));
    let mut hub: Hub<u32> = Hub::new();
    hub.register(a, 1);
    hub.register(b, 2);
    hub.register(c, 3);
    let m = post(a, "hello\n");
    let got = deliver(&mut hub, &m);
    assert_eq!(got.len(), 3);
    for (_, w) in got {
        let w = w.expect("written");
        assert!(w.contains("hello"));
        assert!(w.contains("sender=127.0.0.1:40001"));
        assert_eq!(w, "message: sender=127.0.0.1:40001 scope=ALL text=hello\n");
    }
}

#[test]
fn secret_only_to_b() {
    let (a, b, c) = (v4(40001), v4(40002), v4(40003));
    let mut hub: Hub<u32> = Hub::new();
    hub.register(a, 1);
    hub.register(b, 2);
    hub.register(c, 3);
    let m = Message {
        text: "secret\n".to_string(),
        sender: a,
        scope: ScopeKind::Only,
        except_ids: None,
        include_ids: Some(vec![b]),
    };
    let got = deliver(&mut hub, &m);
    assert!(got[0].1.is_none());
    assert_eq!(
        got[1].1.as_deref(),
        Some("message: sender=127.0.0.1:40001 scope=ONLY only=[127.0.0.1:40002] text=secret\n")
    );
    assert!(got[2].1.is_none());
}

#[test]
fn close_stops_only_its_sender() {
    let (a, b, c) = (v4(40001), v4(40002), v4(40003));
    let mut hub: Hub<u32> = Hub::new();
    hub.register(a, 1);
    hub.register(b, 2);
    hub.register(c, 3);
    let m = match inbound_step(a, LineRead::Line("close".to_string())) {
        InboundAction::PostThenStop(m) => m,
        _ => panic!("the sentinel must end the inbound actor"),
    };
    assert_eq!(m.sender, a);
    assert!(matches!(outbound_step(a, &m), OutboundAction::Stop));
    assert!(written(b, &m).is_some());
    assert!(written(c, &m).is_some());
    hub.unregister(a);
    assert_eq!(hub.len(), 2);
    let m2 = post(b, "still here\n");
    let got = deliver(&mut hub, &m2);
    assert_eq!(got.len(), 2);
    assert_eq!(got[0].0, b);
    assert_eq!(got[1].0, c);
    assert!(got.iter().all(|(_, w)| w.is_some()));
}

#[test]
fn reset_connection_does_not_stop_routing() {
    let (a, b, c) = (v4(40001), v4(40002), v4(40003));
    let mut hub: Hub<u32> = Hub::new();
    hub.register(a, 1);
    hub.register(b, 2);
    hub.register(c, 3);
    assert!(matches!(inbound_step(b, LineRead::Failed), InboundAction::Stop));
    // B's outbound actor is gone: the next send to it fails.
    let m = post(a, "ping\n");
    hub.finish_route(&m, &vec![true, false, true]);
    let m = post(a, "ping again\n");
    let got = deliver(&mut hub, &m);
    assert_eq!(got.len(), 2);
    assert_eq!(got[0].0, a);
    assert_eq!(got[1].0, c);
    let m = post(c, "pong\n");
    let got = deliver(&mut hub, &m);
    assert_eq!(got[0].1.as_deref(), Some("message: sender=127.0.0.1:40003 scope=ALL text=pong\n"));
}

#[test]
fn end_of_stream_stops_without_posting() {
    assert!(matches!(inbound_step(v4(1), LineRead::EndOfStream), InboundAction::Stop));
}

#[test]
fn sentinel_with_newline_is_ordinary_text() {
    assert!(matches!(inbound_step(v4(1), LineRead::Line("close\n".to_string())), InboundAction::Post(_)));
    assert!(is_sentinel(&"close".to_string()));
    assert!(!is_sentinel(&" close".to_string()));
}

#[test]
fn sentinel_from_another_sender_is_written() {
    let m = Message::to_all("close".to_string(), v4(7));
    assert!(!m.is_own_sentinel(v4(8)));
    assert!(m.is_own_sentinel(v4(7)));
    assert!(written(v4(8), &m).is_some());
}

#[test]
fn except_scope_skips_listed() {
    let (a, b, c) = (v4(1), v4(2), v4(3));
    let m = Message {
        text: "x".to_string(),
        sender: a,
        scope: ScopeKind::Except,
        except_ids: Some(vec![b, c]),
        include_ids: None,
    };
    assert!(m.is_for(a));
    assert!(!m.is_for(b));
    assert!(!m.is_for(c));
    assert_eq!(
        written(a, &m).unwrap(),
        "message: sender=127.0.0.1:1 scope=EXCEPT except=[127.0.0.1:2,127.0.0.1:3] text=x"
    );
}

#[test]
fn missing_sets_reach_nobody() {
    let a = v4(1);
    let mut m = Message::to_all("x".to_string(), a);
    m.scope = ScopeKind::Except;
    assert!(!m.is_for(a));
    assert!(written(v4(2), &m).is_none());
    m.scope = ScopeKind::Only;
    assert!(!m.is_for(a));
    assert!(written(v4(2), &m).is_none());
}

#[test]
fn empty_sets() {
    let a = v4(1);
    let mut m = Message::to_all("x".to_string(), a);
    m.scope = ScopeKind::Except;
    m.except_ids = Some(Vec::new());
    assert!(m.is_for(a));
    m.scope = ScopeKind::Only;
    m.include_ids = Some(Vec::new());
    assert!(!m.is_for(a));
    assert_eq!(
        render_message(&m),
        "message: sender=127.0.0.1:1 scope=ONLY except=[] only=[] text=x"
    );
}

#[test]
fn ipv6_and_extremes_render() {
    let id = ConnId { ip: IpAddress::V6(0x2001, 0xdb8, 0, 0, 0, 0, 0, 0xffff), port: 65535 };
    let m = Message::to_all(String::new(), id);
    assert_eq!(render_message(&m), "message: sender=[2001:db8:0:0:0:0:0:ffff]:65535 scope=ALL text=");
    let z = ConnId { ip: IpAddress::V4(0, 255, 10, 9), port: 0 };
    let m = Message::to_all("é\n".to_string(), z);
    assert_eq!(render_message(&m), "message: sender=0.255.10.9:0 scope=ALL text=é\n");
}

#[test]
fn lists_finds_members() {
    let ids = vec![v4(1), v4(2)];
    assert!(lists(&ids, v4(2)));
    assert!(!lists(&ids, v4(3)));
    assert!(!lists(&Vec::new(), v4(3)));
}

#[test]
fn unregister_keeps_order_and_drops_duplicates() {
    let mut hub: Hub<u32> = Hub::new();
    hub.register(v4(1), 10);
    hub.register(v4(2), 20);
    hub.register(v4(1), 11);
    hub.register(v4(3), 30);
    hub.unregister(v4(1));
    assert_eq!(hub.len(), 2);
    assert_eq!(hub.recipient_id(0), v4(2));
    assert_eq!(*hub.channel(0), 20);
    assert_eq!(hub.recipient_id(1), v4(3));
    assert_eq!(*hub.channel(1), 30);
    hub.unregister(v4(9));
    assert_eq!(hub.len(), 2);
}

#[test]
fn every_recipient_sees_the_same_order() {
    let (a, b) = (v4(1), v4(2));
    let mut hub: Hub<u32> = Hub::new();
    hub.register(a, 1);
    hub.register(b, 2);
    let msgs = vec![post(a, "one\n"), post(b, "two\n"), post(a, "three\n")];
    let mut seen_a = Vec::new();
    let mut seen_b = Vec::new();
    for m in &msgs {
        for (id, w) in deliver(&mut hub, m) {
            if id == a {
                seen_a.push(w.unwrap());
            } else {
                seen_b.push(w.unwrap());
            }
        }
    }
    assert_eq!(seen_a, seen_b);
    assert!(seen_a[0].ends_with("one\n"));
    assert!(seen_a[2].ends_with("three\n"));
}

#[test]
fn finish_route_drops_failed_by_position() {
    let mut hub: Hub<u32> = Hub::new();
    hub.register(v4(1), 10);
    hub.register(v4(2), 20);
    hub.register(v4(1), 11);
    hub.register(v4(3), 30);
    let m = post(v4(2), "x\n");
    hub.finish_route(&m, &vec![true, true, false, true]);
    assert_eq!(hub.len(), 3);
    assert_eq!(hub.recipient_id(0), v4(1));
    assert_eq!(*hub.channel(0), 10);
    assert_eq!(hub.recipient_id(1), v4(2));
    assert_eq!(*hub.channel(1), 20);
    assert_eq!(hub.recipient_id(2), v4(3));
    assert_eq!(*hub.channel(2), 30);
    hub.finish_route(&m, &vec![false, false, false]);
    assert_eq!(hub.len(), 0);
    hub.finish_route(&m, &Vec::new());
    assert_eq!(hub.len(), 0);
}
