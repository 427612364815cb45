use file_relay::codec::{
    decode_frame, decode_message, encode_batch, encode_single, ClientFrame, MalformedFrame, Msg,
    MSG_T_TEXT, TAG_PUSH_BATCH, TAG_PUSH_SINGLE,
};
use file_relay::le::{get_i32_le, put_i32_le};
use file_relay::retrieval::{file_response, respond, upload_name, STATUS_NO_CONTENT, STATUS_OK};
use file_relay::session::{
    after_save, catch_up_frame, dispatch, on_notification, receive_step, Notification,
    RecvAction, SocketEvent, REFRESH_ID,
};
use file_relay::store::MessageStore;

fn text_frame(text: &str) -> Vec<u8> {
    let mut b = vec![3u8];
    b.extend_from_slice(&(text.len() as i32).to_le_bytes());
    b.extend_from_slice(text.as_bytes());
    b
}

fn upload_frame(name: &str, data: &[u8]) -> Vec<u8> {
    let mut b = vec![5u8];
    b.extend_from_slice(&(name.len() as i32).to_le_bytes());
    b.extend_from_slice(name.as_bytes());
    b.extend_from_slice(&(data.len() as i32).to_le_bytes());
    b.extend_from_slice(data);
    b
}

fn post(store: &mut MessageStore, text: &str) -> RecvAction {
    receive_step(store, SocketEvent::Binary(text_frame(text)))
}

#[test]
fn le_integers_are_little_endian() {
    let mut out = vec![9u8];
    put_i32_le(&mut out, -2);
    put_i32_le(&mut out, 0x01020304);
    assert_eq!(out, vec![9, 0xFE, 0xFF, 0xFF, 0xFF, 4, 3, 2, 1]);
    assert_eq!(get_i32_le(&out, 1), -2);
    assert_eq!(get_i32_le(&out, 5), 0x01020304);
}

#[test]
fn single_push_has_exact_layout() {
    let m = Msg::new(7, MSG_T_TEXT, "hé".to_string());
    let b = encode_single(&m);
    let mut want = vec![TAG_PUSH_SINGLE, 4, 0, 0, 0, 7, 0, 0, 0, 4, 0, 0, 0, 1, 0, 0, 0, 3, 0, 0, 0];
    want.extend_from_slice("hé".as_bytes());
    assert_eq!(b, want);
}

#[test]
fn message_round_trip() {
    for (id, kind, text) in [(0, 1, ""), (42, 1, "hello"), (-5, 2, "ünï©ødé ✓")] {
        let m = Msg::new(id, kind, text.to_string());
        let b = encode_single(&m);
        let (back, end) = decode_message(&b, 1).unwrap();
        assert_eq!(back.id, id);
        assert_eq!(back.msg_type, kind);
        assert_eq!(back.text, text);
        assert_eq!(end, b.len());
    }
}

#[test]
fn message_decode_rejects_bad_field_length() {
    let m = Msg::new(1, MSG_T_TEXT, "x".to_string());
    let mut b = encode_single(&m);
    b[1] = 5;
    assert_eq!(decode_message(&b, 1).err(), Some(MalformedFrame));
    let b = encode_single(&m);
    assert!(decode_message(&b[..b.len() - 1], 1).is_err());
}

#[test]
fn ids_are_dense_across_sessions() {
    let mut store = MessageStore::new();
    let n = 20;
    for i in 0..n {
        // alternate "sessions": each just drives the shared store
        assert_eq!(
            post(&mut store, &format!("m{}", i)),
            RecvAction::Publish(Notification::Single(i))
        );
    }
    let ids: Vec<i32> = store.messages().iter().map(|m| m.id).collect();
    assert_eq!(ids, (0..n).collect::<Vec<i32>>());
    assert_eq!(store.len(), n as usize);
}

#[test]
fn post_fans_out_to_every_session() {
    let mut store = MessageStore::new();
    post(&mut store, "first");
    let action = post(&mut store, "second");
    let n = match action {
        RecvAction::Publish(n) => n,
        other => panic!("unexpected {:?}", other),
    };
    assert_eq!(n, Notification::Single(1));
    let want = encode_single(&Msg::new(1, MSG_T_TEXT, "second".to_string()));
    for _session in 0..3 {
        assert_eq!(on_notification(&store, n), Some(want.clone()));
    }
}

#[test]
fn catch_up_carries_all_messages_in_order() {
    let mut store = MessageStore::new();
    let texts = ["a", "bb", "ccc"];
    for t in texts {
        post(&mut store, t);
    }
    let frame = catch_up_frame(&store);
    assert_eq!(frame[0], TAG_PUSH_BATCH);
    let mut pos = 1;
    for (i, t) in texts.iter().enumerate() {
        let (m, end) = decode_message(&frame, pos).unwrap();
        assert_eq!(m.id, i as i32);
        assert_eq!(m.msg_type, MSG_T_TEXT);
        assert_eq!(m.text, *t);
        pos = end;
    }
    assert_eq!(pos, frame.len());
    assert_eq!(frame, encode_batch(store.messages()));
}

#[test]
fn catch_up_of_empty_store_is_bare_tag() {
    let store = MessageStore::new();
    assert_eq!(catch_up_frame(&store), vec![TAG_PUSH_BATCH]);
}

#[test]
fn upload_then_retrieve() {
    let mut store = MessageStore::new();
    let action = receive_step(&mut store, SocketEvent::Binary(upload_frame("a.txt", b"hi")));
    let (name, data) = match action {
        RecvAction::Save { name, data } => (name, data),
        other => panic!("unexpected {:?}", other),
    };
    assert_eq!(name, "a.txt");
    assert_eq!(data, b"hi".to_vec());
    assert_eq!(store.len(), 0);
    assert_eq!(after_save(true), RecvAction::Publish(Notification::Single(REFRESH_ID)));
    // the disk: what was saved under the name
    let read = |path: &str| if upload_name(path) == name { Some(data.clone()) } else { None };
    let r = file_response("a.txt", read("a.txt"));
    assert_eq!(r.status, 200);
    assert_eq!(r.body, b"hi".to_vec());
    assert_eq!(r.content_type, "text/plain");
    let r = file_response("/a.txt", read("/a.txt"));
    assert_eq!(r.status, STATUS_OK);
    assert_eq!(r.body, b"hi".to_vec());
    let r = file_response("never.txt", read("never.txt"));
    assert_eq!(r.status, 204);
    assert!(r.body.is_empty());
    assert_eq!(r.content_type, "");
}

#[test]
fn content_type_follows_extension() {
    let r = file_response("//pics/x.png", Some(vec![1, 2]));
    assert_eq!(r.content_type, "image/png");
    let r = file_response("noext", Some(vec![]));
    assert_eq!(r.content_type, "text/plain");
    assert_eq!(r.status, STATUS_OK);
}

#[test]
fn respond_uses_given_type() {
    let r = respond(Some(vec![5]), "a/b".to_string());
    assert_eq!((r.status, r.content_type.as_str(), r.body), (STATUS_OK, "a/b", vec![5]));
    let r = respond(None, "a/b".to_string());
    assert_eq!((r.status, r.content_type.as_str(), r.body), (STATUS_NO_CONTENT, "", vec![]));
}

#[test]
fn upload_name_strips_leading_separators() {
    assert_eq!(upload_name("///a/b.txt"), "a/b.txt");
    assert_eq!(upload_name("a.txt"), "a.txt");
    assert_eq!(upload_name(""), "");
    assert_eq!(upload_name("//"), "");
}

#[test]
fn overlong_length_is_malformed() {
    let mut b = vec![3u8];
    b.extend_from_slice(&100i32.to_le_bytes());
    b.extend_from_slice(b"abc");
    assert_eq!(decode_frame(&b), Err(MalformedFrame));
    let mut store = MessageStore::new();
    post(&mut store, "kept");
    assert_eq!(receive_step(&mut store, SocketEvent::Binary(b)), RecvAction::Close);
    assert_eq!(store.len(), 1);
    assert_eq!(store.messages()[0].text, "kept");
    let mut u = vec![5u8];
    u.extend_from_slice(&1i32.to_le_bytes());
    u.push(b'n');
    u.extend_from_slice(&9i32.to_le_bytes());
    u.extend_from_slice(b"short");
    assert_eq!(decode_frame(&u), Err(MalformedFrame));
}

#[test]
fn other_malformed_frames() {
    assert_eq!(decode_frame(&[]), Err(MalformedFrame));
    assert_eq!(decode_frame(&[2, 1, 0, 0]), Err(MalformedFrame));
    assert_eq!(decode_frame(&[3, 1, 0]), Err(MalformedFrame));
    assert_eq!(decode_frame(&[3, 0xFF, 0xFF, 0xFF, 0xFF]), Err(MalformedFrame));
    assert_eq!(decode_frame(&[3, 2, 0, 0, 0, 0xC3, 0x28]), Err(MalformedFrame));
}

#[test]
fn well_formed_frames() {
    assert_eq!(decode_frame(&[1]), Ok(ClientFrame::QueryAll));
    assert_eq!(decode_frame(&[2, 0xFE, 0xFF, 0xFF, 0xFF]), Ok(ClientFrame::QuerySingle(-2)));
    assert_eq!(decode_frame(&text_frame("hé")), Ok(ClientFrame::PostText("hé".to_string())));
    assert_eq!(decode_frame(&[4, 9]), Ok(ClientFrame::Unknown(4)));
    assert_eq!(decode_frame(&[200]), Ok(ClientFrame::Unknown(200)));
    let mut b = text_frame("x");
    b.push(77);
    assert_eq!(decode_frame(&b), Ok(ClientFrame::PostText("x".to_string())));
    assert_eq!(
        decode_frame(&upload_frame("f", &[0, 255])),
        Ok(ClientFrame::Upload { name: "f".to_string(), data: vec![0, 255] })
    );
}

#[test]
fn dispatch_of_queries() {
    let mut store = MessageStore::new();
    assert_eq!(dispatch(&mut store, ClientFrame::QueryAll), RecvAction::Ignore);
    assert_eq!(
        dispatch(&mut store, ClientFrame::QuerySingle(3)),
        RecvAction::Publish(Notification::Single(3))
    );
    assert_eq!(dispatch(&mut store, ClientFrame::Unknown(9)), RecvAction::Ignore);
    assert_eq!(store.len(), 0);
}

#[test]
fn socket_events_other_than_binary() {
    let mut store = MessageStore::new();
    assert_eq!(receive_step(&mut store, SocketEvent::Other), RecvAction::Ignore);
    assert_eq!(receive_step(&mut store, SocketEvent::Closed), RecvAction::Close);
    assert_eq!(after_save(false), RecvAction::Close);
}

#[test]
fn notification_without_message_sends_nothing() {
    let mut store = MessageStore::new();
    assert_eq!(on_notification(&store, Notification::Single(REFRESH_ID)), None);
    post(&mut store, "x");
    assert_eq!(on_notification(&store, Notification::All), None);
    assert_eq!(on_notification(&store, Notification::Single(5)), None);
    assert!(on_notification(&store, Notification::Single(0)).is_some());
    assert!(store.find(0).is_some());
    assert!(store.find(-1).is_none());
}

#[test]
fn failed_session_leaves_others_working() {
    let mut store = MessageStore::new();
    post(&mut store, "from b");
    // session a sends garbage and is closed
    assert_eq!(receive_step(&mut store, SocketEvent::Binary(vec![3, 9])), RecvAction::Close);
    // session b keeps posting and receiving
    assert_eq!(post(&mut store, "again"), RecvAction::Publish(Notification::Single(1)));
    let want = encode_single(&Msg::new(1, MSG_T_TEXT, "again".to_string()));
    assert_eq!(on_notification(&store, Notification::Single(1)), Some(want));
    assert_eq!(store.len(), 2);
    assert!(!store.is_full());
}
