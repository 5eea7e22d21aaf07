use base64::Engine;
use dc34_console::photo::{
    get_reply, list_reply, need_index_reply, next_photo_key, parse_photo_command, stored_reply,
    Photo, PhotoCommand, PutStep, NUM_CHUNKS,
};

fn wire(index: u16, data: &[u8; 64]) -> String {
    let mut body = index.to_be_bytes().to_vec();
    body.extend_from_slice(data);
    let crc = crc32fast::hash(&body);
    body.extend_from_slice(&crc.to_be_bytes());
    base64::engine::general_purpose::STANDARD.encode(body)
}

fn reply(step: PutStep) -> String {
    match step {
        PutStep::Reply(t) => t,
        PutStep::Store(_) => panic!("unexpected store"),
    }
}

fn chunk_data(i: usize) -> [u8; 64] {
    let mut d = [0u8; 64];
    for (j, b) in d.iter_mut().enumerate() {
        *b = (i * 64 + j) as u8;
    }
    d
}

#[test]
fn chunks_count_up_and_complete() {
    let mut p = Photo::new();
    assert_eq!(reply(p.put(&wire(0, &chunk_data(0)))), "OK 1/32");
    // sending the same chunk again does not count twice
    assert_eq!(reply(p.put(&wire(0, &chunk_data(0)))), "OK 1/32");
    for i in 1..NUM_CHUNKS - 1 {
        assert_eq!(reply(p.put(&wire(i as u16, &chunk_data(i)))), format!("OK {}/32", i + 1));
    }
    assert_eq!(p.received(), 31);
    match p.put(&wire(31, &chunk_data(31))) {
        PutStep::Store(bytes) => {
            assert_eq!(bytes.len(), 2048);
            // word 0 is bytes 0..4 of chunk 0 read big-endian, laid out in memory order
            let w0 = u32::from_be_bytes([0, 1, 2, 3]);
            assert_eq!(&bytes[0..4], &w0.to_ne_bytes());
            let w17 = u32::from_be_bytes([68, 69, 70, 71]);
            assert_eq!(&bytes[68..72], &w17.to_ne_bytes());
        }
        PutStep::Reply(t) => panic!("expected the photo, got {t}"),
    }
    // the slots are empty again for the next photo
    assert_eq!(p.received(), 0);
}

#[test]
fn resent_chunk_replaces_data() {
    // chunk 0 first sent with zeros, then with its real data: the real data ends up in the photo
    let mut p = Photo::new();
    assert_eq!(reply(p.put(&wire(0, &[0u8; 64]))), "OK 1/32");
    assert_eq!(reply(p.put(&wire(0, &chunk_data(0)))), "OK 1/32");
    for i in 1..NUM_CHUNKS - 1 {
        p.put(&wire(i as u16, &chunk_data(i)));
    }
    match p.put(&wire(31, &chunk_data(31))) {
        PutStep::Store(bytes) => {
            let w1 = u32::from_be_bytes([4, 5, 6, 7]);
            assert_eq!(&bytes[4..8], &w1.to_ne_bytes());
        }
        PutStep::Reply(t) => panic!("{t}"),
    }
}

#[test]
fn to_bitmap_of_complete_photo() {
    // to_bitmap needs every chunk: fill 31 then check the words through the stored bytes
    let mut p = Photo::new();
    for i in (0..NUM_CHUNKS).rev() {
        let step = p.put(&wire(i as u16, &chunk_data(i)));
        if i == 0 {
            match step {
                PutStep::Store(bytes) => {
                    let last = u32::from_be_bytes([0xfc, 0xfd, 0xfe, 0xff]);
                    assert_eq!(&bytes[2044..2048], &last.to_ne_bytes());
                }
                PutStep::Reply(t) => panic!("{t}"),
            }
        }
    }
}

#[test]
fn bad_chunks_are_refused() {
    let mut p = Photo::new();
    assert_eq!(reply(p.put("not base64!")), "ERR bad chunk");
    assert_eq!(reply(p.put("")), "ERR bad chunk");
    let short = base64::engine::general_purpose::STANDARD.encode([1u8, 2, 3]);
    assert_eq!(reply(p.put(&short)), "ERR bad chunk");
    // a corrupted CRC
    let mut body = 3u16.to_be_bytes().to_vec();
    body.extend_from_slice(&[9u8; 64]);
    let crc = crc32fast::hash(&body) ^ 1;
    body.extend_from_slice(&crc.to_be_bytes());
    assert_eq!(reply(p.put(&base64::engine::general_purpose::STANDARD.encode(&body))), "ERR crc");
    // an index past the last chunk
    assert_eq!(reply(p.put(&wire(32, &[0u8; 64]))), "ERR index 32");
    assert_eq!(reply(p.put(&wire(0x1234, &[0u8; 64]))), "ERR index 4660");
    assert_eq!(p.received(), 0);
}

#[test]
fn put_clear_discards() {
    let mut p = Photo::new();
    p.put(&wire(5, &[1u8; 64]));
    assert_eq!(p.received(), 1);
    assert_eq!(reply(p.put("clear")), "CLEAR");
    assert_eq!(p.received(), 0);
    assert_eq!(reply(p.put(&wire(5, &[1u8; 64]))), "OK 1/32");
}

#[test]
fn accept_chunk_with_given_crc() {
    let mut p = Photo::new();
    let mut body = 2u16.to_be_bytes().to_vec();
    body.extend_from_slice(&[7u8; 64]);
    body.extend_from_slice(&0xdeadbeefu32.to_be_bytes());
    assert_eq!(reply(p.accept_chunk(Some(body.clone()), 0xdeadbeef)), "OK 1/32");
    assert_eq!(reply(p.accept_chunk(Some(body), 0xdeadbeee)), "ERR crc");
    assert_eq!(reply(p.accept_chunk(None, 0)), "ERR bad chunk");
}

fn keys(ks: &[&str]) -> Vec<String> {
    ks.iter().map(|k| k.to_string()).collect()
}

#[test]
fn photo_keys_are_numbered_past_the_largest() {
    assert_eq!(next_photo_key(&keys(&[])), Some("photo_0000".to_string()));
    assert_eq!(next_photo_key(&keys(&["photo_0000", "photo_0003"])), Some("photo_0004".to_string()));
    assert_eq!(next_photo_key(&keys(&["photo_12", "other", "photo_x", "photo_+7"])), Some("photo_0013".to_string()));
    assert_eq!(next_photo_key(&keys(&["photo_9998"])), Some("photo_9999".to_string()));
    // four digits are used up: no key that would sort before photo_9999
    assert_eq!(next_photo_key(&keys(&["photo_9999"])), None);
    assert_eq!(next_photo_key(&keys(&["photo_0001", "photo_4294967295"])), None);
    let full: Vec<String> = (0..32).map(|i| format!("photo_{:04}", i)).collect();
    assert_eq!(next_photo_key(&full), None);
}

#[test]
fn new_key_sorts_after_stored_keys() {
    let stored = keys(&["photo_0009", "photo_0100", "photo_0042", "other"]);
    let k = next_photo_key(&stored).unwrap();
    assert_eq!(k, "photo_0101");
    for s in &stored {
        if s.starts_with("photo_") {
            assert!(s.as_str() < k.as_str());
        }
    }
}

#[test]
fn uploader_order_does_not_matter() {
    let mut d = [0u8; 2048];
    for (i, b) in d.iter_mut().enumerate() {
        *b = (i * 7 + 3) as u8;
    }
    let mut p = Photo::new();
    let order: Vec<usize> = (0..NUM_CHUNKS).map(|i| (i * 5 + 3) % NUM_CHUNKS).collect();
    for (j, &n) in order.iter().enumerate() {
        let mut c = [0u8; 64];
        c.copy_from_slice(&d[64 * n..64 * n + 64]);
        match p.put(&wire(n as u16, &c)) {
            PutStep::Reply(t) => assert_eq!(t, format!("OK {}/32", j + 1)),
            PutStep::Store(bytes) => {
                assert_eq!(j, 31);
                for k in 0..512 {
                    let w = u32::from_be_bytes([d[4 * k], d[4 * k + 1], d[4 * k + 2], d[4 * k + 3]]);
                    assert_eq!(&bytes[4 * k..4 * k + 4], &w.to_ne_bytes());
                }
            }
        }
    }
}

#[test]
fn photo_commands() {
    assert!(matches!(parse_photo_command("list"), PhotoCommand::List));
    assert!(matches!(parse_photo_command("  get 3 "), PhotoCommand::Get { index: 3, as_art: false }));
    assert!(matches!(parse_photo_command("ascii 0"), PhotoCommand::Get { index: 0, as_art: true }));
    assert!(matches!(parse_photo_command("get"), PhotoCommand::NeedIndex { as_art: false }));
    assert!(matches!(parse_photo_command("ascii -1"), PhotoCommand::NeedIndex { as_art: true }));
    assert!(matches!(parse_photo_command("script"), PhotoCommand::Script));
    match parse_photo_command("put clear") {
        PhotoCommand::Put { chunk } => assert_eq!(chunk, "clear"),
        _ => panic!(),
    }
    match parse_photo_command("put") {
        PhotoCommand::Put { chunk } => assert_eq!(chunk, ""),
        _ => panic!(),
    }
    assert!(matches!(parse_photo_command(""), PhotoCommand::Help));
    assert!(matches!(parse_photo_command("lists"), PhotoCommand::Help));
}

#[test]
fn photo_replies() {
    assert_eq!(list_reply(Some(3)), "3 photo(s), indices 0..2");
    assert_eq!(list_reply(Some(0)), "0 photo(s), indices 0..0");
    assert_eq!(list_reply(None), "ERR no answer from vault");
    assert_eq!(get_reply(4, Some(1)), "SUCCESS");
    assert_eq!(get_reply(4, Some(0)), "ERR no photo 4");
    assert_eq!(get_reply(4, None), "ERR no answer from vault");
    assert_eq!(need_index_reply(true), "ERR need an index: photo ascii <n>");
    assert_eq!(need_index_reply(false), "ERR need an index: photo get <n>");
    assert_eq!(stored_reply(Some("photo_0001".to_string())), "SUCCESS stored as photo_0001");
    assert_eq!(stored_reply(None), "ERR photo store full");
}
