use bus1553::abonne::Abonne;
use bus1553::equipement::Equipement;
use bus1553::functions::Functions;
use bus1553::handler::{
    message_read_step, plain_read_step, select_peers, FrameStep, Observer1553, Reader1553,
    StreamEvent, StreamStep,
};
use bus1553::message1553::Message1553;
use bus1553::server::Server;
use bus1553::spec_buffer::SpecBuffer;

fn sample() -> Message1553 {
    Message1553::new(0x0102, "ab".to_string(), "c".to_string(), vec![0x1234, 0x00ff])
}

const SAMPLE_BYTES: [u8; 19] = [
    0x01, 0x02, 0, 0, 0, 2, b'a', b'b', 0, 0, 0, 1, b'c', 0, 2, 0x12, 0x34, 0x00, 0xff,
];

#[test]
fn new_counts_the_data_words() {
    let m = sample();
    assert_eq!(m.clone().get_command_word(), 0x0102);
    assert_eq!(m.clone().get_adresse_1553(), "ab");
    assert_eq!(m.clone().get_sous_adresse_1553(), "c");
    assert_eq!(m.clone().get_taille_message(), 2);
    assert_eq!(m.get_mots_donnees(), vec![0x1234, 0x00ff]);
}

#[test]
fn new_word_count_wraps_modulo_65536() {
    let m = Message1553::new(1, String::new(), String::new(), vec![7u16; 65537]);
    assert_eq!(m.get_taille_message(), 1);
}

#[test]
fn from_parts_keeps_the_given_count() {
    let m = Message1553::from_parts(5, "x".to_string(), "y".to_string(), 9, vec![1]);
    assert_eq!(m.clone().get_taille_message(), 9);
    assert_eq!(m.get_mots_donnees(), vec![1]);
}

#[test]
fn default_message_is_empty() {
    let m = Message1553::default();
    assert_eq!(m.clone().get_command_word(), 0);
    assert_eq!(m.clone().get_adresse_1553(), "");
    assert_eq!(m.clone().get_taille_message(), 0);
    assert!(m.get_mots_donnees().is_empty());
}

#[test]
fn encode_gives_the_documented_layout() {
    assert_eq!(sample().do_encode(), SAMPLE_BYTES.to_vec());
}

#[test]
fn encode_writes_utf8_byte_lengths() {
    let m = Message1553::new(0, "é".to_string(), String::new(), vec![]);
    assert_eq!(m.do_encode(), vec![0, 0, 0, 0, 0, 2, 0xc3, 0xa9, 0, 0, 0, 0, 0, 0]);
}

#[test]
fn decode_reads_the_documented_layout() {
    let m = Message1553::decode(&SAMPLE_BYTES).expect("a message");
    assert_eq!(m.clone().get_command_word(), 0x0102);
    assert_eq!(m.clone().get_adresse_1553(), "ab");
    assert_eq!(m.clone().get_sous_adresse_1553(), "c");
    assert_eq!(m.clone().get_taille_message(), 2);
    assert_eq!(m.get_mots_donnees(), vec![0x1234, 0x00ff]);
}

#[test]
fn do_decode_reads_the_documented_layout() {
    let m = Message1553::do_decode(&SAMPLE_BYTES);
    assert_eq!(m.do_encode(), SAMPLE_BYTES.to_vec());
}

#[test]
fn decode_after_encode_gives_the_message_back() {
    let m = Message1553::new(
        4242,
        "adresse-é".to_string(),
        "sous".to_string(),
        vec![0, 1, 0xffff, 0x8000],
    );
    let mut bytes = m.do_encode();
    bytes.extend_from_slice(&[9, 9, 9]);
    let back = Message1553::decode(&bytes).expect("a message");
    assert_eq!(back.clone().get_command_word(), 4242);
    assert_eq!(back.clone().get_adresse_1553(), "adresse-é");
    assert_eq!(back.clone().get_sous_adresse_1553(), "sous");
    assert_eq!(back.clone().get_taille_message(), 4);
    assert_eq!(back.get_mots_donnees(), vec![0, 1, 0xffff, 0x8000]);
}

#[test]
fn encode_after_decode_gives_the_bytes_read() {
    let mut bytes = SAMPLE_BYTES.to_vec();
    bytes.push(0x77);
    let m = Message1553::decode(&bytes).expect("a message");
    assert_eq!(m.do_encode(), SAMPLE_BYTES.to_vec());
}

#[test]
fn decode_refuses_fewer_than_six_bytes() {
    assert!(Message1553::decode(&[0, 1, 0, 0, 0]).is_none());
    assert!(Message1553::decode(&[]).is_none());
}

#[test]
fn decode_refuses_a_cut_address() {
    assert!(Message1553::decode(&[0, 1, 0, 0, 0, 5, b'a', b'b']).is_none());
}

#[test]
fn decode_refuses_a_missing_sub_address() {
    assert!(Message1553::decode(&[0, 1, 0, 0, 0, 0]).is_none());
}

#[test]
fn decode_refuses_an_address_that_is_not_utf8() {
    assert!(Message1553::decode(&[0, 1, 0, 0, 0, 1, 0xff, 0, 0, 0, 0, 0, 0]).is_none());
}

#[test]
fn decode_refuses_missing_data_words() {
    assert!(Message1553::decode(&[0, 1, 0, 0, 0, 0, 0, 0, 0, 0, 0, 2, 0, 1]).is_none());
    assert!(Message1553::decode(&[0, 1, 0, 0, 0, 0, 0, 0, 0, 0, 0]).is_none());
}

#[test]
fn decode_of_empty_fields() {
    let m = Message1553::decode(&[0, 7, 0, 0, 0, 0, 0, 0, 0, 0, 0, 0]).expect("a message");
    assert_eq!(m.clone().get_command_word(), 7);
    assert_eq!(m.clone().get_adresse_1553(), "");
    assert_eq!(m.get_taille_message(), 0);
}

#[test]
fn buffer_writes_big_endian_numbers() {
    let mut b = SpecBuffer::new();
    b.write_u8(0xab);
    b.write_u16(0x0102);
    b.write_u32(0x0304_0506);
    b.write_u64(0x0708_090a_0b0c_0d0e);
    b.write_i8(-1);
    b.write_i16(-2);
    b.write_i32(-3);
    b.write_i64(-4);
    assert_eq!(b.len(), 1 + 2 + 4 + 8 + 1 + 2 + 4 + 8);
    assert_eq!(
        b.as_bytes().to_vec(),
        vec![
            0xab, 1, 2, 3, 4, 5, 6, 7, 8, 9, 10, 11, 12, 13, 14, 0xff, 0xff, 0xfe, 0xff, 0xff,
            0xff, 0xfd, 0xff, 0xff, 0xff, 0xff, 0xff, 0xff, 0xff, 0xfc
        ]
    );
}

#[test]
fn buffer_reads_back_what_was_written() {
    let mut w = SpecBuffer::new();
    w.write_u8(200);
    w.write_u16(65000);
    w.write_u32(4_000_000_000);
    w.write_u64(u64::MAX - 5);
    w.write_i8(-100);
    w.write_i16(-30000);
    w.write_i32(-2_000_000_000);
    w.write_i64(i64::MIN);
    w.write_string("héllo".to_string());
    let bytes = w.as_bytes().to_vec();
    let mut r = SpecBuffer::from_bytes(&bytes);
    assert_eq!(r.read_u8(), 200);
    assert_eq!(r.read_u16(), 65000);
    assert_eq!(r.read_u32(), 4_000_000_000);
    assert_eq!(r.read_u64(), u64::MAX - 5);
    assert_eq!(r.read_i8(), -100);
    assert_eq!(r.read_i16(), -30000);
    assert_eq!(r.read_i32(), -2_000_000_000);
    assert_eq!(r.read_i64(), i64::MIN);
    assert_eq!(r.read_string(), "héllo");
}

#[test]
fn buffer_string_layout() {
    let mut w = SpecBuffer::default();
    w.write_string("ab".to_string());
    assert_eq!(w.as_bytes().to_vec(), vec![0, 0, 0, 2, b'a', b'b']);
}

#[test]
fn buffer_try_reads_fail_without_moving() {
    let mut r = SpecBuffer::from_bytes(&[1]);
    assert_eq!(r.try_read_u16(), None);
    assert_eq!(r.read_u8(), 1);
    let mut s = SpecBuffer::from_bytes(&[0, 0, 0, 3, b'a']);
    assert_eq!(s.try_read_string(), None);
    let mut t = SpecBuffer::from_bytes(&[0, 0, 0, 1, 0xff, 7]);
    assert_eq!(t.try_read_string(), None);
    assert_eq!(t.read_u8(), 7);
}

fn table() -> Functions {
    Functions::from_messages(vec![
        Message1553::new(1, "a".to_string(), "s1".to_string(), vec![1]),
        Message1553::new(12, "b".to_string(), "s2".to_string(), vec![2]),
        Message1553::new(1, "c".to_string(), "s3".to_string(), vec![3]),
    ])
}

#[test]
fn call_function_finds_the_first_match_by_decimal_command() {
    let f = table();
    assert_eq!(f.call_function("1").get_adresse_1553(), "a");
    assert_eq!(f.call_function("12").get_adresse_1553(), "b");
}

#[test]
fn find_function_is_none_without_match() {
    let f = table();
    assert!(f.find_function("01").is_none());
    assert!(f.find_function("2").is_none());
    assert!(f.find_function("").is_none());
}

#[test]
fn functions_lists_the_table_in_order() {
    let list = table().functions();
    assert_eq!(list.len(), 3);
    assert_eq!(list[2].clone().get_adresse_1553(), "c");
    assert!(Functions::default().functions().is_empty());
}

#[test]
fn reader_keeps_messages_in_order() {
    let mut r = Reader1553::new();
    assert!(r.clone().get_liste_messages_1553().is_empty());
    r.notify_message(Message1553::new(1, "a".to_string(), String::new(), vec![]));
    r.notify_message(Message1553::new(2, "b".to_string(), String::new(), vec![]));
    let list = r.clone().get_liste_messages_1553();
    assert_eq!(list.len(), 2);
    assert_eq!(list[0].clone().get_command_word(), 1);
    assert_eq!(r.lire_dernier_message().get_command_word(), 2);
}

#[test]
fn server_new_and_stop() {
    let s = Server::new("10.0.0.1", 1553);
    assert_eq!(s.address(), "10.0.0.1");
    assert_eq!(s.port(), 1553);
    assert!(s.reader().clone().get_liste_messages_1553().is_empty());
    let mut t = s.clone();
    t.stop();
    assert_eq!(t.address(), "10.0.0.1");
}

#[test]
fn abonne_listens_on_loopback() {
    let mut a = Abonne::new("7");
    assert_eq!(a.bus_server().address(), "127.0.0.7");
    assert_eq!(a.bus_server().port(), 1553);
    a.arreter();
    assert_eq!(a.bus_server().address(), "127.0.0.7");
}

#[test]
fn equipement_accessors() {
    let e = Equipement::new("host".to_string(), 42);
    assert_eq!(e.port(), 42);
    assert_eq!(e.address(), "host");
}

#[test]
fn select_peers_by_address_and_port() {
    let peers = vec![
        ("127.0.0.1".to_string(), 1553u16),
        ("127.0.0.2".to_string(), 1553u16),
        ("127.0.0.1".to_string(), 80u16),
        ("127.0.0.1".to_string(), 1553u16),
    ];
    assert_eq!(select_peers(&peers, "127.0.0.1", 1553), vec![0, 3]);
    assert!(select_peers(&peers, "10.0.0.1", 1553).is_empty());
}

#[test]
fn plain_read_loop_decisions() {
    assert!(matches!(plain_read_step(StreamEvent::Received(4)), StreamStep::Done));
    assert!(matches!(plain_read_step(StreamEvent::Received(3)), StreamStep::KeepReading));
    assert!(matches!(plain_read_step(StreamEvent::Failed), StreamStep::Done));
}

#[test]
fn message_read_loop_decisions() {
    match message_read_step(StreamEvent::Received(19), &SAMPLE_BYTES) {
        FrameStep::Deliver(m) => assert_eq!(m.get_command_word(), 0x0102),
        _ => panic!("expected a message"),
    }
    assert!(matches!(message_read_step(StreamEvent::Received(8), &[]), FrameStep::KeepReading));
    assert!(matches!(message_read_step(StreamEvent::Failed, &[]), FrameStep::Fail));
}

#[test]
fn decode_fits_the_target_for_ordinary_inputs() {
    assert!(Message1553::decode_fits_target(&SAMPLE_BYTES));
    assert!(Message1553::decode_fits_target(&[]));
    assert!(Message1553::decode_fits_target(&[0, 1, 0xff, 0xff, 0xff, 0xff]));
    assert!(Message1553::decode_fits_target(&[0u8; 12]));
}

#[test]
fn decode_of_the_sixteen_byte_example() {
    let bytes = [0x00, 0x01, 0, 0, 0, 1, 0x41, 0, 0, 0, 1, 0x42, 0x00, 0x01, 0x12, 0x34];
    let m = Message1553::do_decode(&bytes);
    assert_eq!(m.clone().get_command_word(), 1);
    assert_eq!(m.clone().get_adresse_1553(), "A");
    assert_eq!(m.clone().get_sous_adresse_1553(), "B");
    assert_eq!(m.clone().get_taille_message(), 1);
    assert_eq!(m.get_mots_donnees(), vec![0x1234]);
}

#[test]
fn clones_keep_what_they_hold() {
    let mut b = SpecBuffer::new();
    b.write_u16(0x0a0b);
    let mut c = b.clone();
    assert_eq!(c.as_bytes().to_vec(), vec![0x0a, 0x0b]);
    assert_eq!(c.read_u16(), 0x0a0b);
    let f = table().clone();
    assert_eq!(f.call_function("12").get_adresse_1553(), "b");
}

#[test]
fn encode_fits_for_ordinary_messages() {
    assert!(sample().encode_fits());
    assert!(Message1553::default().encode_fits());
    let m = Message1553::new(9, "é".repeat(100), "x".to_string(), vec![1; 1000]);
    assert!(m.encode_fits());
    assert_eq!(m.do_encode().len(), 12 + 200 + 1 + 2000);
}

#[test]
fn reader_keeps_every_notified_message_in_order() {
    let mut r = Reader1553::new();
    for k in 0..5u16 {
        r.notify_message(Message1553::new(k, String::new(), String::new(), vec![k]));
    }
    let list = r.get_liste_messages_1553();
    assert_eq!(list.len(), 5);
    for (k, m) in list.into_iter().enumerate() {
        assert_eq!(m.get_command_word() as usize, k);
    }
}
