use voxel_server::connection::{handle_client, decode_message, ClientStep, ReadEvent};
use voxel_server::world_command::WorldCommand;

fn spaced(text: &str) -> Vec<u8> {
    let mut bytes = text.as_bytes().to_vec();
    bytes.resize(64, b' ');
    bytes
}

fn identification(name: &str) -> Vec<u8> {
    let mut message = vec![0x00u8, 7];
    message.extend(spaced(name));
    message.extend(spaced("key"));
    message
}

#[test]
fn identification_becomes_add_player() {
    let name = String::from_utf8(spaced("Alice")).unwrap();
    assert_eq!(
        decode_message(3, &identification("Alice")),
        Some(WorldCommand::AddPlayer { player_id: 3, name })
    );
}

#[test]
fn set_block_becomes_set_block() {
    let message = [0x05u8, 0, 1, 0, 2, 0, 3, 1, 49];
    assert_eq!(
        decode_message(3, &message),
        Some(WorldCommand::SetBlock { x: 1, y: 2, z: 3, value: 49, mode: 1 })
    );
}

#[test]
fn position_becomes_move_player_of_the_connection() {
    let message = [0x08u8, 255, 0, 10, 0, 20, 1, 0, 64, 32];
    assert_eq!(
        decode_message(12, &message),
        Some(WorldCommand::MovePlayer { player_id: 12, x: 10, y: 20, z: 256, yaw: 64, pitch: 32 })
    );
}

#[test]
fn chat_becomes_player_message() {
    let mut message = vec![0x0du8, 0xff];
    message.extend(spaced("hello"));
    let text = String::from_utf8(spaced("hello")).unwrap();
    assert_eq!(
        decode_message(5, &message),
        Some(WorldCommand::PlayerMessage { player_id: 5, message: text })
    );
}

#[test]
fn bytes_after_the_message_are_ignored() {
    let mut message = vec![0x05u8, 0, 1, 0, 2, 0, 3, 0, 7];
    message.extend([0xffu8; 40]);
    assert_eq!(
        decode_message(3, &message),
        Some(WorldCommand::SetBlock { x: 1, y: 2, z: 3, value: 7, mode: 0 })
    );
}

#[test]
fn unknown_opcodes_are_ignored() {
    for opcode in [0x01u8, 0x02, 0x06, 0x07, 0x0c, 0x10, 0xff] {
        let mut message = vec![opcode];
        message.extend([0u8; 200]);
        assert_eq!(decode_message(3, &message), None);
    }
}

#[test]
fn cut_messages_are_dropped() {
    assert_eq!(decode_message(3, &[]), None);
    assert_eq!(decode_message(3, &[0x05, 0, 1, 0, 2, 0, 3, 1]), None);
    assert_eq!(decode_message(3, &[0x08, 255, 0, 10, 0, 20, 1, 0, 64]), None);
    let whole = identification("Alice");
    assert_eq!(decode_message(3, &whole[..129]), None);
    let mut chat = vec![0x0du8, 0];
    chat.extend(vec![b'a'; 63]);
    assert_eq!(decode_message(3, &chat), None);
}

#[test]
fn messages_with_bad_text_are_dropped() {
    let mut bad_name = identification("Alice");
    bad_name[2] = 0xff;
    assert_eq!(decode_message(3, &bad_name), None);
    let mut bad_key = identification("Alice");
    bad_key[70] = 0xff;
    assert_eq!(decode_message(3, &bad_key), None);
    let mut chat = vec![0x0du8, 0];
    chat.extend(vec![0xc3u8; 64]);
    assert_eq!(decode_message(3, &chat), None);
}

#[test]
fn a_closed_connection_removes_the_player() {
    assert_eq!(
        handle_client(9, ReadEvent::Data { received: vec![] }),
        ClientStep { command: Some(WorldCommand::RemovePlayer { player_id: 9 }), open: false }
    );
}

#[test]
fn a_failed_read_removes_the_player() {
    assert_eq!(
        handle_client(9, ReadEvent::Failed),
        ClientStep { command: Some(WorldCommand::RemovePlayer { player_id: 9 }), open: false }
    );
}

#[test]
fn received_bytes_keep_the_connection_open() {
    assert_eq!(
        handle_client(9, ReadEvent::Data { received: vec![0x05, 0, 1, 0, 2, 0, 3, 1, 49] }),
        ClientStep {
            command: Some(WorldCommand::SetBlock { x: 1, y: 2, z: 3, value: 49, mode: 1 }),
            open: true
        }
    );
    assert_eq!(
        handle_client(9, ReadEvent::Data { received: vec![0x77, 1, 2] }),
        ClientStep { command: None, open: true }
    );
    assert_eq!(
        handle_client(9, ReadEvent::Data { received: vec![0x05, 1] }),
        ClientStep { command: None, open: true }
    );
}
