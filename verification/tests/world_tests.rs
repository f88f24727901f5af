use flate2::read::GzDecoder;
use std::collections::HashMap;
use std::io::Read;
use voxel_server::effect::{Effect, Warning};
use voxel_server::packet;
use voxel_server::persist::PersistError;
use voxel_server::player::Player;
use voxel_server::world::World;

fn small_world() -> World {
    World { size_x: 2, size_y: 3, size_z: 4, data: vec![0; 24], players: HashMap::new() }
}

fn gunzip(blob: &[u8]) -> Vec<u8> {
    let mut out = Vec::new();
    GzDecoder::new(blob).read_to_end(&mut out).unwrap();
    out
}

fn sorted(mut ids: Vec<u32>) -> Vec<u32> {
    ids.sort();
    ids
}

#[test]
fn new_world_has_ground_under_air() {
    let world = World::new();
    assert_eq!((world.size_x, world.size_y, world.size_z), (128, 64, 128));
    assert_eq!(world.data.len(), 128 * 64 * 128);
    assert!(world.data[..128 * 128].iter().all(|b| *b == 2));
    assert!(world.data[128 * 128..].iter().all(|b| *b == 0));
    assert!(world.players.is_empty());
}

#[test]
fn set_block_writes_at_the_linear_index() {
    let mut world = small_world();
    let effects = world.set_block(1, 2, 3, 9, None);
    assert!(effects.is_empty());
    let index = 1 + 2 * (3 + 4 * 2);
    assert_eq!(world.data[index], 9);
    let mut expected = vec![0u8; 24];
    expected[index] = 9;
    assert_eq!(world.data, expected);
}

#[test]
fn set_block_then_read_for_every_voxel() {
    let mut world = small_world();
    let mut value = 1u8;
    for y in 0..3 {
        for z in 0..4 {
            for x in 0..2 {
                world.set_block(x, y, z, value, Some(false));
                assert_eq!(world.data[x + 2 * (z + 4 * y)], value);
                value += 1;
            }
        }
    }
    let expected: Vec<u8> = (1..=24).collect();
    assert_eq!(world.data, expected);
}

#[test]
fn set_block_out_of_bounds_changes_nothing() {
    let mut world = small_world();
    world.set_block(0, 0, 0, 7, None);
    let before = world.data.clone();
    for (x, y, z) in [(2, 0, 0), (0, 3, 0), (0, 0, 4), (usize::MAX, 1, 1), (9, 9, 9)] {
        let effects = world.set_block(x, y, z, 5, Some(true));
        assert_eq!(effects, vec![Effect::Warn { warning: Warning::OutOfBounds { x, y, z } }]);
        assert_eq!(world.data, before);
    }
}

#[test]
fn set_block_with_update_tells_every_player() {
    let mut world = small_world();
    world.handle_add_player(4, String::from("a"));
    world.handle_add_player(9, String::from("b"));
    let effects = world.set_block(1, 0, 2, 5, Some(true));
    assert_eq!(effects.len(), 1);
    match &effects[0] {
        Effect::Broadcast { recipients, data } => {
            assert_eq!(sorted(recipients.clone()), vec![4, 9]);
            assert_eq!(data, &packet::set_block(1, 0, 2, 5));
        }
        other => panic!("unexpected effect {:?}", other),
    }
    assert!(world.set_block(1, 0, 2, 6, Some(false)).is_empty());
    assert!(world.set_block(1, 0, 2, 6, None).is_empty());
}

#[test]
fn broadcast_names_each_player_once() {
    let mut world = small_world();
    for id in [1u32, 2, 3, 300] {
        world.handle_add_player(id, format!("p{}", id));
    }
    match world.broadcast(&[1, 2, 3]) {
        Effect::Broadcast { recipients, data } => {
            assert_eq!(sorted(recipients), vec![1, 2, 3, 300]);
            assert_eq!(data, vec![1, 2, 3]);
        }
        other => panic!("unexpected effect {:?}", other),
    }
    assert_eq!(sorted(world.player_ids()), vec![1, 2, 3, 300]);
}

#[test]
fn broadcast_in_an_empty_world_has_no_recipient() {
    let world = small_world();
    assert_eq!(world.broadcast(&[7]), Effect::Broadcast { recipients: vec![], data: vec![7] });
}

#[test]
fn broadcast_message_goes_to_console_and_players() {
    let mut world = small_world();
    world.handle_add_player(5, String::from("Eve"));
    let line = String::from("hello");
    let effects = world.broadcast_message(&line);
    assert_eq!(
        effects,
        vec![
            Effect::Console { line: line.clone() },
            Effect::Broadcast { recipients: vec![5], data: packet::message(&line) },
        ]
    );
}

#[test]
fn to_gzip_holds_count_and_voxels() {
    let mut world = small_world();
    world.set_block(1, 1, 1, 42, None);
    let blob = world.to_gzip().unwrap();
    let payload = gunzip(&blob);
    assert_eq!(&payload[..4], &[0, 0, 0, 24]);
    assert_eq!(&payload[4..], &world.data[..]);
}

#[test]
fn save_content_decompresses_to_the_grid() {
    let mut world = small_world();
    for i in 0..24usize {
        world.data[i] = (i * 10) as u8;
    }
    let file = world.save().unwrap();
    let payload = gunzip(&file);
    assert_eq!(payload[4..].to_vec(), world.data);
    assert_eq!(payload.len(), 28);
}

#[test]
fn from_gzip_keeps_the_header() {
    let world = small_world();
    let blob = world.to_gzip().unwrap();
    let mut expected = vec![0u8, 0, 0, 24];
    expected.extend(vec![0u8; 24]);
    assert_eq!(world.from_gzip(blob), Ok(expected));
    assert_eq!(world.from_gzip(vec![1, 2, 3]), Err(PersistError::Decompress));
}

#[test]
fn load_restores_what_was_saved() {
    let mut saved = small_world();
    saved.set_block(0, 0, 0, 1, None);
    saved.set_block(1, 2, 3, 200, None);
    let file = saved.save().unwrap();
    let mut fresh = small_world();
    assert_eq!(fresh.load(file), Ok(()));
    assert_eq!(fresh.data, saved.data);
    assert_eq!((fresh.size_x, fresh.size_y, fresh.size_z), (2, 3, 4));
}

#[test]
fn load_of_the_default_world_round_trips() {
    let mut saved = World::new();
    saved.set_block(5, 6, 7, 33, None);
    let file = saved.save().unwrap();
    let mut fresh = World::new();
    assert_eq!(fresh.load(file), Ok(()));
    assert_eq!(fresh.data, saved.data);
}

#[test]
fn load_refuses_a_grid_of_another_size() {
    let other = World { size_x: 2, size_y: 2, size_z: 2, data: vec![7; 8], players: HashMap::new() };
    let file = other.save().unwrap();
    let mut world = small_world();
    world.set_block(0, 1, 0, 3, None);
    let before = world.data.clone();
    assert_eq!(world.load(file), Err(PersistError::SizeMismatch));
    assert_eq!(world.data, before);
}

#[test]
fn load_refuses_garbage_and_keeps_the_world() {
    let mut world = small_world();
    world.set_block(0, 1, 0, 3, None);
    let before = world.data.clone();
    assert_eq!(world.load(vec![0x1f, 0x8b, 0, 0]), Err(PersistError::Decompress));
    assert_eq!(world.load(Vec::new()), Err(PersistError::Decompress));
    assert_eq!(world.data, before);
}

#[test]
fn load_keeps_the_players() {
    let mut world = small_world();
    world.handle_add_player(2, String::from("Bob"));
    let file = small_world().save().unwrap();
    assert_eq!(world.load(file), Ok(()));
    assert_eq!(world.player_ids(), vec![2]);
}

#[test]
fn restore_takes_an_uncompressed_payload() {
    let mut world = small_world();
    let mut payload = vec![0u8, 0, 0, 24];
    payload.extend((0..24).map(|i| i as u8));
    assert_eq!(world.restore(payload), Ok(()));
    assert_eq!(world.data, (0..24).map(|i| i as u8).collect::<Vec<u8>>());
    assert_eq!(world.restore(vec![0, 0]), Err(PersistError::Truncated));
    assert_eq!(world.restore(vec![0, 0, 0, 1, 5]), Err(PersistError::SizeMismatch));
    assert_eq!(world.data.len(), 24);
}

#[test]
fn player_joins_at_the_spawn_point() {
    let player = Player::new(7, String::from("Ann"));
    assert_eq!(
        player,
        Player { id: 7, name: String::from("Ann"), x: 32, y: 32, z: 32, yaw: 0, pitch: 0 }
    );
    assert_eq!(player.send(&[1, 2]), Effect::Send { to: 7, data: vec![1, 2] });
    assert_eq!(
        player.spawn_packet(),
        packet::spawn_player_packet(7, &String::from("Ann"), 32, 32, 32, 0, 0)
    );
}

#[test]
fn player_id_on_the_wire_is_its_low_byte() {
    let player = Player::new(0x1234_5601, String::from("far"));
    assert_eq!(player.spawn_packet()[1], 0x01);
    assert_eq!(voxel_server::player::id_byte(255), 255);
    assert_eq!(voxel_server::player::id_byte(256), 0);
}

#[test]
fn send_level_sends_the_transfer_in_order() {
    let player = Player::new(3, String::from("Cy"));
    let blob: Vec<u8> = (0..1500).map(|i| (i % 200) as u8).collect();
    let effects = player.send_level(Ok(blob.clone()), 2, 3, 4);
    let expected: Vec<Effect> = packet::level_transfer(&blob, 2, 3, 4)
        .into_iter()
        .map(|data| Effect::Send { to: 3, data })
        .collect();
    assert_eq!(effects.len(), 4);
    assert_eq!(effects, expected);
}

#[test]
fn send_level_without_a_level_warns() {
    let player = Player::new(3, String::from("Cy"));
    assert_eq!(
        player.send_level(Err(PersistError::Compress), 2, 3, 4),
        vec![Effect::Warn { warning: Warning::LevelUnavailable { to: 3 } }]
    );
}

#[test]
fn send_world_transfers_the_compressed_grid() {
    let world = small_world();
    let player = Player::new(8, String::from("Di"));
    let effects = player.send_world(&world);
    let blob = world.to_gzip().unwrap();
    let expected: Vec<Effect> = packet::level_transfer(&blob, 2, 3, 4)
        .into_iter()
        .map(|data| Effect::Send { to: 8, data })
        .collect();
    assert_eq!(effects, expected);
    assert_eq!(effects.first(), Some(&Effect::Send { to: 8, data: vec![0x02] }));
    assert_eq!(effects.last(), Some(&Effect::Send { to: 8, data: vec![0x04, 0, 2, 0, 3, 0, 4] }));
}
