use steamp2p::aggregator::pack_frame_list;
use steamp2p::aggregator::unpack_payloads;
use steamp2p::aggregator::FrameTable;
use steamp2p::aggregator::GameStartBuffer;
use steamp2p::message::MsgServerFrameData;

#[test]
fn submit_channel_keeps_only_the_latest_payload() {
    // submit_channel(id, t, p1) then submit_channel(id, t, p2): the table
    // holds only p2 for (id, t).
    let mut table = FrameTable::new();
    assert!(table.submit_channel(7, 3, vec![1, 1, 1]));
    assert!(table.submit_channel(7, 3, vec![2, 2]));
    assert_eq!(table.channel_payload(7, 3), Some(&vec![2, 2]));

    let frames = table.flush_channels(7);
    assert_eq!(frames.len(), 1);
    assert_eq!(frames[0].channel_type, 3);
    assert_eq!(frames[0].payload, vec![2, 2]);
}

#[test]
fn submit_channel_leaves_other_pairs_alone() {
    let mut table = FrameTable::new();
    assert!(table.submit_channel(7, 3, vec![1]));
    assert!(table.submit_channel(7, 4, vec![2]));
    assert!(table.submit_channel(8, 3, vec![3]));
    assert!(table.submit_channel(7, 3, vec![9, 9]));
    assert_eq!(table.channel_payload(7, 3), Some(&vec![9, 9]));
    assert_eq!(table.channel_payload(7, 4), Some(&vec![2]));
    assert_eq!(table.channel_payload(8, 3), Some(&vec![3]));
    assert_eq!(table.channel_payload(8, 4), None);
}

#[test]
fn flush_channels_drains_one_identity_in_first_submission_order() {
    let mut table = FrameTable::new();
    assert!(table.submit_channel(1, 10, vec![1]));
    assert!(table.submit_channel(2, 20, vec![2]));
    assert!(table.submit_channel(1, 11, vec![3]));
    let frames = table.flush_channels(1);
    assert_eq!(frames.len(), 2);
    assert_eq!(frames[0].channel_type, 10);
    assert_eq!(frames[1].channel_type, 11);
    // identity 1 is drained, identity 2 remains
    assert_eq!(table.channel_payload(1, 10), None);
    assert_eq!(table.channel_payload(1, 11), None);
    assert_eq!(table.channel_payload(2, 20), Some(&vec![2]));
}

#[test]
fn take_all_empties_the_table_and_reports_payload_bytes() {
    let mut table = FrameTable::new();
    assert!(table.submit_channel(1, 10, vec![1, 2, 3]));
    assert!(table.submit_channel(2, 20, vec![4]));
    let (frames, buffer_size) = table.take_all();
    assert_eq!(frames.len(), 2);
    assert_eq!(frames[0].local_steam_id, 1);
    assert_eq!(frames[0].types, 10);
    assert_eq!(frames[0].data, vec![1, 2, 3]);
    assert_eq!(frames[1].local_steam_id, 2);
    assert_eq!(buffer_size, 4);
    let (rest, rest_size) = table.take_all();
    assert!(rest.is_empty());
    assert_eq!(rest_size, 0);
}

#[test]
fn submit_channel_refuses_a_payload_beyond_its_prefix() {
    let mut table = FrameTable::new();
    assert!(!table.submit_channel(1, 1, vec![0u8; 0x10000]));
    assert_eq!(table.channel_payload(1, 1), None);
    assert!(table.submit_channel(1, 1, vec![0u8; 0xFFFF]));
}

#[test]
fn submit_start_replaces_and_adjusts_total_size() {
    // submit_start(A, [1,2,3]) then submit_start(A, [9,9]): pack() yields
    // a single 2-byte-length-prefixed entry of length 2 containing [9,9],
    // and total_size == 4.
    let mut start = GameStartBuffer::new();
    assert!(start.submit_start(5, vec![1, 2, 3]));
    assert_eq!(start.total_size(), 5);
    assert!(start.submit_start(5, vec![9, 9]));
    assert_eq!(start.total_size(), 4);
    assert_eq!(start.entry_count(), 1);

    let packed = start.pack();
    assert_eq!(packed.entry_count, 1);
    assert_eq!(packed.bytes, vec![2, 0, 9, 9]);
    assert_eq!(packed.bytes.len() as u32, start.total_size());
}

#[test]
fn pack_output_length_equals_total_size_and_round_trips() {
    // pack() output length always equals total_size; unpacking the
    // length-prefixed segments reproduces exactly the submitted payloads
    // in identity order.
    let mut start = GameStartBuffer::new();
    assert!(start.submit_start(3, vec![10, 11]));
    assert!(start.submit_start(1, vec![]));
    assert!(start.submit_start(2, vec![7, 7, 7]));
    let packed = start.pack();
    assert_eq!(packed.bytes.len() as u32, start.total_size());
    assert_eq!(packed.entry_count, 3);

    let payloads = unpack_payloads(&packed.bytes).expect("a packed buffer unpacks");
    assert_eq!(payloads, vec![vec![10, 11], vec![], vec![7, 7, 7]]);
}

#[test]
fn take_message_consumes_the_start_payload() {
    let mut start = GameStartBuffer::new();
    assert!(start.submit_start(1, vec![5]));
    let msg = start.take_message();
    assert_eq!(msg.buffer_size, 1);
    assert_eq!(msg.game_data.len(), 1);
    assert_eq!(msg.game_data[0].local_steam_id, 1);
    assert_eq!(msg.game_data[0].data, vec![5]);
    assert_eq!(start.entry_count(), 0);
    assert_eq!(start.total_size(), 0);
}

#[test]
fn pack_frame_list_rejects_a_size_mismatch() {
    // An advertised size that does not match the actual payload sum is
    // corruption: the packed buffer is empty and the count zero.
    let frames = vec![MsgServerFrameData { types: 0, data: vec![1, 2, 3], local_steam_id: 9 }];
    let packed = pack_frame_list(&frames, 2);
    assert!(packed.bytes.is_empty());
    assert_eq!(packed.entry_count, 0);
}

#[test]
fn pack_frame_list_rejects_an_oversized_payload() {
    let frames = vec![
        MsgServerFrameData { types: 0, data: vec![0u8; 0x10000], local_steam_id: 9 },
    ];
    let packed = pack_frame_list(&frames, 0x10000);
    assert!(packed.bytes.is_empty());
    assert_eq!(packed.entry_count, 0);
}

#[test]
fn pack_frame_list_packs_a_consistent_list() {
    let frames = vec![
        MsgServerFrameData { types: 0, data: vec![1, 2], local_steam_id: 1 },
        MsgServerFrameData { types: 0, data: vec![3], local_steam_id: 2 },
    ];
    let packed = pack_frame_list(&frames, 3);
    assert_eq!(packed.entry_count, 2);
    assert_eq!(packed.bytes, vec![2, 0, 1, 2, 1, 0, 3]);
    assert_eq!(packed.bytes.len(), 3 + 2 * 2);
}

#[test]
fn empty_buffer_packs_and_unpacks_to_nothing() {
    let start = GameStartBuffer::new();
    let packed = start.pack();
    assert!(packed.bytes.is_empty());
    assert_eq!(packed.entry_count, 0);
    assert_eq!(unpack_payloads(&packed.bytes), Some(Vec::new()));
}

#[test]
fn unpack_refuses_a_truncated_buffer() {
    assert_eq!(unpack_payloads(&vec![2, 0, 9]), None);
    assert_eq!(unpack_payloads(&vec![5]), None);
}
