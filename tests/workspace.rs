use candid::Principal as IcPrincipal;
use ic_candy::types::{CandyError, Principal};
use ic_candy::value::{CandyShared, ToCandyValue};
use ic_candy::workspace::{
    AddressedChunkArray, AddressedChunkArrayTrait, ChunkingType, DataZone, DataZoneTrait,
    Workspace, WorkspaceTrait,
};

fn mgmt() -> CandyShared {
    Principal::from_bytes(IcPrincipal::management_canister().as_slice().to_vec())
        .unwrap()
        .to_candy()
}

fn sample() -> Workspace {
    vec![
        vec![16_u128.to_candy(), mgmt()],
        vec![16_u128.to_candy(), mgmt()],
        vec![(-123_456_789_000_i128).to_candy(), "Hello, world!".to_candy()],
    ]
}

#[test]
fn addressed_chunks_of_sample_workspace() {
    let ws = sample();
    assert_eq!(ws.count_addressed_chunks(), 6);
    let arr = ws.to_addressed_chunk_array();
    assert_eq!(arr.len(), 6);
    let zones: Vec<u128> = arr.iter().map(|c| c.0).collect();
    let chunks: Vec<u128> = arr.iter().map(|c| c.1).collect();
    assert_eq!(zones, vec![0, 0, 1, 1, 2, 2]);
    assert_eq!(chunks, vec![0, 1, 0, 1, 0, 1]);
    assert_eq!(arr[5].2, "Hello, world!".to_candy());
}

#[test]
fn data_chunk_lookup() {
    let arr = sample().to_addressed_chunk_array();
    assert_eq!(arr.get_data_chunk(2, 0), (-123_456_789_000_i128).to_candy());
    assert_eq!(arr.get_data_chunk(0, 1), mgmt());
    assert_eq!(arr.get_data_chunk(3, 0), CandyShared::Option(None));
    assert_eq!(arr.get_data_chunk(0, 2), CandyShared::Option(None));
}

#[test]
fn workspace_round_trip() {
    let arr = sample().to_addressed_chunk_array();
    let ws = Workspace::from_addressed_chunks(arr).unwrap();
    assert_eq!(ws, sample());
}

#[test]
fn rebuild_pads_sparse_input() {
    let arr: AddressedChunkArray = vec![(2, 1, 7_u8.to_candy()), (0, 0, 1_u8.to_candy())];
    let ws = Workspace::from_addressed_chunks(arr).unwrap();
    assert_eq!(ws.len(), 3);
    assert_eq!(ws[0], vec![1_u8.to_candy()]);
    assert!(ws[1].is_empty());
    assert_eq!(ws[2], vec![CandyShared::Option(None), 7_u8.to_candy()]);
    let empty = Workspace::from_addressed_chunks(vec![]).unwrap();
    assert!(empty.is_empty());
}

#[test]
fn rebuild_last_write_wins() {
    let arr: AddressedChunkArray = vec![(0, 0, 1_u8.to_candy()), (0, 0, 2_u8.to_candy())];
    let ws = Workspace::from_addressed_chunks(arr).unwrap();
    assert_eq!(ws, vec![vec![2_u8.to_candy()]]);
}

#[test]
fn rebuild_rejects_unplaceable_address() {
    let arr: AddressedChunkArray = vec![(u128::MAX, 0, 1_u8.to_candy())];
    assert_eq!(
        Workspace::from_addressed_chunks(arr).err(),
        Some(CandyError::MalformedAddress)
    );
}

#[test]
fn trailing_empty_zone_is_not_recreated() {
    let ws: Workspace = vec![vec![1_u8.to_candy()], vec![]];
    let back = Workspace::from_addressed_chunks(ws.to_addressed_chunk_array()).unwrap();
    assert_eq!(back, vec![vec![1_u8.to_candy()]]);
}

#[test]
fn paging_greedy_boundaries() {
    // sizes: 4, 4, 4, 4 (64-bit values)
    let ws: Workspace = vec![vec![1_u64.to_candy(), 2_u64.to_candy()], vec![3_u64.to_candy(), 4_u64.to_candy()]];
    assert_eq!(ws.clone().get_workspace_chunk_size(8), 2);
    let (t0, p0) = ws.clone().get_workspace_chunk(0, 8);
    assert_eq!(t0, ChunkingType::Chunk);
    assert_eq!(p0, vec![(0, 0, 1_u64.to_candy()), (0, 1, 2_u64.to_candy())]);
    let (t1, p1) = ws.clone().get_workspace_chunk(1, 8);
    assert_eq!(t1, ChunkingType::Eof);
    assert_eq!(p1, vec![(1, 0, 3_u64.to_candy()), (1, 1, 4_u64.to_candy())]);
    let (t2, p2) = ws.clone().get_workspace_chunk(2, 8);
    assert_eq!(t2, ChunkingType::Eof);
    assert!(p2.is_empty());
    assert_eq!(ws.clone().get_workspace_chunk_size(7), 4);
    assert_eq!(ws.get_workspace_chunk_size(100), 1);
}

#[test]
fn oversized_value_takes_a_page_alone() {
    let ws: Workspace = vec![vec![1_u8.to_candy(), "long text".to_candy(), 2_u8.to_candy()]];
    assert_eq!(ws.clone().get_workspace_chunk_size(10), 3);
    let (_, p1) = ws.clone().get_workspace_chunk(1, 10);
    assert_eq!(p1, vec![(0, 1, "long text".to_candy())]);
    let (_, p0) = ws.clone().get_workspace_chunk(0, 10);
    assert_eq!(p0, vec![(0, 0, 1_u8.to_candy())]);
    let empty: Workspace = vec![];
    assert_eq!(empty.clone().get_workspace_chunk_size(10), 1);
    assert_eq!(empty.get_workspace_chunk(0, 10), (ChunkingType::Eof, vec![]));
}

#[test]
fn pages_cover_the_workspace() {
    let ws = sample();
    let max = 8;
    let n = ws.clone().get_workspace_chunk_size(max);
    let mut all = Vec::new();
    for p in 0..n {
        let (tag, items) = ws.clone().get_workspace_chunk(p, max);
        assert_eq!(tag == ChunkingType::Eof, p + 1 == n);
        all.extend(items);
    }
    assert_eq!(all, ws.to_addressed_chunk_array());
}

#[test]
fn flatten_concatenates_address_and_value_bytes() {
    let arr: AddressedChunkArray = vec![(1, 2, 3_u8.to_candy()), (0, 256, "A".to_candy())];
    assert_eq!(arr.flatten().unwrap(), vec![1, 2, 3, 0, 1, 0, 0, 0, 0, 65]);
    let bad: AddressedChunkArray = vec![(0, 0, true.to_candy())];
    assert_eq!(
        bad.flatten(),
        Err(CandyError::Unsupported(ic_candy::types::CandyKind::Bool))
    );
}

#[test]
fn zone_bytes_buffer() {
    let dz: DataZone = vec![42_u128.to_candy(), 258_u16.to_candy()];
    let buffer = dz.to_bytes_buffer().unwrap();
    assert_eq!(buffer, vec![vec![42], vec![1, 2]]);
    let back = DataZone::from_buffer(buffer);
    assert_eq!(back, vec![CandyShared::Bytes(vec![42]), CandyShared::Bytes(vec![1, 2])]);
    let bad: DataZone = vec![1_u8.to_candy(), None.to_candy()];
    assert!(bad.to_bytes_buffer().is_err());
}
