//! The sequencer's dense ranks and the reordering sink's ordering guarantee.

use pmtiles_raster_tool::reorder::{reorder_all, PipelineError, ReorderBuffer};
use pmtiles_raster_tool::sequencer::sequence_coords;
use pmtiles_raster_tool::tile::{Tile, WriteTileMsg};

fn tile(z: u8, x: u32, y: u32) -> Tile {
    Tile { z, x, y }
}

fn msg(index: usize, data: u8) -> WriteTileMsg {
    WriteTileMsg { index, tile: tile(0, 0, 0), tile_data: vec![data] }
}

#[test]
fn sequencer_assigns_dense_ranks() {
    // Duplicates collapse; ranks are positions in the deterministic order.
    let coords = vec![
        tile(5, 11, 12),
        tile(5, 10, 13),
        tile(5, 10, 12),
        tile(5, 10, 13),
        tile(4, 99, 99),
        tile(5, 11, 12),
    ];
    let out = sequence_coords(&coords);
    assert_eq!(
        out,
        vec![tile(4, 99, 99), tile(5, 10, 12), tile(5, 10, 13), tile(5, 11, 12)]
    );
}

#[test]
fn sequencer_of_empty_archive_is_empty() {
    let empty: Vec<Tile> = Vec::new();
    let out = sequence_coords(&empty);
    assert!(out.is_empty());
}

#[test]
fn sequencer_orders_by_zoom_column_row() {
    let coords = vec![tile(2, 0, 1), tile(1, 5, 5), tile(2, 0, 0), tile(1, 5, 4)];
    let out = sequence_coords(&coords);
    assert_eq!(out, vec![tile(1, 5, 4), tile(1, 5, 5), tile(2, 0, 0), tile(2, 0, 1)]);
}

#[test]
fn buffer_flushes_contiguous_runs_only() {
    let mut buf = ReorderBuffer::new();
    assert!(buf.is_drained());
    let r = buf.accept(msg(2, 12));
    assert!(r.is_empty());
    let r = buf.accept(msg(0, 10));
    assert_eq!(r.iter().map(|m| m.index).collect::<Vec<_>>(), vec![0]);
    assert_eq!(buf.next_index(), 1);
    let r = buf.accept(msg(1, 11));
    assert_eq!(r.iter().map(|m| m.index).collect::<Vec<_>>(), vec![1, 2]);
    assert_eq!(r[0].tile_data, vec![11]);
    assert_eq!(r[1].tile_data, vec![12]);
    assert_eq!(buf.next_index(), 3);
    assert!(buf.is_drained());
}

#[test]
fn buffer_reports_inconsistent_streams() {
    let mut buf = ReorderBuffer::new();
    buf.push_tile(msg(1, 1)).unwrap();
    assert_eq!(buf.push_tile(msg(1, 1)).unwrap_err(), PipelineError::DuplicateSequence);
    let flushed = buf.push_tile(msg(0, 0)).unwrap();
    assert_eq!(flushed.len(), 2);
    assert_eq!(buf.push_tile(msg(0, 0)).unwrap_err(), PipelineError::StaleSequence);
    assert_eq!(
        buf.push_tile(msg(usize::MAX, 9)).unwrap_err(),
        PipelineError::SequenceOverflow
    );
}

#[test]
fn any_permutation_leaves_in_ascending_order() {
    // Every arrival order of sequences 0..5 flushes 0, 1, 2, 3, 4, each
    // with the data that arrived under its sequence.
    let orders: Vec<Vec<usize>> = vec![
        vec![0, 1, 2, 3, 4],
        vec![4, 3, 2, 1, 0],
        vec![2, 0, 4, 1, 3],
        vec![1, 3, 0, 4, 2],
    ];
    for order in orders {
        let arrivals: Vec<WriteTileMsg> =
            order.iter().map(|&i| msg(i, 100 + i as u8)).collect();
        let out = reorder_all(arrivals);
        assert_eq!(out.len(), 5);
        for (j, m) in out.iter().enumerate() {
            assert_eq!(m.index, j);
            assert_eq!(m.tile_data, vec![100 + j as u8]);
        }
    }
}

#[test]
fn a_missing_sequence_stalls_the_buffer() {
    // Sequence 0 never arrives: nothing flushes and the buffer is not
    // drained, which the sink reports instead of finalizing.
    let mut buf = ReorderBuffer::new();
    assert!(buf.accept(msg(1, 1)).is_empty());
    assert!(buf.accept(msg(2, 2)).is_empty());
    assert_eq!(buf.next_index(), 0);
    assert!(!buf.is_drained());
}
