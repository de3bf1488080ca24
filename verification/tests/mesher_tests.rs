use rustaria::mesher::{ConnectionType, Direction, NeighborMatrix, RenderChunk};

const C: ConnectionType = ConnectionType::Connected;
const I: ConnectionType = ConnectionType::Isolated;

fn sides(m: NeighborMatrix) -> (bool, bool, bool, bool) {
    (m.up == C, m.dw == C, m.lf == C, m.rg == C)
}

#[test]
fn matrix_set_changes_one_side() {
    let mut m = NeighborMatrix { up: I, dw: I, lf: I, rg: I };
    m.set(Direction::Top, C);
    assert_eq!(sides(m), (true, false, false, false));
    m.set(Direction::Right, C);
    m.set(Direction::Top, I);
    assert_eq!(sides(m), (false, false, false, true));
}

#[test]
fn new_chunk_looks_up_tiles() {
    // ids: 0 = air (no render tile), 1 = dirt (connects), 2 = torch (isolated), 9 = unknown
    let lookup = vec![None, Some(C), Some(I)];
    let chunk = RenderChunk::new(2, &vec![1, 9, 2, 0], &lookup);
    for y in 0..2 {
        for x in 0..2 {
            assert_eq!(sides(chunk.neighbor(y, x)), (false, false, false, false));
        }
    }
}

#[test]
fn connected_tiles_join_on_both_sides() {
    let lookup = vec![None, Some(C), Some(I)];
    // row 0: dirt dirt air
    // row 1: dirt torch air
    // row 2: dirt dirt dirt
    let ids = vec![1, 1, 0, 1, 2, 0, 1, 1, 1];
    let mut chunk = RenderChunk::new(3, &ids, &lookup);
    chunk.compile_internal();
    assert_eq!(sides(chunk.neighbor(0, 0)), (true, false, false, true));
    assert_eq!(sides(chunk.neighbor(0, 1)), (false, false, true, false));
    assert_eq!(sides(chunk.neighbor(1, 0)), (true, true, false, false));
    assert_eq!(sides(chunk.neighbor(1, 1)), (false, false, false, false));
    assert_eq!(sides(chunk.neighbor(2, 0)), (false, true, false, true));
    assert_eq!(sides(chunk.neighbor(2, 1)), (false, false, true, true));
    assert_eq!(sides(chunk.neighbor(2, 2)), (false, false, true, false));
    for y in 0..3 {
        for x in 0..3 {
            if y + 1 < 3 {
                assert_eq!(chunk.neighbor(y, x).up == C, chunk.neighbor(y + 1, x).dw == C);
            }
            if x + 1 < 3 {
                assert_eq!(chunk.neighbor(y, x).rg == C, chunk.neighbor(y, x + 1).lf == C);
            }
        }
    }
}

#[test]
fn compiling_twice_changes_nothing() {
    let lookup = vec![Some(C)];
    let mut chunk = RenderChunk::new(2, &vec![0, 0, 0, 0], &lookup);
    chunk.compile_internal();
    let first: Vec<_> = (0..4).map(|i| sides(chunk.neighbor(i / 2, i % 2))).collect();
    chunk.compile_internal();
    let second: Vec<_> = (0..4).map(|i| sides(chunk.neighbor(i / 2, i % 2))).collect();
    assert_eq!(first, second);
    assert_eq!(first[0], (true, false, false, true));
    assert_eq!(first[3], (false, true, true, false));
}

#[test]
fn border_joins_adjoining_chunks() {
    let lookup = vec![None, Some(C), Some(I)];
    // lower chunk, rows bottom to top: [air dirt] [dirt torch]
    let mut lower = RenderChunk::new(2, &vec![0, 1, 1, 2], &lookup);
    // upper chunk: [dirt dirt] [air air]
    let mut upper = RenderChunk::new(2, &vec![1, 1, 0, 0], &lookup);
    lower.compile_border(&mut upper, Direction::Top);
    // top row of the lower chunk: dirt under dirt joins, torch under dirt does not
    assert_eq!(sides(lower.neighbor(1, 0)), (true, false, false, false));
    assert_eq!(sides(lower.neighbor(1, 1)), (false, false, false, false));
    assert_eq!(sides(upper.neighbor(0, 0)), (false, true, false, false));
    assert_eq!(sides(upper.neighbor(0, 1)), (false, false, false, false));
    // cells away from the shared edge are untouched
    assert_eq!(sides(lower.neighbor(0, 1)), (false, false, false, false));
    assert_eq!(sides(upper.neighbor(1, 0)), (false, false, false, false));
}

#[test]
fn border_resets_a_side_to_isolated() {
    let lookup = vec![None, Some(C)];
    let mut left = RenderChunk::new(2, &vec![1, 1, 1, 1], &lookup);
    let mut right = RenderChunk::new(2, &vec![1, 1, 1, 1], &lookup);
    left.compile_border(&mut right, Direction::Right);
    assert_eq!(sides(left.neighbor(0, 1)), (false, false, false, true));
    assert_eq!(sides(right.neighbor(1, 0)), (false, false, true, false));
    let mut empty = RenderChunk::new(2, &vec![0, 0, 0, 0], &lookup);
    left.compile_border(&mut empty, Direction::Right);
    assert_eq!(sides(left.neighbor(0, 1)), (false, false, false, false));
    assert_eq!(Direction::Left.flip() == Direction::Right, true);
}
