use circuit_chunk::binary32::Binary32;
use circuit_chunk::chunk::ComponentChunkBuilder;
use circuit_chunk::circuit_states::CircuitStates;
use circuit_chunk::codec::{Diagnostic, Point3, Rgba};
use circuit_chunk::error::ChunkError;

fn number(x: f32) -> Binary32 {
    Binary32::from_bits(x.to_bits())
}

fn point(x: f32, y: f32, z: f32) -> Point3 {
    Point3 { x: number(x), y: number(y), z: number(z) }
}

fn white() -> Rgba {
    Rgba { red: number(1.0), green: number(1.0), blue: number(1.0), alpha: number(1.0) }
}

fn floor_corners() -> [Point3; 4] {
    [point(0.0, 0.0, 0.0), point(0.0, 0.0, 1.0), point(1.0, 0.0, 1.0), point(1.0, 0.0, 0.0)]
}

fn up() -> Point3 {
    point(0.0, 1.0, 0.0)
}

#[test]
fn one_rectangle_over_one_byte_end_to_end() {
    let mut builder = ComponentChunkBuilder::new(CircuitStates { vec: vec![0b0000_0001] });
    assert_eq!(builder.rectangle(floor_corners(), white(), up()), Ok(()));
    let (geometry, texture) = builder.build().unwrap();
    assert_eq!(geometry.data1.len(), 4);
    assert_eq!(geometry.data2.len(), 4);
    assert_eq!(geometry.indices, vec![0, 1, 2, 2, 3, 0]);
    assert_eq!(
        geometry.data1,
        vec![
            [32768, 32768, 32768, 0xFFFF],
            [32768, 32768, 32896, 0xFFFF],
            [32896, 32768, 32896, 0xFFFF],
            [32896, 32768, 32768, 0xFFFF],
        ]
    );
    assert_eq!(geometry.data2, vec![[128, 255, 128, 0xFC]; 4]);
    assert_eq!(texture.side, 16);
    assert_eq!(texture.data.len(), 16 * 16 * 4);
    assert_eq!(&texture.data[0..4], &[200, 0, 0, 255]);
    for i in 1..256usize {
        assert_eq!(&texture.data[4 * i..4 * i + 4], &[0, 0, 0, 255], "texel {i}");
    }
    assert!(builder.diagnostics().is_empty());
    assert!(builder.is_finalized());
}

#[test]
fn new_builder_is_empty_and_accumulating() {
    let builder = ComponentChunkBuilder::new(CircuitStates { vec: vec![7, 8] });
    assert_eq!(builder.vertex_count(), 0);
    assert!(!builder.is_finalized());
    assert!(builder.diagnostics().is_empty());
    assert_eq!(builder.states().vec, vec![7, 8]);
    assert_eq!(builder.into_states().vec, vec![7, 8]);
}

#[test]
fn geometry_counts_after_k_rectangles() {
    for k in 0..20usize {
        let mut builder = ComponentChunkBuilder::new(CircuitStates { vec: vec![0; 4] });
        for r in 0..k {
            let shift = r as f32;
            let corners = [
                point(shift, 0.0, 0.0),
                point(shift, 1.0, 0.0),
                point(shift + 1.0, 1.0, 0.0),
                point(shift + 1.0, 0.0, 0.0),
            ];
            assert_eq!(builder.rectangle(corners, white(), up()), Ok(()));
            assert_eq!(builder.vertex_count(), 4 * (r + 1));
        }
        let (geometry, _) = builder.build().unwrap();
        assert_eq!(geometry.data1.len(), 4 * k);
        assert_eq!(geometry.data2.len(), 4 * k);
        assert_eq!(geometry.indices.len(), 6 * k);
        assert!(geometry.indices.iter().all(|&index| (index as usize) < 4 * k));
        for r in 0..k {
            let base = 4 * r as u32;
            assert_eq!(
                &geometry.indices[6 * r..6 * r + 6],
                &[base, base + 1, base + 2, base + 2, base + 3, base]
            );
            assert_eq!(geometry.data1[4 * r][0], 32768 + 128 * r as u16);
            assert_eq!(geometry.data1[4 * r + 2][0], 32768 + 128 * (r as u16 + 1));
        }
    }
}

#[test]
fn second_rectangle_indexes_its_own_vertices() {
    let mut builder = ComponentChunkBuilder::new(CircuitStates { vec: vec![0] });
    builder.rectangle(floor_corners(), white(), up()).unwrap();
    builder.rectangle(floor_corners(), white(), up()).unwrap();
    let (geometry, _) = builder.build().unwrap();
    assert_eq!(geometry.indices, vec![0, 1, 2, 2, 3, 0, 4, 5, 6, 6, 7, 4]);
}

#[test]
fn rectangle_takes_any_four_corners() {
    let mut builder = ComponentChunkBuilder::new(CircuitStates { vec: vec![0] });
    let corners = [point(0.0, 0.0, 0.0), point(5.0, -3.0, 2.0), point(0.0, 0.0, 0.0), point(-1.0, 9.0, 0.5)];
    let color = Rgba { red: number(1.0), green: number(0.0), blue: number(0.0), alpha: number(1.0) };
    assert_eq!(builder.rectangle(corners, color, point(1.0, 0.0, 0.0)), Ok(()));
    let (geometry, _) = builder.build().unwrap();
    let payload: u32 = (127 << 15) << 2;
    let high = (payload >> 8) as u16;
    let low = (payload & 0xFF) as u8;
    assert_eq!(
        geometry.data1,
        vec![
            [32768, 32768, 32768, high],
            [33408, 32384, 33024, high],
            [32768, 32768, 32768, high],
            [32640, 33920, 32832, high],
        ]
    );
    assert_eq!(geometry.data2, vec![[255, 128, 128, low]; 4]);
    assert_eq!(geometry.indices, vec![0, 1, 2, 2, 3, 0]);
}

#[test]
fn out_of_range_input_is_reported_and_still_built() {
    let mut builder = ComponentChunkBuilder::new(CircuitStates { vec: vec![0] });
    let corners = [point(300.0, 0.0, 0.0), point(0.0, 0.0, 0.0), point(0.0, -300.0, 300.0), point(0.0, 0.0, 0.0)];
    assert_eq!(builder.rectangle(corners, white(), point(0.0, 2.0, 0.0)), Ok(()));
    assert_eq!(
        builder.diagnostics(),
        &vec![
            Diagnostic::PositionOutOfRange,
            Diagnostic::NormalOutOfRange,
            Diagnostic::NormalOutOfRange,
            Diagnostic::PositionOutOfRange,
            Diagnostic::PositionOutOfRange,
            Diagnostic::NormalOutOfRange,
            Diagnostic::NormalOutOfRange,
        ]
    );
    let (geometry, _) = builder.build().unwrap();
    assert_eq!(geometry.data1[0], [65535, 32768, 32768, 0xFFFF]);
    assert_eq!(geometry.data1[2], [32768, 0, 65535, 0xFFFF]);
    assert_eq!(geometry.data2, vec![[128, 255, 128, 0xFC]; 4]);
    assert_eq!(builder.diagnostics().len(), 7);
}

#[test]
fn mutation_after_build_is_already_finalized() {
    let mut builder = ComponentChunkBuilder::new(CircuitStates { vec: vec![0b0000_0010] });
    builder.rectangle(floor_corners(), white(), up()).unwrap();
    assert!(!builder.is_finalized());
    assert!(builder.build().is_ok());
    assert!(builder.is_finalized());
    assert_eq!(builder.rectangle(floor_corners(), white(), up()), Err(ChunkError::AlreadyFinalized));
    assert_eq!(builder.set_state(0, true), Err(ChunkError::AlreadyFinalized));
    assert_eq!(builder.set_state(100, true), Err(ChunkError::AlreadyFinalized));
    assert_eq!(builder.build().unwrap_err(), ChunkError::AlreadyFinalized);
    assert_eq!(builder.build_with_capacity(8).unwrap_err(), ChunkError::AlreadyFinalized);
    assert_eq!(builder.build_with_capacity(1 << 20).unwrap_err(), ChunkError::AlreadyFinalized);
    assert_eq!(builder.vertex_count(), 0);
    assert_eq!(builder.states().vec, vec![0b0000_0010]);
    assert!(builder.is_finalized());
}

#[test]
fn set_state_writes_through_until_built() {
    let mut builder = ComponentChunkBuilder::new(CircuitStates { vec: vec![0, 0] });
    assert_eq!(builder.set_state(3, true), Ok(()));
    assert_eq!(builder.set_state(9, true), Ok(()));
    assert_eq!(builder.set_state(3, false), Ok(()));
    assert_eq!(builder.set_state(16, true), Err(ChunkError::OutOfRange));
    assert_eq!(builder.states().vec, vec![0, 0b0000_0010]);
    assert!(builder.states().get(9));
    let (_, texture) = builder.build().unwrap();
    for i in 0..256usize {
        let expected: [u8; 4] = if i == 9 { [200, 0, 0, 255] } else { [0, 0, 0, 255] };
        assert_eq!(&texture.data[4 * i..4 * i + 4], &expected, "texel {i}");
    }
}

#[test]
fn build_chooses_the_tier_of_the_capacity() {
    let cases: [(usize, u32); 8] =
        [(0, 16), (32, 16), (33, 32), (128, 32), (129, 64), (512, 64), (2048, 128), (8192, 256)];
    for (bytes, side) in cases {
        let mut builder = ComponentChunkBuilder::new(CircuitStates { vec: vec![0xFF; bytes] });
        let (geometry, texture) = builder.build().unwrap();
        assert!(geometry.data1.is_empty() && geometry.data2.is_empty() && geometry.indices.is_empty());
        assert_eq!(texture.side, side, "{bytes} bytes");
        assert_eq!(texture.data.len(), (side * side * 4) as usize);
        for i in 0..(side * side) as usize {
            let expected: [u8; 4] = if i < bytes * 8 { [200, 0, 0, 255] } else { [0, 0, 0, 255] };
            assert_eq!(&texture.data[4 * i..4 * i + 4], &expected, "{bytes} bytes, texel {i}");
        }
    }
}

#[test]
fn build_beyond_the_largest_tier_is_capacity_exceeded() {
    let mut builder = ComponentChunkBuilder::new(CircuitStates { vec: vec![0; 8193] });
    builder.rectangle(floor_corners(), white(), up()).unwrap();
    assert_eq!(builder.build().unwrap_err(), ChunkError::CapacityExceeded);
    assert!(!builder.is_finalized());
    assert_eq!(builder.vertex_count(), 4);
    assert_eq!(builder.rectangle(floor_corners(), white(), up()), Ok(()));
    assert_eq!(builder.vertex_count(), 8);
    assert_eq!(builder.set_state(65543, true), Ok(()));
    assert_eq!(builder.build().unwrap_err(), ChunkError::CapacityExceeded);
}

#[test]
fn build_with_capacity_sizes_the_texture_by_the_override() {
    let mut builder = ComponentChunkBuilder::new(CircuitStates { vec: vec![0b0000_0001] });
    let (_, texture) = builder.build_with_capacity(257).unwrap();
    assert_eq!(texture.side, 32);
    assert_eq!(texture.data.len(), 32 * 32 * 4);
    assert_eq!(&texture.data[0..4], &[200, 0, 0, 255]);
    assert!(texture.data[4..].chunks(4).all(|texel| texel == [0, 0, 0, 255]));
    assert!(builder.is_finalized());

    let mut wide = ComponentChunkBuilder::new(CircuitStates { vec: vec![0xFF; 64] });
    let (_, small) = wide.build_with_capacity(256).unwrap();
    assert_eq!(small.side, 16);
    assert_eq!(small.data.len(), 16 * 16 * 4);
    assert!(small.data.chunks(4).all(|texel| texel == [200, 0, 0, 255]));

    let mut refused = ComponentChunkBuilder::new(CircuitStates { vec: vec![0] });
    assert_eq!(refused.build_with_capacity(65537).unwrap_err(), ChunkError::CapacityExceeded);
    assert!(!refused.is_finalized());
    assert!(refused.build_with_capacity(65536).is_ok());
}
