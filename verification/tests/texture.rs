use circuit_chunk::circuit_states::CircuitStates;
use circuit_chunk::error::ChunkError;
use circuit_chunk::texture::{rasterize, select_texture_tier, TextureTier};

#[test]
fn tiers_follow_the_table() {
    let table: [(usize, usize, u32); 10] = [
        (0, 256, 16),
        (256, 256, 16),
        (257, 1024, 32),
        (1024, 1024, 32),
        (1025, 4096, 64),
        (4096, 4096, 64),
        (4097, 16384, 128),
        (16384, 16384, 128),
        (16385, 65536, 256),
        (65536, 65536, 256),
    ];
    for (bits, texel_count, side) in table {
        assert_eq!(select_texture_tier(bits), Ok(TextureTier { texel_count, side }), "{bits}");
    }
    assert_eq!(select_texture_tier(8), Ok(TextureTier { texel_count: 256, side: 16 }));
    assert_eq!(select_texture_tier(40000), Ok(TextureTier { texel_count: 65536, side: 256 }));
}

#[test]
fn tier_beyond_the_largest_is_capacity_exceeded() {
    assert_eq!(select_texture_tier(65537), Err(ChunkError::CapacityExceeded));
    assert_eq!(select_texture_tier(1 << 20), Err(ChunkError::CapacityExceeded));
    assert_eq!(select_texture_tier(usize::MAX), Err(ChunkError::CapacityExceeded));
}

#[test]
fn tiers_never_shrink_as_bits_grow() {
    let mut last = select_texture_tier(0).unwrap();
    for bits in 1..=65536usize {
        let tier = select_texture_tier(bits).unwrap();
        assert!(tier.side >= last.side);
        assert!(tier.texel_count >= last.texel_count);
        assert!(tier.texel_count >= bits);
        assert_eq!(tier.texel_count, (tier.side as usize) * (tier.side as usize));
        last = tier;
    }
}

#[test]
fn rasterize_draws_one_texel_per_cell() {
    let states = CircuitStates { vec: vec![0b0000_0101, 0b1000_0000] };
    let tier = select_texture_tier(16).unwrap();
    let texture = rasterize(&states, tier);
    assert_eq!(texture.side, 16);
    assert_eq!(texture.data.len(), 256 * 4);
    for i in 0..256usize {
        let texel = &texture.data[4 * i..4 * i + 4];
        if i == 0 || i == 2 || i == 15 {
            assert_eq!(texel, &[200, 0, 0, 255], "texel {i}");
        } else {
            assert_eq!(texel, &[0, 0, 0, 255], "texel {i}");
        }
    }
}

#[test]
fn rasterize_stops_at_the_texel_count() {
    let states = CircuitStates { vec: vec![0xFF; 64] };
    let texture = rasterize(&states, TextureTier { texel_count: 256, side: 16 });
    assert_eq!(texture.data.len(), 1024);
    assert!(texture.data.chunks(4).all(|texel| texel == [200, 0, 0, 255]));
    let none = rasterize(&states, TextureTier { texel_count: 0, side: 0 });
    assert_eq!(none.side, 0);
    assert!(none.data.is_empty());
}

#[test]
fn rasterize_fills_the_largest_tier() {
    let mut bytes = vec![0u8; 8192];
    bytes[8191] = 0x80;
    bytes[4096] = 0x01;
    let states = CircuitStates { vec: bytes };
    let tier = select_texture_tier(65536).unwrap();
    let texture = rasterize(&states, tier);
    assert_eq!(texture.side, 256);
    assert_eq!(texture.data.len(), 65536 * 4);
    for i in 0..65536usize {
        let expected: [u8; 4] = if i == 65535 || i == 4096 * 8 { [200, 0, 0, 255] } else { [0, 0, 0, 255] };
        assert_eq!(&texture.data[4 * i..4 * i + 4], &expected, "texel {i}");
    }
}
