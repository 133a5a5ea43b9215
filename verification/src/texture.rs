use crate::circuit_states::CircuitStates;
use crate::error::ChunkError;
use vstd::prelude::*;

verus! {

/// The most state bits that any texture tier holds.
pub const MAX_STATE_BITS: usize = 65536;

/// The red channel of a texel whose cell is on.
pub const ACTIVE_RED: u8 = 200;

/// The alpha channel of every texel.
pub const OPAQUE: u8 = 255;

/// One of the five square texture sizes.
#[derive(Clone, Copy, Debug, PartialEq, Eq, Structural)]
pub struct TextureTier {
    /// The number of texels, `side * side`.
    pub texel_count: usize,
    /// The number of texels along each edge.
    pub side: u32,
}

/// The state of a chunk's cells as a square image of four bytes per texel
/// (red, green, blue, alpha), row by row, texel `i` for cell `i`.
#[derive(Debug)]
pub struct StateTexture {
    /// The number of texels along each edge.
    pub side: u32,
    /// The texels, four bytes each.
    pub data: Vec<u8>,
}

/// The edge of the smallest tier with at least `bits` texels, for `bits` up
/// to 65536.
pub open spec fn tier_side(bits: int) -> int {
    if bits <= 256 {
        16
    } else if bits <= 1024 {
        32
    } else if bits <= 4096 {
        64
    } else if bits <= 16384 {
        128
    } else {
        256
    }
}

/// The tier chosen for `bits` state bits, for `bits` up to 65536.
pub open spec fn tier_for(bits: int) -> TextureTier {
    TextureTier {
        texel_count: (tier_side(bits) * tier_side(bits)) as usize,
        side: tier_side(bits) as u32,
    }
}

/// What choosing a tier for `bits` state bits gives: the tier, or
/// `CapacityExceeded` beyond the largest.
pub open spec fn selected_tier(bits: int) -> Result<TextureTier, ChunkError> {
    if bits <= 65536 {
        Ok(tier_for(bits))
    } else {
        Err(ChunkError::CapacityExceeded)
    }
}

/// The four bytes of a texel: red 200 for a cell that is on, black for one
/// that is off, both opaque.
pub open spec fn texel(state: bool) -> Seq<u8> {
    if state {
        seq![200u8, 0u8, 0u8, 255u8]
    } else {
        seq![0u8, 0u8, 0u8, 255u8]
    }
}

/// The bytes of an image of `texel_count` texels over `states`: texel `i`
/// shows cell `i`, and cells beyond the set's capacity show as off.
pub open spec fn texture_bytes(states: CircuitStates, texel_count: int) -> Seq<u8> {
    Seq::new((4 * texel_count) as nat, |j: int| texel(states.state_at(j / 4))[j % 4])
}

impl StateTexture {
    /// The four bytes of texel `i`.
    pub open spec fn texel_at(&self, i: int) -> Seq<u8> {
        self.data@.subrange(4 * i, 4 * i + 4)
    }

    /// Whether this is the image of `states` at the tier chosen for `bits`
    /// state bits: the tier's side, and one texel for each of its cells.
    pub open spec fn shows(&self, states: CircuitStates, bits: int) -> bool {
        &&& self.side == tier_side(bits)
        &&& self.data@ == texture_bytes(states, tier_side(bits) * tier_side(bits))
    }
}

/// A tier is a square of texels, large enough for the bits it was chosen for.
pub proof fn lemma_tier_holds(bits: int)
    requires
        0 <= bits <= 65536,
    ensures
        tier_for(bits).texel_count == tier_for(bits).side * tier_for(bits).side,
        tier_for(bits).texel_count >= bits,
        tier_for(bits).side == 16 || tier_for(bits).side == 32 || tier_for(bits).side == 64
            || tier_for(bits).side == 128 || tier_for(bits).side == 256,
{
}

/// More bits never choose a smaller tier: where a count of bits has a
/// tier, every smaller count has one too, and none that is larger.
pub proof fn lemma_tier_monotonic(fewer: int, more: int)
    requires
        0 <= fewer <= more,
        selected_tier(more) is Ok,
    ensures
        selected_tier(fewer) is Ok,
        selected_tier(fewer)->Ok_0.side <= selected_tier(more)->Ok_0.side,
        selected_tier(fewer)->Ok_0.texel_count <= selected_tier(more)->Ok_0.texel_count,
{
}

/// Once a count of bits is refused, every larger count is refused.
pub proof fn lemma_tier_refusal(fewer: int, more: int)
    requires
        0 <= fewer <= more,
        selected_tier(fewer) is Err,
    ensures
        selected_tier(more) == Err::<TextureTier, ChunkError>(ChunkError::CapacityExceeded),
{
}

/// Every texel of an image shows its cell: red where the cell is on, black
/// where it is off or beyond the set's capacity.
pub proof fn lemma_texture_texel(states: CircuitStates, texel_count: int, i: int)
    requires
        0 <= i < texel_count,
    ensures
        texture_bytes(states, texel_count).len() == 4 * texel_count,
        texture_bytes(states, texel_count).subrange(4 * i, 4 * i + 4) == texel(
            states.state_at(i),
        ),
        i >= states.capacity() ==> texture_bytes(states, texel_count).subrange(4 * i, 4 * i + 4)
            == seq![0u8, 0u8, 0u8, 255u8],
{
    let bytes = texture_bytes(states, texel_count);
    let part = bytes.subrange(4 * i, 4 * i + 4);
    assert forall|k: int| 0 <= k < 4 implies part[k] == texel(states.state_at(i))[k] by {
        assert((4 * i + k) / 4 == i);
        assert((4 * i + k) % 4 == k);
    }
    assert(part =~= texel(states.state_at(i)));
}

/// A texture that shows cell states has the texels of its whole square, at
/// least one per bit it was sized for, and each texel shows its cell.
pub proof fn lemma_shown_texel(texture: StateTexture, states: CircuitStates, bits: int, i: int)
    requires
        0 <= bits <= 65536,
        texture.shows(states, bits),
        0 <= i < texture.side * texture.side,
    ensures
        texture.side * texture.side >= bits,
        texture.data@.len() == 4 * (texture.side * texture.side),
        texture.texel_at(i) == texel(states.state_at(i)),
        i >= states.capacity() ==> texture.texel_at(i) == seq![0u8, 0u8, 0u8, 255u8],
{
    lemma_tier_holds(bits);
    lemma_texture_texel(states, tier_side(bits) * tier_side(bits), i);
}

/// Chooses the smallest tier with at least `bits` texels.
///
/// Fails with `CapacityExceeded` where `bits` is more than the largest tier
/// holds.
pub fn select_texture_tier(bits: usize) -> (result: Result<TextureTier, ChunkError>)
    ensures
        result == selected_tier(bits as int),
        bits <= 65536 ==> result == Ok::<TextureTier, ChunkError>(tier_for(bits as int)),
        bits > 65536 ==> result == Err::<TextureTier, ChunkError>(ChunkError::CapacityExceeded),
{
    if bits <= 256 {
        Ok(TextureTier { texel_count: 256, side: 16 })
    } else if bits <= 1024 {
        Ok(TextureTier { texel_count: 1024, side: 32 })
    } else if bits <= 4096 {
        Ok(TextureTier { texel_count: 4096, side: 64 })
    } else if bits <= 16384 {
        Ok(TextureTier { texel_count: 16384, side: 128 })
    } else if bits <= MAX_STATE_BITS {
        Ok(TextureTier { texel_count: 65536, side: 256 })
    } else {
        Err(ChunkError::CapacityExceeded)
    }
}

/// Draws `states` into an image of the given tier, one texel per cell index
/// from zero up to the tier's texel count.
pub fn rasterize(states: &CircuitStates, tier: TextureTier) -> (texture: StateTexture)
    ensures
        texture.side == tier.side,
        texture.data@ == texture_bytes(*states, tier.texel_count as int),
{
    let mut data: Vec<u8> = Vec::new();
    let mut i: usize = 0;
    while i < tier.texel_count
        invariant
            i <= tier.texel_count,
            data@ == texture_bytes(*states, i as int),
        decreases tier.texel_count - i,
    {
        let state = states.get(i);
        let ghost before = data@;
        if state {
            data.push(ACTIVE_RED);
            data.push(0);
            data.push(0);
            data.push(OPAQUE);
        } else {
            data.push(0);
            data.push(0);
            data.push(0);
            data.push(OPAQUE);
        }
        proof {
            let after = texture_bytes(*states, i + 1);
            assert(data@.len() == after.len());
            assert forall|j: int| 0 <= j < after.len() implies data@[j] == after[j] by {
                if j < 4 * i {
                    assert(data@[j] == before[j]);
                } else {
                    assert(j / 4 == i);
                }
            }
            assert(data@ =~= after);
        }
        i += 1;
    }
    StateTexture { side: tier.side, data }
}

} // verus!
