use crate::binary32::{floor_scaled, round_affine, Binary32};
use vstd::prelude::*;

verus! {

/// A point or a direction in scene space.
#[derive(Clone, Copy, Debug, PartialEq, Eq, Structural)]
pub struct Point3 {
    pub x: Binary32,
    pub y: Binary32,
    pub z: Binary32,
}

/// A color by its red, green, blue and alpha channels, each meant to lie
/// between zero and one.
#[derive(Clone, Copy, Debug, PartialEq, Eq, Structural)]
pub struct Rgba {
    pub red: Binary32,
    pub green: Binary32,
    pub blue: Binary32,
    pub alpha: Binary32,
}

/// A report of input that did not fit its packed field. The value is still
/// encoded, confined to the field's range: a report never stops a build.
#[derive(Clone, Copy, Debug, PartialEq, Eq, Structural)]
pub enum Diagnostic {
    /// A position component fell outside the sixteen-bit grid.
    PositionOutOfRange,
    /// A normal component fell outside the eight-bit grid.
    NormalOutOfRange,
    /// A payload needed more than twenty-four bits.
    PayloadTooLarge,
}

/// Grid steps per scene unit of position.
pub const POSITION_SCALE: u32 = 128;

/// The grid value of position zero.
pub const POSITION_OFFSET: u32 = 32768;

/// The largest grid value of a position.
pub const POSITION_MAX: u32 = 65535;

/// Grid steps per unit of a normal component.
pub const NORMAL_SCALE: u32 = 127;

/// The grid value of a normal component of zero.
pub const NORMAL_OFFSET: u32 = 128;

/// The largest grid value of a normal component.
pub const NORMAL_MAX: u32 = 255;

/// The largest packed value of the red and of the blue channel.
pub const NARROW_CHANNEL_MAX: u32 = 127;

/// The largest packed value of the green channel.
pub const WIDE_CHANNEL_MAX: u32 = 255;

/// One more than the largest payload a vertex can carry.
pub const PAYLOAD_LIMIT: u32 = 0x100_0000;

/// The packed position component: `round(x * 128 + 32768)` confined to `0..=65535`.
pub open spec fn position_level(x: Binary32) -> int {
    x.saturated_round(128, 32768, 65535)
}

/// Whether `round(x * 128 + 32768)` is a sixteen-bit value as it stands.
pub open spec fn position_fits(x: Binary32) -> bool {
    x.round_fits(128, 32768, 65535)
}

/// The packed normal component: `round(x * 127 + 128)` confined to `0..=255`.
pub open spec fn normal_level(x: Binary32) -> int {
    x.saturated_round(127, 128, 255)
}

/// Whether `round(x * 127 + 128)` is an eight-bit value as it stands.
pub open spec fn normal_fits(x: Binary32) -> bool {
    x.round_fits(127, 128, 255)
}

/// Seven bits of red above eight bits of green above seven bits of blue.
pub open spec fn pack_channels(red: u32, green: u32, blue: u32) -> u32 {
    (red << 15) | (green << 7) | blue
}

/// The packed color: each channel scaled to its width, confined to it, and
/// cut to a whole number; alpha is not encoded.
pub open spec fn packed_color(color: Rgba) -> u32 {
    pack_channels(
        color.red.saturated_floor(127) as u32,
        color.green.saturated_floor(255) as u32,
        color.blue.saturated_floor(127) as u32,
    )
}

/// The payload that carries a packed color: the color above two reserved bits.
pub open spec fn color_payload(color: u32) -> u32 {
    color << 2
}

/// The upper sixteen bits of a twenty-four-bit payload.
pub open spec fn payload_high(payload: u32) -> u16 {
    ((payload >> 8) & 0xFFFF) as u16
}

/// The lower eight bits of a payload.
pub open spec fn payload_low(payload: u32) -> u8 {
    (payload & 0xFF) as u8
}

/// The payload that two packed fields hold between them.
pub open spec fn joined_payload(high: u16, low: u8) -> u32 {
    ((high as u32) << 8) | (low as u32)
}

/// The report that a component leaves: none where it fits.
pub open spec fn fault_unless(fits: bool, fault: Diagnostic) -> Seq<Diagnostic> {
    if fits {
        Seq::empty()
    } else {
        seq![fault]
    }
}

/// The reports that a position leaves, one per component out of range, in
/// the order x, y, z.
pub open spec fn position_faults(pos: Point3) -> Seq<Diagnostic> {
    fault_unless(position_fits(pos.x), Diagnostic::PositionOutOfRange) + fault_unless(
        position_fits(pos.y),
        Diagnostic::PositionOutOfRange,
    ) + fault_unless(position_fits(pos.z), Diagnostic::PositionOutOfRange)
}

/// The reports that a normal leaves, one per component out of range, in the
/// order x, y, z.
pub open spec fn normal_faults(normal: Point3) -> Seq<Diagnostic> {
    fault_unless(normal_fits(normal.x), Diagnostic::NormalOutOfRange) + fault_unless(
        normal_fits(normal.y),
        Diagnostic::NormalOutOfRange,
    ) + fault_unless(normal_fits(normal.z), Diagnostic::NormalOutOfRange)
}

/// The report that a payload leaves: one where it needs more than 24 bits.
pub open spec fn payload_faults(payload: u32) -> Seq<Diagnostic> {
    fault_unless(payload < 0x100_0000, Diagnostic::PayloadTooLarge)
}

/// A packed color fits twenty-two bits, whatever the channels hold.
pub proof fn lemma_packed_color_bound(color: Rgba)
    ensures
        packed_color(color) < 0x40_0000,
{
    let red = color.red.saturated_floor(127) as u32;
    let green = color.green.saturated_floor(255) as u32;
    let blue = color.blue.saturated_floor(127) as u32;
    assert(pack_channels(red, green, blue) < 0x40_0000) by (bit_vector)
        requires
            red <= 127,
            green <= 255,
            blue <= 127,
    ;
}

/// The channels of a packed color sit side by side: the packed value is
/// their weighted sum, and each can be read back from it.
pub proof fn lemma_pack_channels(red: u32, green: u32, blue: u32)
    requires
        red <= 127,
        green <= 255,
        blue <= 127,
    ensures
        pack_channels(red, green, blue) == red * 0x8000 + green * 0x80 + blue,
        pack_channels(red, green, blue) >> 15 == red,
        (pack_channels(red, green, blue) >> 7) & 0xFF == green,
        pack_channels(red, green, blue) & 0x7F == blue,
{
    assert(pack_channels(red, green, blue) == red * 0x8000 + green * 0x80 + blue) by (bit_vector)
        requires
            red <= 127,
            green <= 255,
            blue <= 127,
    ;
    assert(pack_channels(red, green, blue) >> 15 == red) by (bit_vector)
        requires
            red <= 127,
            green <= 255,
            blue <= 127,
    ;
    assert((pack_channels(red, green, blue) >> 7) & 0xFF == green) by (bit_vector)
        requires
            red <= 127,
            green <= 255,
            blue <= 127,
    ;
    assert(pack_channels(red, green, blue) & 0x7F == blue) by (bit_vector)
        requires
            red <= 127,
            green <= 255,
            blue <= 127,
    ;
}

/// Splitting a payload of at most twenty-four bits into its upper sixteen
/// and lower eight bits loses nothing: joined again they give the payload.
pub proof fn lemma_payload_split_join(payload: u32)
    requires
        payload < 0x100_0000,
    ensures
        joined_payload(payload_high(payload), payload_low(payload)) == payload,
        ((payload >> 8) << 8) | (payload & 0xFF) == payload,
        payload_high(payload) == payload >> 8,
{
    assert(joined_payload(payload_high(payload), payload_low(payload)) == payload) by (bit_vector)
        requires
            payload < 0x100_0000,
    ;
    assert(((payload >> 8) << 8) | (payload & 0xFF) == payload) by (bit_vector);
    assert(((payload >> 8) & 0xFFFF) as u16 == payload >> 8) by (bit_vector)
        requires
            payload < 0x100_0000,
    ;
}

/// The payload of a packed color fits twenty-four bits, keeps its two low
/// bits clear, gives the color back when they are dropped, and survives
/// being split into its two packed fields.
pub proof fn lemma_color_payload(color: u32)
    requires
        color < 0x40_0000,
    ensures
        color_payload(color) < 0x100_0000,
        color_payload(color) == 4 * color,
        color_payload(color) & 3 == 0,
        color_payload(color) >> 2 == color,
        joined_payload(payload_high(color_payload(color)), payload_low(color_payload(color)))
            == color_payload(color),
{
    assert(color << 2 < 0x100_0000 && color << 2 == 4 * color && (color << 2) & 3 == 0 && (color
        << 2) >> 2 == color) by (bit_vector)
        requires
            color < 0x40_0000,
    ;
    lemma_payload_split_join(color_payload(color));
}

/// Packs one position component: `round(x * 128 + 32768)`, halves away from
/// zero, confined to sixteen bits. The flag tells whether the rounded value
/// fit as it stood.
pub fn quantize_position(x: Binary32) -> (packed: (u16, bool))
    ensures
        packed.0 == position_level(x),
        packed.1 == position_fits(x),
{
    let (level, fits) = round_affine(x, POSITION_SCALE, POSITION_OFFSET, POSITION_MAX);
    (level as u16, fits)
}

/// Packs one normal component: `round(x * 127 + 128)`, halves away from
/// zero, confined to eight bits. The flag tells whether the rounded value fit
/// as it stood.
pub fn quantize_normal(x: Binary32) -> (packed: (u8, bool))
    ensures
        packed.0 == normal_level(x),
        packed.1 == normal_fits(x),
{
    let (level, fits) = round_affine(x, NORMAL_SCALE, NORMAL_OFFSET, NORMAL_MAX);
    (level as u8, fits)
}

/// Packs a position and reports each component that was out of range.
pub fn handle_pos(pos: Point3, log: &mut Vec<Diagnostic>) -> (packed: [u16; 3])
    ensures
        packed[0] == position_level(pos.x),
        packed[1] == position_level(pos.y),
        packed[2] == position_level(pos.z),
        final(log)@ == old(log)@ + position_faults(pos),
{
    let (x, x_fits) = quantize_position(pos.x);
    if !x_fits {
        log.push(Diagnostic::PositionOutOfRange);
    }
    let (y, y_fits) = quantize_position(pos.y);
    if !y_fits {
        log.push(Diagnostic::PositionOutOfRange);
    }
    let (z, z_fits) = quantize_position(pos.z);
    if !z_fits {
        log.push(Diagnostic::PositionOutOfRange);
    }
    assert(log@ =~= old(log)@ + position_faults(pos));
    [x, y, z]
}

/// Packs a normal and reports each component that was out of range.
pub fn handle_normal(normal: Point3, log: &mut Vec<Diagnostic>) -> (packed: [u8; 3])
    ensures
        packed[0] == normal_level(normal.x),
        packed[1] == normal_level(normal.y),
        packed[2] == normal_level(normal.z),
        final(log)@ == old(log)@ + normal_faults(normal),
{
    let (x, x_fits) = quantize_normal(normal.x);
    if !x_fits {
        log.push(Diagnostic::NormalOutOfRange);
    }
    let (y, y_fits) = quantize_normal(normal.y);
    if !y_fits {
        log.push(Diagnostic::NormalOutOfRange);
    }
    let (z, z_fits) = quantize_normal(normal.z);
    if !z_fits {
        log.push(Diagnostic::NormalOutOfRange);
    }
    assert(log@ =~= old(log)@ + normal_faults(normal));
    [x, y, z]
}

/// Packs a color into twenty-two bits. Channels outside zero to one are
/// confined, so there is nothing to report.
pub fn handle_color_solid(color: Rgba) -> (packed: u32)
    ensures
        packed == packed_color(color),
        packed < 0x40_0000,
{
    let red: u32 = floor_scaled(color.red, NARROW_CHANNEL_MAX);
    let green: u32 = floor_scaled(color.green, WIDE_CHANNEL_MAX);
    let blue: u32 = floor_scaled(color.blue, NARROW_CHANNEL_MAX);
    proof {
        lemma_packed_color_bound(color);
    }
    (red << 15) | (green << 7) | blue
}

/// Lays a packed position, a packed normal and a payload out as one entry of
/// each vertex stream: the position with the payload's upper sixteen bits,
/// the normal with its lower eight.
///
/// A payload of more than twenty-four bits is reported and loses the bits
/// above them.
pub fn construct_vertex_data(
    pos: [u16; 3],
    normal: [u8; 3],
    data: u32,
    log: &mut Vec<Diagnostic>,
) -> (entries: ([u16; 4], [u8; 4]))
    ensures
        entries.0 == [pos[0], pos[1], pos[2], payload_high(data)],
        entries.1 == [normal[0], normal[1], normal[2], payload_low(data)],
        final(log)@ == old(log)@ + payload_faults(data),
{
    if data >= PAYLOAD_LIMIT {
        log.push(Diagnostic::PayloadTooLarge);
    }
    assert(log@ =~= old(log)@ + payload_faults(data));
    assert((data >> 8) & 0xFFFF <= 0xFFFF) by (bit_vector);
    assert(data & 0xFF <= 0xFF) by (bit_vector);
    let high: u16 = ((data >> 8) & 0xFFFF) as u16;
    let low: u8 = (data & 0xFF) as u8;
    let data1: [u16; 4] = [pos[0], pos[1], pos[2], high];
    let data2: [u8; 4] = [normal[0], normal[1], normal[2], low];
    assert(data1 =~= [pos[0], pos[1], pos[2], payload_high(data)]);
    assert(data2 =~= [normal[0], normal[1], normal[2], payload_low(data)]);
    (data1, data2)
}

/// Reads the payload back from the two packed fields that hold it.
pub fn join_payload(high: u16, low: u8) -> (payload: u32)
    ensures
        payload == joined_payload(high, low),
        payload < 0x100_0000,
{
    assert(joined_payload(high, low) < 0x100_0000) by (bit_vector);
    ((high as u32) << 8) | (low as u32)
}

} // verus!
