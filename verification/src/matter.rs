use vstd::prelude::*;
use vstd::std_specs::convert::FromSpecImpl;

use crate::utils::{
    spec_u32_rgba_to_u8_rgba, spec_u8_rgba_to_u32_rgba, u32_rgba_to_u8_rgba, u8_rgba_to_u32_rgba,
    EMPTY_COLOR,
};

verus! {

/// The matter that one cell of the grid can hold.
#[derive(Debug, Copy, Clone, Eq, PartialEq, Structural)]
pub enum MatterId {
    Empty,
    Rock,
    Sand,
    Water,
}

/// A byte that names no matter.
#[derive(Debug, Copy, Clone, Eq, PartialEq, Structural)]
pub struct DecodeError {
    /// The byte that was offered.
    pub raw: u8,
}

impl Default for MatterId {
    fn default() -> (res: Self)
        ensures
            res == MatterId::Empty,
    {
        MatterId::Empty
    }
}

impl MatterId {
    /// The byte that stands for this matter in a cell.
    pub open spec fn spec_tag(self) -> u8 {
        match self {
            MatterId::Empty => 0,
            MatterId::Rock => 1,
            MatterId::Sand => 2,
            MatterId::Water => 3,
        }
    }

    /// The matter that a byte stands for: the four defined tags decode, every
    /// other byte is an error that carries the byte.
    pub open spec fn spec_decode_kind(raw: u8) -> Result<MatterId, DecodeError> {
        if raw == 0 {
            Ok(MatterId::Empty)
        } else if raw == 1 {
            Ok(MatterId::Rock)
        } else if raw == 2 {
            Ok(MatterId::Sand)
        } else if raw == 3 {
            Ok(MatterId::Water)
        } else {
            Err(DecodeError { raw })
        }
    }

    /// The display colour of this matter, packed with full opacity.
    pub open spec fn spec_color(self) -> u32 {
        match self {
            MatterId::Empty => EMPTY_COLOR,
            MatterId::Rock => 0xa9a9a9ff,
            MatterId::Sand => 0xc2b280ff,
            MatterId::Water => 0x0000ffff,
        }
    }

    /// Every matter, in the order of the tags.
    pub open spec fn spec_all() -> Seq<MatterId> {
        seq![MatterId::Empty, MatterId::Rock, MatterId::Sand, MatterId::Water]
    }

    /// The byte that stands for this matter in a cell.
    pub fn tag(&self) -> (res: u8)
        ensures
            res == self.spec_tag(),
    {
        match *self {
            MatterId::Empty => 0,
            MatterId::Rock => 1,
            MatterId::Sand => 2,
            MatterId::Water => 3,
        }
    }

    /// Decodes a tag byte. A byte above the last tag is refused, never read
    /// as some matter.
    pub fn decode_kind(raw: u8) -> (res: Result<MatterId, DecodeError>)
        ensures
            res == Self::spec_decode_kind(raw),
    {
        match raw {
            0 => Ok(MatterId::Empty),
            1 => Ok(MatterId::Rock),
            2 => Ok(MatterId::Sand),
            3 => Ok(MatterId::Water),
            _ => Err(DecodeError { raw }),
        }
    }

    /// The display colour of this matter as its four channels.
    pub fn color_rgba_u8(&self) -> (res: [u8; 4])
        ensures
            res@ == spec_u32_rgba_to_u8_rgba(self.spec_color()),
    {
        let color: u32 = match *self {
            MatterId::Empty => EMPTY_COLOR,
            MatterId::Rock => 0xa9a9a9ff,
            MatterId::Sand => 0xc2b280ff,
            MatterId::Water => 0x0000ffff,
        };
        u32_rgba_to_u8_rgba(color)
    }

    /// Every matter, in the order of the tags.
    pub fn all() -> (res: [MatterId; 4])
        ensures
            res@ == Self::spec_all(),
    {
        let res: [MatterId; 4] = [MatterId::Empty, MatterId::Rock, MatterId::Sand, MatterId::Water];
        assert(res@ =~= Self::spec_all());
        res
    }
}

/// One cell of the grid: red, green and blue of the display colour in the
/// three high bytes, the matter's tag in the low byte.
#[derive(Debug, Copy, Clone, Eq, PartialEq, Structural)]
pub struct MatterWithColor {
    pub value: u32,
}

impl Default for MatterWithColor {
    fn default() -> (res: Self)
        ensures
            res == MatterWithColor::spec_new(MatterId::Empty),
    {
        MatterWithColor { value: 0 }
    }
}

impl MatterWithColor {
    /// The cell that holds `matter_id`.
    pub open spec fn spec_new(matter_id: MatterId) -> MatterWithColor {
        let color = spec_u32_rgba_to_u8_rgba(matter_id.spec_color());
        MatterWithColor {
            value: spec_u8_rgba_to_u32_rgba(color[0], color[1], color[2], matter_id.spec_tag()),
        }
    }

    /// The low byte of the cell, where the tag is kept.
    pub open spec fn spec_tag(self) -> u8 {
        (self.value % 0x100) as u8
    }

    /// The matter that the cell's tag stands for.
    pub open spec fn spec_matter_id(self) -> Result<MatterId, DecodeError> {
        MatterId::spec_decode_kind(self.spec_tag())
    }

    /// The cell is the encoding of some matter: its tag is defined and its
    /// colour is that matter's colour.
    pub open spec fn is_canonical(self) -> bool {
        exists|matter_id: MatterId| self == #[trigger] Self::spec_new(matter_id)
    }

    /// Encodes a matter as a cell: its display colour with the tag in place
    /// of the opacity.
    pub fn new(matter_id: MatterId) -> (res: MatterWithColor)
        ensures
            res == Self::spec_new(matter_id),
            res.is_canonical(),
            res.value == match matter_id {
                MatterId::Empty => 0x0000_0000u32,
                MatterId::Rock => 0xa9a9_a901u32,
                MatterId::Sand => 0xc2b2_8002u32,
                MatterId::Water => 0x0000_ff03u32,
            },
    {
        let color: [u8; 4] = matter_id.color_rgba_u8();
        MatterWithColor { value: u8_rgba_to_u32_rgba(color[0], color[1], color[2], matter_id.tag()) }
    }

    /// Decodes the matter of a cell from its tag byte. A cell whose tag is
    /// not defined is refused.
    pub fn matter_id(&self) -> (res: Result<MatterId, DecodeError>)
        ensures
            res == self.spec_matter_id(),
    {
        let raw: u8 = (self.value % 0x100) as u8;
        MatterId::decode_kind(raw)
    }
}

impl From<u32> for MatterWithColor {
    fn from(item: u32) -> (res: Self) {
        Self { value: item }
    }
}

impl FromSpecImpl<u32> for MatterWithColor {
    open spec fn obeys_from_spec() -> bool {
        true
    }

    open spec fn from_spec(item: u32) -> Self {
        MatterWithColor { value: item }
    }
}

/// Encoding then decoding gives the matter back.
pub proof fn lemma_encode_decode(matter_id: MatterId)
    ensures
        MatterWithColor::spec_new(matter_id).spec_matter_id() == Ok::<MatterId, DecodeError>(matter_id),
        MatterId::spec_decode_kind(matter_id.spec_tag()) == Ok::<MatterId, DecodeError>(matter_id),
{
}

/// Decoding succeeds on the four defined tags and on no other byte; an
/// error carries the byte that was refused.
pub proof fn lemma_decode_range(raw: u8)
    ensures
        MatterId::spec_decode_kind(raw) is Ok <==> raw <= 3,
        MatterId::spec_decode_kind(raw) matches Ok(matter_id) ==> matter_id.spec_tag() == raw,
        MatterId::spec_decode_kind(raw) matches Err(e) ==> e.raw == raw,
{
}

/// The colour of a cell is a function of its matter: two canonical cells
/// with the same tag are the same cell, and the empty cell is zero.
pub proof fn lemma_canonical_cell(a: MatterWithColor, b: MatterWithColor)
    requires
        a.is_canonical(),
        b.is_canonical(),
    ensures
        a.spec_matter_id() is Ok,
        a.spec_tag() == b.spec_tag() ==> a == b,
        a.spec_matter_id() == Ok::<MatterId, DecodeError>(MatterId::Empty) <==> a.value == 0,
{
}

} // verus!
