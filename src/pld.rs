//! Physical Location of Device (`_PLD`) descriptors.

use vstd::prelude::*;

verus! {

/// The surface of the enclosure the port is on.
#[derive(Debug, Clone, Copy, PartialEq, Eq, Structural)]
pub enum PldPanel {
    Top,
    Bottom,
    Left,
    Right,
    Front,
    Back,
    Unknown,
}

impl PldPanel {
    pub open spec fn spec_value(&self) -> u8 {
        match self {
            PldPanel::Top => 0,
            PldPanel::Bottom => 1,
            PldPanel::Left => 2,
            PldPanel::Right => 3,
            PldPanel::Front => 4,
            PldPanel::Back => 5,
            PldPanel::Unknown => 6,
        }
    }

    /// The field value of this variant.
    #[verifier::when_used_as_spec(spec_value)]
    pub fn value(&self) -> (r: u8)
        ensures
            r == self.spec_value(),
    {
        match self {
            PldPanel::Top => 0,
            PldPanel::Bottom => 1,
            PldPanel::Left => 2,
            PldPanel::Right => 3,
            PldPanel::Front => 4,
            PldPanel::Back => 5,
            PldPanel::Unknown => 6,
        }
    }
}

/// Vertical position of the port on its panel.
#[derive(Debug, Clone, Copy, PartialEq, Eq, Structural)]
pub enum PldVerticalPosition {
    Upper,
    Center,
    Lower,
}

impl PldVerticalPosition {
    pub open spec fn spec_value(&self) -> u8 {
        match self {
            PldVerticalPosition::Upper => 0,
            PldVerticalPosition::Center => 1,
            PldVerticalPosition::Lower => 2,
        }
    }

    /// The field value of this variant.
    #[verifier::when_used_as_spec(spec_value)]
    pub fn value(&self) -> (r: u8)
        ensures
            r == self.spec_value(),
    {
        match self {
            PldVerticalPosition::Upper => 0,
            PldVerticalPosition::Center => 1,
            PldVerticalPosition::Lower => 2,
        }
    }
}

/// Horizontal position of the port; the values are those of the IASL
/// compiler, the specification leaves the field undefined.
#[derive(Debug, Clone, Copy, PartialEq, Eq, Structural)]
pub enum PldHorizontalPosition {
    Left,
    Center,
    Right,
}

impl PldHorizontalPosition {
    pub open spec fn spec_value(&self) -> u8 {
        match self {
            PldHorizontalPosition::Left => 0,
            PldHorizontalPosition::Center => 1,
            PldHorizontalPosition::Right => 2,
        }
    }

    /// The field value of this variant.
    #[verifier::when_used_as_spec(spec_value)]
    pub fn value(&self) -> (r: u8)
        ensures
            r == self.spec_value(),
    {
        match self {
            PldHorizontalPosition::Left => 0,
            PldHorizontalPosition::Center => 1,
            PldHorizontalPosition::Right => 2,
        }
    }
}

/// The shape of the port.
#[derive(Debug, Clone, Copy, PartialEq, Eq, Structural)]
pub enum PldShape {
    Round,
    Oval,
    Square,
    VerticalRectangle,
    HorizontalRectangle,
    VerticalTrapezoid,
    HorizontalTrapezoid,
    Unknown,
    Chamfered,
}

impl PldShape {
    pub open spec fn spec_value(&self) -> u8 {
        match self {
            PldShape::Round => 0,
            PldShape::Oval => 1,
            PldShape::Square => 2,
            PldShape::VerticalRectangle => 3,
            PldShape::HorizontalRectangle => 4,
            PldShape::VerticalTrapezoid => 5,
            PldShape::HorizontalTrapezoid => 6,
            PldShape::Unknown => 7,
            PldShape::Chamfered => 8,
        }
    }

    /// The field value of this variant.
    #[verifier::when_used_as_spec(spec_value)]
    pub fn value(&self) -> (r: u8)
        ensures
            r == self.spec_value(),
    {
        match self {
            PldShape::Round => 0,
            PldShape::Oval => 1,
            PldShape::Square => 2,
            PldShape::VerticalRectangle => 3,
            PldShape::HorizontalRectangle => 4,
            PldShape::VerticalTrapezoid => 5,
            PldShape::HorizontalTrapezoid => 6,
            PldShape::Unknown => 7,
            PldShape::Chamfered => 8,
        }
    }
}

/// The orientation of the port.
#[derive(Debug, Clone, Copy, PartialEq, Eq, Structural)]
pub enum PldOrientation {
    Horizontal,
    Vertical,
}

impl PldOrientation {
    pub open spec fn spec_value(&self) -> u8 {
        match self {
            PldOrientation::Horizontal => 0,
            PldOrientation::Vertical => 1,
        }
    }

    /// The field value of this variant.
    #[verifier::when_used_as_spec(spec_value)]
    pub fn value(&self) -> (r: u8)
        ensures
            r == self.spec_value(),
    {
        match self {
            PldOrientation::Horizontal => 0,
            PldOrientation::Vertical => 1,
        }
    }
}

/// Rotation of the port, in steps of 45 degrees.
#[derive(Debug, Clone, Copy, PartialEq, Eq, Structural)]
pub enum PldRotate {
    Rotate0,
    Rotate45,
    Rotate90,
    Rotate135,
    Rotate180,
    Rotate225,
    Rotate270,
    Rotate315,
}

impl PldRotate {
    pub open spec fn spec_value(&self) -> u8 {
        match self {
            PldRotate::Rotate0 => 0,
            PldRotate::Rotate45 => 1,
            PldRotate::Rotate90 => 2,
            PldRotate::Rotate135 => 3,
            PldRotate::Rotate180 => 4,
            PldRotate::Rotate225 => 5,
            PldRotate::Rotate270 => 6,
            PldRotate::Rotate315 => 7,
        }
    }

    /// The field value of this variant.
    #[verifier::when_used_as_spec(spec_value)]
    pub fn value(&self) -> (r: u8)
        ensures
            r == self.spec_value(),
    {
        match self {
            PldRotate::Rotate0 => 0,
            PldRotate::Rotate45 => 1,
            PldRotate::Rotate90 => 2,
            PldRotate::Rotate135 => 3,
            PldRotate::Rotate180 => 4,
            PldRotate::Rotate225 => 5,
            PldRotate::Rotate270 => 6,
            PldRotate::Rotate315 => 7,
        }
    }
}

/// Port grouping: ports with the same token belong to one group.
#[derive(Debug, Clone, Copy)]
pub struct PldGroup {
    pub token: u8,
    pub position: u8,
}

pub struct Pld {
    /* Color field can be explicitly ignored */
    pub ignore_color: bool,
    pub color_red: u8,
    pub color_blue: u8,
    pub color_green: u8,

    /* Port characteristics */
    /// Can be seen by the user
    pub visible: bool,
    /// Port is on lid of device
    pub lid: bool,
    /// Port is in a docking station
    pub dock: bool,
    /// Port is in a bay
    pub bay: bool,
    /// Device is ejectable, has _EJx objects
    pub ejectable: bool,
    /// Device needs OSPM to eject
    pub ejectable_ospm: bool,
    /// Width in mm
    pub width: u16,
    /// Height in mm
    pub height: u16,
    pub vertical_offset: u16,
    pub horizontal_offset: u16,
    pub panel: PldPanel,
    pub horizontal_position: PldHorizontalPosition,
    pub vertical_position: PldVerticalPosition,
    pub shape: PldShape,
    pub rotation: PldRotate,

    /* Port grouping */
    pub orientation: PldOrientation,
    pub group: PldGroup,
    pub draw_order: u8,
    pub cabinet_number: u8,
    pub card_cage_number: u8,

    /* Set if this PLD defines a reference shape */
    pub reference_shape: bool,
}

/// 1 for true, 0 for false.
pub open spec fn flag(b: bool) -> u8 {
    if b {
        1
    } else {
        0
    }
}

fn flag_bit(b: bool) -> (r: u8)
    ensures
        r == flag(b),
{
    if b {
        1
    } else {
        0
    }
}

impl Pld {
    /// The 20-byte revision 2 `_PLD` buffer, byte by byte.
    pub open spec fn spec_buffer(&self) -> Seq<u8> {
        seq![
            if self.ignore_color { 0x82u8 } else { 0x02u8 },
            if self.ignore_color { 0u8 } else { self.color_red },
            if self.ignore_color { 0u8 } else { self.color_green },
            if self.ignore_color { 0u8 } else { self.color_blue },
            (self.width & 0xff) as u8,
            (self.width >> 8u16) as u8,
            (self.height & 0xff) as u8,
            (self.height >> 8u16) as u8,
            flag(self.visible) | (flag(self.dock) << 1u8) | (flag(self.lid) << 2u8)
                | ((self.panel.spec_value() & 0x7) << 3u8)
                | ((self.vertical_position.spec_value() & 0x3) << 6u8),
            (self.horizontal_position.spec_value() & 0x3) | ((self.shape.spec_value() & 0xf) << 2u8)
                | ((self.orientation.spec_value() & 0x1) << 6u8) | ((self.group.token & 0x1) << 7u8),
            ((self.group.token >> 1u8) & 0x7f) | ((self.group.position & 0x1) << 7u8),
            ((self.group.position >> 1u8) & 0x7f) | (flag(self.bay) << 7u8),
            flag(self.ejectable) | (flag(self.ejectable_ospm) << 1u8)
                | ((self.cabinet_number & 0x3f) << 2u8),
            ((self.cabinet_number >> 6u8) & 0x3) | ((self.card_cage_number & 0x3f) << 2u8),
            ((self.card_cage_number >> 6u8) & 0x3) | (flag(self.reference_shape) << 2u8)
                | ((self.rotation.spec_value() & 0xf) << 3u8) | ((self.draw_order & 0x1) << 7u8),
            (self.draw_order >> 1u8) & 0xf,
            (self.vertical_offset & 0xff) as u8,
            (self.vertical_offset >> 8u16) as u8,
            (self.horizontal_offset & 0xff) as u8,
            (self.horizontal_offset >> 8u16) as u8,
        ]
    }

    /// Packs the descriptor into its 20-byte buffer form.
    pub fn to_buffer(&self) -> (buf: [u8; 20])
        ensures
            buf@ == self.spec_buffer(),
    {
        let (r, g, b) = if self.ignore_color {
            (0u8, 0u8, 0u8)
        } else {
            (self.color_red, self.color_green, self.color_blue)
        };
        let buf = [
            if self.ignore_color { 0x82u8 } else { 0x02u8 },
            r,
            g,
            b,
            (self.width & 0xff) as u8,
            (self.width >> 8u16) as u8,
            (self.height & 0xff) as u8,
            (self.height >> 8u16) as u8,
            flag_bit(self.visible) | (flag_bit(self.dock) << 1u8) | (flag_bit(self.lid) << 2u8)
                | ((self.panel.value() & 0x7) << 3u8) | ((self.vertical_position.value() & 0x3) << 6u8),
            (self.horizontal_position.value() & 0x3) | ((self.shape.value() & 0xf) << 2u8)
                | ((self.orientation.value() & 0x1) << 6u8) | ((self.group.token & 0x1) << 7u8),
            ((self.group.token >> 1u8) & 0x7f) | ((self.group.position & 0x1) << 7u8),
            ((self.group.position >> 1u8) & 0x7f) | (flag_bit(self.bay) << 7u8),
            flag_bit(self.ejectable) | (flag_bit(self.ejectable_ospm) << 1u8)
                | ((self.cabinet_number & 0x3f) << 2u8),
            ((self.cabinet_number >> 6u8) & 0x3) | ((self.card_cage_number & 0x3f) << 2u8),
            ((self.card_cage_number >> 6u8) & 0x3) | (flag_bit(self.reference_shape) << 2u8)
                | ((self.rotation.value() & 0xf) << 3u8) | ((self.draw_order & 0x1) << 7u8),
            (self.draw_order >> 1u8) & 0xf,
            (self.vertical_offset & 0xff) as u8,
            (self.vertical_offset >> 8u16) as u8,
            (self.horizontal_offset & 0xff) as u8,
            (self.horizontal_offset >> 8u16) as u8,
        ];
        assert(buf@ =~= self.spec_buffer());
        buf
    }
}

} // verus!
