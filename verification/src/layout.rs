//! The fixed geometry of the quad pipeline and the layout of its vertex
//! attributes.

use vstd::prelude::*;

verus! {

/// How many numbers an attribute holds.
#[derive(Clone, Copy, Debug, PartialEq, Eq, Structural)]
pub enum VertexFormat {
    Float1,
    Float2,
    Float4,
}

/// An input of the vertex shader.
#[derive(Clone, Copy, Debug, PartialEq, Eq, Structural)]
pub enum Attribute {
    /// The corner of the unit quad.
    CornerPosition,
    Color,
    Position,
    Size,
    BorderColor,
    BorderRadius,
    BorderWidth,
}

/// Where an attribute comes from.
#[derive(Clone, Copy, Debug, PartialEq, Eq, Structural)]
pub struct VertexAttribute {
    pub attribute: Attribute,
    pub format: VertexFormat,
    /// The vertex buffer that holds it: 0 the corners of the unit quad,
    /// 1 the quads.
    pub buffer_index: usize,
}

/// The numbers that one quad takes in the instance buffer: colour,
/// position, size, border colour, border radii, border width.
pub const INSTANCE_FLOATS: usize = 17;

impl VertexFormat {
    /// How many numbers the format holds.
    pub open spec fn spec_floats(self) -> nat {
        match self {
            VertexFormat::Float1 => 1,
            VertexFormat::Float2 => 2,
            VertexFormat::Float4 => 4,
        }
    }

    /// How many numbers the format holds.
    pub fn floats(&self) -> (n: usize)
        ensures
            n == self.spec_floats(),
    {
        match self {
            VertexFormat::Float1 => 1,
            VertexFormat::Float2 => 2,
            VertexFormat::Float4 => 4,
        }
    }
}

impl Attribute {
    /// The format of the attribute.
    pub open spec fn spec_format(self) -> VertexFormat {
        match self {
            Attribute::CornerPosition => VertexFormat::Float2,
            Attribute::Color => VertexFormat::Float4,
            Attribute::Position => VertexFormat::Float2,
            Attribute::Size => VertexFormat::Float2,
            Attribute::BorderColor => VertexFormat::Float4,
            Attribute::BorderRadius => VertexFormat::Float4,
            Attribute::BorderWidth => VertexFormat::Float1,
        }
    }

    /// The name of the attribute in the shader.
    pub fn name(&self) -> (name: &'static str)
        ensures
            name@ == (match *self {
                Attribute::CornerPosition => "i_inst_pos"@,
                Attribute::Color => "i_color"@,
                Attribute::Position => "i_pos"@,
                Attribute::Size => "i_size"@,
                Attribute::BorderColor => "i_border_color"@,
                Attribute::BorderRadius => "i_border_radius"@,
                Attribute::BorderWidth => "i_border_width"@,
            }),
    {
        match self {
            Attribute::CornerPosition => "i_inst_pos",
            Attribute::Color => "i_color",
            Attribute::Position => "i_pos",
            Attribute::Size => "i_size",
            Attribute::BorderColor => "i_border_color",
            Attribute::BorderRadius => "i_border_radius",
            Attribute::BorderWidth => "i_border_width",
        }
    }
}

/// The attributes in the order of the pipeline: the corner from buffer 0,
/// then the fields of a quad from buffer 1, in the order in which a quad
/// holds them.
pub open spec fn spec_attributes() -> Seq<VertexAttribute> {
    seq![
        VertexAttribute {
            attribute: Attribute::CornerPosition,
            format: VertexFormat::Float2,
            buffer_index: 0,
        },
        VertexAttribute { attribute: Attribute::Color, format: VertexFormat::Float4, buffer_index: 1 },
        VertexAttribute { attribute: Attribute::Position, format: VertexFormat::Float2, buffer_index: 1 },
        VertexAttribute { attribute: Attribute::Size, format: VertexFormat::Float2, buffer_index: 1 },
        VertexAttribute {
            attribute: Attribute::BorderColor,
            format: VertexFormat::Float4,
            buffer_index: 1,
        },
        VertexAttribute {
            attribute: Attribute::BorderRadius,
            format: VertexFormat::Float4,
            buffer_index: 1,
        },
        VertexAttribute {
            attribute: Attribute::BorderWidth,
            format: VertexFormat::Float1,
            buffer_index: 1,
        },
    ]
}

/// The numbers that the attributes of buffer `buffer_index` take together.
pub open spec fn floats_in(attributes: Seq<VertexAttribute>, buffer_index: usize) -> nat
    decreases attributes.len(),
{
    if attributes.len() == 0 {
        0
    } else {
        floats_in(attributes.drop_last(), buffer_index) + if attributes.last().buffer_index
            == buffer_index {
            attributes.last().format.spec_floats()
        } else {
            0
        }
    }
}

/// The attributes of the pipeline, in order.
pub fn attributes() -> (list: Vec<VertexAttribute>)
    ensures
        list@ == spec_attributes(),
{
    let mut list: Vec<VertexAttribute> = Vec::new();
    list.push(
        VertexAttribute {
            attribute: Attribute::CornerPosition,
            format: VertexFormat::Float2,
            buffer_index: 0,
        },
    );
    list.push(VertexAttribute { attribute: Attribute::Color, format: VertexFormat::Float4, buffer_index: 1 });
    list.push(VertexAttribute { attribute: Attribute::Position, format: VertexFormat::Float2, buffer_index: 1 });
    list.push(VertexAttribute { attribute: Attribute::Size, format: VertexFormat::Float2, buffer_index: 1 });
    list.push(
        VertexAttribute { attribute: Attribute::BorderColor, format: VertexFormat::Float4, buffer_index: 1 },
    );
    list.push(
        VertexAttribute { attribute: Attribute::BorderRadius, format: VertexFormat::Float4, buffer_index: 1 },
    );
    list.push(
        VertexAttribute { attribute: Attribute::BorderWidth, format: VertexFormat::Float1, buffer_index: 1 },
    );
    assert(list@ =~= spec_attributes());
    list
}

/// A corner of the unit quad.
#[derive(Clone, Copy, Debug, PartialEq, Eq, Structural)]
pub struct Corner {
    pub x: i8,
    pub y: i8,
}

/// The corners of the unit quad, clockwise from the bottom right: the
/// square from -1 to 1 along both axes.
pub fn corners() -> (list: [Corner; 4])
    ensures
        list@ == seq![
            Corner { x: 1, y: 1 },
            Corner { x: 1, y: -1i8 },
            Corner { x: -1i8, y: -1i8 },
            Corner { x: -1i8, y: 1 },
        ],
{
    let list: [Corner; 4] = [
        Corner { x: 1, y: 1 },
        Corner { x: 1, y: -1i8 },
        Corner { x: -1i8, y: -1i8 },
        Corner { x: -1i8, y: 1 },
    ];
    assert(list@ =~= seq![
        Corner { x: 1, y: 1 },
        Corner { x: 1, y: -1i8 },
        Corner { x: -1i8, y: -1i8 },
        Corner { x: -1i8, y: 1 },
    ]);
    list
}

/// The corner indices of the two triangles of the unit quad.
pub fn indices() -> (list: [u16; 6])
    ensures
        list@ == seq![0u16, 1u16, 2u16, 2u16, 3u16, 0u16],
{
    let list: [u16; 6] = [0, 1, 2, 2, 3, 0];
    assert(list@ =~= seq![0u16, 1u16, 2u16, 2u16, 3u16, 0u16]);
    list
}

/// Every attribute has the format of its kind, the corner is two numbers
/// of buffer 0, and the attributes of buffer 1 fill one quad of the
/// instance buffer exactly.
pub proof fn lemma_layout()
    ensures
        forall|i: int|
            0 <= i < spec_attributes().len() ==> (#[trigger] spec_attributes()[i]).format
                == spec_attributes()[i].attribute.spec_format(),
        floats_in(spec_attributes(), 0) == 2,
        floats_in(spec_attributes(), 1) == INSTANCE_FLOATS,
{
    let a = spec_attributes();
    reveal_with_fuel(floats_in, 8);
    assert(a.drop_last().len() == 6);
    assert(a.drop_last().drop_last().len() == 5);
    assert(a.drop_last().drop_last().drop_last().len() == 4);
    assert(a.drop_last().drop_last().drop_last().drop_last().len() == 3);
    assert(a.drop_last().drop_last().drop_last().drop_last().drop_last().len() == 2);
    assert(a.drop_last().drop_last().drop_last().drop_last().drop_last().drop_last().len() == 1);
}

} // verus!
