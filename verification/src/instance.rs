//! The memory layout of the per-instance record that the shaders read.
use vstd::prelude::*;

verus! {

/// The formats of the instance attributes: one, three or four 32-bit floats.
#[derive(Clone, Copy, Debug, PartialEq, Eq, Structural)]
pub enum VertexFormat {
    Float32,
    Float32x3,
    Float32x4,
}

impl VertexFormat {
    /// The bytes an attribute of the format takes.
    pub open spec fn spec_size(self) -> int {
        match self {
            VertexFormat::Float32 => 4,
            VertexFormat::Float32x3 => 12,
            VertexFormat::Float32x4 => 16,
        }
    }
}

/// One attribute of a vertex buffer: where it starts in a record, the shader
/// location it feeds, and its format.
#[derive(Clone, Copy, Debug, PartialEq, Eq, Structural)]
pub struct VertexAttribute {
    pub offset: u64,
    pub shader_location: u32,
    pub format: VertexFormat,
}

/// The layout of a vertex buffer whose records advance once per instance.
#[derive(Clone, Debug, PartialEq, Eq)]
pub struct InstanceBufferLayout {
    pub array_stride: u64,
    pub attributes: Vec<VertexAttribute>,
}

/// The attributes lie in the record one after the other, each within it,
/// none overlapping the next.
pub open spec fn attributes_fit(layout: InstanceBufferLayout) -> bool {
    &&& forall|i: int|
        0 <= i < layout.attributes@.len() ==> #[trigger] layout.attributes@[i].offset + layout.attributes@[i].format.spec_size()
            <= layout.array_stride
    &&& forall|i: int|
        0 <= i < layout.attributes@.len() - 1 ==> #[trigger] layout.attributes@[i].offset + layout.attributes@[i].format.spec_size()
            <= layout.attributes@[i + 1].offset
}

/// The bytes of one instance record: a 4×4 model matrix, then life, size and
/// length, all 32-bit floats.
pub open spec fn instance_raw_size() -> int {
    76
}

/// The record that carries one instance to the shaders: its model matrix, its
/// life, its size and its length, all 32-bit floats. The values are filled in
/// by the renderer; the library knows the record's layout.
pub struct InstanceRaw;

impl InstanceRaw {
    /// The vertex buffer layout of instance records: the four rows of the
    /// model matrix at shader locations 5 to 8 (the last one read as three
    /// floats), then life, size and length at 9, 10 and 11; the stride is the
    /// size of a record.
    pub fn desc() -> (layout: InstanceBufferLayout)
        ensures
            layout.array_stride == instance_raw_size(),
            layout.attributes@ == seq![
                VertexAttribute { offset: 0, shader_location: 5, format: VertexFormat::Float32x4 },
                VertexAttribute { offset: 16, shader_location: 6, format: VertexFormat::Float32x4 },
                VertexAttribute { offset: 32, shader_location: 7, format: VertexFormat::Float32x4 },
                VertexAttribute { offset: 48, shader_location: 8, format: VertexFormat::Float32x3 },
                VertexAttribute { offset: 64, shader_location: 9, format: VertexFormat::Float32 },
                VertexAttribute { offset: 68, shader_location: 10, format: VertexFormat::Float32 },
                VertexAttribute { offset: 72, shader_location: 11, format: VertexFormat::Float32 },
            ],
            attributes_fit(layout),
    {
        let attributes = vec![
            VertexAttribute { offset: 0, shader_location: 5, format: VertexFormat::Float32x4 },
            VertexAttribute { offset: 16, shader_location: 6, format: VertexFormat::Float32x4 },
            VertexAttribute { offset: 32, shader_location: 7, format: VertexFormat::Float32x4 },
            VertexAttribute { offset: 48, shader_location: 8, format: VertexFormat::Float32x3 },
            VertexAttribute { offset: 64, shader_location: 9, format: VertexFormat::Float32 },
            VertexAttribute { offset: 68, shader_location: 10, format: VertexFormat::Float32 },
            VertexAttribute { offset: 72, shader_location: 11, format: VertexFormat::Float32 },
        ];
        let layout = InstanceBufferLayout { array_stride: 76, attributes };
        proof {
            let a = layout.attributes@;
            assert forall|i: int| 0 <= i < a.len() implies #[trigger] a[i].offset + a[i].format.spec_size() <= 76 by {}
            assert forall|i: int| 0 <= i < a.len() - 1 implies #[trigger] a[i].offset + a[i].format.spec_size() <= a[i + 1].offset by {}
        }
        layout
    }
}

} // verus!
