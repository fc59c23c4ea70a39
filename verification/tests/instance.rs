use kintaro::instance::{InstanceRaw, VertexAttribute, VertexFormat};

#[test]
fn instance_layout_follows_the_record() {
    let layout = InstanceRaw::desc();
    assert_eq!(layout.array_stride, 76);
    let offsets: Vec<u64> = layout.attributes.iter().map(|a| a.offset).collect();
    assert_eq!(offsets, vec![0, 16, 32, 48, 64, 68, 72]);
    let locations: Vec<u32> = layout.attributes.iter().map(|a| a.shader_location).collect();
    assert_eq!(locations, vec![5, 6, 7, 8, 9, 10, 11]);
    assert_eq!(
        layout.attributes[3],
        VertexAttribute { offset: 48, shader_location: 8, format: VertexFormat::Float32x3 }
    );
    assert_eq!(layout.attributes[6].format, VertexFormat::Float32);
}
