//! Whole-loader behavior: buffer layout round trips, offset alignment, the
//! error taxonomy, and command replay.

use glmesh::mesh::{DrawCall, Mesh, MeshError, Primitive, RenderCommand};
use glmesh::values::IndexSize;
use glmesh::vertex_attributes::DataType;

fn plane_source() -> &'static str {
    r#"<?xml version="1.0"?>
<mesh>
    <attribute index="0" type="float" size="3">
        0.5 0.0 -0.5 0.5 0.0 0.5 -0.5 0.0 0.5 -0.5 0.0 -0.5
    </attribute>
    <indices cmd="triangles" type="ushort">
        0 1 2 0 2 1 2 3 0 2 0 3
    </indices>
</mesh>
"#
}

#[test]
fn test_plane_buffer_round_trip() {
    let mesh = Mesh::new(plane_source(), "UnitPlane.xml").unwrap();

    let floats: [f32; 12] = [0.5, 0.0, -0.5, 0.5, 0.0, 0.5, -0.5, 0.0, 0.5, -0.5, 0.0, -0.5];
    let expected_bytes: Vec<u8> = floats.iter().flat_map(|f| f.to_le_bytes()).collect();
    assert_eq!(mesh.attributes()[0].num_elements(), 4);
    assert_eq!(mesh.attributes()[0].byte_size(), 48);
    assert_eq!(mesh.attribute_buffer().len(), 48);
    assert_eq!(*mesh.attribute_buffer(), expected_bytes);
    assert_eq!(*mesh.attribute_offsets(), vec![0]);

    let indices: [u16; 12] = [0, 1, 2, 0, 2, 1, 2, 3, 0, 2, 0, 3];
    let expected_idx: Vec<u8> = indices.iter().flat_map(|i| i.to_le_bytes()).collect();
    assert_eq!(mesh.index_buffer().len(), 24);
    assert_eq!(*mesh.index_buffer(), expected_idx);

    assert_eq!(mesh.commands().len(), 1);
    match &mesh.commands()[0] {
        RenderCommand::Indexed { count, index_size, offset, .. } => {
            assert_eq!(*count, 12);
            assert_eq!(*index_size, IndexSize::UnsignedShort);
            assert_eq!(*offset, 0);
        }
        RenderCommand::Array { .. } => panic!(),
    }
}

#[test]
fn test_offsets_are_16_byte_aligned() {
    // one element per attribute: 12 bytes of position, then 16 bytes of color
    let source = r#"<?xml version="1.0"?>
<mesh>
    <attribute index="0" type="float" size="3">1.0 2.0 3.0</attribute>
    <attribute index="1" type="float" size="4">0.0 0.25 0.5 1.0</attribute>
</mesh>
"#;
    let mesh = Mesh::new(source, "Pair.xml").unwrap();
    assert_eq!(*mesh.attribute_offsets(), vec![0, 16]);
    assert_eq!(mesh.attribute_buffer().len(), 32);
    for off in mesh.attribute_offsets() {
        assert_eq!(off % 16, 0);
    }
    // the second block reads back exactly, after the zero padding
    let color: [f32; 4] = [0.0, 0.25, 0.5, 1.0];
    let expected: Vec<u8> = color.iter().flat_map(|f| f.to_le_bytes()).collect();
    assert_eq!(mesh.attribute_buffer()[16..32].to_vec(), expected);
    assert_eq!(mesh.attribute_buffer()[12..16], [0, 0, 0, 0]);
}

#[test]
fn test_index_streams_are_packed_aligned() {
    let source = r#"<?xml version="1.0"?>
<mesh>
    <attribute index="0" type="float" size="3">1.0 2.0 3.0</attribute>
    <indices cmd="tri-fan" type="ushort">0 1 2</indices>
    <indices cmd="tri-fan" type="ushort">2 1 0</indices>
</mesh>
"#;
    let mesh = Mesh::new(source, "Fans.xml").unwrap();
    // 6 bytes for the first stream, padding to 16, then 6 bytes more
    assert_eq!(mesh.index_buffer().len(), 22);
    let mut offsets = Vec::new();
    for cmd in mesh.commands() {
        match cmd {
            RenderCommand::Indexed { offset, count, .. } => {
                offsets.push(*offset);
                assert_eq!(*count, 3);
            }
            RenderCommand::Array { .. } => panic!(),
        }
    }
    assert_eq!(offsets, vec![0, 16]);
    assert_eq!(mesh.index_buffer()[0..6], [0, 0, 1, 0, 2, 0]);
    assert_eq!(mesh.index_buffer()[16..22], [2, 0, 1, 0, 0, 0]);
}

#[test]
fn test_mismatched_element_counts_rejected() {
    // 4 elements of position against 1 element of color
    let source = r#"<?xml version="1.0"?>
<mesh>
    <attribute index="0" type="float" size="3">
        0.5 0.0 -0.5 0.5 0.0 0.5 -0.5 0.0 0.5 -0.5 0.0 -0.5
    </attribute>
    <attribute index="1" type="float" size="4">0.0 0.25 0.5 1.0</attribute>
</mesh>
"#;
    let err = Mesh::new(source, "Mismatch.xml").unwrap_err();
    assert_eq!(
        err,
        MeshError::VertexAttributesArrayWithDifferentSize(1, "Mismatch.xml".to_string())
    );
}

#[test]
fn test_vao_unresolved_location_rejected() {
    let source = r#"<?xml version="1.0"?>
<mesh>
    <attribute index="0" type="float" size="3">1.0 2.0 3.0</attribute>
    <vao name="broken">
        <source attrib="7"/>
    </vao>
</mesh>
"#;
    let err = Mesh::new(source, "Broken.xml").unwrap_err();
    assert_eq!(
        err,
        MeshError::VaoSourceInvalidIndex(7, "broken".to_string(), "Broken.xml".to_string())
    );
}

#[test]
fn test_vao_resolves_to_attribute_positions() {
    let source = r#"<?xml version="1.0"?>
<mesh>
    <attribute index="5" type="float" size="3">1.0 2.0 3.0</attribute>
    <attribute index="2" type="float" size="3">4.0 5.0 6.0</attribute>
    <vao name="swapped">
        <source attrib="2"/>
        <source attrib="5"/>
    </vao>
</mesh>
"#;
    let mesh = Mesh::new(source, "Swapped.xml").unwrap();
    assert_eq!(mesh.named_vaos().len(), 1);
    assert_eq!(mesh.named_vaos()[0].name, "swapped");
    assert_eq!(mesh.named_vaos()[0].attributes, vec![1, 0]);
}

#[test]
fn test_unknown_data_type_rejected() {
    let source = r#"<?xml version="1.0"?>
<mesh>
    <attribute index="0" type="bogus" size="3">1 2 3</attribute>
</mesh>
"#;
    let err = Mesh::new(source, "Bogus.xml").unwrap_err();
    assert_eq!(err, MeshError::UnknownDataType("bogus".to_string()));
}

#[test]
fn test_render_replays_in_document_order() {
    let source = r#"<?xml version="1.0"?>
<mesh>
    <attribute index="0" type="float" size="3">1.0 2.0 3.0 4.0 5.0 6.0</attribute>
    <arrays cmd="lines" start="0" end="2"/>
    <indices cmd="triangles" type="ushort">0 1 0</indices>
    <arrays cmd="points" start="1" end="2"/>
</mesh>
"#;
    let mesh = Mesh::new(source, "Ordered.xml").unwrap();
    let calls = mesh.render();
    assert_eq!(
        calls,
        vec![
            DrawCall::Arrays { primitive: Primitive::Lines, start: 0, end: 2 },
            DrawCall::Elements {
                primitive: Primitive::Triangles,
                count: 3,
                index_size: IndexSize::UnsignedShort,
                offset: 0,
            },
            DrawCall::Arrays { primitive: Primitive::Points, start: 1, end: 2 },
        ]
    );
    // pure replay: a second call issues the same commands in the same order
    assert_eq!(mesh.render(), calls);
}

#[test]
fn test_render_named_subset() {
    let source = r#"<?xml version="1.0"?>
<mesh>
    <attribute index="0" type="float" size="3">1.0 2.0 3.0</attribute>
    <vao name="flat">
        <source attrib="0"/>
    </vao>
    <arrays cmd="points" start="0" end="1"/>
</mesh>
"#;
    let mesh = Mesh::new(source, "Named.xml").unwrap();
    // the same full command list runs; the subset constrains attributes only
    assert_eq!(mesh.render_mesh("flat"), Some(mesh.render()));
    // a missing name draws nothing, deliberately without an error
    assert_eq!(mesh.render_mesh("missing"), None);
}

#[test]
fn test_empty_document_is_an_empty_mesh() {
    // malformed markup ends the event stream; whatever was read up to that
    // point is the mesh, and an empty document was read up to nothing
    let mesh = Mesh::new("", "Empty.xml").unwrap();
    assert_eq!(mesh.attributes().len(), 0);
    assert_eq!(mesh.attribute_buffer().len(), 0);
    assert_eq!(mesh.index_buffer().len(), 0);
    assert_eq!(mesh.commands().len(), 0);
    assert_eq!(mesh.render(), Vec::<DrawCall>::new());
}

#[test]
fn test_duplicate_vao_name_replaces() {
    let source = r#"<?xml version="1.0"?>
<mesh>
    <attribute index="0" type="float" size="3">1.0 2.0 3.0</attribute>
    <attribute index="1" type="float" size="3">4.0 5.0 6.0</attribute>
    <vao name="dup">
        <source attrib="0"/>
    </vao>
    <vao name="dup">
        <source attrib="1"/>
    </vao>
</mesh>
"#;
    let mesh = Mesh::new(source, "Dup.xml").unwrap();
    // the later entry replaces the earlier one, as map insertion would
    assert_eq!(mesh.named_vaos().len(), 1);
    assert_eq!(mesh.named_vaos()[0].name, "dup");
    assert_eq!(mesh.named_vaos()[0].attributes, vec![1]);
}

#[test]
fn test_unknown_elements_ignored() {
    let source = r#"<?xml version="1.0"?>
<mesh>
    <attribute index="0" type="float" size="3">1.0 2.0 3.0</attribute>
    <metadata author="nobody"/>
    <arrays cmd="points" start="0" end="1"/>
</mesh>
"#;
    let mesh = Mesh::new(source, "Extra.xml").unwrap();
    assert_eq!(mesh.attributes().len(), 1);
    assert_eq!(mesh.commands().len(), 1);
}

#[test]
fn test_mesh_root_required() {
    let err = Mesh::new("<scene></scene>", "Root.xml").unwrap_err();
    assert_eq!(err, MeshError::MeshRootNotFound("Root.xml".to_string()));
}

#[test]
fn test_first_child_must_be_attribute() {
    let source = r#"<mesh><vao name="early"></vao></mesh>"#;
    let err = Mesh::new(source, "Early.xml").unwrap_err();
    assert_eq!(err, MeshError::NoVertexAttributes("Early.xml".to_string()));
}

#[test]
fn test_source_outside_vao_rejected() {
    let source = r#"<?xml version="1.0"?>
<mesh>
    <attribute index="0" type="float" size="3">1.0 2.0 3.0</attribute>
    <arrays cmd="points" start="0" end="1">
        <source attrib="0"/>
    </arrays>
</mesh>
"#;
    let err = Mesh::new(source, "Stray.xml").unwrap_err();
    assert_eq!(err, MeshError::SourceTagNotInVaoTag("Stray.xml".to_string()));
}

#[test]
fn test_attribute_header_errors() {
    let cases: Vec<(&str, MeshError)> = vec![
        (
            r#"<mesh><attribute type="float" size="3">1.0</attribute></mesh>"#,
            MeshError::NonExistingAttribute("index".to_string()),
        ),
        (
            r#"<mesh><attribute index="abc" type="float" size="3">1.0</attribute></mesh>"#,
            MeshError::ParseAttributeDataError("abc".to_string()),
        ),
        (
            r#"<mesh><attribute index="17" type="float" size="3">1.0</attribute></mesh>"#,
            MeshError::InvalidVertexAttributeLocation(17),
        ),
        (
            r#"<mesh><attribute index="0" type="float" size="0">1.0</attribute></mesh>"#,
            MeshError::InvalidVertexAttributeSize(0),
        ),
        (
            r#"<mesh><attribute index="0" type="float" size="6">1.0</attribute></mesh>"#,
            MeshError::InvalidVertexAttributeSize(6),
        ),
        (
            r#"<mesh><attribute index="0" type="norm-int" size="1" integral="true">1</attribute></mesh>"#,
            MeshError::IntegralNormalizedError,
        ),
        (
            r#"<mesh><attribute index="0" type="float" size="1" integral="true">1.0</attribute></mesh>"#,
            MeshError::IntegralFloatingError,
        ),
        (
            r#"<mesh><attribute index="0" type="float" size="1" integral="maybe">1.0</attribute></mesh>"#,
            MeshError::ParseBoolDataError("maybe".to_string()),
        ),
        (
            r#"<mesh><attribute index="0" type="half" size="1">1.0</attribute></mesh>"#,
            MeshError::UnimplementedDataFormat(DataType::Fixed),
        ),
    ];
    for (source, expected) in cases {
        assert_eq!(Mesh::new(source, "Hdr.xml").unwrap_err(), expected);
    }
}

#[test]
fn test_data_token_errors() {
    let source = r#"<mesh><attribute index="0" type="ushort" size="1">1 2 x</attribute></mesh>"#;
    assert_eq!(
        Mesh::new(source, "Tok.xml").unwrap_err(),
        MeshError::ParseDataError("x".to_string())
    );
    let source = r#"<mesh><attribute index="0" type="float" size="1">0.5 zz</attribute></mesh>"#;
    assert_eq!(
        Mesh::new(source, "Tok.xml").unwrap_err(),
        MeshError::ParseFloatDataError("zz".to_string())
    );
    let source = r#"<mesh><attribute index="0" type="float" size="1">1.0</attribute><indices cmd="triangles" type="ushort">0 1 99999</indices></mesh>"#;
    assert_eq!(
        Mesh::new(source, "Tok.xml").unwrap_err(),
        MeshError::ParseDataError("99999".to_string())
    );
}

#[test]
fn test_arrays_command_errors() {
    let attribute = r#"<attribute index="0" type="float" size="3">1.0 2.0 3.0</attribute>"#;
    let source = format!(r#"<mesh>{attribute}<arrays cmd="bogus" start="0" end="1"/></mesh>"#);
    assert_eq!(
        Mesh::new(&source, "Cmd.xml").unwrap_err(),
        MeshError::UnknownPrimitive("bogus".to_string())
    );
    let source = format!(r#"<mesh>{attribute}<arrays cmd="lines" start="-1" end="1"/></mesh>"#);
    assert_eq!(Mesh::new(&source, "Cmd.xml").unwrap_err(), MeshError::InvalidArrayStart(-1));
    let source = format!(r#"<mesh>{attribute}<arrays cmd="lines" start="0" end="0"/></mesh>"#);
    assert_eq!(Mesh::new(&source, "Cmd.xml").unwrap_err(), MeshError::InvalidArrayCount(0));
    let source = format!(r#"<mesh>{attribute}<arrays start="0" end="1"/></mesh>"#);
    assert_eq!(
        Mesh::new(&source, "Cmd.xml").unwrap_err(),
        MeshError::NonExistingAttribute("cmd".to_string())
    );
}

#[test]
fn test_primitive_restart_carried() {
    let source = r#"<?xml version="1.0"?>
<mesh>
    <attribute index="0" type="float" size="3">1.0 2.0 3.0</attribute>
    <indices cmd="tri-fan" type="ushort" prim-restart="65535">0 1 2</indices>
    <indices cmd="tri-fan" type="ushort" prim-restart="abc">0 1 2</indices>
    <indices cmd="tri-fan" type="ushort">0 1 2</indices>
</mesh>
"#;
    let mesh = Mesh::new(source, "Restart.xml").unwrap();
    let mut restarts = Vec::new();
    for cmd in mesh.commands() {
        match cmd {
            RenderCommand::Indexed { primitive_restart, .. } => restarts.push(*primitive_restart),
            RenderCommand::Array { .. } => panic!(),
        }
    }
    // an unreadable restart value silently means none
    assert_eq!(restarts, vec![Some(65535), None, None]);
}
