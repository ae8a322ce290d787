//! The mesh fixtures: whole documents run through the structural parser,
//! their parsed attribute streams, index streams, named-VAO lists and
//! commands held against the values they must produce.

use glmesh::mesh::{Attribute, IndicesData, Mesh, Primitive, RenderCommand};
use glmesh::values::{IndexSize, IndicesValues, VertexAttributeValues};
use glmesh::vertex_attributes::{DataType, VertexAttribute};

fn float_bits(values: &[f32]) -> Vec<u32> {
    values.iter().map(|v| v.to_bits()).collect()
}

fn test_attribute(
    attribute: &Attribute,
    index: u32,
    vertex_attribute: VertexAttribute,
    data: VertexAttributeValues,
) {
    assert_eq!(attribute.index, index);
    assert_eq!(attribute.vertex_attribute.data_type, vertex_attribute.data_type);
    assert_eq!(attribute.vertex_attribute.components, vertex_attribute.components);
    assert_eq!(attribute.vertex_attribute.normalized, vertex_attribute.normalized);
    // testing attribute data
    assert_eq!(attribute.data.len(), data.len());
    if attribute.data.is_empty() {
        return;
    }
    match &attribute.data {
        VertexAttributeValues::Float(lhs) => {
            let VertexAttributeValues::Float(rhs) = data else { panic!() };
            for (i, bits) in rhs.iter().enumerate() {
                let a = f32::from_bits(*bits);
                let b = f32::from_bits(lhs[i]);
                assert!((a - b).abs() < f32::EPSILON, "{i}: {a} {b}");
            }
        }
        _ => assert_eq!(attribute.data, data),
    }
}

fn test_indices(indices: &IndicesData, index_size: IndexSize, data: &IndicesValues) {
    assert_eq!(indices.index_size, index_size);
    assert_eq!(indices.data, *data);
}

fn test_named_vaos(named_vaos: &[(String, Vec<u32>)], expected: &[(&str, Vec<u32>)]) {
    assert_eq!(named_vaos.len(), expected.len());
    for (i, (name, vao)) in named_vaos.iter().enumerate() {
        assert_eq!(name, expected[i].0);
        assert_eq!(*vao, expected[i].1);
    }
}

fn test_commands(cmd: &RenderCommand, expected_primitive: Primitive) {
    if let RenderCommand::Indexed { primitive, .. } = cmd {
        assert_eq!(*primitive, expected_primitive);
        // everything else is not known until layout runs
    } else {
        panic!();
    }
}

#[test]
fn test_plane_parse() {
    let source = r#"<?xml version="1.0"?>
<mesh>
    <attribute index="0" type="float" size="3">
        0.5 0.0 -0.5 0.5 0.0 0.5 -0.5 0.0 0.5 -0.5 0.0 -0.5
    </attribute>
    <indices cmd="triangles" type="ushort">
        0 1 2 0 2 1 2 3 0 2 0 3
    </indices>
</mesh>
"#;

    let parsed_xml = Mesh::parse_xml(source, "UnitPlane.xml").unwrap();

    // testing attributes
    assert_eq!(parsed_xml.attribs.len(), 1);
    let attribute = &parsed_xml.attribs[0];
    let data = float_bits(&[
        0.5, 0.0, -0.5, 0.5, 0.0, 0.5, -0.5, 0.0, 0.5, -0.5, 0.0, -0.5,
    ]);

    test_attribute(
        attribute,
        0,
        VertexAttribute::new(3, DataType::Float, false),
        VertexAttributeValues::Float(data),
    );

    // testing indices
    let indices_list = parsed_xml.indices();
    assert_eq!(indices_list.len(), 1);
    let indices = &indices_list[0];

    let data = IndicesValues::UnsignedShort(vec![
        0, 1, 2, 0, 2, 1, 2, 3, 0, 2, 0, 3,
    ]);

    test_indices(indices, IndexSize::UnsignedShort, &data);

    assert_eq!(parsed_xml.named_vao_list.len(), 0);

    assert_eq!(parsed_xml.commands.len(), 1);
    let cmd = &parsed_xml.commands[0];
    test_commands(cmd, Primitive::Triangles);
}

#[test]
fn test_cube_parse() {
    let source = r#"<?xml version="1.0"?>
<mesh>
    <attribute index="0" type="float" size="3">
        0.5 0.5 0.5 0.5 -0.5 0.5 -0.5 -0.5 0.5 -0.5 0.5 0.5 0.5 0.5 0.5 -0.5 0.5 0.5 -0.5 0.5
        -0.5 0.5 0.5 -0.5 0.5 0.5 0.5 0.5 0.5 -0.5 0.5 -0.5 -0.5 0.5 -0.5 0.5 0.5 0.5 -0.5
        -0.5 0.5 -0.5 -0.5 -0.5 -0.5 0.5 -0.5 -0.5 0.5 -0.5 0.5 0.5 -0.5 -0.5 -0.5 -0.5 -0.5
        -0.5 -0.5 0.5 -0.5 0.5 0.5 -0.5 -0.5 0.5 -0.5 -0.5 -0.5 -0.5 0.5 -0.5
    </attribute>
    <indices cmd="triangles" type="ushort">
        0 1 2 2 3 0 4 5 6 6 7 4 8 9 10 10 11 8 12 13 14 14 15 12 16 17 18 18 19 16 20 21 22 22
        23 20
    </indices>
</mesh>
"#;

    let parsed_xml = Mesh::parse_xml(source, "UnitCube.xml").unwrap();

    // testing attributes
    assert_eq!(parsed_xml.attribs.len(), 1);
    let attribute = &parsed_xml.attribs[0];

    let data = VertexAttributeValues::Float(float_bits(&[
        0.5, 0.5, 0.5, 0.5, -0.5, 0.5, -0.5, -0.5, 0.5, -0.5, 0.5, 0.5, 0.5, 0.5, 0.5, -0.5,
        0.5, 0.5, -0.5, 0.5, -0.5, 0.5, 0.5, -0.5, 0.5, 0.5, 0.5, 0.5, 0.5, -0.5, 0.5, -0.5,
        -0.5, 0.5, -0.5, 0.5, 0.5, 0.5, -0.5, -0.5, 0.5, -0.5, -0.5, -0.5, -0.5, 0.5, -0.5,
        -0.5, 0.5, -0.5, 0.5, 0.5, -0.5, -0.5, -0.5, -0.5, -0.5, -0.5, -0.5, 0.5, -0.5, 0.5,
        0.5, -0.5, -0.5, 0.5, -0.5, -0.5, -0.5, -0.5, 0.5, -0.5,
    ]));
    test_attribute(attribute, 0, VertexAttribute::new(3, DataType::Float, false), data);

    // testing indices
    let indices_list = parsed_xml.indices();
    assert_eq!(indices_list.len(), 1);
    let indices = &indices_list[0];
    assert_eq!(indices.index_size, IndexSize::UnsignedShort);
    let data = IndicesValues::UnsignedShort(vec![
        0, 1, 2, 2, 3, 0, 4, 5, 6, 6, 7, 4, 8, 9, 10, 10, 11, 8, 12, 13, 14, 14, 15, 12, 16,
        17, 18, 18, 19, 16, 20, 21, 22, 22, 23, 20,
    ]);

    test_indices(indices, IndexSize::UnsignedShort, &data);

    assert_eq!(parsed_xml.named_vao_list.len(), 0);

    assert_eq!(parsed_xml.commands.len(), 1);
    let cmd = &parsed_xml.commands[0];
    test_commands(cmd, Primitive::Triangles);
}

#[test]
fn test_cone_parse() {
    let source = r#"<?xml version="1.0"?>
<mesh>
    <attribute index="0" type="float" size="3">
        0.0 0.866 0.0 0.5 0.0 0.0 0.48907381875731 0.0 0.1039557588888 0.45677280077542 0.0
        0.20336815992623 0.40450865316151 0.0 0.29389241146627 0.33456556611288 0.0
        0.37157217599218 0.2500003830126 0.0 0.43301248075957 0.15450900193016 0.0
        0.47552809414644 0.052264847412855 0.0 0.49726088296277 -0.052263527886268 0.0
        0.49726102165048 -0.15450774007312 0.0 0.47552850414828 -0.24999923397422 0.0
        0.43301314415651 -0.33456458011157 0.0 0.37157306379065 -0.40450787329018 0.0
        0.29389348486527 -0.45677226111814 0.0 0.20336937201315 -0.48907354289964 0.0
        0.10395705668972 -0.49999999999824 0.0 1.3267948966764e-006 -0.48907409461153 0.0
        -0.10395446108714 -0.45677334042948 0.0 -0.20336694783787 -0.40450943302999 0.0
        -0.2938913380652 -0.33456655211184 0.0 -0.3715712881911 -0.25000153204922 0.0
        -0.43301181735958 -0.15451026378611 0.0 -0.47552768414126 -0.052266166939075 0.0
        -0.49726074427155 0.052262208359312 0.0 -0.4972611603347 0.15450647821499 0.0
        -0.47552891414676 0.24999808493408 0.0 -0.4330138075504 0.3345635941079 0.0
        -0.37157395158649 0.40450709341601 0.0 -0.2938945582622 0.45677172145764 0.0
        -0.20337058409865 0.48907326703854 0.0 -0.10395835448992 0.0 0.0 0.0
    </attribute>
    <indices cmd="tri-fan" type="ushort">
        0 1 2 3 4 5 6 7 8 9 10 11 12 13 14 15 16 17 18 19 20 21 22 23 24 25 26 27 28 29 30 1
    </indices>
    <indices cmd="tri-fan" type="ushort">
        31 30 29 28 27 26 25 24 23 22 21 20 19 18 17 16 15 14 13 12 11 10 9 8 7 6 5 4 3 2 1 30
    </indices>
</mesh>
"#;

    let parsed_xml = Mesh::parse_xml(source, "UnitCone.xml").unwrap();

    // testing attributes
    assert_eq!(parsed_xml.attribs.len(), 1);
    let attribute = &parsed_xml.attribs[0];

    let data = VertexAttributeValues::Float(float_bits(&[
        0.0, 0.866, 0.0, 0.5, 0.0, 0.0, 0.48907381875731, 0.0, 0.1039557588888,
        0.45677280077542, 0.0, 0.20336815992623, 0.40450865316151, 0.0, 0.29389241146627,
        0.33456556611288, 0.0, 0.37157217599218, 0.2500003830126, 0.0, 0.43301248075957,
        0.15450900193016, 0.0, 0.47552809414644, 0.052264847412855, 0.0, 0.49726088296277,
        -0.052263527886268, 0.0, 0.49726102165048, -0.15450774007312, 0.0, 0.47552850414828,
        -0.24999923397422, 0.0, 0.43301314415651, -0.33456458011157, 0.0, 0.37157306379065,
        -0.40450787329018, 0.0, 0.29389348486527, -0.45677226111814, 0.0, 0.20336937201315,
        -0.48907354289964, 0.0, 0.10395705668972, -0.49999999999824, 0.0,
        1.3267948966764e-006, -0.48907409461153, 0.0, -0.10395446108714, -0.45677334042948,
        0.0, -0.20336694783787, -0.40450943302999, 0.0, -0.2938913380652, -0.33456655211184,
        0.0, -0.3715712881911, -0.25000153204922, 0.0, -0.43301181735958, -0.15451026378611,
        0.0, -0.47552768414126, -0.052266166939075, 0.0, -0.49726074427155, 0.052262208359312,
        0.0, -0.4972611603347, 0.15450647821499, 0.0, -0.47552891414676, 0.24999808493408,
        0.0, -0.4330138075504, 0.3345635941079, 0.0, -0.37157395158649, 0.40450709341601, 0.0,
        -0.2938945582622, 0.45677172145764, 0.0, -0.20337058409865, 0.48907326703854, 0.0,
        -0.10395835448992, 0.0, 0.0, 0.0,
    ]));

    test_attribute(attribute, 0, VertexAttribute::new(3, DataType::Float, false), data);
    // testing indices
    let indices_list = parsed_xml.indices();

    assert_eq!(indices_list.len(), 2);
    let indices = &indices_list[0];
    assert_eq!(indices.index_size, IndexSize::UnsignedShort);
    let data = IndicesValues::UnsignedShort(vec![
        0, 1, 2, 3, 4, 5, 6, 7, 8, 9, 10, 11, 12, 13, 14, 15, 16, 17, 18, 19, 20, 21, 22, 23,
        24, 25, 26, 27, 28, 29, 30, 1,
    ]);

    test_indices(indices, IndexSize::UnsignedShort, &data);

    let indices = &indices_list[1];
    let data = IndicesValues::UnsignedShort(vec![
        31, 30, 29, 28, 27, 26, 25, 24, 23, 22, 21, 20, 19, 18, 17, 16, 15, 14, 13, 12, 11,
        10, 9, 8, 7, 6, 5, 4, 3, 2, 1, 30,
    ]);

    test_indices(indices, IndexSize::UnsignedShort, &data);

    assert_eq!(parsed_xml.named_vao_list.len(), 0);

    assert_eq!(parsed_xml.commands.len(), 2);
    let cmd = &parsed_xml.commands[0];
    test_commands(cmd, Primitive::TriangleFan);
    let cmd = &parsed_xml.commands[1];
    test_commands(cmd, Primitive::TriangleFan);
}

#[test]
fn test_cube_color_parse() {
    let source = r#"<?xml version="1.0"?>
<mesh>
    <attribute index="0" type="float" size="3">
        0.5 0.5 0.5 0.5 -0.5 0.5 -0.5 -0.5 0.5 -0.5 0.5 0.5 0.5 0.5 0.5 -0.5 0.5 0.5 -0.5 0.5
        -0.5 0.5 0.5 -0.5 0.5 0.5 0.5 0.5 0.5 -0.5 0.5 -0.5 -0.5 0.5 -0.5 0.5 0.5 0.5 -0.5
        -0.5 0.5 -0.5 -0.5 -0.5 -0.5 0.5 -0.5 -0.5 0.5 -0.5 0.5 0.5 -0.5 -0.5 -0.5 -0.5 -0.5
        -0.5 -0.5 0.5 -0.5 0.5 0.5 -0.5 -0.5 0.5 -0.5 -0.5 -0.5 -0.5 0.5 -0.5
    </attribute>
    <attribute index="1" type="float" size="4">
        0.0 1.0 0.0 1.0 0.0 1.0 0.0 1.0 0.0 1.0 0.0 1.0 0.0 1.0 0.0 1.0 0.0 0.0 1.0 1.0 0.0
        0.0 1.0 1.0 0.0 0.0 1.0 1.0 0.0 0.0 1.0 1.0 1.0 0.0 0.0 1.0 1.0 0.0 0.0 1.0 1.0 0.0
        0.0 1.0 1.0 0.0 0.0 1.0 1.0 1.0 0.0 1.0 1.0 1.0 0.0 1.0 1.0 1.0 0.0 1.0 1.0 1.0 0.0
        1.0 0.0 1.0 1.0 1.0 0.0 1.0 1.0 1.0 0.0 1.0 1.0 1.0 0.0 1.0 1.0 1.0 1.0 0.0 1.0 1.0
        1.0 0.0 1.0 1.0 1.0 0.0 1.0 1.0 1.0 0.0 1.0 1.0
    </attribute>
    <indices cmd="triangles" type="ushort">
        0 1 2 2 3 0 4 5 6 6 7 4 8 9 10 10 11 8 12 13 14 14 15 12 16 17 18 18 19 16 20 21 22 22
        23 20
    </indices>
</mesh>
"#;

    let parsed_xml = Mesh::parse_xml(source, "UnitCubeColor.xml").unwrap();

    // testing attributes
    assert_eq!(parsed_xml.attribs.len(), 2);
    let attribute = &parsed_xml.attribs[0];

    let data = VertexAttributeValues::Float(float_bits(&[
        0.5, 0.5, 0.5, 0.5, -0.5, 0.5, -0.5, -0.5, 0.5, -0.5, 0.5, 0.5, 0.5, 0.5, 0.5, -0.5,
        0.5, 0.5, -0.5, 0.5, -0.5, 0.5, 0.5, -0.5, 0.5, 0.5, 0.5, 0.5, 0.5, -0.5, 0.5, -0.5,
        -0.5, 0.5, -0.5, 0.5, 0.5, 0.5, -0.5, -0.5, 0.5, -0.5, -0.5, -0.5, -0.5, 0.5, -0.5,
        -0.5, 0.5, -0.5, 0.5, 0.5, -0.5, -0.5, -0.5, -0.5, -0.5, -0.5, -0.5, 0.5, -0.5, 0.5,
        0.5, -0.5, -0.5, 0.5, -0.5, -0.5, -0.5, -0.5, 0.5, -0.5,
    ]));
    test_attribute(attribute, 0, VertexAttribute::new(3, DataType::Float, false), data);

    let attribute = &parsed_xml.attribs[1];
    let data = VertexAttributeValues::Float(float_bits(&[
        0.0, 1.0, 0.0, 1.0, 0.0, 1.0, 0.0, 1.0, 0.0, 1.0, 0.0, 1.0, 0.0, 1.0, 0.0, 1.0, 0.0,
        0.0, 1.0, 1.0, 0.0, 0.0, 1.0, 1.0, 0.0, 0.0, 1.0, 1.0, 0.0, 0.0, 1.0, 1.0, 1.0, 0.0,
        0.0, 1.0, 1.0, 0.0, 0.0, 1.0, 1.0, 0.0, 0.0, 1.0, 1.0, 0.0, 0.0, 1.0, 1.0, 1.0, 0.0,
        1.0, 1.0, 1.0, 0.0, 1.0, 1.0, 1.0, 0.0, 1.0, 1.0, 1.0, 0.0, 1.0, 0.0, 1.0, 1.0, 1.0,
        0.0, 1.0, 1.0, 1.0, 0.0, 1.0, 1.0, 1.0, 0.0, 1.0, 1.0, 1.0, 1.0, 0.0, 1.0, 1.0, 1.0,
        0.0, 1.0, 1.0, 1.0, 0.0, 1.0, 1.0, 1.0, 0.0, 1.0, 1.0,
    ]));
    test_attribute(attribute, 1, VertexAttribute::new(4, DataType::Float, false), data);

    // testing indices
    let indices_list = parsed_xml.indices();

    assert_eq!(indices_list.len(), 1);
    let indices = &indices_list[0];
    let data = IndicesValues::UnsignedShort(vec![
        0, 1, 2, 2, 3, 0, 4, 5, 6, 6, 7, 4, 8, 9, 10, 10, 11, 8, 12, 13, 14, 14, 15, 12, 16,
        17, 18, 18, 19, 16, 20, 21, 22, 22, 23, 20,
    ]);
    test_indices(indices, IndexSize::UnsignedShort, &data);

    assert_eq!(parsed_xml.named_vao_list.len(), 0);

    assert_eq!(parsed_xml.commands.len(), 1);
    let cmd = &parsed_xml.commands[0];
    test_commands(cmd, Primitive::Triangles);
}

#[test]
fn test_cone_color_parse() {
    let source = r#"<?xml version="1.0"?>
<mesh>
    <attribute index="0" type="float" size="3">
        0.0 0.866 0.0 0.5 0.0 0.0 0.48907381875731 0.0 0.1039557588888 0.45677280077542 0.0
        0.20336815992623 0.40450865316151 0.0 0.29389241146627 0.33456556611288 0.0
        0.37157217599218 0.2500003830126 0.0 0.43301248075957 0.15450900193016 0.0
        0.47552809414644 0.052264847412855 0.0 0.49726088296277 -0.052263527886268 0.0
        0.49726102165048 -0.15450774007312 0.0 0.47552850414828 -0.24999923397422 0.0
        0.43301314415651 -0.33456458011157 0.0 0.37157306379065 -0.40450787329018 0.0
        0.29389348486527 -0.45677226111814 0.0 0.20336937201315 -0.48907354289964 0.0
        0.10395705668972 -0.49999999999824 0.0 1.3267948966764e-006 -0.48907409461153 0.0
        -0.10395446108714 -0.45677334042948 0.0 -0.20336694783787 -0.40450943302999 0.0
        -0.2938913380652 -0.33456655211184 0.0 -0.3715712881911 -0.25000153204922 0.0
        -0.43301181735958 -0.15451026378611 0.0 -0.47552768414126 -0.052266166939075 0.0
        -0.49726074427155 0.052262208359312 0.0 -0.4972611603347 0.15450647821499 0.0
        -0.47552891414676 0.24999808493408 0.0 -0.4330138075504 0.3345635941079 0.0
        -0.37157395158649 0.40450709341601 0.0 -0.2938945582622 0.45677172145764 0.0
        -0.20337058409865 0.48907326703854 0.0 -0.10395835448992 0.0 0.0 0.0
    </attribute>
    <attribute index="1" type="float" size="4">
        1.0 1.0 1.0 1.0 0.9 0.9 0.9 1.0 0.82 0.82 0.82 1.0 0.74 0.74 0.74 1.0 0.66 0.66 0.66
        1.0 0.58 0.58 0.58 1.0 0.5 0.5 0.5 1.0 0.58 0.58 0.58 1.0 0.66 0.66 0.66 1.0 0.74 0.74
        0.74 1.0 0.82 0.82 0.82 1.0 0.9 0.9 0.9 1.0 0.82 0.82 0.82 1.0 0.74 0.74 0.74 1.0 0.66
        0.66 0.66 1.0 0.58 0.58 0.58 1.0 0.5 0.5 0.5 1.0 0.58 0.58 0.58 1.0 0.66 0.66 0.66 1.0
        0.74 0.74 0.74 1.0 0.82 0.82 0.82 1.0 0.9 0.9 0.9 1.0 0.82 0.82 0.82 1.0 0.74 0.74
        0.74 1.0 0.66 0.66 0.66 1.0 0.58 0.58 0.58 1.0 0.5 0.5 0.5 1.0 0.58 0.58 0.58 1.0 0.66
        0.66 0.66 1.0 0.74 0.74 0.74 1.0 0.82 0.82 0.82 1.0 0.9 0.9 0.9 1.0
    </attribute>
    <indices cmd="tri-fan" type="ushort">
        0 1 2 3 4 5 6 7 8 9 10 11 12 13 14 15 16 17 18 19 20 21 22 23 24 25 26 27 28 29 30 1
    </indices>
    <indices cmd="tri-fan" type="ushort">
        31 30 29 28 27 26 25 24 23 22 21 20 19 18 17 16 15 14 13 12 11 10 9 8 7 6 5 4 3 2 1 30
    </indices>
</mesh>
"#;

    let parsed_xml = Mesh::parse_xml(source, "UnitConeTint.xml").unwrap();

    // testing attributes
    assert_eq!(parsed_xml.attribs.len(), 2);
    let attribute = &parsed_xml.attribs[0];

    let data = VertexAttributeValues::Float(float_bits(&[
        0.0, 0.866, 0.0, 0.5, 0.0, 0.0, 0.48907381875731, 0.0, 0.1039557588888,
        0.45677280077542, 0.0, 0.20336815992623, 0.40450865316151, 0.0, 0.29389241146627,
        0.33456556611288, 0.0, 0.37157217599218, 0.2500003830126, 0.0, 0.43301248075957,
        0.15450900193016, 0.0, 0.47552809414644, 0.052264847412855, 0.0, 0.49726088296277,
        -0.052263527886268, 0.0, 0.49726102165048, -0.15450774007312, 0.0, 0.47552850414828,
        -0.24999923397422, 0.0, 0.43301314415651, -0.33456458011157, 0.0, 0.37157306379065,
        -0.40450787329018, 0.0, 0.29389348486527, -0.45677226111814, 0.0, 0.20336937201315,
        -0.48907354289964, 0.0, 0.10395705668972, -0.49999999999824, 0.0,
        1.3267948966764e-006, -0.48907409461153, 0.0, -0.10395446108714, -0.45677334042948,
        0.0, -0.20336694783787, -0.40450943302999, 0.0, -0.2938913380652, -0.33456655211184,
        0.0, -0.3715712881911, -0.25000153204922, 0.0, -0.43301181735958, -0.15451026378611,
        0.0, -0.47552768414126, -0.052266166939075, 0.0, -0.49726074427155, 0.052262208359312,
        0.0, -0.4972611603347, 0.15450647821499, 0.0, -0.47552891414676, 0.24999808493408,
        0.0, -0.4330138075504, 0.3345635941079, 0.0, -0.37157395158649, 0.40450709341601, 0.0,
        -0.2938945582622, 0.45677172145764, 0.0, -0.20337058409865, 0.48907326703854, 0.0,
        -0.10395835448992, 0.0, 0.0, 0.0,
    ]));

    test_attribute(attribute, 0, VertexAttribute::new(3, DataType::Float, false), data);
    let attribute = &parsed_xml.attribs[1];
    let data = VertexAttributeValues::Float(float_bits(&[
        1.0, 1.0, 1.0, 1.0, 0.9, 0.9, 0.9, 1.0, 0.82, 0.82, 0.82, 1.0, 0.74, 0.74, 0.74, 1.0,
        0.66, 0.66, 0.66, 1.0, 0.58, 0.58, 0.58, 1.0, 0.5, 0.5, 0.5, 1.0, 0.58, 0.58, 0.58,
        1.0, 0.66, 0.66, 0.66, 1.0, 0.74, 0.74, 0.74, 1.0, 0.82, 0.82, 0.82, 1.0, 0.9, 0.9,
        0.9, 1.0, 0.82, 0.82, 0.82, 1.0, 0.74, 0.74, 0.74, 1.0, 0.66, 0.66, 0.66, 1.0, 0.58,
        0.58, 0.58, 1.0, 0.5, 0.5, 0.5, 1.0, 0.58, 0.58, 0.58, 1.0, 0.66, 0.66, 0.66, 1.0,
        0.74, 0.74, 0.74, 1.0, 0.82, 0.82, 0.82, 1.0, 0.9, 0.9, 0.9, 1.0, 0.82, 0.82, 0.82,
        1.0, 0.74, 0.74, 0.74, 1.0, 0.66, 0.66, 0.66, 1.0, 0.58, 0.58, 0.58, 1.0, 0.5, 0.5,
        0.5, 1.0, 0.58, 0.58, 0.58, 1.0, 0.66, 0.66, 0.66, 1.0, 0.74, 0.74, 0.74, 1.0, 0.82,
        0.82, 0.82, 1.0, 0.9, 0.9, 0.9, 1.0,
    ]));
    test_attribute(attribute, 1, VertexAttribute::new(4, DataType::Float, false), data);
    // testing indices
    let indices_list = parsed_xml.indices();

    assert_eq!(indices_list.len(), 2);
    let indices = &indices_list[0];
    assert_eq!(indices.index_size, IndexSize::UnsignedShort);
    let data = IndicesValues::UnsignedShort(vec![
        0, 1, 2, 3, 4, 5, 6, 7, 8, 9, 10, 11, 12, 13, 14, 15, 16, 17, 18, 19, 20, 21, 22, 23,
        24, 25, 26, 27, 28, 29, 30, 1,
    ]);
    test_indices(indices, IndexSize::UnsignedShort, &data);

    let indices = &indices_list[1];
    let data = IndicesValues::UnsignedShort(vec![
        31, 30, 29, 28, 27, 26, 25, 24, 23, 22, 21, 20, 19, 18, 17, 16, 15, 14, 13, 12, 11,
        10, 9, 8, 7, 6, 5, 4, 3, 2, 1, 30,
    ]);
    test_indices(indices, IndexSize::UnsignedShort, &data);

    assert_eq!(parsed_xml.named_vao_list.len(), 0);

    assert_eq!(parsed_xml.commands.len(), 2);
    let cmd = &parsed_xml.commands[0];
    test_commands(cmd, Primitive::TriangleFan);
    let cmd = &parsed_xml.commands[1];
    test_commands(cmd, Primitive::TriangleFan);
}

#[test]
fn test_cube_tint_parse() {
    let source = r#"<?xml version="1.0"?>
<mesh>
    <attribute index="0" type="float" size="3">
        0.5 0.5 0.5 0.5 -0.5 0.5 -0.5 -0.5 0.5 -0.5 0.5 0.5 0.5 0.5 0.5 -0.5 0.5 0.5 -0.5 0.5
        -0.5 0.5 0.5 -0.5 0.5 0.5 0.5 0.5 0.5 -0.5 0.5 -0.5 -0.5 0.5 -0.5 0.5 0.5 0.5 -0.5
        -0.5 0.5 -0.5 -0.5 -0.5 -0.5 0.5 -0.5 -0.5 0.5 -0.5 0.5 0.5 -0.5 -0.5 -0.5 -0.5 -0.5
        -0.5 -0.5 0.5 -0.5 0.5 0.5 -0.5 -0.5 0.5 -0.5 -0.5 -0.5 -0.5 0.5 -0.5
    </attribute>
    <attribute index="1" type="float" size="4">
        1.0 1.0 1.0 1.0 1.0 1.0 1.0 1.0 1.0 1.0 1.0 1.0 1.0 1.0 1.0 1.0 0.75 0.75 0.75 1.0
        0.75 0.75 0.75 1.0 0.75 0.75 0.75 1.0 0.75 0.75 0.75 1.0 0.5 0.5 0.5 1.0 0.5 0.5 0.5
        1.0 0.5 0.5 0.5 1.0 0.5 0.5 0.5 1.0 1.0 1.0 1.0 1.0 1.0 1.0 1.0 1.0 1.0 1.0 1.0 1.0
        1.0 1.0 1.0 1.0 0.75 0.75 0.75 1.0 0.75 0.75 0.75 1.0 0.75 0.75 0.75 1.0 0.75 0.75
        0.75 1.0 0.5 0.5 0.5 1.0 0.5 0.5 0.5 1.0 0.5 0.5 0.5 1.0 0.5 0.5 0.5 1.0
    </attribute>
    <indices cmd="triangles" type="ushort">
        0 1 2 2 3 0 4 5 6 6 7 4 8 9 10 10 11 8 12 13 14 14 15 12 16 17 18 18 19 16 20 21 22 22
        23 20
    </indices>
</mesh>
"#;

    let parsed_xml = Mesh::parse_xml(source, "UnitCubeTint.xml").unwrap();

    // testing attributes
    assert_eq!(parsed_xml.attribs.len(), 2);
    let attribute = &parsed_xml.attribs[0];

    let data = VertexAttributeValues::Float(float_bits(&[
        0.5, 0.5, 0.5, 0.5, -0.5, 0.5, -0.5, -0.5, 0.5, -0.5, 0.5, 0.5, 0.5, 0.5, 0.5, -0.5,
        0.5, 0.5, -0.5, 0.5, -0.5, 0.5, 0.5, -0.5, 0.5, 0.5, 0.5, 0.5, 0.5, -0.5, 0.5, -0.5,
        -0.5, 0.5, -0.5, 0.5, 0.5, 0.5, -0.5, -0.5, 0.5, -0.5, -0.5, -0.5, -0.5, 0.5, -0.5,
        -0.5, 0.5, -0.5, 0.5, 0.5, -0.5, -0.5, -0.5, -0.5, -0.5, -0.5, -0.5, 0.5, -0.5, 0.5,
        0.5, -0.5, -0.5, 0.5, -0.5, -0.5, -0.5, -0.5, 0.5, -0.5,
    ]));
    test_attribute(attribute, 0, VertexAttribute::new(3, DataType::Float, false), data);

    let attribute = &parsed_xml.attribs[1];
    let data = VertexAttributeValues::Float(float_bits(&[
        1.0, 1.0, 1.0, 1.0, 1.0, 1.0, 1.0, 1.0, 1.0, 1.0, 1.0, 1.0, 1.0, 1.0, 1.0, 1.0, 0.75,
        0.75, 0.75, 1.0, 0.75, 0.75, 0.75, 1.0, 0.75, 0.75, 0.75, 1.0, 0.75, 0.75, 0.75, 1.0,
        0.5, 0.5, 0.5, 1.0, 0.5, 0.5, 0.5, 1.0, 0.5, 0.5, 0.5, 1.0, 0.5, 0.5, 0.5, 1.0, 1.0,
        1.0, 1.0, 1.0, 1.0, 1.0, 1.0, 1.0, 1.0, 1.0, 1.0, 1.0, 1.0, 1.0, 1.0, 1.0, 0.75, 0.75,
        0.75, 1.0, 0.75, 0.75, 0.75, 1.0, 0.75, 0.75, 0.75, 1.0, 0.75, 0.75, 0.75, 1.0, 0.5,
        0.5, 0.5, 1.0, 0.5, 0.5, 0.5, 1.0, 0.5, 0.5, 0.5, 1.0, 0.5, 0.5, 0.5, 1.0,
    ]));
    test_attribute(attribute, 1, VertexAttribute::new(4, DataType::Float, false), data);

    // testing indices
    let indices_list = parsed_xml.indices();

    assert_eq!(indices_list.len(), 1);
    let indices = &indices_list[0];
    let data = IndicesValues::UnsignedShort(vec![
        0, 1, 2, 2, 3, 0, 4, 5, 6, 6, 7, 4, 8, 9, 10, 10, 11, 8, 12, 13, 14, 14, 15, 12, 16,
        17, 18, 18, 19, 16, 20, 21, 22, 22, 23, 20,
    ]);
    test_indices(indices, IndexSize::UnsignedShort, &data);

    assert_eq!(parsed_xml.named_vao_list.len(), 0);

    assert_eq!(parsed_xml.commands.len(), 1);
    let cmd = &parsed_xml.commands[0];
    test_commands(cmd, Primitive::Triangles);
}

#[test]
fn test_sphere_vao() {
    let source = r#"<?xml version="1.0"?>
<mesh>
    <attribute index="0" type="float" size="3">0.0 0.0 0.0</attribute>
    <attribute index="1" type="float" size="4">0.0 0.0 0.0 0.0</attribute>
    <attribute index="2" type="float" size="3">0.0 0.0 0.0</attribute>
    <vao name="lit-color">
        <source attrib="0"/>
        <source attrib="1"/>
        <source attrib="2"/>
    </vao>
    <vao name="lit">
        <source attrib="0"/>
        <source attrib="2"/>
    </vao>
    <vao name="color">
        <source attrib="0"/>
        <source attrib="1"/>
    </vao>
    <vao name="flat">
        <source attrib="0"/>
    </vao>
    <indices cmd="triangles" type="ushort">0 1 2</indices>
</mesh>
"#;

    let parsed_xml = Mesh::parse_xml(source, "UnitSphere.xml").unwrap();
    let expected = [
        ("lit-color", vec![0, 1, 2]),
        ("lit", vec![0, 2]),
        ("color", vec![0, 1]),
        ("flat", vec![0]),
    ];
    test_named_vaos(&parsed_xml.named_vao_list, &expected);
}
