use tagcodec::model::{ArmDecl, ArmShape, FieldDecl, FieldType, Model, ModelError, PrimKind};
use tagcodec::shapes::{data_model, SHAPE_DATA, SHAPE_DATA_ONE, SHAPE_DATA_THREE, SHAPE_DATA_TWO};

fn prim_field(name: &str, k: PrimKind) -> FieldDecl {
    FieldDecl {
        name: name.to_string(),
        ty: FieldType::Prim(k),
    }
}

fn inline_arm(tag: &str, name: &str, fields: Vec<FieldDecl>) -> ArmDecl {
    ArmDecl {
        tag: tag.to_string(),
        name: name.to_string(),
        shape: ArmShape::Inline(fields),
    }
}

#[test]
fn duplicate_tag_fails_validation() {
    let mut m = Model::new();
    let arms = vec![
        inline_arm("same", "A", vec![prim_field("x", PrimKind::Int32)]),
        inline_arm("same", "B", vec![prim_field("y", PrimKind::Int32)]),
    ];
    let r = m.declare_union("U".to_string(), arms);
    assert_eq!(r, Err(ModelError::DuplicateTag("same".to_string())));
    assert_eq!(m.shape_count(), 0);
}

#[test]
fn empty_tag_fails_validation() {
    let mut m = Model::new();
    let arms = vec![inline_arm("", "A", vec![prim_field("x", PrimKind::Int32)])];
    let r = m.declare_union("U".to_string(), arms);
    assert_eq!(r, Err(ModelError::EmptyTag("A".to_string())));
}

#[test]
fn duplicate_arm_name_fails_validation() {
    let mut m = Model::new();
    let arms = vec![
        inline_arm("a", "Arm", vec![prim_field("x", PrimKind::Int32)]),
        inline_arm("b", "Arm", vec![prim_field("y", PrimKind::Int32)]),
    ];
    let r = m.declare_union("U".to_string(), arms);
    assert_eq!(r, Err(ModelError::DuplicateName("Arm".to_string())));
}

#[test]
fn duplicate_field_name_fails_validation() {
    let mut m = Model::new();
    let fields = vec![
        prim_field("a", PrimKind::Int32),
        prim_field("a", PrimKind::Text),
    ];
    let r = m.declare_record("R".to_string(), fields);
    assert_eq!(r, Err(ModelError::DuplicateName("a".to_string())));
}

#[test]
fn undeclared_shape_reference_fails_validation() {
    let mut m = Model::new();
    let fields = vec![FieldDecl {
        name: "x".to_string(),
        ty: FieldType::Entity(5),
    }];
    let r = m.declare_record("R".to_string(), fields);
    assert_eq!(r, Err(ModelError::UndeclaredShape(5)));
}

#[test]
fn forward_reference_to_self_fails_validation() {
    let mut m = Model::new();
    let arms = vec![ArmDecl {
        tag: "a".to_string(),
        name: "A".to_string(),
        shape: ArmShape::Entity(0),
    }];
    let r = m.declare_union("U".to_string(), arms);
    assert_eq!(r, Err(ModelError::UndeclaredShape(0)));
}

#[test]
fn declaration_ids_are_sequential() {
    let mut m = Model::new();
    let a = m
        .declare_record("A".to_string(), vec![prim_field("x", PrimKind::Int32)])
        .unwrap();
    let b = m
        .declare_record("B".to_string(), vec![prim_field("y", PrimKind::Text)])
        .unwrap();
    assert_eq!(a, 0);
    assert_eq!(b, 1);
    assert_eq!(m.shape_count(), 2);
}

#[test]
fn example_model_declares_all_shapes() {
    let m = data_model().unwrap();
    assert_eq!(m.shape_count(), 8);
}

#[test]
fn arm_lookup_by_tag() {
    let m = data_model().unwrap();
    let two = "two".to_string();
    let arm = m.arm_for_tag(SHAPE_DATA, &two).unwrap();
    assert_eq!(arm.name, "Two");
    assert!(matches!(arm.shape, ArmShape::Entity(s) if s == SHAPE_DATA_TWO));
    let nope = "nope".to_string();
    assert!(m.arm_for_tag(SHAPE_DATA, &nope).is_none());
    assert!(m.arm_for_tag(SHAPE_DATA_ONE, &two).is_none());
}

#[test]
fn arm_lookup_by_name() {
    let m = data_model().unwrap();
    let three = "Three".to_string();
    let arm = m.arm_for_name(SHAPE_DATA, &three).unwrap();
    assert_eq!(arm.tag, "three");
    assert!(matches!(arm.shape, ArmShape::Entity(s) if s == SHAPE_DATA_THREE));
    let absent = "Four".to_string();
    assert!(m.arm_for_name(SHAPE_DATA, &absent).is_none());
}
