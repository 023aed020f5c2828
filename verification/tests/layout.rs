//! Memory layouts.

use formawasm::ir::{
    IrEnum, IrEnumVariant, IrField, IrModule, IrStruct, List, PrimitiveType, ResolvedType, StructId,
    Visibility,
};
use formawasm::layout::{
    align_up, plan_array, plan_enum, plan_optional, plan_range, plan_struct, tuple_struct_fields,
    ArrayLayout, EnumLayout, FieldLayout, LayoutError, LayoutOwner, OptionalLayout, RangeLayout,
    StructLayout, VariantLayout,
};
use formawasm::types::UnsupportedKind;

fn module() -> IrModule {
    IrModule {
        structs: vec![],
        traits: vec![],
        enums: vec![],
        lets: vec![],
        functions: vec![],
        impls: vec![],
        prelude_optional: None,
        prelude_array: None,
        prelude_range: None,
        prelude_dictionary: None,
    }
}

fn primitive(p: PrimitiveType) -> ResolvedType {
    ResolvedType::Primitive(p)
}

fn field(name: &str, ty: ResolvedType) -> IrField {
    IrField { name: name.to_string(), ty, optional: false, default: None }
}

fn structure(fields: Vec<IrField>) -> IrStruct {
    IrStruct {
        name: "S".to_string(),
        visibility: Visibility::Public,
        fields,
        generic_params: vec![],
    }
}

fn place(offset: u32, size: u32, align: u32) -> FieldLayout {
    FieldLayout { offset, size, align }
}

#[test]
fn fields_are_padded_to_their_alignment() {
    let s = structure(vec![
        field("a", primitive(PrimitiveType::Boolean)),
        field("b", primitive(PrimitiveType::F64)),
        field("c", primitive(PrimitiveType::I32)),
    ]);
    assert_eq!(
        plan_struct(&s, &module()),
        Ok(StructLayout {
            size: 24,
            align: 8,
            fields: vec![place(0, 1, 1), place(8, 8, 8), place(16, 4, 4)],
        })
    );
}

#[test]
fn a_struct_without_fields_takes_no_room() {
    assert_eq!(
        plan_struct(&structure(vec![]), &module()),
        Ok(StructLayout { size: 0, align: 1, fields: vec![] })
    );
}

#[test]
fn layouts_do_not_overlap() {
    let s = structure(vec![
        field("a", primitive(PrimitiveType::I64)),
        field("b", primitive(PrimitiveType::I32)),
        field("c", primitive(PrimitiveType::Boolean)),
        field("d", primitive(PrimitiveType::F32)),
    ]);
    let plan = plan_struct(&s, &module()).unwrap();
    let mut end = 0;
    for f in &plan.fields {
        assert!(f.offset >= end);
        assert_eq!(f.offset % f.align, 0);
        end = f.offset + f.size;
    }
    assert!(plan.size >= end);
    assert_eq!(plan.size % plan.align, 0);
}

#[test]
fn an_optional_field_is_rejected() {
    let mut f = field("a", primitive(PrimitiveType::I32));
    f.optional = true;
    assert_eq!(
        plan_struct(&structure(vec![f]), &module()),
        Err(LayoutError::OptionalField {
            owner: LayoutOwner::Struct("S".to_string()),
            field: "a".to_string(),
        })
    );
}

#[test]
fn a_field_without_storage_is_rejected() {
    let s = structure(vec![field("a", ResolvedType::TypeParam("T".to_string()))]);
    assert_eq!(
        plan_struct(&s, &module()),
        Err(LayoutError::NotYetSupported { kind: UnsupportedKind::TypeParam("T".to_string()) })
    );
}

fn enumeration(variants: Vec<IrEnumVariant>) -> IrEnum {
    IrEnum {
        name: "E".to_string(),
        visibility: Visibility::Public,
        variants,
        generic_params: vec![],
    }
}

#[test]
fn variants_share_the_payload() {
    let e = enumeration(vec![
        IrEnumVariant { name: "none".to_string(), fields: vec![] },
        IrEnumVariant {
            name: "both".to_string(),
            fields: vec![
                field("a", primitive(PrimitiveType::I32)),
                field("b", primitive(PrimitiveType::I64)),
            ],
        },
    ]);
    assert_eq!(
        plan_enum(&e, &module()),
        Ok(EnumLayout {
            size: 24,
            align: 8,
            tag_offset: 0,
            payload_offset: 8,
            variants: vec![
                VariantLayout { name: "none".to_string(), tag: 0, fields: vec![] },
                VariantLayout {
                    name: "both".to_string(),
                    tag: 1,
                    fields: vec![place(8, 4, 4), place(16, 8, 8)],
                },
            ],
        })
    );
}

#[test]
fn an_enum_without_variants_is_rejected() {
    assert_eq!(
        plan_enum(&enumeration(vec![]), &module()),
        Err(LayoutError::UninhabitedEnum { name: "E".to_string() })
    );
}

#[test]
fn arrays_have_a_header_and_elements() {
    assert_eq!(
        plan_array(&primitive(PrimitiveType::I64), &module()),
        Ok(ArrayLayout { header_size: 12, header_align: 4, element_size: 8, element_align: 8 })
    );
    assert_eq!(
        plan_array(&ResolvedType::Struct(StructId(0)), &module()),
        Ok(ArrayLayout { header_size: 12, header_align: 4, element_size: 4, element_align: 4 })
    );
}

#[test]
fn ranges_hold_two_bounds() {
    assert_eq!(
        plan_range(&primitive(PrimitiveType::I32), &module()),
        Ok(RangeLayout { size: 8, align: 4, bound_size: 4, bound_align: 4, end_offset: 4 })
    );
    let array = ResolvedType::Array(Box::new(primitive(PrimitiveType::I32)));
    assert_eq!(
        plan_range(&array, &module()),
        Err(LayoutError::NotYetSupported {
            kind: UnsupportedKind::RangeOver(ResolvedType::Array(Box::new(primitive(
                PrimitiveType::I32
            )))),
        })
    );
}

#[test]
fn optionals_hold_a_tag_and_a_payload() {
    assert_eq!(
        plan_optional(&primitive(PrimitiveType::I32), &module()),
        Ok(OptionalLayout {
            size: 8,
            align: 4,
            tag_offset: 0,
            payload_offset: 4,
            payload_size: 4,
            payload_align: 4,
        })
    );
    assert_eq!(
        plan_optional(&primitive(PrimitiveType::F64), &module()),
        Ok(OptionalLayout {
            size: 16,
            align: 8,
            tag_offset: 0,
            payload_offset: 8,
            payload_size: 8,
            payload_align: 8,
        })
    );
}

#[test]
fn tuples_are_laid_out_like_structs() {
    let fields = tuple_struct_fields(&List::from_vec(vec![
        ("a".to_string(), primitive(PrimitiveType::I32)),
        ("b".to_string(), primitive(PrimitiveType::I64)),
    ]));
    assert_eq!(
        plan_struct(&structure(fields), &module()),
        Ok(StructLayout { size: 16, align: 8, fields: vec![place(0, 4, 4), place(8, 8, 8)] })
    );
}

#[test]
fn aligning_up_stops_at_the_end() {
    assert_eq!(align_up(0, 8), Some(0));
    assert_eq!(align_up(1, 8), Some(8));
    assert_eq!(align_up(16, 8), Some(16));
    assert_eq!(align_up(u32::MAX, 8), None);
}
