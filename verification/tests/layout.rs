use fib::backend::lowering::types::{
    enum_max_payload_bytes, round_up, struct_layout_size_align, typed_type_size_align,
};
use fib::backend::lowering::error::LowerError;
use fib::frontend::tokens::{BuiltinType, Identifier};
use fib::frontend::typed_ast::{SymbolTable, Ty, TypedEnumVariant, TypedSymbol};

fn b(t: BuiltinType) -> Ty {
    Ty::Builtin(t)
}

fn strukt(fields: Vec<(&str, Ty)>) -> Ty {
    Ty::Struct { fields: fields.into_iter().map(|(n, t)| (n.to_string(), t)).collect() }
}

fn variant(name: &str, i: u32, payload: Option<Vec<(&str, Ty)>>) -> TypedEnumVariant {
    TypedEnumVariant {
        name: name.to_string(),
        discriminant: i,
        payload: payload.map(|fs| fs.into_iter().map(|(n, t)| (n.to_string(), t)).collect()),
    }
}

#[test]
fn round_up_to_alignment() {
    assert_eq!(round_up(0, 8), 0);
    assert_eq!(round_up(1, 8), 8);
    assert_eq!(round_up(8, 8), 8);
    assert_eq!(round_up(9, 8), 16);
    assert_eq!(round_up(5, 1), 5);
    assert_eq!(round_up(5, 0), 5);
    assert_eq!(round_up(13, 4), 16);
}

#[test]
fn builtin_layouts_follow_width() {
    let scope = SymbolTable::new();
    assert_eq!(typed_type_size_align(&b(BuiltinType::Int4), &scope).ok(), Some((4, 4)));
    assert_eq!(typed_type_size_align(&b(BuiltinType::UInt16), &scope).ok(), Some((16, 16)));
    assert_eq!(typed_type_size_align(&b(BuiltinType::Boolean), &scope).ok(), Some((1, 1)));
    assert_eq!(typed_type_size_align(&b(BuiltinType::String), &scope).ok(), Some((8, 8)));
    assert_eq!(typed_type_size_align(&b(BuiltinType::Void), &scope).ok(), Some((0, 1)));
    assert_eq!(typed_type_size_align(&Ty::Pointer(Box::new(b(BuiltinType::Int1))), &scope).ok(), Some((8, 8)));
    assert_eq!(typed_type_size_align(&Ty::Slice(Box::new(b(BuiltinType::Int1))), &scope).ok(), Some((16, 8)));
    assert_eq!(typed_type_size_align(&Ty::Type, &scope).ok(), Some((0, 1)));
}

#[test]
fn struct_fields_are_aligned_and_padded() {
    let scope = SymbolTable::new();
    // a: 1 byte at 0, b: 4 bytes at 4.
    let s = strukt(vec![("a", b(BuiltinType::Int1)), ("b", b(BuiltinType::Int4))]);
    assert_eq!(typed_type_size_align(&s, &scope).ok(), Some((8, 4)));
    // a: 4 bytes at 0, b: 1 byte at 4, padded to 8.
    let s = strukt(vec![("a", b(BuiltinType::Int4)), ("b", b(BuiltinType::Int1))]);
    assert_eq!(typed_type_size_align(&s, &scope).ok(), Some((8, 4)));
    let t = Ty::Tuple { elements: vec![b(BuiltinType::Int8), b(BuiltinType::Int1)] };
    assert_eq!(typed_type_size_align(&t, &scope).ok(), Some((16, 8)));
    assert_eq!(typed_type_size_align(&strukt(vec![]), &scope).ok(), Some((0, 1)));
    assert_eq!(struct_layout_size_align(&vec![b(BuiltinType::Int1), b(BuiltinType::Int8)], &scope).ok(), Some((16, 8)));
}

#[test]
fn arrays_repeat_the_padded_element() {
    let scope = SymbolTable::new();
    let a = Ty::Array { element_type: Box::new(b(BuiltinType::Int4)), size: 3 };
    assert_eq!(typed_type_size_align(&a, &scope).ok(), Some((12, 4)));
    let elem = strukt(vec![("a", b(BuiltinType::Int4)), ("b", b(BuiltinType::Int1))]);
    let a = Ty::Array { element_type: Box::new(elem), size: 2 };
    assert_eq!(typed_type_size_align(&a, &scope).ok(), Some((16, 4)));
}

#[test]
fn enums_carry_a_tag_and_the_largest_payload() {
    let scope = SymbolTable::new();
    let plain = Ty::Enum { variants: vec![variant("A", 0, None), variant("B", 1, None)] };
    assert_eq!(typed_type_size_align(&plain, &scope).ok(), Some((4, 4)));
    let small = Ty::Enum {
        variants: vec![
            variant("A", 0, None),
            variant("B", 1, Some(vec![("x", b(BuiltinType::Int4)), ("y", b(BuiltinType::Int1))])),
        ],
    };
    assert_eq!(typed_type_size_align(&small, &scope).ok(), Some((16, 8)));
    let big = Ty::Enum {
        variants: vec![
            variant("A", 0, Some(vec![("x", b(BuiltinType::Int8)), ("y", b(BuiltinType::Int1))])),
            variant("B", 1, Some(vec![("x", b(BuiltinType::Int1))])),
        ],
    };
    assert_eq!(typed_type_size_align(&big, &scope).ok(), Some((24, 8)));
    let variants = vec![
        variant("A", 0, None),
        variant("B", 1, Some(vec![("x", b(BuiltinType::Int8)), ("y", b(BuiltinType::Int1))])),
    ];
    assert_eq!(enum_max_payload_bytes(&variants, &scope).ok(), Some(16));
    assert_eq!(enum_max_payload_bytes(&vec![variant("A", 0, None)], &scope).ok(), Some(0));
}

#[test]
fn payload_region_holds_every_payload() {
    let scope = SymbolTable::new();
    for n in 1..20usize {
        let fields: Vec<(&str, Ty)> = (0..n).map(|_| ("f", b(BuiltinType::Int1))).collect();
        let e = Ty::Enum { variants: vec![variant("A", 0, Some(fields))] };
        let (size, align) = typed_type_size_align(&e, &scope).expect("layout");
        assert_eq!(align, 8);
        assert!(size >= 8 + n, "payload of {} bytes in an enum of {} bytes", n, size);
        assert_eq!(size % 8, 0);
    }
}

#[test]
fn names_are_followed_through_the_scope() {
    let mut scope = SymbolTable::new();
    scope.insert(
        Identifier::from_str("Pair"),
        TypedSymbol::Type(strukt(vec![("a", b(BuiltinType::Int8)), ("b", b(BuiltinType::Int1))])),
    );
    scope.insert(Identifier::from_str("Alias"), TypedSymbol::Type(Ty::Identifier(Identifier::from_str("Pair"))));
    assert_eq!(typed_type_size_align(&Ty::Identifier(Identifier::from_str("Pair")), &scope).ok(), Some((16, 8)));
    assert_eq!(typed_type_size_align(&Ty::Identifier(Identifier::from_str("Alias")), &scope).ok(), Some((16, 8)));
    // A name bound to no type has no layout.
    match typed_type_size_align(&Ty::Identifier(Identifier::from_str("Nope")), &scope) {
        Err(LowerError::UnknownLayout { name }) => assert_eq!(name, "Nope"),
        other => panic!("expected UnknownLayout, got {:?}", other),
    }
}

#[test]
fn unknown_names_have_no_layout() {
    let scope = SymbolTable::new();
    let e = Ty::Enum { variants: vec![variant("V", 0, Some(vec![("f", Ty::Identifier(Identifier::from_str("Missing")))]))] };
    assert!(matches!(typed_type_size_align(&e, &scope), Err(LowerError::UnknownLayout { .. })));
    match typed_type_size_align(&Ty::Identifier(Identifier::from_str("Missing")), &scope) {
        Err(LowerError::UnknownLayout { name }) => assert!(name.contains("Missing")),
        other => panic!("expected UnknownLayout, got {:?}", other),
    }
}

#[test]
fn slice_maps_to_ptr_len_struct() {
    let scope = SymbolTable::new();
    let ty = Ty::Slice(Box::new(Ty::Builtin(BuiltinType::Int4)));
    let (size, align) = typed_type_size_align(&ty, &scope).expect("slice layout");
    assert_eq!((size, align), (16, 8));
}
