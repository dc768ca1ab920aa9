use bool_to_bitflags::accessors::Accessor;
use bool_to_bitflags::args::Args;
use bool_to_bitflags::engine::{bool_to_bitflags_impl, Artifacts};
use bool_to_bitflags::layout::{FlagWidth, Slot};
use bool_to_bitflags::packed::{compacted_to_flat, flat_to_compacted, FieldValue, FlatValue};
use bool_to_bitflags::record::{
    Annotation, DerivePath, FieldDescription, FieldType, Fields, GenericArgs, RecordDescription, TypeSegment,
    Visibility,
};

fn path(segments: &[&str]) -> DerivePath {
    DerivePath { segments: segments.iter().map(|s| s.to_string()).collect() }
}

fn field(name: &str, ty: &str, attrs: Vec<Annotation>) -> FieldDescription {
    let first_segment = if ty == "Option<bool>" {
        TypeSegment { ident: "Option".to_string(), args: GenericArgs::AngleBracketed(vec!["bool".to_string()]) }
    } else {
        TypeSegment { ident: ty.to_string(), args: GenericArgs::Plain }
    };
    FieldDescription {
        name: name.to_string(),
        ty: FieldType { text: ty.to_string(), first_segment: Some(first_segment) },
        vis: Visibility::Inherited,
        attrs,
    }
}

fn human() -> Artifacts {
    let record = RecordDescription {
        name: "Human".to_string(),
        vis: Visibility::Inherited,
        generics: vec![],
        fields: Fields::Named(vec![
            field("age", "u8", vec![]),
            field("is_epic", "bool", vec![]),
            field("is_cool", "bool", vec![Annotation::Doc(" Describes if the human is epic".to_string())]),
        ]),
        attrs: vec![Annotation::Derive(vec![
            path(&["Default"]),
            path(&["Clone"]),
            path(&["PartialEq"]),
            path(&["Eq"]),
            path(&["Debug"]),
            path(&["serde", "Serialize"]),
            path(&["serde", "Deserialize"]),
        ])],
    };
    match bool_to_bitflags_impl(&Args::default(), record) {
        Ok(a) => a,
        Err(_) => panic!("the record is packable"),
    }
}

fn bit_of<'a>(a: &'a Artifacts, getter: &str) -> (&'a Accessor, u32) {
    let acc = a.accessors.iter().find(|x| x.getter_name == getter).expect("an accessor of that name");
    match acc.slot {
        Slot::Bool { bit } => (acc, bit),
        _ => panic!("a bool field"),
    }
}

fn human_value(age: u8, is_epic: bool, is_cool: bool) -> FlatValue<u8> {
    FlatValue { fields: vec![FieldValue::Other(age), FieldValue::Bool(is_epic), FieldValue::Bool(is_cool)] }
}

#[test]
fn size() {
    let a = human();
    assert_eq!(a.flags.width, FlagWidth::U8);
    assert_eq!(a.flags.bits.len(), 2);
    assert_eq!(a.passthrough, vec![0]);
    // `age: u8` and a one-byte flags field, both aligned to one byte.
    assert_eq!(std::mem::size_of::<u8>() + a.flags.width.bytes(), 2);
}

#[test]
fn setters() {
    let a = human();
    let enabled = vec![true; 3];
    let mut example = flat_to_compacted(&a.slots, &enabled, human_value(0, false, false));
    let (acc, bit) = bit_of(&a, "is_cool");
    assert_eq!(acc.setter_name, "set_is_cool");
    assert!(!example.get_bool(bit));
    example.set_bool(bit, true);
    assert!(example.get_bool(bit));
    let (_, epic) = bit_of(&a, "is_epic");
    assert!(!example.get_bool(epic));
}

#[test]
fn basic_serde() {
    let a = human();
    assert!(a.serialize_via_twin);
    assert!(a.deserialize_via_twin);
    assert_eq!(a.twin.name, "HumanGeneratedOriginal");
    let derives: Vec<Vec<String>> = a.flags.derives[0].iter().map(|p| p.segments.clone()).collect();
    assert_eq!(derives, vec![vec!["Default"], vec!["Clone"], vec!["PartialEq"], vec!["Eq"], vec!["Debug"]]);
    let enabled = vec![true; 3];
    let example = flat_to_compacted(&a.slots, &enabled, human_value(18, true, false));
    assert_eq!(example.passthrough, vec![FieldValue::Other(18)]);
    let (_, epic) = bit_of(&a, "is_epic");
    let (_, cool) = bit_of(&a, "is_cool");
    assert!(example.get_bool(epic));
    assert!(!example.get_bool(cool));
    let back = compacted_to_flat(&a.slots, &enabled, example);
    assert_eq!(back, human_value(18, true, false));
}
