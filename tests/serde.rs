use bool_to_bitflags::args::Args;
use bool_to_bitflags::engine::{bool_to_bitflags_impl, Artifacts};
use bool_to_bitflags::layout::Slot;
use bool_to_bitflags::record::{
    Annotation, DerivePath, FieldDescription, FieldType, Fields, GenericArgs, RecordDescription, TypeSegment,
    Visibility,
};

fn path(segments: &[&str]) -> DerivePath {
    DerivePath { segments: segments.iter().map(|s| s.to_string()).collect() }
}

fn field(name: &str, ty: &str, attrs: Vec<Annotation>) -> FieldDescription {
    let first_segment = if ty == "Option<bool>" {
        TypeSegment { ident: "Option".to_string(), args: GenericArgs::AngleBracketed(vec!["bool".to_string()]) }
    } else {
        TypeSegment { ident: ty.to_string(), args: GenericArgs::Plain }
    };
    FieldDescription {
        name: name.to_string(),
        ty: FieldType { text: ty.to_string(), first_segment: Some(first_segment) },
        vis: Visibility::Inherited,
        attrs,
    }
}

fn transform(args: &Args, name: &str, fields: Vec<FieldDescription>, attrs: Vec<Annotation>) -> Artifacts {
    let record = RecordDescription {
        name: name.to_string(),
        vis: Visibility::Inherited,
        generics: vec![],
        fields: Fields::Named(fields),
        attrs,
    };
    match bool_to_bitflags_impl(args, record) {
        Ok(a) => a,
        Err(_) => panic!("the record is packable"),
    }
}

fn slot_of(a: &Artifacts, getter: &str) -> Slot {
    a.accessors.iter().find(|x| x.getter_name == getter).expect("an accessor of that name").slot
}

fn bool_bit(a: &Artifacts, getter: &str) -> u32 {
    match slot_of(a, getter) {
        Slot::Bool { bit } => bit,
        _ => panic!("a bool field"),
    }
}
use bool_to_bitflags::packed::{compacted_to_flat, flat_to_compacted, FieldValue, FlatValue};

#[test]
fn serde_serde() {
    let a = transform(
        &Args::default(),
        "Test",
        vec![field("works", "bool", vec![Annotation::Serde("default".to_string())])],
        vec![Annotation::Derive(vec![
            path(&["Debug"]),
            path(&["PartialEq"]),
            path(&["Clone"]),
            path(&["serde", "Deserialize"]),
            path(&["serde", "Serialize"]),
        ])],
    );
    assert!(a.deserialize_via_twin && a.serialize_via_twin);
    let flat: FlatValue<u8> = FlatValue { fields: vec![FieldValue::Bool(true)] };
    let example = flat_to_compacted(&a.slots, &vec![true], flat.clone());
    assert!(example.get_bool(bool_bit(&a, "works")));
    assert_eq!(compacted_to_flat(&a.slots, &vec![true], example), flat);
}

#[test]
fn test_remote() {
    let a = transform(
        &Args::default(),
        "TestRemote",
        vec![field("to_invert", "bool", vec![])],
        vec![
            Annotation::Derive(vec![path(&["serde", "Deserialize"])]),
            Annotation::Serde("remote = \"Self\"".to_string()),
        ],
    );
    // Only deserialization was asked for; the remote directive stays on the twin.
    assert!(a.deserialize_via_twin);
    assert!(!a.serialize_via_twin);
    assert_eq!(a.compacted_attrs, vec![0]);
    assert_eq!(a.twin.attrs.len(), 2);
    // The twin's own deserializer inverts the value; the compacted record is
    // built from the twin.
    let to_invert = false;
    let twin: FlatValue<u8> = FlatValue { fields: vec![FieldValue::Bool(!to_invert)] };
    let test = flat_to_compacted(&a.slots, &vec![true], twin);
    assert!(test.get_bool(bool_bit(&a, "to_invert")));
}
