use bool_to_bitflags::args::Args;
use bool_to_bitflags::engine::{bool_to_bitflags_impl, Artifacts};
use bool_to_bitflags::layout::Slot;
use bool_to_bitflags::record::{
    Annotation, DerivePath, FieldDescription, FieldType, Fields, GenericArgs, RecordDescription, TypeSegment,
    Visibility,
};

fn path(segments: &[&str]) -> DerivePath {
    DerivePath { segments: segments.iter().map(|s| s.to_string()).collect() }
}

fn field(name: &str, ty: &str, attrs: Vec<Annotation>) -> FieldDescription {
    let first_segment = if ty == "Option<bool>" {
        TypeSegment { ident: "Option".to_string(), args: GenericArgs::AngleBracketed(vec!["bool".to_string()]) }
    } else {
        TypeSegment { ident: ty.to_string(), args: GenericArgs::Plain }
    };
    FieldDescription {
        name: name.to_string(),
        ty: FieldType { text: ty.to_string(), first_segment: Some(first_segment) },
        vis: Visibility::Inherited,
        attrs,
    }
}

fn transform(args: &Args, name: &str, fields: Vec<FieldDescription>, attrs: Vec<Annotation>) -> Artifacts {
    let record = RecordDescription {
        name: name.to_string(),
        vis: Visibility::Inherited,
        generics: vec![],
        fields: Fields::Named(fields),
        attrs,
    };
    match bool_to_bitflags_impl(args, record) {
        Ok(a) => a,
        Err(_) => panic!("the record is packable"),
    }
}

fn slot_of(a: &Artifacts, getter: &str) -> Slot {
    a.accessors.iter().find(|x| x.getter_name == getter).expect("an accessor of that name").slot
}

fn bool_bit(a: &Artifacts, getter: &str) -> u32 {
    match slot_of(a, getter) {
        Slot::Bool { bit } => bit,
        _ => panic!("a bool field"),
    }
}
use bool_to_bitflags::layout::FlagWidth;
use bool_to_bitflags::packed::{flat_to_compacted, FieldValue, FlatValue};

#[test]
fn opt_bool_test() {
    let a = transform(
        &Args::default(),
        "OptionalBool",
        vec![field("opt_bool", "Option<bool>", vec![]), field("normal", "bool", vec![])],
        vec![Annotation::Derive(vec![
            path(&["Clone"]),
            path(&["Default"]),
            path(&["serde", "Deserialize"]),
            path(&["serde", "Serialize"]),
        ])],
    );
    let (bit, presence) = match slot_of(&a, "opt_bool") {
        Slot::OptionalBool { bit, presence } => (bit, presence),
        _ => panic!("an optional field"),
    };
    let flat: FlatValue<u8> = FlatValue { fields: vec![FieldValue::OptionalBool(None), FieldValue::Bool(false)] };
    let mut example = flat_to_compacted(&a.slots, &vec![true; 2], flat);
    assert!(example.get_optional(bit, presence).is_none());
    example.set_optional(bit, presence, Some(false));
    assert_eq!(example.get_optional(bit, presence), Some(false));
    example.set_optional(bit, presence, Some(true));
    assert_eq!(example.get_optional(bit, presence), Some(true));
    // No pass-through field and a one-byte flags field.
    assert!(a.passthrough.is_empty());
    assert_eq!(a.flags.width, FlagWidth::U8);
    assert_eq!(a.flags.width.bytes(), 1);
}

#[test]
fn opt_bool_uses_one_presence_bit() {
    let a = transform(
        &Args::default(),
        "OptionalBool",
        vec![field("opt_bool", "Option<bool>", vec![]), field("normal", "bool", vec![])],
        vec![],
    );
    assert_eq!(a.slots[0], Slot::OptionalBool { bit: 0, presence: 2 });
    assert_eq!(a.slots[1], Slot::Bool { bit: 1 });
    let names: Vec<(&str, u32)> = a.flags.bits.iter().map(|b| (b.name.as_str(), b.bit)).collect();
    assert_eq!(names, vec![("OPT_BOOL", 0), ("NORMAL", 1), ("OPT_BOOL_OPT_TAG", 2)]);
}
