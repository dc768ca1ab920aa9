use bool_to_bitflags::args::Args;
use bool_to_bitflags::engine::{bool_to_bitflags_impl, Artifacts};
use bool_to_bitflags::layout::Slot;
use bool_to_bitflags::record::{
    Annotation, DerivePath, FieldDescription, FieldType, Fields, GenericArgs, RecordDescription, TypeSegment,
    Visibility,
};

fn path(segments: &[&str]) -> DerivePath {
    DerivePath { segments: segments.iter().map(|s| s.to_string()).collect() }
}

fn field(name: &str, ty: &str, attrs: Vec<Annotation>) -> FieldDescription {
    let first_segment = if ty == "Option<bool>" {
        TypeSegment { ident: "Option".to_string(), args: GenericArgs::AngleBracketed(vec!["bool".to_string()]) }
    } else {
        TypeSegment { ident: ty.to_string(), args: GenericArgs::Plain }
    };
    FieldDescription {
        name: name.to_string(),
        ty: FieldType { text: ty.to_string(), first_segment: Some(first_segment) },
        vis: Visibility::Inherited,
        attrs,
    }
}

fn transform(args: &Args, name: &str, fields: Vec<FieldDescription>, attrs: Vec<Annotation>) -> Artifacts {
    let record = RecordDescription {
        name: name.to_string(),
        vis: Visibility::Inherited,
        generics: vec![],
        fields: Fields::Named(fields),
        attrs,
    };
    match bool_to_bitflags_impl(args, record) {
        Ok(a) => a,
        Err(_) => panic!("the record is packable"),
    }
}

fn slot_of(a: &Artifacts, getter: &str) -> Slot {
    a.accessors.iter().find(|x| x.getter_name == getter).expect("an accessor of that name").slot
}

fn bool_bit(a: &Artifacts, getter: &str) -> u32 {
    match slot_of(a, getter) {
        Slot::Bool { bit } => bit,
        _ => panic!("a bool field"),
    }
}
use bool_to_bitflags::cfg::{included_fields, Configuration};
use bool_to_bitflags::flags::FlagSet;
use bool_to_bitflags::packed::{compacted_to_flat, FieldValue, FlatValue, PackedValue};

fn guarded() -> Artifacts {
    let off = || vec![Annotation::Cfg("False".to_string())];
    transform(
        &Args::default(),
        "Test",
        vec![
            field("disabled_field", "u8", off()),
            field("enabled_field", "u8", vec![]),
            field("disabled_flag", "bool", off()),
            field("enabled_flag", "bool", vec![]),
        ],
        vec![Annotation::Derive(vec![path(&["PartialEq"]), path(&["Debug"])])],
    )
}

fn twin_fields(a: &Artifacts) -> &Vec<FieldDescription> {
    match &a.twin.fields {
        Fields::Named(fs) => fs,
        _ => panic!("the twin has named fields"),
    }
}

#[test]
fn guarded_flag_test() {
    let a = guarded();
    let enabled = included_fields(twin_fields(&a), &Configuration { holds: vec![] });
    assert_eq!(enabled, vec![false, true, false, true]);
    let mut can_construct: PackedValue<u8> =
        PackedValue { passthrough: vec![FieldValue::Excluded, FieldValue::Other(1)], flags: FlagSet::empty() };
    can_construct.set_bool(bool_bit(&a, "enabled_flag"), true);
    let original = compacted_to_flat(&a.slots, &enabled, can_construct);
    assert_eq!(
        original,
        FlatValue {
            fields: vec![FieldValue::Excluded, FieldValue::Other(1), FieldValue::Excluded, FieldValue::Bool(true)]
        }
    );
}

#[test]
fn excluded_flag_keeps_its_bit() {
    let a = guarded();
    assert_eq!(a.slots[2], Slot::Bool { bit: 0 });
    assert_eq!(a.slots[3], Slot::Bool { bit: 1 });
    let enabled = included_fields(twin_fields(&a), &Configuration { holds: vec!["False".to_string()] });
    assert_eq!(enabled, vec![true; 4]);
}

#[test]
fn compacted_fields_keep_their_predicates() {
    let a = guarded();
    assert_eq!(a.passthrough, vec![0, 1]);
    let fs = twin_fields(&a);
    assert!(matches!(fs[a.passthrough[0]].attrs[0], Annotation::Cfg(ref p) if p == "False"));
    assert!(fs[a.passthrough[1]].attrs.is_empty());
}
