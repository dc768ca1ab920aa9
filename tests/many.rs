use bool_to_bitflags::args::Args;
use bool_to_bitflags::engine::{bool_to_bitflags_impl, Artifacts};
use bool_to_bitflags::layout::Slot;
use bool_to_bitflags::record::{
    Annotation, DerivePath, FieldDescription, FieldType, Fields, GenericArgs, RecordDescription, TypeSegment,
    Visibility,
};

fn path(segments: &[&str]) -> DerivePath {
    DerivePath { segments: segments.iter().map(|s| s.to_string()).collect() }
}

fn field(name: &str, ty: &str, attrs: Vec<Annotation>) -> FieldDescription {
    let first_segment = if ty == "Option<bool>" {
        TypeSegment { ident: "Option".to_string(), args: GenericArgs::AngleBracketed(vec!["bool".to_string()]) }
    } else {
        TypeSegment { ident: ty.to_string(), args: GenericArgs::Plain }
    };
    FieldDescription {
        name: name.to_string(),
        ty: FieldType { text: ty.to_string(), first_segment: Some(first_segment) },
        vis: Visibility::Inherited,
        attrs,
    }
}

fn transform(args: &Args, name: &str, fields: Vec<FieldDescription>, attrs: Vec<Annotation>) -> Artifacts {
    let record = RecordDescription {
        name: name.to_string(),
        vis: Visibility::Inherited,
        generics: vec![],
        fields: Fields::Named(fields),
        attrs,
    };
    match bool_to_bitflags_impl(args, record) {
        Ok(a) => a,
        Err(_) => panic!("the record is packable"),
    }
}

fn slot_of(a: &Artifacts, getter: &str) -> Slot {
    a.accessors.iter().find(|x| x.getter_name == getter).expect("an accessor of that name").slot
}

fn bool_bit(a: &Artifacts, getter: &str) -> u32 {
    match slot_of(a, getter) {
        Slot::Bool { bit } => bit,
        _ => panic!("a bool field"),
    }
}
use bool_to_bitflags::layout::FlagWidth;
use bool_to_bitflags::packed::{flat_to_compacted, FieldValue, FlatValue};

#[test]
fn many_test() {
    let args = Args { owning_setters: true, ..Args::default() };
    let fields = (1..=17).map(|i| field(&format!("bool_{i}"), "bool", vec![])).collect();
    let a = transform(&args, "ManyBools", fields, vec![Annotation::Derive(vec![path(&["Default"])])]);
    assert_eq!(a.flags.width, FlagWidth::U32);
    assert!(a.accessors.iter().all(|x| x.owning_setter));
    let flat: FlatValue<u8> = FlatValue { fields: vec![FieldValue::Bool(false); 17] };
    let test = flat_to_compacted(&a.slots, &vec![true; 17], flat)
        .with_bool(bool_bit(&a, "bool_1"), true)
        .with_bool(bool_bit(&a, "bool_9"), true)
        .with_bool(bool_bit(&a, "bool_17"), true);
    assert!(test.get_bool(bool_bit(&a, "bool_1")));
    assert!(test.get_bool(bool_bit(&a, "bool_9")));
    assert!(test.get_bool(bool_bit(&a, "bool_17")));
    assert!(!test.get_bool(bool_bit(&a, "bool_16")));
}

#[test]
fn many_bits_are_dense() {
    let fields = (1..=17).map(|i| field(&format!("bool_{i}"), "bool", vec![])).collect();
    let a = transform(&Args::default(), "ManyBools", fields, vec![]);
    let bits: Vec<u32> = a.flags.bits.iter().map(|b| b.bit).collect();
    assert_eq!(bits, (0..17).collect::<Vec<u32>>());
    assert_eq!(a.flags.bits[16].name, "BOOL_17");
}
