use bool_to_bitflags::args::Args;
use bool_to_bitflags::engine::{bool_to_bitflags_impl, Artifacts};
use bool_to_bitflags::layout::Slot;
use bool_to_bitflags::record::{
    Annotation, DerivePath, FieldDescription, FieldType, Fields, GenericArgs, RecordDescription, TypeSegment,
    Visibility,
};

fn path(segments: &[&str]) -> DerivePath {
    DerivePath { segments: segments.iter().map(|s| s.to_string()).collect() }
}

fn field(name: &str, ty: &str, attrs: Vec<Annotation>) -> FieldDescription {
    let first_segment = if ty == "Option<bool>" {
        TypeSegment { ident: "Option".to_string(), args: GenericArgs::AngleBracketed(vec!["bool".to_string()]) }
    } else {
        TypeSegment { ident: ty.to_string(), args: GenericArgs::Plain }
    };
    FieldDescription {
        name: name.to_string(),
        ty: FieldType { text: ty.to_string(), first_segment: Some(first_segment) },
        vis: Visibility::Inherited,
        attrs,
    }
}

fn transform(args: &Args, name: &str, fields: Vec<FieldDescription>, attrs: Vec<Annotation>) -> Artifacts {
    let record = RecordDescription {
        name: name.to_string(),
        vis: Visibility::Inherited,
        generics: vec![],
        fields: Fields::Named(fields),
        attrs,
    };
    match bool_to_bitflags_impl(args, record) {
        Ok(a) => a,
        Err(_) => panic!("the record is packable"),
    }
}

fn slot_of(a: &Artifacts, getter: &str) -> Slot {
    a.accessors.iter().find(|x| x.getter_name == getter).expect("an accessor of that name").slot
}

fn bool_bit(a: &Artifacts, getter: &str) -> u32 {
    match slot_of(a, getter) {
        Slot::Bool { bit } => bit,
        _ => panic!("a bool field"),
    }
}
use bool_to_bitflags::packed::{flat_to_compacted, FieldValue, FlatValue};

#[test]
fn no_setter() {
    let args = Args { getter_prefix: Some("get_".to_string()), document_setters: true, ..Args::default() };
    let a = transform(
        &args,
        "TestNoGetter",
        vec![
            field("bool_1", "bool", vec![Annotation::Doc(" Let's check documentation manually... sure it works".to_string())]),
            field("bool_2", "bool", vec![]),
        ],
        vec![Annotation::Derive(vec![path(&["Default"])])],
    );
    let acc = a.accessors.iter().find(|x| x.getter_name == "get_bool_1").expect("a prefixed getter");
    assert_eq!(acc.setter_name, "set_bool_1");
    assert!(acc.docs_on_setter);
    assert_eq!(acc.setter_summary, None);
    let bit = bool_bit(&a, "get_bool_1");
    let flat: FlatValue<u8> = FlatValue { fields: vec![FieldValue::Bool(false), FieldValue::Bool(false)] };
    let mut test = flat_to_compacted(&a.slots, &vec![true; 2], flat);
    test.set_bool(bit, true);
    assert!(test.get_bool(bit));
}

#[test]
fn setter_summary_by_default() {
    let a = transform(&Args::default(), "Doc", vec![field("flag", "bool", vec![])], vec![]);
    let acc = &a.accessors[0];
    assert_eq!(acc.getter_name, "flag");
    assert!(!acc.docs_on_setter);
    assert_eq!(acc.setter_summary.as_deref(), Some("Sets the `flag` to the value provided."));
}

#[test]
fn private_and_owning_options() {
    let args = Args {
        setter_prefix: Some("with_".to_string()),
        private_getters: true,
        owning_setters: true,
        ..Args::default()
    };
    let mut f = field("flag", "bool", vec![]);
    f.vis = Visibility::Public;
    let a = transform(&args, "Opts", vec![f], vec![]);
    let acc = &a.accessors[0];
    assert_eq!(acc.setter_name, "with_flag");
    assert_eq!(acc.getter_vis, Visibility::Crate);
    assert_eq!(acc.setter_vis, Visibility::Public);
    assert!(acc.owning_setter);
}
