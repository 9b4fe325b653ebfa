use wok_core::assets::{AssetsOrigin, Env, TomlFile};
use wok_core::dust_record::IdKindErr;
use wok_core::record_cli::{created_output, list_output};
use wok_core::record::{
    GenerateId, IdFlavor, IdOwned, IdRef, IdStrategy, Record, RecordGenerate, StringFlavor,
    SurrealRecord, ThingOwned,
};
use wok_core::serdeenv::{
    DeserializerBuilder, FieldError, KeyDeserializer, ValueDeserializer, builder_default,
};
use wok_core::valigate::{
    AnyError, Error, ErrorDisplay, ErrorKey, FieldErrors, Gate, GateErrors, GateResult, LessThan,
    Max, MapErrors, MaxLen, Min, MinLen, MissingField, Valid, field_pipe,
};

fn pairs(items: &[(&str, &str)]) -> Vec<(String, String)> {
    items.iter().map(|(k, v)| (k.to_string(), v.to_string())).collect()
}

#[test]
fn min_len_counts_characters_and_passes_the_input_on() {
    match MinLen(3).parse("añ".to_string()) {
        GateResult::ErrPass(input, err) => {
            assert_eq!(input, "añ");
            assert_eq!(err.min, 3);
            assert_eq!(err.len, 2);
        }
        _ => panic!("MinLen(3) accepted a two-character input"),
    }
    assert!(matches!(MinLen(2).parse("añ".to_string()), GateResult::Passed(_)));
}

#[test]
fn max_len_and_less_than() {
    assert!(matches!(MaxLen(2).parse(vec![1, 2, 3]), GateResult::ErrPass(_, _)));
    assert!(matches!(MaxLen(3).parse(vec![1, 2, 3]), GateResult::Passed(_)));
    let boxed: Box<[u8]> = vec![1, 2].into_boxed_slice();
    assert!(matches!(MinLen(3).parse(boxed), GateResult::ErrPass(_, _)));
    assert!(matches!(LessThan(100).parse(99), GateResult::Passed(99)));
    assert!(matches!(LessThan(100).parse(100), GateResult::ErrPass(100, _)));
}

#[test]
fn min_and_max_bound_the_length() {
    match Min(3).parse(vec![1, 2]) {
        GateResult::ErrPass(input, err) => {
            assert_eq!(input, vec![1, 2]);
            assert_eq!((err.min, err.len), (3, 2));
        }
        _ => panic!("Min(3) accepted two elements"),
    }
    assert!(matches!(Min(2).parse("añ".to_string()), GateResult::Passed(_)));
    match Max(1).parse("añ".to_string()) {
        GateResult::ErrPass(_, err) => assert_eq!((err.max, err.len), (1, 2)),
        _ => panic!("Max(1) accepted two characters"),
    }
    assert!(matches!(Max(2).parse(vec![1, 2]), GateResult::Passed(_)));
    let err = field_pipe(vec![1, 2, 3], Max(2)).unwrap_err();
    match err {
        Error::Field(FieldErrors(errors)) => assert_eq!(errors[0].0, "len must be at most 2 but was 3"),
        _ => panic!("expected a field error"),
    }
}

#[test]
fn field_pipe_reports_the_gate_messages() {
    let err = field_pipe(String::from("ab"), MinLen(4)).unwrap_err();
    match err {
        Error::Field(FieldErrors(errors)) => {
            assert_eq!(errors.len(), 1);
            assert_eq!(errors[0].0, "len must be at least 4 but was 2");
        }
        _ => panic!("expected a field error"),
    }
    assert_eq!(field_pipe(7usize, LessThan(8)).unwrap(), 7);
    let err = field_pipe(200usize, LessThan(100)).unwrap_err();
    match err {
        Error::Field(FieldErrors(errors)) => assert_eq!(errors[0].0, "must be less than 100"),
        _ => panic!("expected a field error"),
    }
    let _ = GateErrors(());
}

#[test]
fn error_display_nests_keys_on_indented_lines() {
    let mut inner = MapErrors::new();
    inner.insert_index(0, Error::Field(FieldErrors::from_one(MissingField("name"))));
    let mut outer = MapErrors::new();
    outer.insert_field("people".to_string(), Error::Keyed(inner));
    let mut field = FieldErrors::new();
    field.push(MissingField("age"));
    field.push(MissingField("city"));
    outer.insert_field("age".to_string(), Error::Field(field));

    let text = ErrorDisplay(Error::Keyed(outer)).to_text();
    assert_eq!(
        text,
        "\npeople: \n\t0: field `name` is missing; \nage: field `age` is missing; field `city` is missing; "
    );
}

#[test]
fn map_errors_replace_an_entry_under_the_same_key() {
    let mut errors = MapErrors::new();
    errors.insert_index(1, Error::Field(FieldErrors(vec![AnyError("a".to_string())])));
    errors.insert_field("x".to_string(), Error::Field(FieldErrors::new()));
    errors.insert_index(1, Error::Field(FieldErrors(vec![AnyError("b".to_string())])));
    assert_eq!(errors.0.len(), 2);
    assert!(matches!(errors.0[0].0, ErrorKey::Index(1)));
    match &errors.0[0].1 {
        Error::Field(FieldErrors(v)) => assert_eq!(v[0].0, "b"),
        _ => panic!("expected a field error"),
    }
}

#[test]
fn vectors_of_valid_values_parse_whole() {
    assert_eq!(<Vec<usize> as Valid>::parse(vec![3, 1, 2]).unwrap(), vec![3, 1, 2]);
    assert_eq!(<String as Valid>::parse("x".to_string()).unwrap(), "x");
}

#[test]
fn environment_keys_are_prefixed_and_lowercased() {
    let builder = DeserializerBuilder::new(pairs(&[
        ("APP_NAME", "wok"),
        ("OTHER", "x"),
        ("APP_Port", "80"),
    ]))
    .prefixed("APP_")
    .lowercased();
    let mut access = builder.into_accessor();
    assert_eq!(access.next_key().unwrap(), "name");
    assert_eq!(access.next_value(), ("name".to_string(), "wok".to_string()));
    assert_eq!(access.next_key().unwrap(), "port");
    assert_eq!(access.next_value().1, "80");
    assert_eq!(access.next_key(), None);
}

#[test]
fn default_builder_lowercases_unicode_keys() {
    let mut access = builder_default(pairs(&[("ÄLPHA_KEY", "1")])).into_accessor();
    assert_eq!(access.next_key().unwrap(), "älpha_key");
}

#[test]
fn values_as_characters_and_strings() {
    assert_eq!(ValueDeserializer { value: "x" }.character().ok(), Some('x'));
    match (ValueDeserializer { value: "" }).character() {
        Err(FieldError::Custom(m)) => assert_eq!(m, "cannot parse char from empty string"),
        _ => panic!("expected an error"),
    }
    match (ValueDeserializer { value: "xy" }).character() {
        Err(FieldError::Custom(m)) => assert_eq!(m, "too many characters in string"),
        _ => panic!("expected an error"),
    }
    assert_eq!(ValueDeserializer { value: "a b" }.string(), "a b");
    assert_eq!(KeyDeserializer("k").identifier(), "k");
}

#[derive(Clone, Copy, Debug, PartialEq)]
struct PersonId(u64);

impl Record for PersonId {
    const TABLE: &'static str = "person";
}

impl RecordGenerate for PersonId {
    fn generate() -> Self {
        PersonId(42)
    }
}

impl SurrealRecord for PersonId {
    type Flavor = StringFlavor;
}

#[test]
fn records_round_trip_through_references() {
    let id = PersonId(9);
    let thing = id.thing_ref();
    assert_eq!(thing.tb, "person");
    assert!(matches!(thing.id, IdRef::String(&PersonId(9))));
    let back = PersonId::from_owned(ThingOwned { id: IdOwned::String(PersonId(9)) });
    assert_eq!(back, id);
    assert!(matches!(<StringFlavor as IdFlavor<PersonId>>::create(&id), IdRef::String(_)));
}

#[test]
fn generated_ids_wrap_the_data() {
    let kv = <GenerateId as IdStrategy<PersonId, &str>>::wrap("data");
    assert_eq!(kv.id, PersonId(42));
    assert_eq!(kv.data, "data");
}

#[test]
fn id_kind_errors_describe_themselves() {
    let e: IdKindErr<String> = IdKindErr::WrongType { expected: "String", actual: "Number" };
    assert_eq!(e.message(), "Expected String but got Number");
    let e: IdKindErr<String> = IdKindErr::Inner("bad id".to_string());
    assert_eq!(e.message(), "bad id");
}

#[test]
fn asset_origins_show_themselves() {
    assert_eq!(Env.text(), "ENV");
    assert_eq!(TomlFile("assets/a.toml".to_string()).text(), "assets/a.toml");
    let plugin = AssetsOrigin(Env).read::<u8>();
    assert_eq!(plugin.origin.text(), "ENV");
}

#[test]
fn record_listing_text() {
    assert_eq!(list_output(&vec![]), "<None>\n");
    let rows = vec![
        ("1".to_string(), "ana".to_string()),
        ("2".to_string(), "bo".to_string()),
    ];
    assert_eq!(list_output(&rows), "#(1): ana\n#(2): bo\n");
    assert_eq!(created_output("person"), "Created person\n");
}
