use pgx_schema::record::{Attribute, Datum, RecordError, RecordValue, SqlType, TryFromDatumError, TupleDesc};

fn registry() -> Vec<TupleDesc> {
    vec![
        TupleDesc {
            name: "Dog".to_string(),
            attributes: vec![
                Attribute { name: "name".to_string(), ty: SqlType::Text },
                Attribute { name: "scritches".to_string(), ty: SqlType::Int4 },
            ],
        },
        TupleDesc {
            name: "DogWithAge".to_string(),
            attributes: vec![
                Attribute { name: "name".to_string(), ty: SqlType::Text },
                Attribute { name: "age".to_string(), ty: SqlType::Int4 },
            ],
        },
    ]
}

fn dog(name: &str, scritches: i32) -> RecordValue {
    let mut d = RecordValue::new_composite_type("Dog", &registry()).unwrap();
    d.set_by_name("name", Datum::Text(name.to_string())).unwrap();
    d.set_by_name("scritches", Datum::Int4(scritches)).unwrap();
    d
}

fn sum_scritches(dogs: &[RecordValue]) -> i32 {
    let mut sum = 0;
    for d in dogs {
        if let Ok(Some(Datum::Int4(v))) = d.get_by_name("scritches", SqlType::Int4) {
            sum += v;
        }
    }
    sum
}

#[test]
fn new_composite_type_starts_unset() {
    let t = RecordValue::new_composite_type("DogWithAge", &registry()).unwrap();
    assert!(t.is_host_allocated());
    assert_eq!(t.len(), 2);
    assert_eq!(t.get_by_name("name", SqlType::Text), Ok(None));
    assert_eq!(t.get_by_name("age", SqlType::Int4), Ok(None));
}

#[test]
fn set_then_get_round_trips() {
    let mut t = RecordValue::new_composite_type("DogWithAge", &registry()).unwrap();
    t.set_by_name("name", Datum::Text("Brandy".to_string())).unwrap();
    t.set_by_name("age", Datum::Int4(42)).unwrap();
    assert_eq!(t.get_by_name("name", SqlType::Text), Ok(Some(Datum::Text("Brandy".to_string()))));
    assert_eq!(t.get_by_name("age", SqlType::Int4), Ok(Some(Datum::Int4(42))));
    assert_eq!(t.get_by_index(2, SqlType::Int4), Ok(Some(Datum::Int4(42))));
}

#[test]
fn set_by_index_round_trips() {
    let mut t = RecordValue::new_composite_type("DogWithAge", &registry()).unwrap();
    t.set_by_index(1, Datum::Text("Nami".to_string())).unwrap();
    assert_eq!(t.get_by_name("name", SqlType::Text), Ok(Some(Datum::Text("Nami".to_string()))));
}

#[test]
fn missing_type_is_reported() {
    assert_eq!(
        RecordValue::new_composite_type("DEFINITELY_NOT_EXISTING", &registry()),
        Err(RecordError::NoSuchType("DEFINITELY_NOT_EXISTING".to_string()))
    );
}

#[test]
fn missing_field_is_reported() {
    let mut t = RecordValue::new_composite_type("DogWithAge", &registry()).unwrap();
    assert_eq!(
        t.get_by_name("DEFINITELY_NOT_EXISTING", SqlType::Text),
        Err(TryFromDatumError::NoSuchAttributeName("DEFINITELY_NOT_EXISTING".to_string()))
    );
    assert_eq!(
        t.set_by_name("DEFINITELY_NOT_EXISTING", Datum::Text("Brandy".to_string())),
        Err(TryFromDatumError::NoSuchAttributeName("DEFINITELY_NOT_EXISTING".to_string()))
    );
}

#[test]
fn missing_number_is_reported() {
    let mut t = RecordValue::new_composite_type("DogWithAge", &registry()).unwrap();
    assert_eq!(t.get_by_index(9001, SqlType::Text), Err(TryFromDatumError::NoSuchAttributeNumber(9001)));
    assert_eq!(
        t.set_by_index(9001, Datum::Text("Brandy".to_string())),
        Err(TryFromDatumError::NoSuchAttributeNumber(9001))
    );
    assert_eq!(t.get_by_index(0, SqlType::Text), Err(TryFromDatumError::NoSuchAttributeNumber(0)));
}

#[test]
fn wrong_type_is_reported_set_or_not() {
    let mut t = RecordValue::new_composite_type("DogWithAge", &registry()).unwrap();
    assert_eq!(t.get_by_name("name", SqlType::Int4), Err(TryFromDatumError::IncompatibleTypes));
    assert_eq!(t.get_by_name("age", SqlType::Text), Err(TryFromDatumError::IncompatibleTypes));
    assert_eq!(t.set_by_name("name", Datum::Int4(1)), Err(TryFromDatumError::IncompatibleTypes));
    assert_eq!(t.set_by_name("age", Datum::Text("Brandy".to_string())), Err(TryFromDatumError::IncompatibleTypes));
    t.set_by_name("name", Datum::Text("Brandy".to_string())).unwrap();
    t.set_by_name("age", Datum::Int4(42)).unwrap();
    assert_eq!(t.get_by_name("name", SqlType::Int4), Err(TryFromDatumError::IncompatibleTypes));
    assert_eq!(t.get_by_name("age", SqlType::Text), Err(TryFromDatumError::IncompatibleTypes));
}

#[test]
fn incompatible_set_keeps_prior_value() {
    let mut t = RecordValue::new_composite_type("DogWithAge", &registry()).unwrap();
    t.set_by_name("age", Datum::Int4(7)).unwrap();
    let before = t.clone();
    assert_eq!(t.set_by_name("age", Datum::Int8(8)), Err(TryFromDatumError::IncompatibleTypes));
    assert_eq!(t, before);
    assert_eq!(t.get_by_name("age", SqlType::Int4), Ok(Some(Datum::Int4(7))));
}

#[test]
fn sum_of_scritches_over_dogs() {
    let dogs = vec![dog("Nami", 1), dog("Brandy", 42)];
    assert_eq!(sum_scritches(&dogs), 43);
}

#[test]
fn borrowed_record_is_read_only_until_copied() {
    let desc = registry().remove(0);
    let values = vec![Some(Datum::Text("Nami".to_string())), Some(Datum::Int4(1))];
    let b = RecordValue::borrowed(desc, values).unwrap();
    assert!(!b.is_host_allocated());
    assert_eq!(b.get_by_name("scritches", SqlType::Int4), Ok(Some(Datum::Int4(1))));
    let mut owned = b.to_host_allocated();
    assert!(owned.is_host_allocated());
    owned.set_by_name("scritches", Datum::Int4(2)).unwrap();
    assert_eq!(owned.get_by_name("scritches", SqlType::Int4), Ok(Some(Datum::Int4(2))));
    assert_eq!(b.get_by_name("scritches", SqlType::Int4), Ok(Some(Datum::Int4(1))));
}

#[test]
fn borrowed_record_with_mistyped_slot_is_refused() {
    let desc = registry().remove(0);
    assert!(RecordValue::borrowed(desc.clone(), vec![Some(Datum::Int4(1)), None]).is_none());
    assert!(RecordValue::borrowed(desc, vec![None]).is_none());
}
