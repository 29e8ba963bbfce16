use ic_candy::conversion::UnboxCandyValue;
use ic_candy::duality::{destabilize_value, stabilize_value};
use ic_candy::stable::{self, Array, CandyValue, Property};
use ic_candy::types::{CandyError, CandyKind, Float};
use ic_candy::unstable::{self, CandyValueUnstable, PropertyUnstable};

fn float(x: f64) -> Float {
    Float::new(x.to_bits(), x.to_string())
}

#[test]
fn create_stable() {
    let unstable_nat = CandyValueUnstable::from(1234 as u128);
    assert_eq!(unstable_nat, CandyValueUnstable::Nat(1234));
}

#[test]
fn stable_create_stable() {
    let unstable_nat = CandyValueUnstable::from(1234 as u128);
    assert_eq!(unstable_nat, CandyValueUnstable::Nat(1234));
}

#[test]
fn conversion_conversion_to_nat() {
    let num = 12345_u128;
    assert_eq!(CandyValue::from(num).to_nat().unwrap(), num);
    assert_eq!(CandyValue::from(123_u8).to_nat().unwrap(), 123_u128);
    assert_eq!(CandyValue::from(123_u16).to_nat().unwrap(), 123_u128);
    assert_eq!(CandyValue::from(123_u32).to_nat().unwrap(), 123_u128);
    assert_eq!(CandyValue::from(123_u64).to_nat().unwrap(), 123_u128);

    assert_eq!(CandyValue::from(float(123.12)).to_nat().unwrap(), 123_u128);
    assert_eq!(CandyValue::from(float(123.868)).to_nat().unwrap(), 124_u128);
    assert_eq!(CandyValue::from(float(-0.001)).to_nat(), None);
    assert_eq!(CandyValue::from(float(-0.51)).to_nat(), None);

    assert_eq!(CandyValue::from(123_i128).to_nat().unwrap(), 123_u128);
    assert_eq!(CandyValue::from(-12_i128).to_nat(), None);
    assert_eq!(CandyValue::from(127_i8).to_nat().unwrap(), 127_u128);
    assert_eq!(CandyValue::from(-128_i8).to_nat(), None);
    assert_eq!(CandyValue::from(127_i16).to_nat().unwrap(), 127_u128);
    assert_eq!(CandyValue::from(-128_i16).to_nat(), None);
    assert_eq!(CandyValue::from(127_i32).to_nat().unwrap(), 127_u128);
    assert_eq!(CandyValue::from(-128_i32).to_nat(), None);
    assert_eq!(CandyValue::from(127_i64).to_nat().unwrap(), 127_u128);
    assert_eq!(CandyValue::from(-128_i64).to_nat(), None);
}

#[test]
fn conversion_conversion_to_string() {
    assert_eq!(CandyValue::from(12345_u128).to_string(), "12345");
    assert_eq!(CandyValue::from(123_u8).to_string(), "123");
    assert_eq!(CandyValue::from(123_u16).to_string(), "123");
    assert_eq!(CandyValue::from(123_u32).to_string(), "123");
    assert_eq!(CandyValue::from(123_u64).to_string(), "123");

    assert_eq!(CandyValue::from(float(123.12)).to_string(), "123.12");
    assert_eq!(CandyValue::from(float(123.868)).to_string(), "123.868");
    assert_eq!(CandyValue::from(float(-0.001)).to_string(), "-0.001");
    assert_eq!(CandyValue::from(float(-0.51)).to_string(), "-0.51");

    assert_eq!(CandyValue::from(123_i8).to_string(), "123");
    assert_eq!(CandyValue::from(-123_i16).to_string(), "-123");
    assert_eq!(CandyValue::from(-123_i32).to_string(), "-123");
    assert_eq!(CandyValue::from(-123_i64).to_string(), "-123");
    assert_eq!(CandyValue::from(-123_i128).to_string(), "-123");
    assert_eq!(CandyValue::from(123_i8).to_string(), "123");
    assert_eq!(CandyValue::from(123_i16).to_string(), "123");
    assert_eq!(CandyValue::from(123_i32).to_string(), "123");
    assert_eq!(CandyValue::from(123_i64).to_string(), "123");
    assert_eq!(CandyValue::from(123_i128).to_string(), "123");

    let text = "some text".to_string();
    assert_eq!(CandyValue::from(text).to_string(), "some text");

    assert_eq!(CandyValue::from(true).to_string(), "true");
    assert_eq!(CandyValue::from(false).to_string(), "false");

    let option_candy = CandyValue::from(Some(Box::from(CandyValue::from(123))));
    let option_candy_none = CandyValue::from(None);
    assert_eq!(option_candy.to_string(), "123");
    assert_eq!(option_candy_none.to_string(), "null");

    let blob_candy = CandyValue::from(vec![1_u8, 2_u8, 3_u8]);
    let blob_candy_2 = CandyValue::from(vec![15_u8]);
    assert_eq!(blob_candy.to_string(), "010203");
    assert_eq!(blob_candy_2.to_string(), "0f");

    let array = Array::frozen(vec![
        CandyValue::from(1),
        CandyValue::from("text"),
        CandyValue::from(3),
    ]);
    assert_eq!(array.to_string(), "[{1} {text} {3}]".to_string())
}

#[test]
fn persisted_display_of_collections() {
    let props = vec![Property { name: "a".to_string(), value: CandyValue::from(1_u8), immutable: true }];
    assert_eq!(Property::stringify_properties(&props), "{a:var 1;}");
    assert_eq!(stable::Nats::thawed(vec![1, 1234]).to_string(), "[1 1234]");
    assert_eq!(stable::Bytes::frozen(vec![0xab]).to_string(), "ab");
    assert_eq!(CandyValue::Empty.to_string(), "");
    assert_eq!(
        CandyValue::from(stable::Floats::frozen(vec![float(1.5), float(2.0)])).to_string(),
        "[1.5 2]"
    );
}

#[test]
fn persisted_blob_and_errors() {
    assert_eq!(CandyValue::from(2566_u16).to_blob().unwrap(), vec![10, 6]);
    assert_eq!(CandyValue::from(-123_i128).to_blob().unwrap(), vec![1, 123]);
    assert_eq!(
        CandyValue::Empty.to_blob(),
        Err(CandyError::Unsupported(CandyKind::Empty))
    );
    assert_eq!(CandyValue::from(true).to_bool(), Some(true));
    assert_eq!(CandyValue::from(300_u16).to_nat8(), None);
}

#[test]
fn stabilize_then_destabilize_gives_back_the_value() {
    let working = CandyValueUnstable::Array(unstable::Array::Thawed(vec![
        CandyValueUnstable::from(1_u8),
        CandyValueUnstable::Class(vec![PropertyUnstable {
            name: "n".to_string(),
            value: CandyValueUnstable::Nats(unstable::Nats::Frozen(vec![1, 2])),
            immutable: true,
        }]),
        CandyValueUnstable::Bytes(unstable::Bytes::Thawed(vec![7])),
        CandyValueUnstable::Floats(unstable::Floats::Thawed(vec![float(0.5)])),
        CandyValueUnstable::Option(Some(Box::new(CandyValueUnstable::Empty))),
    ]));
    let copy = CandyValueUnstable::Array(unstable::Array::Thawed(vec![
        CandyValueUnstable::from(1_u8),
        CandyValueUnstable::Class(vec![PropertyUnstable {
            name: "n".to_string(),
            value: CandyValueUnstable::Nats(unstable::Nats::Frozen(vec![1, 2])),
            immutable: true,
        }]),
        CandyValueUnstable::Bytes(unstable::Bytes::Thawed(vec![7])),
        CandyValueUnstable::Floats(unstable::Floats::Thawed(vec![float(0.5)])),
        CandyValueUnstable::Option(Some(Box::new(CandyValueUnstable::Empty))),
    ]));
    let persisted = stabilize_value(working);
    match &persisted {
        CandyValue::Array(stable::Array::Thawed(xs)) => assert_eq!(xs.len(), 5),
        _ => panic!("the array keeps its thawed tag"),
    }
    assert_eq!(destabilize_value(persisted), copy);
}
