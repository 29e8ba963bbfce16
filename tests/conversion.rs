use candid::Principal as IcPrincipal;
use ic_candy::types::{CandyError, CandyKind, Float, Principal, PropertyShared};
use ic_candy::value::CandyShared::Bytes;
use ic_candy::value::{CandyShared, IntegerKind, ToBlob, ToCandyValue};
use ic_candy::{Int, Nat};

fn float(x: f64) -> Float {
    Float::new(x.to_bits(), x.to_string())
}

fn principal(p: IcPrincipal) -> Principal {
    Principal::from_bytes(p.as_slice().to_vec()).unwrap()
}

#[test]
fn conversion_to_nat() {
    let num = 12345_u128;
    println!("u128 (Nat) conversion - {:?}", num);
    let nat_candy = CandyShared::from(num);
    assert_eq!(nat_candy.to_nat().unwrap(), num);

    let num = 123_u8;
    let nat8_candy = CandyShared::from(num);
    assert_eq!(nat8_candy.to_nat().unwrap(), 123_u128);

    let num = 123_u16;
    let nat16_candy = CandyShared::from(num);
    assert_eq!(nat16_candy.to_nat().unwrap(), 123_u128);

    let num = 123_u32;
    let nat32_candy = CandyShared::from(num);
    assert_eq!(nat32_candy.to_nat().unwrap(), 123_u128);

    let num = 123_u64;
    let nat64_candy = CandyShared::from(num);
    assert_eq!(nat64_candy.to_nat().unwrap(), 123_u128);

    let num = 123.12;
    let num_2 = 123.868;
    let neg_num_near_zero = -0.001;
    let neg_num_near_one = -0.51;
    let f64_candy = CandyShared::from(float(num));
    let f64_candy_2 = CandyShared::from(float(num_2));
    let f64_candy_neg = CandyShared::from(float(neg_num_near_zero));
    let f64_candy_neg_near_one = CandyShared::from(float(neg_num_near_one));
    assert_eq!(f64_candy.to_nat().unwrap(), 123_u128);
    assert_eq!(f64_candy_2.to_nat().unwrap(), 124_u128);
    assert_eq!(f64_candy_neg.to_nat(), None);
    assert_eq!(f64_candy_neg_near_one.to_nat(), None);

    let num = 123_i128;
    let num_neg = -12_i128;
    let i128_candy = CandyShared::from(num);
    let i128_candy_neg = CandyShared::from(num_neg);
    assert_eq!(i128_candy.to_nat().unwrap(), 123_u128);
    assert_eq!(i128_candy_neg.to_nat(), None);

    let num = 127_i8;
    let num_neg = -128_i8;
    let i8_candy = CandyShared::from(num);
    let i8_candy_neg = CandyShared::from(num_neg);
    assert_eq!(i8_candy.to_nat().unwrap(), 127_u128);
    assert_eq!(i8_candy_neg.to_nat(), None);

    let num = 127_i16;
    let num_neg = -128_i16;
    let i16_candy = CandyShared::from(num);
    let i16_candy_neg = CandyShared::from(num_neg);
    assert_eq!(i16_candy.to_nat().unwrap(), 127_u128);
    assert_eq!(i16_candy_neg.to_nat(), None);

    let num = 127_i32;
    let num_neg = -128_i32;
    let i32_candy = CandyShared::from(num);
    let i32_candy_neg = CandyShared::from(num_neg);
    assert_eq!(i32_candy.to_nat().unwrap(), 127_u128);
    assert_eq!(i32_candy_neg.to_nat(), None);

    let num = 127_i64;
    let num_neg = -128_i64;
    let i64_candy = CandyShared::from(num);
    let i64_candy_neg = CandyShared::from(num_neg);
    assert_eq!(i64_candy.to_nat().unwrap(), 127_u128);
    assert_eq!(i64_candy_neg.to_nat(), None);
}

#[test]
fn conversion_to_string() {
    assert_eq!(CandyShared::from(12345_u128).to_string(), "12345");
    assert_eq!(CandyShared::from(123_u8).to_string(), "123");
    assert_eq!(CandyShared::from(123_u16).to_string(), "123");
    assert_eq!(CandyShared::from(123_u32).to_string(), "123");
    assert_eq!(CandyShared::from(123_u64).to_string(), "123");

    assert_eq!(CandyShared::from(float(123.12)).to_string(), "123.12");
    assert_eq!(CandyShared::from(float(1.0)).to_string(), "1");
    assert_eq!(CandyShared::from(float(123.868)).to_string(), "123.868");
    assert_eq!(CandyShared::from(float(-0.001)).to_string(), "-0.001");
    assert_eq!(CandyShared::from(float(-0.51)).to_string(), "-0.51");

    assert_eq!(CandyShared::from(123_i8).to_string(), "123");
    assert_eq!(CandyShared::from(-123_i16).to_string(), "-123");
    assert_eq!(CandyShared::from(-123_i32).to_string(), "-123");
    assert_eq!(CandyShared::from(-123_i64).to_string(), "-123");
    assert_eq!(CandyShared::from(-123_i128).to_string(), "-123");
    assert_eq!(CandyShared::from(123_i8).to_string(), "123");
    assert_eq!(CandyShared::from(123_i16).to_string(), "123");
    assert_eq!(CandyShared::from(123_i32).to_string(), "123");
    assert_eq!(CandyShared::from(123_i64).to_string(), "123");

    let text = "some text".to_string();
    assert_eq!(CandyShared::from(text).to_string(), "some text");

    let bool_candy = CandyShared::from(true);
    let bool_candy_false = CandyShared::from(false);
    assert_eq!(bool_candy.to_string(), "true");
    assert_eq!(bool_candy_false.to_string(), "false");

    let option_candy = CandyShared::from(Some(Box::from(CandyShared::from(123))));
    let option_candy_none = CandyShared::from(None);
    assert_eq!(option_candy.to_string(), "123");
    assert_eq!(option_candy_none.to_string(), "null");

    let blob_candy = CandyShared::from(vec![1_u8, 2_u8, 3_u8]);
    let blob_candy_2 = CandyShared::from(vec![15_u8]);
    assert_eq!(blob_candy.to_string(), "010203");
    assert_eq!(blob_candy_2.to_string(), "0f");

    let bytes = Bytes(vec![1_u8, 2_u8, 3_u8]);
    let bytes_2 = Bytes(vec![15_u8]);
    assert_eq!(bytes.to_string(), "010203");
    assert_eq!(bytes_2.to_string(), "0f");

    let array = CandyShared::from(vec![
        CandyShared::from(1),
        CandyShared::from("text"),
        CandyShared::from(3),
    ]);
    assert_eq!(array.to_string(), "[{1} {text} {3}]".to_string());

    let nats = CandyShared::from(vec![123_u128, 1234_u128, 12345_u128]);
    assert_eq!(nats.to_string(), "[123 1_234 12_345]".to_string());

    let prop = vec![
        PropertyShared {
            name: "name".to_string(),
            value: CandyShared::from("some text".to_string()),
            immutable: false,
        },
        PropertyShared {
            name: "name_2".to_string(),
            value: CandyShared::from("another text".to_string()),
            immutable: true,
        },
    ];
    assert_eq!(
        CandyShared::from(prop).to_string(),
        "{name:some text; name_2:var another text;}".to_string()
    );

    let principal = principal(IcPrincipal::anonymous());
    assert_eq!(CandyShared::from(principal).to_string(), "2vxsx-fae");

    let floats = vec![float(12.35), float(25.66)].to_candy();
    assert_eq!(floats.to_string(), "[12.35 25.66]".to_string());
}

#[test]
fn conversion_to_blob() {
    let num = 255_u128;
    assert_eq!(num.to_candy().to_blob().unwrap(), vec![255]);

    let num = 255_u8;
    assert_eq!(CandyShared::from(num).to_blob().unwrap(), vec![255]);

    let num = 2566_u16;
    assert_eq!(CandyShared::from(num).to_blob().unwrap(), vec![10, 6]);

    let num = 255_u32;
    assert_eq!(CandyShared::from(num).to_blob().unwrap(), vec![0, 0, 0, 255]);

    let num = 300_000_u64;
    assert_eq!(
        CandyShared::from(num).to_blob().unwrap(),
        vec![0, 0, 0, 0, 0, 4, 147, 224]
    );

    let num = -123_i128;
    assert_eq!(CandyShared::from(num).to_blob().unwrap(), vec![1, 123]);

    let text = "Hello, world!".to_string();
    assert_eq!(
        CandyShared::from(text).to_blob().unwrap(),
        vec![
            0, 0, 0, 72, 0, 0, 0, 101, 0, 0, 0, 108, 0, 0, 0, 108, 0, 0, 0, 111, 0, 0, 0, 44, 0, 0,
            0, 32, 0, 0, 0, 119, 0, 0, 0, 111, 0, 0, 0, 114, 0, 0, 0, 108, 0, 0, 0, 100, 0, 0, 0,
            33,
        ]
    );

    let bytes = Bytes(vec![1_u8, 2_u8, 3_u8]);
    assert_eq!(bytes.to_blob().unwrap(), vec![1_u8, 2_u8, 3_u8]);

    let principal = principal(IcPrincipal::anonymous());
    let result = CandyShared::from(principal).to_blob().unwrap();
    assert_eq!(result, vec![4]);
}

#[test]
fn conversion_to_json() {
    assert_eq!(CandyShared::from(123_u128).to_json(), "123");
    assert_eq!(CandyShared::from(123_u64).to_json(), "123");
    assert_eq!(CandyShared::from(123_u64).to_json(), "123");
    assert_eq!(CandyShared::from(123_u32).to_json(), "123");
    assert_eq!(CandyShared::from(123_u16).to_json(), "123");
    assert_eq!(CandyShared::from(123_u8).to_json(), "123");
    assert_eq!(CandyShared::from("text").to_json(), "\"text\"");
    assert_eq!(CandyShared::from("text").to_json(), "\"text\"");
    assert_eq!(
        CandyShared::from(vec![
            PropertyShared {
                value: CandyShared::from(123_u8),
                name: "test".to_string(),
                immutable: true
            },
            PropertyShared {
                value: CandyShared::from(124_u8),
                name: "test_2".to_string(),
                immutable: false
            }
        ])
        .to_json(),
        "{\"test\":123,\"test_2\":124}"
    );
    assert_eq!(
        vec![1.to_candy(), 2.to_candy()].to_candy().to_json(),
        "[1,2]"
    );

    assert_eq!(
        Some(Box::from(123_u128.to_candy())).to_candy().to_json(),
        "123"
    );
    assert_eq!(CandyShared::from(None).to_json(), "null");

    assert_eq!(
        principal(IcPrincipal::management_canister()).to_candy().to_json(),
        "\"aaaaa-aa\""
    );

    // JSON numbers are never grouped.
    let nats = vec![123_u128, 1234_u128, 12345_u128].to_candy();
    assert_eq!(nats.to_json(), "[123,1234,12345]");

    let floats = vec![float(12.35), float(25.66)].to_candy();
    assert_eq!(
        vec![float(1.0), float(2.0), float(3.5), float(4.123)]
            .to_candy()
            .to_json(),
        "[1,2,3.5,4.123]"
    );
    assert_eq!(floats.to_json(), "[12.35,25.66]");

    let bytes = Bytes(vec![1_u8, 2_u8, 3_u8]);
    let bytes_2 = Bytes(vec![15_u8]);
    assert_eq!(bytes.to_json(), "\"010203\"");
    assert_eq!(bytes_2.to_json(), "\"0f\"");

    let blob = CandyShared::from(vec![1_u8, 2_u8, 3_u8]);
    assert_eq!(blob.to_json(), "\"010203\"");

    let result = CandyShared::from(principal(IcPrincipal::anonymous())).to_json();
    assert_eq!(result, "\"2vxsx-fae\"");

    let t = true.to_candy();
    let f = false.to_candy();
    assert_eq!(t.to_json(), "\"true\"");
    assert_eq!(f.to_json(), "\"false\"");

    let f = float(12.35).to_candy();
    assert_eq!(f.to_json(), "12.35");
    assert_eq!(123_i128.to_candy().to_json(), "123");
    assert_eq!(123_i64.to_candy().to_json(), "123");
    assert_eq!(123_i32.to_candy().to_json(), "123");
    assert_eq!(123_i16.to_candy().to_json(), "123");
    assert_eq!(123_i8.to_candy().to_json(), "123");
}

#[test]
fn to_blob_of_big_numbers_and_chars() {
    assert_eq!(Nat::from_u128(0).to_blob(), vec![0]);
    assert_eq!(Nat::from_u128(256).to_blob(), vec![1, 0]);
    assert_eq!(Int::from_i128(-128).to_blob(), vec![1, 1, 0]);
    assert_eq!(Int::from_i128(0).to_blob(), vec![0, 0]);
    assert_eq!('H'.to_blob(), vec![0, 0, 0, 72]);
    assert_eq!(CandyShared::from(-2_i16).to_blob().unwrap(), vec![0xff, 0xfe]);
}

#[test]
fn float_rounding_edges() {
    assert_eq!(CandyShared::from(float(0.5)).to_nat(), Some(1));
    assert_eq!(CandyShared::from(float(2.5)).to_nat(), Some(3));
    assert_eq!(CandyShared::from(float(0.49999999999999994)).to_nat(), Some(0));
    assert_eq!(CandyShared::from(float(-0.0)).to_nat(), Some(0));
    assert_eq!(CandyShared::from(float(-2.5)).to_int(), Some(-3));
    assert_eq!(CandyShared::from(float(-128.4)).to_int8(), Some(-128));
    assert_eq!(CandyShared::from(float(127.6)).to_int8(), None);
    assert_eq!(CandyShared::from(float(1e20)).to_nat(), Some(100000000000000000000));
    assert_eq!(CandyShared::from(float(1e40)).to_nat(), None);
    assert_eq!(CandyShared::from(float(f64::NAN)).to_int(), None);
    assert_eq!(CandyShared::from(float(f64::INFINITY)).to_nat(), None);
}

#[test]
fn narrowing_and_widening() {
    assert_eq!(CandyShared::from(300_u16).to_nat8(), None);
    assert_eq!(CandyShared::from(255_u16).to_nat8(), Some(255));
    assert_eq!(CandyShared::from(-1_i64).to_nat64(), None);
    assert_eq!(CandyShared::from(-32768_i64).to_int16(), Some(-32768));
    assert_eq!(CandyShared::from(i128::MIN).to_int(), Some(i128::MIN));
    assert_eq!(CandyShared::from(u128::MAX).to_int(), None);
    assert_eq!(CandyShared::from(u128::MAX).to_nat(), Some(u128::MAX));
    assert_eq!(CandyShared::from(u64::MAX).to_nat64(), Some(u64::MAX));
    assert_eq!(CandyShared::from(5_u32).to_int32(), Some(5));
    assert_eq!(CandyShared::from(true).to_nat(), None);
    assert_eq!(CandyShared::from("7").to_int(), None);
    assert_eq!(CandyShared::from(true).to_bool(), Some(true));
    assert_eq!(CandyShared::from(1_u8).to_bool(), None);
}

#[test]
fn round_trip_of_every_scalar_type() {
    assert_eq!(CandyShared::from(200_u8).to_nat8(), Some(200));
    assert_eq!(CandyShared::from(60000_u16).to_nat16(), Some(60000));
    assert_eq!(CandyShared::from(4_000_000_000_u32).to_nat32(), Some(4_000_000_000));
    assert_eq!(CandyShared::from(u64::MAX).to_nat64(), Some(u64::MAX));
    assert_eq!(CandyShared::from(-100_i8).to_int8(), Some(-100));
    assert_eq!(CandyShared::from(-30000_i16).to_int16(), Some(-30000));
    assert_eq!(CandyShared::from(i32::MIN).to_int32(), Some(i32::MIN));
    assert_eq!(CandyShared::from(i64::MAX).to_int64(), Some(i64::MAX));
    assert_eq!(CandyShared::from(12345678901234567890_u128).to_nat(), Some(12345678901234567890));
    assert_eq!(CandyShared::from(-12345678901234567890_i128).to_int(), Some(-12345678901234567890));
    assert_eq!(CandyShared::from(false).to_bool(), Some(false));
}

#[test]
fn to_blob_fails_for_structural_variants() {
    assert_eq!(
        CandyShared::from(true).to_blob(),
        Err(CandyError::Unsupported(CandyKind::Bool))
    );
    assert_eq!(
        CandyShared::from(float(1.5)).to_blob(),
        Err(CandyError::Unsupported(CandyKind::Float))
    );
    assert_eq!(
        CandyShared::from(vec![1.to_candy()]).to_blob(),
        Err(CandyError::Unsupported(CandyKind::Array))
    );
}

#[test]
fn json_escapes_text_and_renders_big_numbers_plainly() {
    assert_eq!(CandyShared::from("a\"b\\c\n").to_json(), "\"a\\\"b\\\\c\\n\"");
    assert_eq!(CandyShared::from("\u{1}").to_json(), "\"\\u0001\"");
    assert_eq!(CandyShared::from(-123_456_789_000_i128).to_json(), "-123456789000");
    assert_eq!(
        CandyShared::Ints(vec![Int::from_i128(-1234), Int::from_i128(5)]).to_json(),
        "[-1234,5]"
    );
    assert_eq!(
        CandyShared::Ints(vec![Int::from_i128(-1234), Int::from_i128(5)]).to_string(),
        "[-1_234 5]"
    );
    assert_eq!(CandyShared::ValueMap(vec![]).to_json(), "");
    assert_eq!(CandyShared::from(-128_i8).to_string(), "-128");
}

#[test]
fn coercion_status_tells_why() {
    assert_eq!(CandyShared::from(5_u8).coercion_status(IntegerKind::I8), Ok(()));
    assert_eq!(
        CandyShared::from(300_u16).coercion_status(IntegerKind::U8),
        Err(CandyError::Overflow)
    );
    assert_eq!(
        CandyShared::from("5").coercion_status(IntegerKind::U8),
        Err(CandyError::NotRepresentable)
    );
    assert_eq!(
        CandyShared::from(float(-0.3)).coercion_status(IntegerKind::U32),
        Err(CandyError::Overflow)
    );
    assert_eq!(
        CandyShared::from(float(f64::NAN)).coercion_status(IntegerKind::I64),
        Err(CandyError::NotRepresentable)
    );
    assert_eq!(
        CandyShared::Nat(Nat::from_bytes_be(&vec![1; 20])).coercion_status(IntegerKind::U128),
        Err(CandyError::Overflow)
    );
}

#[test]
fn big_numbers_from_bytes() {
    let n = Nat::from_bytes_be(&vec![0, 0, 1, 0]);
    assert_eq!(n.to_u128(), Some(256));
    assert_eq!(n.to_bytes_be(), vec![1, 0]);
    assert_eq!(Nat::from_bytes_be(&vec![]).to_bytes_be(), vec![0]);
    let big = Nat::from_bytes_be(&vec![0xff; 17]);
    assert_eq!(big.to_u128(), None);
    assert_eq!(big.digit_count(), 17);
    assert_eq!(Nat::from_u128(12345).to_grouped(), "12_345");
    assert_eq!(Int::from_i128(-1234567).to_grouped(), "-1_234_567");
    assert_eq!(Int::from_i128(-123456).to_decimal(), "-123456");
}
