use std::collections::HashMap;

use candid::Principal as IcPrincipal;
use ic_candy::types::{Float, Principal, PropertyShared};
use ic_candy::value::{CandyShared, ToCandyValue};

fn float(x: f64) -> Float {
    Float::new(x.to_bits(), x.to_string())
}

fn principal(p: IcPrincipal) -> Principal {
    Principal::from_bytes(p.as_slice().to_vec()).unwrap()
}

#[test]
fn hash_map() {
    let mut value_map: HashMap<CandyShared, CandyShared> = HashMap::new();
    value_map.insert(1_u128.to_candy(), 2_u128.to_candy());
    value_map.insert(3_u8.to_candy(), 4_u8.to_candy());
    value_map.insert(5_u16.to_candy(), 6_u16.to_candy());
    value_map.insert(7_u32.to_candy(), 8_u32.to_candy());
    value_map.insert(9_u64.to_candy(), 10_u64.to_candy());
    value_map.insert(11_i128.to_candy(), 12_i128.to_candy());
    value_map.insert(13_i8.to_candy(), 14_i8.to_candy());
    value_map.insert(15_i16.to_candy(), 16_i16.to_candy());
    value_map.insert(17_i32.to_candy(), 18_i32.to_candy());
    value_map.insert(19_i64.to_candy(), 20_i64.to_candy());
    value_map.insert("key".to_candy(), "value".to_candy());
    value_map.insert(false.to_candy(), true.to_candy());
    value_map.insert(
        vec![0_u8, 1_u8, 2_u8, 3_u8, 4_u8].to_candy(),
        vec![4_u8, 5_u8, 6_u8, 7_u8, 8_u8].to_candy(),
    );
    value_map.insert(
        CandyShared::Bytes(vec![0_u8, 1_u8, 2_u8, 3_u8, 4_u8]),
        CandyShared::Bytes(vec![0_u8, 1_u8, 2_u8, 3_u8, 4_u8]),
    );
    value_map.insert(
        vec![PropertyShared {
            name: "key".to_string(),
            immutable: false,
            value: "value".to_candy(),
        }]
        .to_candy(),
        vec![PropertyShared {
            name: "key2".to_string(),
            immutable: false,
            value: "value2".to_candy(),
        }]
        .to_candy(),
    );
    value_map.insert(
        principal(IcPrincipal::anonymous()).to_candy(),
        principal(IcPrincipal::management_canister()).to_candy(),
    );
    value_map.insert(Some(Box::from(1.to_candy())).to_candy(), None.to_candy());
    value_map.insert(
        vec![1.to_candy(), 2.to_candy()].to_candy(),
        vec![3.to_candy(), 4.to_candy()].to_candy(),
    );
    value_map.insert(
        vec![1_u128.to_candy(), 2_u128.to_candy()].to_candy(),
        vec![3_u128.to_candy(), 4_u128.to_candy()].to_candy(),
    );
    value_map.insert(
        vec![float(1_f64).to_candy(), float(2_f64).to_candy()].to_candy(),
        vec![float(3_f64).to_candy(), float(4_f64).to_candy()].to_candy(),
    );

    let key = 1_u128.to_candy();
    assert_eq!(value_map.get(&key), Some(&2_u128.to_candy()));
    let key = 3_u8.to_candy();
    assert_eq!(value_map.get(&key), Some(&4_u8.to_candy()));
    let key = 5_u16.to_candy();
    assert_eq!(value_map.get(&key), Some(&6_u16.to_candy()));
    let key = 7_u32.to_candy();
    assert_eq!(value_map.get(&key), Some(&8_u32.to_candy()));
    let key = 9_u64.to_candy();
    assert_eq!(value_map.get(&key), Some(&10_u64.to_candy()));
    let key = 11_i128.to_candy();
    assert_eq!(value_map.get(&key), Some(&12_i128.to_candy()));
    let key = 13_i8.to_candy();
    assert_eq!(value_map.get(&key), Some(&14_i8.to_candy()));
    let key = 15_i16.to_candy();
    assert_eq!(value_map.get(&key), Some(&16_i16.to_candy()));
    let key = 17_i32.to_candy();
    assert_eq!(value_map.get(&key), Some(&18_i32.to_candy()));
    let key = 19_i64.to_candy();
    assert_eq!(value_map.get(&key), Some(&20_i64.to_candy()));
    let key = "key".to_candy();
    assert_eq!(value_map.get(&key), Some(&"value".to_candy()));
    let key = false.to_candy();
    assert_eq!(value_map.get(&key), Some(&true.to_candy()));
    let key = vec![0_u8, 1_u8, 2_u8, 3_u8, 4_u8].to_candy();
    assert_eq!(
        value_map.get(&key),
        Some(&vec![4_u8, 5_u8, 6_u8, 7_u8, 8_u8].to_candy())
    );
    let key = CandyShared::Bytes(vec![0_u8, 1_u8, 2_u8, 3_u8, 4_u8]);
    assert_eq!(
        value_map.get(&key),
        Some(&CandyShared::Bytes(vec![0_u8, 1_u8, 2_u8, 3_u8, 4_u8]))
    );
    let key = vec![PropertyShared {
        name: "key".to_string(),
        immutable: false,
        value: "value".to_candy(),
    }]
    .to_candy();
    assert_eq!(
        value_map.get(&key),
        Some(
            &vec![PropertyShared {
                name: "key2".to_string(),
                immutable: false,
                value: "value2".to_candy(),
            }]
            .to_candy()
        )
    );
    let key = principal(IcPrincipal::anonymous()).to_candy();
    assert_eq!(
        value_map.get(&key),
        Some(&principal(IcPrincipal::management_canister()).to_candy())
    );
    let key = Some(Box::from(1.to_candy())).to_candy();
    assert_eq!(value_map.get(&key), Some(&None.to_candy()));
    let key = vec![1.to_candy(), 2.to_candy()].to_candy();
    assert_eq!(
        value_map.get(&key),
        Some(&vec![3.to_candy(), 4.to_candy()].to_candy())
    );
    let key = vec![1_u128.to_candy(), 2_u128.to_candy()].to_candy();
    assert_eq!(
        value_map.get(&key),
        Some(&vec![3_u128.to_candy(), 4_u128.to_candy()].to_candy())
    );
    let key = vec![float(1_f64).to_candy(), float(2_f64).to_candy()].to_candy();
    let res = value_map.get(&key);
    assert_eq!(
        res,
        Some(&vec![float(3_f64).to_candy(), float(4_f64).to_candy()].to_candy())
    );
}

#[test]
fn equality_is_variant_sensitive() {
    assert_ne!(CandyShared::from(5_u128), CandyShared::from(5_u8));
    assert_ne!(CandyShared::from(5_i8), CandyShared::from(5_u8));
    assert_eq!(CandyShared::from(5_u128), CandyShared::from(5_u128));
    assert_ne!(CandyShared::from(float(f64::NAN)), CandyShared::from(float(f64::NAN)));
    assert_eq!(CandyShared::from(float(0.0)), CandyShared::from(float(-0.0)));
}

#[test]
fn map_equality_ignores_insertion_order() {
    let a = CandyShared::ValueMap(vec![
        ("k".to_candy(), 5_u8.to_candy()),
        ("other".to_candy(), 1_u8.to_candy()),
    ]);
    let b = CandyShared::ValueMap(vec![
        ("other".to_candy(), 1_u8.to_candy()),
        ("k".to_candy(), 5_u8.to_candy()),
    ]);
    let c = CandyShared::ValueMap(vec![("k".to_candy(), 5_u8.to_candy())]);
    let d = CandyShared::ValueMap(vec![("k".to_candy(), 5_u8.to_candy())]);
    assert_eq!(a, b);
    assert_eq!(c, d);
    assert_eq!(a.hash_value(), b.hash_value());
    assert_ne!(a, c);
    let e = CandyShared::ValueMap(vec![("k".to_candy(), 5_u128.to_candy())]);
    assert_ne!(c, e);
    let s1 = CandyShared::ValueSet(vec![1_u8.to_candy(), 2_u8.to_candy()]);
    let s2 = CandyShared::ValueSet(vec![2_u8.to_candy(), 1_u8.to_candy()]);
    assert_eq!(s1, s2);
    assert_eq!(s1.hash_value(), s2.hash_value());
    let m1 = CandyShared::ValueMap(vec![("k".to_candy(), 5_u8.to_candy())]);
    let m2 = CandyShared::ValueMap(vec![("k".to_candy(), 6_u8.to_candy())]);
    assert_ne!(m1.hash_value(), m2.hash_value());
    let s3 = CandyShared::ValueSet(vec![1_u8.to_candy(), 1_u8.to_candy()]);
    let s4 = CandyShared::ValueSet(vec![1_u8.to_candy(), 2_u8.to_candy()]);
    assert_ne!(s3, s4);
    assert_ne!(s4, s3);
}

#[test]
fn equal_values_hash_alike() {
    assert_eq!(
        CandyShared::from(float(0.0)).hash_value(),
        CandyShared::from(float(-0.0)).hash_value()
    );
    assert_ne!(
        CandyShared::from(5_u8).hash_value(),
        CandyShared::from(5_u16).hash_value()
    );
    let r1 = vec![PropertyShared { name: "n".to_string(), value: 1.to_candy(), immutable: true }];
    let r2 = vec![PropertyShared { name: "n".to_string(), value: 1.to_candy(), immutable: true }];
    assert_eq!(r1.to_candy().hash_value(), r2.to_candy().hash_value());
}

#[test]
fn sizes_follow_the_estimator() {
    assert_eq!(CandyShared::from(1_u8).get_value_size(), 1);
    assert_eq!(CandyShared::from(1_u16).get_value_size(), 2);
    assert_eq!(CandyShared::from(1_u32).get_value_size(), 3);
    assert_eq!(CandyShared::from(1_u64).get_value_size(), 4);
    assert_eq!(CandyShared::from(-1_i64).get_value_size(), 4);
    assert_eq!(CandyShared::from(0_u128).get_value_size(), 1);
    assert_eq!(CandyShared::from(1_234_567_890_u128).get_value_size(), 4);
    assert_eq!(CandyShared::from(-123_456_789_000_i128).get_value_size(), 6);
    assert_eq!(CandyShared::from("Hello, world!").get_value_size(), 52);
    assert_eq!(CandyShared::from(true).get_value_size(), 1);
    assert_eq!(CandyShared::from(vec![0_u8; 8]).get_value_size(), 8);
    assert_eq!(CandyShared::Bytes(vec![0_u8; 8]).get_value_size(), 10);
    assert_eq!(vec![1_u128, 2, 3, 4].to_candy().get_value_size(), 18);
    assert_eq!(CandyShared::from(None).get_value_size(), 0);
    assert_eq!(Some(Box::new(15_u128.to_candy())).to_candy().get_value_size(), 1);
    assert_eq!(
        vec![(-15_i128).to_candy(), 15_u128.to_candy()].to_candy().get_value_size(),
        5
    );
    let class = vec![
        PropertyShared { name: "test".to_string(), value: 15_u128.to_candy(), immutable: true },
        PropertyShared { name: "test2".to_string(), value: (-15_i128).to_candy(), immutable: true },
    ];
    assert_eq!(class.to_candy().get_value_size(), (1 + 16 + 1) + (1 + 20 + 2));
    assert_eq!(
        CandyShared::ValueMap(vec![(15_u128.to_candy(), 15_u128.to_candy())]).get_value_size(),
        2
    );
    assert_eq!(
        principal(IcPrincipal::anonymous()).to_candy().get_value_size(),
        1
    );
    assert_eq!(float(1.234).to_candy().get_value_size(), 8);
}

#[test]
fn cloned_values_are_equal() {
    let v = vec![
        PropertyShared { name: "a".to_string(), value: vec![1.to_candy(), "x".to_candy()].to_candy(), immutable: false },
    ]
    .to_candy();
    let w = v.clone();
    assert_eq!(v, w);
    assert_eq!(v.to_string(), w.to_string());
}
