use hashmap_diff::Canonical;
use hashmap_diff::Rendered;

#[test]
fn zero_is_one_digit() {
    assert_eq!(0u64.canonical(), "0");
}

#[test]
fn single_digits() {
    let texts: Vec<String> = (0u64..10).map(|n| n.canonical()).collect();
    assert_eq!(texts, vec!["0", "1", "2", "3", "4", "5", "6", "7", "8", "9"]);
}

#[test]
fn ten_has_two_digits() {
    assert_eq!(10u64.canonical(), "10");
}

#[test]
fn digits_come_most_significant_first() {
    assert_eq!(1234567890u64.canonical(), "1234567890");
    assert_eq!(9007199254740993u64.canonical(), "9007199254740993");
}

#[test]
fn inner_zeros_are_kept() {
    assert_eq!(1000u64.canonical(), "1000");
    assert_eq!(100200300u64.canonical(), "100200300");
}

#[test]
fn largest_number() {
    assert_eq!(u64::MAX.canonical(), "18446744073709551615");
}

#[test]
fn decimal_agrees_with_display() {
    let mut n: u64 = 1;
    for _ in 0..200 {
        assert_eq!(n.canonical(), format!("{}", n));
        n = n.wrapping_mul(6364136223846793005).wrapping_add(1442695040888963407);
    }
}

#[test]
fn a_string_is_its_own_text() {
    assert_eq!("juno>osmo".to_string().canonical(), "juno>osmo");
    assert_eq!(String::new().canonical(), "");
}

#[test]
fn a_rendered_value_has_the_text_it_was_given() {
    let rendered = Rendered::new((1u8, 2u8), "pair of one and two".to_string());
    assert_eq!(rendered.canonical(), "pair of one and two");
    assert_eq!(rendered.value, (1u8, 2u8));
    assert_eq!(rendered.into_value(), (1u8, 2u8));
}

#[derive(Debug, Clone, PartialEq)]
struct Pool {
    dex: String,
    assets: Vec<String>,
}

#[test]
fn debug_rendering_prints_the_value() {
    let pool = Pool {
        dex: "wyndex".to_string(),
        assets: vec!["juno>juno".to_string(), "juno>wynd".to_string()],
    };
    let rendered = Rendered::by_debug(pool.clone());
    assert_eq!(
        rendered.canonical(),
        "Pool { dex: \"wyndex\", assets: [\"juno>juno\", \"juno>wynd\"] }"
    );
    assert_eq!(rendered.text, format!("{:?}", pool));
    assert_eq!(rendered.into_value(), pool);
}

#[test]
fn debug_rendering_tells_stored_orders_apart() {
    let one = Rendered::by_debug(vec!["a", "b"]);
    let other = Rendered::by_debug(vec!["b", "a"]);
    assert_ne!(one.canonical(), other.canonical());
    assert_eq!(one.canonical(), Rendered::by_debug(vec!["a", "b"]).canonical());
}
