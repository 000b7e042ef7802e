use doc_schema::ident::{fresh_id, render_id, ID_LEN};

const SYMBOLS: &str = "0123456789ABCDEFGHJKMNPQRSTVWXYZ";

#[test]
fn text_has_fixed_length() {
    assert_eq!(ID_LEN, 26);
    assert_eq!(render_id(0).len(), 26);
    assert_eq!(render_id(u128::MAX).len(), 26);
    assert_eq!(fresh_id().len(), 26);
}

#[test]
fn text_of_least_and_greatest() {
    assert_eq!(render_id(0), "00000000000000000000000000");
    assert_eq!(render_id(u128::MAX), "7ZZZZZZZZZZZZZZZZZZZZZZZZZ");
}

#[test]
fn text_of_known_identifiers() {
    assert_eq!(
        render_id(0x0168d3ff00cf8659add49a16d369c5ff),
        "01D39ZY06FGSCTVN4T2V9PKHFZ"
    );
    assert_eq!(
        render_id(0x41414141414141414141414141414141),
        "21850M2GA1850M2GA1850M2GA1"
    );
    assert_eq!(
        render_id(0x017ce903415005a4aad38faa09aaf58d),
        "01FKMG6GAG0PJANMWFN84TNXCD"
    );
}

#[test]
fn each_position_holds_five_bits() {
    assert_eq!(render_id(1), "00000000000000000000000001");
    assert_eq!(render_id(31), "0000000000000000000000000Z");
    assert_eq!(render_id(32), "00000000000000000000000010");
    assert_eq!(render_id(1 << 80), "00000000010000000000000000");
    assert_eq!(render_id((1 << 80) - 1), "0000000000ZZZZZZZZZZZZZZZZ");
    assert_eq!(render_id(1 << 125), "10000000000000000000000000");
}

#[test]
fn every_symbol_in_order_of_value() {
    for value in 0..32u128 {
        let text = render_id(value);
        let last = text.chars().last();
        assert_eq!(last, SYMBOLS.chars().nth(value as usize));
        assert!(text[..25].chars().all(|c| c == '0'));
    }
}

#[test]
fn text_orders_as_identifiers_do() {
    let ascending: [u128; 9] = [
        0,
        1,
        31,
        32,
        (1 << 80) - 1,
        1 << 80,
        0x0168d3ff00cf8659add49a16d369c5ff,
        0x41414141414141414141414141414141,
        u128::MAX,
    ];
    for pair in ascending.windows(2) {
        assert!(pair[0] < pair[1]);
        assert!(render_id(pair[0]) < render_id(pair[1]));
    }
}

#[test]
fn later_stamp_sorts_later_whatever_the_random_part() {
    let earlier = (1_549_744_931_023u128 << 80) | ((1 << 80) - 1);
    let later = 1_549_744_931_024u128 << 80;
    assert!(render_id(earlier) < render_id(later));
    assert_eq!(&render_id(earlier)[..10], "01D39ZY06F");
    assert_eq!(&render_id(later)[..10], "01D39ZY06G");
}

#[test]
fn different_identifiers_have_different_text() {
    assert_ne!(render_id(0), render_id(1 << 127));
    assert_ne!(render_id(5), render_id(5 << 5));
}

#[test]
fn fresh_id_is_made_of_symbols() {
    let text = fresh_id();
    assert!(!text.is_empty());
    assert!(text.chars().all(|c| SYMBOLS.contains(c)));
    assert!(text.as_str() <= "7ZZZZZZZZZZZZZZZZZZZZZZZZZ");
}

#[test]
fn fresh_ids_differ() {
    let first = fresh_id();
    let second = fresh_id();
    let third = fresh_id();
    assert_ne!(first, second);
    assert_ne!(second, third);
    assert_ne!(first, third);
}

#[test]
fn fresh_id_carries_a_present_day_stamp() {
    let text = fresh_id();
    // The ten leading symbols hold the milliseconds since 1970.
    assert!(&text[..10] > "01D39ZY06F");
}
