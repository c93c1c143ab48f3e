use prng::utils_vec_join::{
    push_bytes_line, push_decimal, push_hex, push_index_line, push_words_line,
    vec_own_u64_hex_join_string, vec_own_u8_hex_join_string, vec_u64_line,
};

#[test]
fn bytes_join_as_two_upper_case_digits() {
    let v: Vec<u8> = vec![0x00, 0x01, 0x0a, 0x10, 0x9f, 0xab, 0xff];
    assert_eq!(vec_own_u8_hex_join_string(&v, ","), "00,01,0A,10,9F,AB,FF");
}

#[test]
fn bytes_join_edge_cases() {
    assert_eq!(vec_own_u8_hex_join_string(&Vec::new(), ","), "");
    assert_eq!(vec_own_u8_hex_join_string(&vec![0x7f], ","), "7F");
    assert_eq!(vec_own_u8_hex_join_string(&vec![1, 2, 3], ""), "010203");
    assert_eq!(vec_own_u8_hex_join_string(&vec![1, 2, 3], " - "), "01 - 02 - 03");
}

#[test]
fn bytes_join_matches_std_formatting() {
    let mut v: Vec<u8> = Vec::new();
    for b in 0..=255u8 {
        v.push(b);
    }
    let expected = v.iter().map(|x| format!("{:02X}", x)).collect::<Vec<String>>().join(",");
    assert_eq!(vec_own_u8_hex_join_string(&v, ","), expected);
}

#[test]
fn words_join_as_sixteen_upper_case_digits() {
    let v: Vec<u64> = vec![0, 1, 0xdeadbeef, 0x0123456789abcdef, u64::MAX];
    assert_eq!(
        vec_own_u64_hex_join_string(&v, ","),
        "0000000000000000,0000000000000001,00000000DEADBEEF,0123456789ABCDEF,FFFFFFFFFFFFFFFF"
    );
}

#[test]
fn words_join_edge_cases() {
    assert_eq!(vec_own_u64_hex_join_string(&Vec::new(), ","), "");
    assert_eq!(vec_own_u64_hex_join_string(&vec![0x10], ","), "0000000000000010");
    assert_eq!(
        vec_own_u64_hex_join_string(&vec![0xa, 0xb], "::"),
        "000000000000000A::000000000000000B"
    );
}

#[test]
fn words_join_matches_std_formatting() {
    let mut v: Vec<u64> = Vec::new();
    let mut x: u64 = 0x9e3779b97f4a7c15;
    for _ in 0..64 {
        v.push(x);
        x = x.wrapping_mul(0x2545f4914f6cdd1d).wrapping_add(1) >> 1;
    }
    let expected = v.iter().map(|x| format!("{:016X}", x)).collect::<Vec<String>>().join(",");
    assert_eq!(vec_own_u64_hex_join_string(&v, ","), expected);
}

#[test]
fn push_hex_appends_the_last_digits() {
    let mut s = String::from("x=");
    push_hex(&mut s, 0xabc, 2);
    assert_eq!(s, "x=BC");
    push_hex(&mut s, 0xabc, 5);
    assert_eq!(s, "x=BC00ABC");
    push_hex(&mut s, 0xabc, 0);
    assert_eq!(s, "x=BC00ABC");
}

#[test]
fn push_decimal_appends_without_leading_zeros() {
    let mut s = String::new();
    push_decimal(&mut s, 0);
    assert_eq!(s, "0");
    push_decimal(&mut s, 9);
    push_decimal(&mut s, 10);
    push_decimal(&mut s, 4096);
    assert_eq!(s, "09104096");
    let mut t = String::new();
    push_decimal(&mut t, usize::MAX);
    assert_eq!(t, format!("{}", usize::MAX));
}

#[test]
fn record_lines_end_with_a_line_feed() {
    let mut s = String::new();
    push_bytes_line(&mut s, "v_state_u8:", &vec![0xde, 0xad]);
    push_words_line(&mut s, "v_vec_u64:", &vec![1, 2]);
    push_index_line(&mut s, "idx_values_mult:", 12);
    push_words_line(&mut s, "empty:", &Vec::new());
    assert_eq!(
        s,
        "v_state_u8:DE,AD\nv_vec_u64:0000000000000001,0000000000000002\nidx_values_mult:12\nempty:\n"
    );
}

#[test]
fn batch_record_of_words() {
    assert_eq!(
        vec_u64_line(&vec![1, 0xabcdef, u64::MAX]),
        "v_vec_u64:0000000000000001,0000000000ABCDEF,FFFFFFFFFFFFFFFF\n"
    );
    assert_eq!(vec_u64_line(&Vec::new()), "v_vec_u64:\n");
}
