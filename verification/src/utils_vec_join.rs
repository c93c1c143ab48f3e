//! Text forms of words and byte sequences: fixed-width upper-case hexadecimal,
//! decimal, and sequences joined by a separator.

use vstd::prelude::*;

verus! {

/// The sixteen upper-case hexadecimal digits, in order.
pub open spec fn hex_digits() -> Seq<char> {
    seq!['0', '1', '2', '3', '4', '5', '6', '7', '8', '9', 'A', 'B', 'C', 'D', 'E', 'F']
}

/// The last `width` hexadecimal digits of `v`, most significant first, with
/// leading zeros.
pub open spec fn hex_fixed(v: nat, width: nat) -> Seq<char>
    decreases width,
{
    if width == 0 {
        Seq::empty()
    } else {
        hex_fixed(v / 16, (width - 1) as nat).push(hex_digits()[(v % 16) as int])
    }
}

/// The decimal digits of `v`, most significant first, without leading zeros.
pub open spec fn decimal(v: nat) -> Seq<char>
    decreases v,
{
    if v < 10 {
        seq![hex_digits()[v as int]]
    } else {
        decimal(v / 10).push(hex_digits()[(v % 10) as int])
    }
}

/// The parts in order, with `sep` between each two neighbours.
pub open spec fn joined(parts: Seq<Seq<char>>, sep: Seq<char>) -> Seq<char>
    decreases parts.len(),
{
    if parts.len() == 0 {
        Seq::empty()
    } else if parts.len() == 1 {
        parts[0]
    } else {
        joined(parts.drop_last(), sep) + sep + parts.last()
    }
}

/// Every byte as two hexadecimal digits, joined by `sep`.
pub open spec fn hex_join_u8(v: Seq<u8>, sep: Seq<char>) -> Seq<char> {
    joined(v.map_values(|b: u8| hex_fixed(b as nat, 2)), sep)
}

/// Every word as sixteen hexadecimal digits, joined by `sep`.
pub open spec fn hex_join_u64(v: Seq<u64>, sep: Seq<char>) -> Seq<char> {
    joined(v.map_values(|w: u64| hex_fixed(w as nat, 16)), sep)
}

/// The digit `d` as a string of one character.
fn digit_str(d: u64) -> (s: &'static str)
    requires
        d < 16,
    ensures
        s@ == seq![hex_digits()[d as int]],
{
    proof {
        reveal_strlit("0");
        reveal_strlit("1");
        reveal_strlit("2");
        reveal_strlit("3");
        reveal_strlit("4");
        reveal_strlit("5");
        reveal_strlit("6");
        reveal_strlit("7");
        reveal_strlit("8");
        reveal_strlit("9");
        reveal_strlit("A");
        reveal_strlit("B");
        reveal_strlit("C");
        reveal_strlit("D");
        reveal_strlit("E");
        reveal_strlit("F");
    }
    let s: &'static str = if d == 0 {
        "0"
    } else if d == 1 {
        "1"
    } else if d == 2 {
        "2"
    } else if d == 3 {
        "3"
    } else if d == 4 {
        "4"
    } else if d == 5 {
        "5"
    } else if d == 6 {
        "6"
    } else if d == 7 {
        "7"
    } else if d == 8 {
        "8"
    } else if d == 9 {
        "9"
    } else if d == 10 {
        "A"
    } else if d == 11 {
        "B"
    } else if d == 12 {
        "C"
    } else if d == 13 {
        "D"
    } else if d == 14 {
        "E"
    } else {
        "F"
    };
    assert(s@ =~= seq![hex_digits()[d as int]]);
    s
}

/// Appends the last `width` hexadecimal digits of `v` to `out`.
pub fn push_hex(out: &mut String, v: u64, width: usize)
    ensures
        final(out)@ == old(out)@ + hex_fixed(v as nat, width as nat),
    decreases width,
{
    if width > 0 {
        push_hex(out, v / 16, width - 1);
        out.append(digit_str(v % 16));
        assert(out@ =~= old(out)@ + hex_fixed(v as nat, width as nat));
    } else {
        assert(out@ =~= old(out)@ + hex_fixed(v as nat, width as nat));
    }
}

/// Appends `v` in decimal to `out`.
pub fn push_decimal(out: &mut String, v: usize)
    ensures
        final(out)@ == old(out)@ + decimal(v as nat),
    decreases v,
{
    if v < 10 {
        out.append(digit_str(v as u64));
    } else {
        push_decimal(out, v / 10);
        out.append(digit_str((v % 10) as u64));
    }
    assert(out@ =~= old(out)@ + decimal(v as nat));
}

/// The bytes of `v_vec` as two upper-case hexadecimal digits each, joined by
/// `join_str`.
pub fn vec_own_u8_hex_join_string(v_vec: &Vec<u8>, join_str: &str) -> (text: String)
    ensures
        text@ == hex_join_u8(v_vec@, join_str@),
{
    let mut text: String = String::new();
    let mut i: usize = 0;
    while i < v_vec.len()
        invariant
            i <= v_vec.len(),
            text@ == hex_join_u8(v_vec@.take(i as int), join_str@),
        decreases v_vec.len() - i,
    {
        if i > 0 {
            text.append(join_str);
        }
        push_hex(&mut text, v_vec[i] as u64, 2);
        proof {
            let f = |b: u8| hex_fixed(b as nat, 2);
            let before = v_vec@.take(i as int).map_values(f);
            let after = v_vec@.take(i + 1).map_values(f);
            assert(after.drop_last() =~= before);
            assert(after.last() == hex_fixed(v_vec[i as int] as nat, 2));
        }
        i += 1;
    }
    assert(v_vec@.take(i as int) =~= v_vec@);
    text
}

/// The words of `v_vec` as sixteen upper-case hexadecimal digits each, joined by
/// `join_str`.
pub fn vec_own_u64_hex_join_string(v_vec: &Vec<u64>, join_str: &str) -> (text: String)
    ensures
        text@ == hex_join_u64(v_vec@, join_str@),
{
    let mut text: String = String::new();
    let mut i: usize = 0;
    while i < v_vec.len()
        invariant
            i <= v_vec.len(),
            text@ == hex_join_u64(v_vec@.take(i as int), join_str@),
        decreases v_vec.len() - i,
    {
        if i > 0 {
            text.append(join_str);
        }
        push_hex(&mut text, v_vec[i], 16);
        proof {
            let f = |w: u64| hex_fixed(w as nat, 16);
            let before = v_vec@.take(i as int).map_values(f);
            let after = v_vec@.take(i + 1).map_values(f);
            assert(after.drop_last() =~= before);
            assert(after.last() == hex_fixed(v_vec[i as int] as nat, 16));
        }
        i += 1;
    }
    assert(v_vec@.take(i as int) =~= v_vec@);
    text
}

/// One record of bytes: the key, the bytes in hexadecimal joined by commas, and
/// a line feed.
pub open spec fn bytes_line(key: Seq<char>, bytes: Seq<u8>) -> Seq<char> {
    key + hex_join_u8(bytes, ","@) + "\n"@
}

/// One record of words: the key, the words in hexadecimal joined by commas, and
/// a line feed.
pub open spec fn words_line(key: Seq<char>, words: Seq<u64>) -> Seq<char> {
    key + hex_join_u64(words, ","@) + "\n"@
}

/// One record of a cursor: the key, the index in decimal, and a line feed.
pub open spec fn index_line(key: Seq<char>, index: nat) -> Seq<char> {
    key + decimal(index) + "\n"@
}

/// Appends the record of `bytes` under `key` to `out`.
pub fn push_bytes_line(out: &mut String, key: &str, bytes: &Vec<u8>)
    ensures
        final(out)@ == old(out)@ + bytes_line(key@, bytes@),
{
    out.append(key);
    let body: String = vec_own_u8_hex_join_string(bytes, ",");
    out.append(body.as_str());
    out.append("\n");
    assert(out@ =~= old(out)@ + bytes_line(key@, bytes@));
}

/// Appends the record of `words` under `key` to `out`.
pub fn push_words_line(out: &mut String, key: &str, words: &Vec<u64>)
    ensures
        final(out)@ == old(out)@ + words_line(key@, words@),
{
    out.append(key);
    let body: String = vec_own_u64_hex_join_string(words, ",");
    out.append(body.as_str());
    out.append("\n");
    assert(out@ =~= old(out)@ + words_line(key@, words@));
}

/// Appends the record of the cursor `index` under `key` to `out`.
pub fn push_index_line(out: &mut String, key: &str, index: usize)
    ensures
        final(out)@ == old(out)@ + index_line(key@, index as nat),
{
    let ghost start = out@;
    out.append(key);
    push_decimal(out, index);
    out.append("\n");
    assert(out@ =~= start + index_line(key@, index as nat));
}

/// The record of a batch of 64-bit values: `v_vec_u64:`, the values in
/// hexadecimal joined by commas, and a line feed.
pub fn vec_u64_line(v_vec: &Vec<u64>) -> (text: String)
    ensures
        text@ == words_line("v_vec_u64:"@, v_vec@),
{
    let mut text: String = String::new();
    push_words_line(&mut text, "v_vec_u64:", v_vec);
    assert(text@ =~= words_line("v_vec_u64:"@, v_vec@));
    text
}

} // verus!
