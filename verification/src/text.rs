//! Building the text of rule ids, violation messages and errors.

use vstd::prelude::*;
use vstd::string::*;

verus! {

/// The character of a decimal or hexadecimal digit.
pub open spec fn digit(d: nat) -> char {
    if d < 10 {
        (d + 48) as char
    } else {
        (d + 87) as char
    }
}

/// A natural number in decimal, without leading zeros.
pub open spec fn decimal(n: nat) -> Seq<char>
    decreases n,
{
    if n < 10 {
        seq![digit(n)]
    } else {
        decimal(n / 10).push(digit(n % 10))
    }
}

/// An integer in decimal, with a leading `-` when it is negative.
pub open spec fn signed_decimal(i: int) -> Seq<char> {
    if i < 0 {
        seq!['-'] + decimal((-i) as nat)
    } else {
        decimal(i as nat)
    }
}

/// A truth value as messages print it.
pub open spec fn truth(b: bool) -> Seq<char> {
    if b {
        "true"@
    } else {
        "false"@
    }
}

/// The items joined with `, `.
pub open spec fn joined(items: Seq<Seq<char>>) -> Seq<char>
    decreases items.len(),
{
    if items.len() == 0 {
        Seq::empty()
    } else if items.len() == 1 {
        items[0]
    } else {
        joined(items.drop_last()) + ", "@ + items.last()
    }
}

/// A list as messages print it: its items in brackets.
pub open spec fn listed(items: Seq<Seq<char>>) -> Seq<char> {
    "["@ + joined(items) + "]"@
}

/// Bytes in lower case hexadecimal, two digits each.
pub open spec fn hexadecimal(bytes: Seq<u8>) -> Seq<char>
    decreases bytes.len(),
{
    if bytes.len() == 0 {
        Seq::empty()
    } else {
        hexadecimal(bytes.drop_last()) + seq![
            digit((bytes.last() / 16) as nat),
            digit((bytes.last() % 16) as nat),
        ]
    }
}

/// What the strings hold.
pub open spec fn texts(list: Seq<String>) -> Seq<Seq<char>> {
    list.map_values(|s: String| s@)
}

/// The text of one digit.
fn digit_text(d: u8) -> (r: &'static str)
    requires
        d < 16,
    ensures
        r@ == seq![digit(d as nat)],
{
    proof {
        reveal_strlit("0");
        reveal_strlit("1");
        reveal_strlit("2");
        reveal_strlit("3");
        reveal_strlit("4");
        reveal_strlit("5");
        reveal_strlit("6");
        reveal_strlit("7");
        reveal_strlit("8");
        reveal_strlit("9");
        reveal_strlit("a");
        reveal_strlit("b");
        reveal_strlit("c");
        reveal_strlit("d");
        reveal_strlit("e");
        reveal_strlit("f");
    }
    let r = match d {
        0 => "0",
        1 => "1",
        2 => "2",
        3 => "3",
        4 => "4",
        5 => "5",
        6 => "6",
        7 => "7",
        8 => "8",
        9 => "9",
        10 => "a",
        11 => "b",
        12 => "c",
        13 => "d",
        14 => "e",
        _ => "f",
    };
    assert(r@ =~= seq![digit(d as nat)]);
    r
}

/// `n` in decimal.
pub fn unsigned_text(n: u64) -> (r: String)
    ensures
        r@ == decimal(n as nat),
    decreases n,
{
    let last: u8 = (n % 10) as u8;
    let mut text = if n < 10 {
        String::new()
    } else {
        unsigned_text(n / 10)
    };
    text.append(digit_text(last));
    assert(text@ =~= decimal(n as nat));
    text
}

/// `i` in decimal.
pub fn signed_text(i: i64) -> (r: String)
    ensures
        r@ == signed_decimal(i as int),
{
    if i < 0 {
        let mut text = "-".to_owned();
        let magnitude: u64 = if i == i64::MIN {
            9223372036854775808
        } else {
            (-i) as u64
        };
        text.append(unsigned_text(magnitude).as_str());
        proof {
            reveal_strlit("-");
        }
        assert(text@ =~= signed_decimal(i as int));
        text
    } else {
        unsigned_text(i as u64)
    }
}

/// `true` or `false`.
pub fn truth_text(b: bool) -> (r: String)
    ensures
        r@ == truth(b),
{
    if b {
        "true".to_owned()
    } else {
        "false".to_owned()
    }
}

/// The strings joined with `, `.
pub fn join(list: &Vec<String>) -> (r: String)
    ensures
        r@ == joined(texts(list@)),
{
    let mut text = String::new();
    let mut i: usize = 0;
    while i < list.len()
        invariant
            i <= list@.len(),
            text@ == joined(texts(list@).take(i as int)),
        decreases list@.len() - i,
    {
        let ghost before = texts(list@).take(i as int);
        let ghost after = texts(list@).take(i + 1);
        if i > 0 {
            text.append(", ");
        }
        text.append(list[i].as_str());
        proof {
            assert(after.drop_last() =~= before);
            assert(after.last() == list@[i as int]@);
            if i == 0 {
                assert(before =~= Seq::empty());
            }
        }
        assert(text@ =~= joined(after));
        i += 1;
    }
    assert(texts(list@).take(list@.len() as int) =~= texts(list@));
    text
}

/// The strings as a list.
pub fn list_text(list: &Vec<String>) -> (r: String)
    ensures
        r@ == listed(texts(list@)),
{
    let mut text = "[".to_owned();
    text.append(join(list).as_str());
    text.append("]");
    text
}

/// The bytes in hexadecimal.
pub fn hex_text(bytes: &Vec<u8>) -> (r: String)
    ensures
        r@ == hexadecimal(bytes@),
{
    let mut text = String::new();
    let mut i: usize = 0;
    while i < bytes.len()
        invariant
            i <= bytes@.len(),
            text@ == hexadecimal(bytes@.take(i as int)),
        decreases bytes@.len() - i,
    {
        let b: u8 = bytes[i];
        text.append(digit_text(b / 16));
        text.append(digit_text(b % 16));
        assert(bytes@.take(i + 1).drop_last() =~= bytes@.take(i as int));
        assert(text@ =~= hexadecimal(bytes@.take(i + 1)));
        i += 1;
    }
    assert(bytes@.take(bytes@.len() as int) =~= bytes@);
    text
}

/// `a` followed by `b`.
pub fn concat(a: &str, b: &str) -> (r: String)
    ensures
        r@ == a@ + b@,
{
    let mut text = a.to_owned();
    text.append(b);
    text
}

/// `a`, `b` and `c` in turn.
pub fn concat3(a: &str, b: &str, c: &str) -> (r: String)
    ensures
        r@ == a@ + b@ + c@,
{
    let mut text = a.to_owned();
    text.append(b);
    text.append(c);
    text
}

/// A copy of some bytes.
pub fn copy_bytes(bytes: &Vec<u8>) -> (r: Vec<u8>)
    ensures
        r@ == bytes@,
{
    let mut copied: Vec<u8> = Vec::new();
    copied.extend_from_slice(bytes.as_slice());
    copied
}

/// A copy of a list of strings.
pub fn copy_texts(list: &Vec<String>) -> (r: Vec<String>)
    ensures
        texts(r@) == texts(list@),
{
    let mut copied: Vec<String> = Vec::new();
    let mut i: usize = 0;
    while i < list.len()
        invariant
            i <= list@.len(),
            texts(copied@) =~= texts(list@).take(i as int),
        decreases list@.len() - i,
    {
        let ghost before = copied@;
        copied.push(list[i].clone());
        assert(texts(copied@) =~= texts(before).push(list@[i as int]@));
        i += 1;
    }
    assert(texts(list@).take(i as int) =~= texts(list@));
    copied
}

/// The number that decimal digits spell.
pub open spec fn spelled(digits: Seq<char>) -> int
    decreases digits.len(),
{
    if digits.len() == 0 {
        0
    } else {
        spelled(digits.drop_last()) * 10 + (digits.last() as int - 48)
    }
}

/// A number in decimal reads back as the number: it is made of digits alone,
/// and has no zero in front.
pub proof fn law_decimal_reads_back(n: nat)
    ensures
        spelled(decimal(n)) == n,
        decimal(n).len() > 0,
        forall|i: int| 0 <= i < decimal(n).len() ==> '0' <= #[trigger] decimal(n)[i] <= '9',
        n > 0 ==> decimal(n)[0] != '0',
    decreases n,
{
    let all = decimal(n);
    if n >= 10 {
        let earlier = decimal(n / 10);
        law_decimal_reads_back(n / 10);
        assert(all.drop_last() =~= earlier);
        assert(all.last() as int == n % 10 + 48);
        assert forall|i: int| 0 <= i < all.len() implies '0' <= #[trigger] all[i] <= '9' by {
            if i < earlier.len() {
                assert(all[i] == earlier[i]);
            }
        }
        assert(all[0] == earlier[0]);
    } else {
        assert(all.last() as int == n + 48);
        assert(spelled(all.drop_last()) == 0);
    }
}

/// A signed number in decimal reads back as the number, a minus sign standing
/// for less than zero.
pub proof fn law_signed_decimal_reads_back(i: int)
    ensures
        i >= 0 ==> spelled(signed_decimal(i)) == i && signed_decimal(i)[0] != '-',
        i < 0 ==> signed_decimal(i)[0] == '-' && -spelled(signed_decimal(i).skip(1)) == i,
{
    if i < 0 {
        law_decimal_reads_back((-i) as nat);
        assert(signed_decimal(i).skip(1) =~= decimal((-i) as nat));
    } else {
        law_decimal_reads_back(i as nat);
        assert('0' <= decimal(i as nat)[0]);
    }
}

/// The value of a hexadecimal digit.
pub open spec fn digit_value(c: char) -> int {
    if '0' <= c <= '9' {
        c as int - 48
    } else if 'a' <= c <= 'f' {
        c as int - 87
    } else {
        -1
    }
}

/// Bytes in hexadecimal read back as the bytes, two digits for each.
pub proof fn law_hexadecimal_reads_back(bytes: Seq<u8>)
    ensures
        hexadecimal(bytes).len() == 2 * bytes.len(),
        forall|i: int|
            0 <= i < bytes.len() ==> digit_value(hexadecimal(bytes)[2 * i]) * 16 + digit_value(
                hexadecimal(bytes)[2 * i + 1],
            ) == #[trigger] bytes[i],
    decreases bytes.len(),
{
    if bytes.len() > 0 {
        let earlier = bytes.drop_last();
        law_hexadecimal_reads_back(earlier);
        let all = hexadecimal(bytes);
        assert forall|i: int| 0 <= i < bytes.len() implies digit_value(all[2 * i]) * 16
            + digit_value(all[2 * i + 1]) == #[trigger] bytes[i] by {
            if i < earlier.len() {
                assert(earlier[i] == bytes[i]);
                assert(all[2 * i] == hexadecimal(earlier)[2 * i]);
                assert(all[2 * i + 1] == hexadecimal(earlier)[2 * i + 1]);
            } else {
                let b = bytes.last();
                assert(all[2 * i] == digit((b / 16) as nat));
                assert(all[2 * i + 1] == digit((b % 16) as nat));
                lemma_digit((b / 16) as nat);
                lemma_digit((b % 16) as nat);
            }
        }
    }
}

/// A digit has the value that it is for.
proof fn lemma_digit(d: nat)
    requires
        d < 16,
    ensures
        digit_value(digit(d)) == d,
{
}

/// A list prints as its items in brackets, with a comma and a space between
/// them and nothing else.
pub proof fn law_lists_print_their_items(items: Seq<Seq<char>>, item: Seq<char>)
    ensures
        listed(items).len() == joined(items).len() + 2,
        listed(items)[0] == '[',
        listed(items).last() == ']',
        listed(items).subrange(1, listed(items).len() - 1) == joined(items),
        items.len() == 0 ==> joined(items).len() == 0 && joined(items.push(item)) == item,
        items.len() > 0 ==> joined(items.push(item)) == joined(items) + seq![',', ' '] + item,
{
    reveal_strlit("[");
    reveal_strlit("]");
    reveal_strlit(", ");
    assert(listed(items).subrange(1, listed(items).len() - 1) =~= joined(items));
    assert(items.push(item).drop_last() =~= items);
    assert(", "@ =~= seq![',', ' ']);
}

/// A truth value prints as its name.
pub proof fn law_truth_values_print_their_name(b: bool)
    ensures
        b ==> truth(b) == "true"@,
        !b ==> truth(b) == "false"@,
{
}

} // verus!
