use vstd::prelude::*;

#[allow(unused_imports)]
use vstd::string::StringExecFns;

verus! {

/// The character of the decimal digit `d`.
pub open spec fn digit_char(d: int) -> char {
    (d + 48) as char
}

/// The decimal digits of `n`, most significant first, without leading zeros.
pub open spec fn digits(n: nat) -> Seq<char>
    decreases n,
{
    if n < 10 {
        seq![digit_char(n as int)]
    } else {
        digits(n / 10) + seq![digit_char((n % 10) as int)]
    }
}

/// `n` written in decimal, with a leading '-' when it is negative.
pub open spec fn decimal(n: int) -> Seq<char> {
    if n < 0 {
        seq!['-'] + digits((-n) as nat)
    } else {
        digits(n as nat)
    }
}

/// The text of the decimal digit `d`.
fn digit_str(d: u32) -> (text: &'static str)
    requires
        d < 10,
    ensures
        text@ == seq![digit_char(d as int)],
{
    proof {
        reveal_strlit("0");
        reveal_strlit("1");
        reveal_strlit("2");
        reveal_strlit("3");
        reveal_strlit("4");
        reveal_strlit("5");
        reveal_strlit("6");
        reveal_strlit("7");
        reveal_strlit("8");
        reveal_strlit("9");
    }
    if d == 0 {
        "0"
    } else if d == 1 {
        "1"
    } else if d == 2 {
        "2"
    } else if d == 3 {
        "3"
    } else if d == 4 {
        "4"
    } else if d == 5 {
        "5"
    } else if d == 6 {
        "6"
    } else if d == 7 {
        "7"
    } else if d == 8 {
        "8"
    } else {
        "9"
    }
}

/// The decimal digits of `m`, most significant first.
fn digits_string(m: u32) -> (text: String)
    ensures
        text@ == digits(m as nat),
    decreases m,
{
    if m < 10 {
        String::from_str(digit_str(m))
    } else {
        let high = digits_string(m / 10);
        let low = digit_str(m % 10);
        high.concat(low)
    }
}

/// `n` in decimal: a '-' for negative numbers, then the digits without
/// leading zeros.
fn decimal_string(n: i32) -> (text: String)
    ensures
        text@ == decimal(n as int),
{
    if n < 0 {
        let magnitude = (-(n as i64)) as u32;
        let number = digits_string(magnitude);
        proof {
            reveal_strlit("-");
        }
        String::from_str("-").concat(number.as_str())
    } else {
        digits_string(n as u32)
    }
}

/// The name of the sword numbered `i`.
pub open spec fn sword_name(i: int) -> Seq<char> {
    "sword"@ + decimal(i)
}

/// The name of the ground tile at (x, y).
pub open spec fn plane_name(x: int, y: int) -> Seq<char> {
    "plane"@ + decimal(x) + decimal(y)
}

/// "sword" followed by `i` in decimal.
pub fn make_sword_name(i: i32) -> (name: String)
    ensures
        name@ == sword_name(i as int),
{
    let number = decimal_string(i);
    String::from_str("sword").concat(number.as_str())
}

/// "plane" followed by `x` and `y` in decimal.
pub fn make_plane_name(x: i8, y: i8) -> (name: String)
    ensures
        name@ == plane_name(x as int, y as int),
{
    let x_text = decimal_string(x as i32);
    let y_text = decimal_string(y as i32);
    String::from_str("plane").concat(x_text.as_str()).concat(y_text.as_str())
}

/// The value of a decimal digit character.
spec fn digit_value(c: char) -> int {
    (c as int) - 48
}

/// A number of at most two digits, read back from its decimal digits.
spec fn read_small_number(u: Seq<char>) -> int {
    if u.len() == 1 {
        digit_value(u[0])
    } else {
        10 * digit_value(u[0]) + digit_value(u[1])
    }
}

/// The first of two numbers from -10 to 9 written one after the other,
/// read back, with the count of characters it takes.
spec fn read_first_tile_number(t: Seq<char>) -> (int, int) {
    if t[0] == '-' {
        if t.len() >= 4 && t[1] == '1' && t[2] == '0' {
            (-10, 3)
        } else {
            (-digit_value(t[1]), 2)
        }
    } else {
        (digit_value(t[0]), 1)
    }
}

/// The last number from -10 to 9 of a text, read back.
spec fn read_last_tile_number(t: Seq<char>) -> int {
    if t[0] == '-' {
        if t.len() == 3 {
            -10
        } else {
            -digit_value(t[1])
        }
    } else {
        digit_value(t[0])
    }
}

/// Two numbers from -10 to 9 written one after the other, read back.
spec fn read_tile_numbers(t: Seq<char>) -> (int, int) {
    let first = read_first_tile_number(t);
    (first.0, read_last_tile_number(t.subrange(first.1, t.len() as int)))
}

proof fn lemma_digit_value(d: int)
    requires
        0 <= d < 10,
    ensures
        digit_value(digit_char(d)) == d,
        digit_char(d) != '-',
{
}

proof fn lemma_small_decimal(x: int)
    requires
        -10 <= x < 100,
    ensures
        0 <= x < 10 ==> decimal(x) == seq![digit_char(x)],
        10 <= x ==> decimal(x) == seq![digit_char(x / 10), digit_char(x % 10)],
        -10 < x < 0 ==> decimal(x) == seq!['-', digit_char(-x)],
        x == -10 ==> decimal(x) == seq!['-', digit_char(1), digit_char(0)],
{
    reveal_with_fuel(digits, 2);
    if x >= 10 {
        assert(digits(x as nat) =~= seq![digit_char(x / 10), digit_char(x % 10)]);
    } else if x == -10 {
        assert(digits(10) =~= seq![digit_char(1), digit_char(0)]);
        assert(decimal(x) =~= seq!['-', digit_char(1), digit_char(0)]);
    } else if x < 0 {
        assert(decimal(x) =~= seq!['-', digit_char(-x)]);
    }
}

proof fn lemma_read_small_number(i: int)
    requires
        0 <= i < 100,
    ensures
        read_small_number(decimal(i)) == i,
{
    lemma_small_decimal(i);
    if i < 10 {
        lemma_digit_value(i);
    } else {
        lemma_digit_value(i / 10);
        lemma_digit_value(i % 10);
    }
}

proof fn lemma_read_tile_numbers(x: int, y: int)
    requires
        -10 <= x < 10,
        -10 <= y < 10,
    ensures
        read_tile_numbers(decimal(x) + decimal(y)) == (x, y),
{
    lemma_small_decimal(x);
    lemma_small_decimal(y);
    let a = decimal(x);
    let b = decimal(y);
    let t = a + b;
    lemma_digit_value(1);
    lemma_digit_value(0);
    if x >= 0 {
        lemma_digit_value(x);
    } else if x > -10 {
        lemma_digit_value(-x);
    }
    if y >= 0 {
        lemma_digit_value(y);
    } else if y > -10 {
        lemma_digit_value(-y);
    }
    let first = read_first_tile_number(t);
    assert(t[0] == a[0]);
    if x >= 0 {
        assert(first == (x, 1int));
    } else if x > -10 {
        assert(t[1] == a[1]);
        if -x == 1 && t.len() >= 4 {
            assert(t[2] == b[0]);
            assert(b[0] != '0');
        }
        assert(first == (x, 2int));
    } else {
        assert(t[1] == a[1] && t[2] == a[2]);
        assert(first == (x, 3int));
    }
    assert(t.subrange(first.1, t.len() as int) =~= b);
}

/// Distinct swords have distinct names.
pub proof fn lemma_sword_names_distinct(i: int, j: int)
    requires
        0 <= i < 100,
        0 <= j < 100,
        i != j,
    ensures
        sword_name(i) != sword_name(j),
{
    let p = "sword"@;
    if sword_name(i) == sword_name(j) {
        assert(sword_name(i).subrange(p.len() as int, sword_name(i).len() as int) =~= decimal(i));
        assert(sword_name(j).subrange(p.len() as int, sword_name(j).len() as int) =~= decimal(j));
        lemma_read_small_number(i);
        lemma_read_small_number(j);
    }
}

/// Distinct ground tiles have distinct names.
pub proof fn lemma_plane_names_distinct(x1: int, y1: int, x2: int, y2: int)
    requires
        -10 <= x1 < 10,
        -10 <= y1 < 10,
        -10 <= x2 < 10,
        -10 <= y2 < 10,
        x1 != x2 || y1 != y2,
    ensures
        plane_name(x1, y1) != plane_name(x2, y2),
{
    let p = "plane"@;
    let n1 = plane_name(x1, y1);
    let n2 = plane_name(x2, y2);
    if n1 == n2 {
        assert(n1.subrange(p.len() as int, n1.len() as int) =~= decimal(x1) + decimal(y1));
        assert(n2.subrange(p.len() as int, n2.len() as int) =~= decimal(x2) + decimal(y2));
        lemma_read_tile_numbers(x1, y1);
        lemma_read_tile_numbers(x2, y2);
    }
}

/// Sword names begin with "sw".
pub proof fn lemma_sword_name_prefix(i: int)
    ensures
        sword_name(i).len() >= 5,
        sword_name(i)[0] == 's',
        sword_name(i)[1] == 'w',
{
    reveal_strlit("sword");
}

/// Tile names begin with "plan".
pub proof fn lemma_plane_name_prefix(x: int, y: int)
    ensures
        plane_name(x, y).len() >= 5,
        plane_name(x, y)[0] == 'p',
        plane_name(x, y)[3] == 'n',
{
    reveal_strlit("plane");
}

} // verus!
