//! Textual rendering of integers and integer lists, as used inside the
//! delimited identifiers that the broker embeds in message metadata.

use vstd::prelude::*;
use vstd::string::*;

verus! {

/// The character that stands for a single decimal digit.
pub open spec fn digit_char(d: int) -> char
    recommends
        0 <= d < 10,
{
    if d == 0 {
        '0'
    } else if d == 1 {
        '1'
    } else if d == 2 {
        '2'
    } else if d == 3 {
        '3'
    } else if d == 4 {
        '4'
    } else if d == 5 {
        '5'
    } else if d == 6 {
        '6'
    } else if d == 7 {
        '7'
    } else if d == 8 {
        '8'
    } else {
        '9'
    }
}

/// The decimal digits of a natural number, most significant first, without
/// leading zeros (zero itself is the single digit `0`).
pub open spec fn decimal_digits(n: nat) -> Seq<char>
    decreases n,
{
    if n < 10 {
        seq![digit_char(n as int)]
    } else {
        decimal_digits(n / 10).push(digit_char((n % 10) as int))
    }
}

/// The decimal rendering of an integer: a minus sign for negative values,
/// then the digits of its magnitude.
pub open spec fn decimal(i: int) -> Seq<char> {
    if i < 0 {
        seq!['-'] + decimal_digits((-i) as nat)
    } else {
        decimal_digits(i as nat)
    }
}

/// The items of a list, each in decimal, separated by a comma and a space.
pub open spec fn list_items(items: Seq<i64>) -> Seq<char>
    decreases items.len(),
{
    if items.len() == 0 {
        Seq::empty()
    } else if items.len() == 1 {
        decimal(items[0] as int)
    } else {
        list_items(items.drop_last()) + seq![',', ' '] + decimal(items.last() as int)
    }
}

/// The bracketed rendering of a list of integers, such as `[1, 2, 3]`; the
/// empty list renders as `[]`.
pub open spec fn bracketed_list(items: Seq<i64>) -> Seq<char> {
    seq!['['] + list_items(items) + seq![']']
}

/// Whether `c` does not occur in `text`.
pub open spec fn free_of(text: Seq<char>, c: char) -> bool {
    forall|i: int| 0 <= i < text.len() ==> text[i] != c
}

/// Whether `c` is one of the ten decimal digits.
pub open spec fn is_digit(c: char) -> bool {
    c == '0' || c == '1' || c == '2' || c == '3' || c == '4' || c == '5' || c == '6' || c == '7'
        || c == '8' || c == '9'
}

/// The number that a digit stands for.
pub open spec fn digit_value(c: char) -> nat {
    if c == '1' {
        1
    } else if c == '2' {
        2
    } else if c == '3' {
        3
    } else if c == '4' {
        4
    } else if c == '5' {
        5
    } else if c == '6' {
        6
    } else if c == '7' {
        7
    } else if c == '8' {
        8
    } else if c == '9' {
        9
    } else {
        0
    }
}

/// The number that a sequence of digits stands for, read in base ten.
pub open spec fn digits_value(digits: Seq<char>) -> nat
    decreases digits.len(),
{
    if digits.len() == 0 {
        0
    } else {
        digits_value(digits.drop_last()) * 10 + digit_value(digits.last())
    }
}

/// The integer that a decimal rendering stands for.
pub open spec fn decimal_value(text: Seq<char>) -> int {
    if text.len() > 0 && text[0] == '-' {
        -(digits_value(text.skip(1)) as int)
    } else {
        digits_value(text) as int
    }
}

/// The digits of a number are at least one, all of them decimal digits, and
/// they stand for that number.
pub proof fn lemma_decimal_digits(n: nat)
    ensures
        decimal_digits(n).len() >= 1,
        forall|i: int|
            0 <= i < decimal_digits(n).len() ==> is_digit(#[trigger] decimal_digits(n)[i]),
        digits_value(decimal_digits(n)) == n,
    decreases n,
{
    if n < 10 {
        let digits = decimal_digits(n);
        assert(digits.drop_last() =~= Seq::<char>::empty());
        assert(digits_value(digits.drop_last()) == 0);
        assert(digits.last() == digit_char(n as int));
    } else {
        lemma_decimal_digits(n / 10);
        let front = decimal_digits(n / 10);
        let digits = decimal_digits(n);
        assert(digits.drop_last() =~= front);
        assert(digits.last() == digit_char((n % 10) as int));
        assert forall|i: int| 0 <= i < digits.len() implies is_digit(#[trigger] digits[i]) by {
            if i < front.len() {
                assert(digits[i] == front[i]);
            }
        }
    }
}

/// Reading a decimal rendering gives back the integer that was rendered.
pub proof fn lemma_decimal_value(i: int)
    ensures
        decimal_value(decimal(i)) == i,
{
    if i < 0 {
        let digits = decimal_digits((-i) as nat);
        lemma_decimal_digits((-i) as nat);
        assert(decimal(i).skip(1) =~= digits);
    } else {
        lemma_decimal_digits(i as nat);
        assert(is_digit(decimal_digits(i as nat)[0]));
    }
}

/// Different integers have different decimal renderings.
pub proof fn lemma_decimal_injective(i: int, j: int)
    requires
        decimal(i) == decimal(j),
    ensures
        i == j,
{
    lemma_decimal_value(i);
    lemma_decimal_value(j);
}

/// A decimal rendering is not empty and consists of digits and the minus
/// sign alone.
pub proof fn lemma_decimal_chars(i: int)
    ensures
        decimal(i).len() >= 1,
        forall|k: int|
            0 <= k < decimal(i).len() ==> is_digit(#[trigger] decimal(i)[k]) || decimal(i)[k]
                == '-',
{
    if i < 0 {
        lemma_decimal_digits((-i) as nat);
        let digits = decimal_digits((-i) as nat);
        assert forall|k: int| 0 <= k < decimal(i).len() implies is_digit(#[trigger] decimal(i)[k])
            || decimal(i)[k] == '-' by {
            if k > 0 {
                assert(decimal(i)[k] == digits[k - 1]);
            }
        }
    } else {
        lemma_decimal_digits(i as nat);
    }
}

/// A character that is neither a digit nor the minus sign does not occur in
/// a decimal rendering.
pub proof fn lemma_decimal_free_of(i: int, c: char)
    requires
        !is_digit(c),
        c != '-',
    ensures
        free_of(decimal(i), c),
{
    lemma_decimal_chars(i);
}

/// A text that ends in `c` and a part without `c` is split in one way only:
/// the part after its last `c` and the part before it are determined.
pub proof fn lemma_split_at_last(
    x1: Seq<char>,
    y1: Seq<char>,
    x2: Seq<char>,
    y2: Seq<char>,
    c: char,
)
    requires
        free_of(y1, c),
        free_of(y2, c),
        x1.push(c) + y1 == x2.push(c) + y2,
    ensures
        x1 == x2,
        y1 == y2,
{
    let t1 = x1.push(c) + y1;
    let t2 = x2.push(c) + y2;
    assert(t1.len() == x1.len() + 1 + y1.len());
    assert(t2.len() == x2.len() + 1 + y2.len());
    assert(x1.len() == x2.len()) by {
        if x1.len() < x2.len() {
            assert(t2[x2.len() as int] == c);
            assert(t1[x2.len() as int] == y1[x2.len() - x1.len() - 1]);
        }
        if x2.len() < x1.len() {
            assert(t1[x1.len() as int] == c);
            assert(t2[x1.len() as int] == y2[x1.len() - x2.len() - 1]);
        }
    }
    assert forall|k: int| 0 <= k < x1.len() implies x1[k] == x2[k] by {
        assert(t1[k] == x1[k]);
        assert(t2[k] == x2[k]);
    }
    assert(x1 =~= x2);
    assert forall|k: int| 0 <= k < y1.len() implies y1[k] == y2[k] by {
        assert(t1[x1.len() + 1 + k] == y1[k]);
        assert(t2[x2.len() + 1 + k] == y2[k]);
    }
    assert(y1 =~= y2);
}

/// Two texts that each end in `@` and a field without `@` are equal only
/// if the fields are equal and what stands before them is equal.
pub proof fn lemma_last_field(x1: Seq<char>, y1: Seq<char>, x2: Seq<char>, y2: Seq<char>)
    requires
        free_of(y1, '@'),
        free_of(y2, '@'),
        x1 + "@"@ + y1 == x2 + "@"@ + y2,
    ensures
        x1 == x2,
        y1 == y2,
{
    reveal_strlit("@");
    assert(x1 + "@"@ =~= x1.push('@'));
    assert(x2 + "@"@ =~= x2.push('@'));
    lemma_split_at_last(x1, y1, x2, y2, '@');
}

/// The items of a list are rendered without any character other than
/// digits, the minus sign, the comma and the space; a list of one item
/// without a comma, a longer one with at least one; and only the empty list
/// as the empty text.
pub proof fn lemma_list_items_chars(items: Seq<i64>)
    ensures
        forall|k: int|
            0 <= k < list_items(items).len() ==> {
                let c = #[trigger] list_items(items)[k];
                is_digit(c) || c == '-' || c == ',' || c == ' '
            },
        items.len() == 0 <==> list_items(items).len() == 0,
        items.len() == 1 ==> free_of(list_items(items), ','),
        items.len() >= 2 ==> !free_of(list_items(items), ','),
    decreases items.len(),
{
    if items.len() == 0 {
    } else if items.len() == 1 {
        lemma_decimal_chars(items[0] as int);
    } else {
        let front = list_items(items.drop_last());
        let last = decimal(items.last() as int);
        let text = list_items(items);
        lemma_list_items_chars(items.drop_last());
        lemma_decimal_chars(items.last() as int);
        assert(text.len() == front.len() + 2 + last.len());
        assert forall|k: int| 0 <= k < text.len() implies {
            let c = #[trigger] text[k];
            is_digit(c) || c == '-' || c == ',' || c == ' '
        } by {
            if k < front.len() {
                assert(text[k] == front[k]);
            } else if k == front.len() {
                assert(text[k] == ',');
            } else if k == front.len() + 1 {
                assert(text[k] == ' ');
            } else {
                assert(text[k] == last[k - front.len() - 2]);
            }
        }
        assert(text[front.len() as int] == ',');
    }
}

/// Different lists have different renderings of their items.
pub proof fn lemma_list_items_injective(a: Seq<i64>, b: Seq<i64>)
    requires
        list_items(a) == list_items(b),
    ensures
        a == b,
    decreases a.len(),
{
    lemma_list_items_chars(a);
    lemma_list_items_chars(b);
    if a.len() == 0 {
        assert(a =~= b);
    } else if a.len() == 1 {
        assert(b.len() == 1);
        lemma_decimal_injective(a[0] as int, b[0] as int);
        assert(a =~= b);
    } else {
        assert(b.len() >= 2);
        let front_a = list_items(a.drop_last());
        let front_b = list_items(b.drop_last());
        let last_a = seq![' '] + decimal(a.last() as int);
        let last_b = seq![' '] + decimal(b.last() as int);
        lemma_decimal_free_of(a.last() as int, ',');
        lemma_decimal_free_of(b.last() as int, ',');
        assert(list_items(a) =~= front_a.push(',') + last_a);
        assert(list_items(b) =~= front_b.push(',') + last_b);
        lemma_split_at_last(front_a, last_a, front_b, last_b, ',');
        lemma_list_items_injective(a.drop_last(), b.drop_last());
        assert(decimal(a.last() as int) =~= last_a.skip(1));
        assert(decimal(b.last() as int) =~= last_b.skip(1));
        lemma_decimal_injective(a.last() as int, b.last() as int);
        assert(a =~= a.drop_last().push(a.last()));
        assert(b =~= b.drop_last().push(b.last()));
    }
}

/// Different lists have different bracketed renderings.
pub proof fn lemma_bracketed_list_injective(a: Seq<i64>, b: Seq<i64>)
    requires
        bracketed_list(a) == bracketed_list(b),
    ensures
        a == b,
{
    let items_a = list_items(a);
    let items_b = list_items(b);
    assert(bracketed_list(a).len() == items_a.len() + 2);
    assert(bracketed_list(b).len() == items_b.len() + 2);
    assert forall|k: int| 0 <= k < items_a.len() implies items_a[k] == items_b[k] by {
        assert(bracketed_list(a)[k + 1] == items_a[k]);
        assert(bracketed_list(b)[k + 1] == items_b[k]);
    }
    assert(items_a =~= items_b);
    lemma_list_items_injective(a, b);
}

/// A character that is neither a digit nor one of `-`, `,`, space, `[` and
/// `]` does not occur in the bracketed rendering of a list.
pub proof fn lemma_bracketed_list_free_of(items: Seq<i64>, c: char)
    requires
        !is_digit(c),
        c != '-',
        c != ',',
        c != ' ',
        c != '[',
        c != ']',
    ensures
        free_of(bracketed_list(items), c),
{
    lemma_list_items_chars(items);
    let inner = list_items(items);
    let text = bracketed_list(items);
    assert forall|k: int| 0 <= k < text.len() implies text[k] != c by {
        if k == 0 {
        } else if k <= inner.len() {
            assert(text[k] == inner[k - 1]);
        } else {
        }
    }
}

/// The one-character string of a decimal digit.
fn digit_str(d: u8) -> (s: &'static str)
    requires
        d < 10,
    ensures
        s@ == seq![digit_char(d as int)],
{
    proof {
        reveal_strlit("0");
        reveal_strlit("1");
        reveal_strlit("2");
        reveal_strlit("3");
        reveal_strlit("4");
        reveal_strlit("5");
        reveal_strlit("6");
        reveal_strlit("7");
        reveal_strlit("8");
        reveal_strlit("9");
    }
    let s = if d == 0 {
        "0"
    } else if d == 1 {
        "1"
    } else if d == 2 {
        "2"
    } else if d == 3 {
        "3"
    } else if d == 4 {
        "4"
    } else if d == 5 {
        "5"
    } else if d == 6 {
        "6"
    } else if d == 7 {
        "7"
    } else if d == 8 {
        "8"
    } else {
        "9"
    };
    assert(s@ =~= seq![digit_char(d as int)]);
    s
}

/// Appends the decimal digits of `n` to `out`.
pub fn append_decimal_digits(out: &mut String, n: u64)
    ensures
        final(out)@ == old(out)@ + decimal_digits(n as nat),
    decreases n,
{
    if n >= 10 {
        append_decimal_digits(out, n / 10);
    }
    let d: u8 = (n % 10) as u8;
    out.append(digit_str(d));
    assert(out@ =~= old(out)@ + decimal_digits(n as nat));
}

/// Appends the decimal rendering of `value` to `out`.
pub fn append_decimal(out: &mut String, value: i64)
    ensures
        final(out)@ == old(out)@ + decimal(value as int),
{
    if value < 0 {
        proof {
            reveal_strlit("-");
        }
        out.append("-");
        let magnitude: u64 = if value == i64::MIN {
            9223372036854775808u64
        } else {
            (-value) as u64
        };
        append_decimal_digits(out, magnitude);
        assert(out@ =~= old(out)@ + decimal(value as int));
    } else {
        append_decimal_digits(out, value as u64);
    }
}

/// Appends the bracketed rendering of `items` to `out`.
pub fn append_bracketed_list(out: &mut String, items: &Vec<i64>)
    ensures
        final(out)@ == old(out)@ + bracketed_list(items@),
{
    proof {
        reveal_strlit("[");
        reveal_strlit("]");
    }
    out.append("[");
    let ghost base = out@;
    let mut i: usize = 0;
    while i < items.len()
        invariant
            i <= items.len(),
            base == old(out)@ + seq!['['],
            out@ == base + list_items(items@.subrange(0, i as int)),
        decreases items.len() - i,
    {
        if i > 0 {
            out.append(", ");
        }
        append_decimal(out, items[i]);
        proof {
            let before = items@.subrange(0, i as int);
            let after = items@.subrange(0, i + 1);
            assert(after.drop_last() =~= before);
            assert(after.last() == items@[i as int]);
            if i == 0 {
                assert(list_items(before) =~= Seq::<char>::empty());
                assert(after[0] == items@[0]);
            }
            reveal_strlit(", ");
            assert(", "@ =~= seq![',', ' ']);
            assert(out@ =~= base + list_items(after));
        }
        i += 1;
    }
    assert(items@.subrange(0, i as int) =~= items@);
    out.append("]");
    assert(out@ =~= old(out)@ + bracketed_list(items@));
}

} // verus!
