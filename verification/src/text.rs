//! Text building blocks: ordering, decimal rendering and quoting.

use vstd::prelude::*;
use vstd::string::*;

verus! {

/// The characters of an optional string.
pub open spec fn text_view(value: Option<String>) -> Option<Seq<char>> {
    match value {
        Some(text) => Some(text@),
        None => None,
    }
}

/// The characters of every string in a list.
pub open spec fn texts(values: Seq<String>) -> Seq<Seq<char>> {
    values.map_values(|value: String| value@)
}

/// The set of character sequences that occur in a list of strings.
pub open spec fn text_set(values: Seq<String>) -> Set<Seq<char>> {
    texts(values).to_set()
}

/// Strict lexicographic order by code point.
pub open spec fn precedes(left: Seq<char>, right: Seq<char>) -> bool
    decreases left.len(),
{
    if right.len() == 0 {
        false
    } else if left.len() == 0 {
        true
    } else if left[0] != right[0] {
        left[0] < right[0]
    } else {
        precedes(left.drop_first(), right.drop_first())
    }
}

/// No text precedes one that precedes it.
pub(crate) proof fn lemma_precedes_asymmetric(left: Seq<char>, right: Seq<char>)
    requires
        precedes(left, right),
    ensures
        !precedes(right, left),
    decreases left.len(),
{
    if left.len() > 0 && left[0] == right[0] {
        lemma_precedes_asymmetric(left.drop_first(), right.drop_first());
    }
}

/// A text that precedes another one also precedes what is not before that one.
pub(crate) proof fn lemma_precedes_transitive(
    first: Seq<char>,
    second: Seq<char>,
    third: Seq<char>,
)
    requires
        precedes(first, second),
        !precedes(third, second),
    ensures
        precedes(first, third),
    decreases first.len(),
{
    if first.len() > 0 && third.len() > 0 && first[0] == second[0] && second[0] == third[0] {
        lemma_precedes_transitive(first.drop_first(), second.drop_first(), third.drop_first());
    }
}

/// Of two different texts one precedes the other.
pub(crate) proof fn lemma_precedes_total(left: Seq<char>, right: Seq<char>)
    requires
        !precedes(left, right),
        !precedes(right, left),
    ensures
        left == right,
    decreases left.len(),
{
    if left.len() > 0 && right.len() > 0 && left[0] == right[0] {
        lemma_precedes_total(left.drop_first(), right.drop_first());
        assert(left =~= seq![left[0]] + left.drop_first());
        assert(right =~= seq![right[0]] + right.drop_first());
    } else {
        assert(left =~= right);
    }
}

/// Where two texts first differ, or one of them ends, decides which one precedes the other.
proof fn lemma_precedes_at(left: Seq<char>, right: Seq<char>, place: int)
    requires
        0 <= place <= left.len(),
        place <= right.len(),
        forall|i: int| 0 <= i < place ==> left[i] == #[trigger] right[i],
        place < left.len() && place < right.len() ==> left[place] != right[place],
    ensures
        precedes(left, right) == (place < right.len() && (place == left.len() || left[place]
            < right[place])),
    decreases place,
{
    if place > 0 {
        assert(left[0] == right[0]);
        let left_rest = left.drop_first();
        let right_rest = right.drop_first();
        assert forall|i: int| 0 <= i < place - 1 implies left_rest[i] == #[trigger] right_rest[i] by {
            assert(left[i + 1] == right[i + 1]);
        }
        lemma_precedes_at(left_rest, right_rest, place - 1);
    }
}

/// Whether a text comes before another one in lexicographic order by code point.
pub(crate) fn text_precedes(left: &str, right: &str) -> (earlier: bool)
    ensures
        earlier == precedes(left@, right@),
{
    let left_length: usize = left.unicode_len();
    let right_length: usize = right.unicode_len();
    let mut place: usize = 0;
    while place < left_length && place < right_length
        invariant
            left_length == left@.len(),
            right_length == right@.len(),
            place <= left_length,
            place <= right_length,
            forall|i: int| 0 <= i < place ==> left@[i] == #[trigger] right@[i],
        decreases left_length - place,
    {
        let one = left.get_char(place);
        let other = right.get_char(place);
        if one != other {
            proof {
                lemma_precedes_at(left@, right@, place as int);
            }
            return one < other;
        }
        place = place + 1;
    }
    proof {
        lemma_precedes_at(left@, right@, place as int);
    }
    place < right_length
}

/// Whether two texts have the same characters.
pub(crate) fn same_text(left: &str, right: &str) -> (same: bool)
    ensures
        same == (left@ == right@),
{
    broadcast use vstd::utf8::encode_utf8_decode_utf8;

    let left_bytes = left.as_bytes();
    let right_bytes = right.as_bytes();
    proof {
        assert(left@ == vstd::utf8::decode_utf8(left_bytes@));
        assert(right@ == vstd::utf8::decode_utf8(right_bytes@));
    }
    if left_bytes.len() != right_bytes.len() {
        return false;
    }
    for index in 0..left_bytes.len()
        invariant
            left_bytes@ == left.spec_bytes(),
            right_bytes@ == right.spec_bytes(),
            left_bytes@.len() == right_bytes@.len(),
            forall|i: int| 0 <= i < index ==> left_bytes@[i] == #[trigger] right_bytes@[i],
    {
        if left_bytes[index] != right_bytes[index] {
            return false;
        }
    }
    proof {
        assert(left_bytes@ =~= right_bytes@);
    }
    true
}

/// The decimal digit for a value below ten.
pub open spec fn digit(value: nat) -> char {
    (('0' as u32) + value) as char
}

/// The decimal digits of a number, most significant first, without leading zeros.
pub open spec fn decimal(value: nat) -> Seq<char>
    decreases value,
{
    if value < 10 {
        seq![digit(value)]
    } else {
        decimal(value / 10).push(digit(value % 10))
    }
}

/// The decimal digits of a signed number, with a leading minus sign when it is negative.
pub open spec fn signed_decimal(value: int) -> Seq<char> {
    if value < 0 {
        "-"@ + decimal((-value) as nat)
    } else {
        decimal(value as nat)
    }
}

/// The text of a value below ten.
fn digit_text(value: u64) -> (text: &'static str)
    requires
        value < 10,
    ensures
        text@ == seq![digit(value as nat)],
{
    proof {
        reveal_strlit("0");
        reveal_strlit("1");
        reveal_strlit("2");
        reveal_strlit("3");
        reveal_strlit("4");
        reveal_strlit("5");
        reveal_strlit("6");
        reveal_strlit("7");
        reveal_strlit("8");
        reveal_strlit("9");
    }
    match value {
        0 => "0",
        1 => "1",
        2 => "2",
        3 => "3",
        4 => "4",
        5 => "5",
        6 => "6",
        7 => "7",
        8 => "8",
        _ => "9",
    }
}

/// Renders a number in decimal.
pub(crate) fn decimal_text(value: u64) -> (text: String)
    ensures
        text@ == decimal(value as nat),
    decreases value,
{
    if value < 10 {
        digit_text(value).to_owned()
    } else {
        let mut text = decimal_text(value / 10);
        text.append(digit_text(value % 10));
        text
    }
}

/// Renders a signed number in decimal.
pub(crate) fn signed_decimal_text(value: i32) -> (text: String)
    ensures
        text@ == signed_decimal(value as int),
{
    if value < 0 {
        let magnitude: u64 = (-(value as i64)) as u64;
        let mut text = "-".to_owned();
        text.append(decimal_text(magnitude).as_str());
        text
    } else {
        decimal_text(value as u64)
    }
}

/// What the `{:?}` format of a string renders: the text in double quotes, with escapes.
pub uninterp spec fn quoted_text(text: Seq<char>) -> Seq<char>;

/// Renders a string with `str`'s `Debug` format, named by [`quoted_text`].
#[verifier::external_body]
pub(crate) fn quoted(text: &str) -> (rendered: String)
    ensures
        rendered@ == quoted_text(text@),
{
    format!("{:?}", text)
}

/// Whether a text has no characters.
pub(crate) fn is_empty(text: &str) -> (empty: bool)
    ensures
        empty == (text@.len() == 0),
{
    text.unicode_len() == 0
}

/// Concatenates two pieces of text.
pub(crate) fn join2(first: &str, second: &str) -> (text: String)
    ensures
        text@ == first@ + second@,
{
    let mut text = first.to_owned();
    text.append(second);
    text
}

/// Concatenates three pieces of text.
pub(crate) fn join3(first: &str, second: &str, third: &str) -> (text: String)
    ensures
        text@ == first@ + second@ + third@,
{
    let mut text = first.to_owned();
    text.append(second);
    text.append(third);
    text
}

} // verus!
