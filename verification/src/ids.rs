//! UUIDs as numbers, and their texts.

use vstd::arithmetic::div_mod::{
    lemma_basic_div, lemma_div_basics, lemma_div_denominator, lemma_fundamental_div_mod,
    lemma_mod_bound,
};
use vstd::arithmetic::power::{lemma_pow0, lemma_pow1, lemma_pow_adds, lemma_pow_positive, pow};
use vstd::prelude::*;
use vstd::string::*;

verus! {

/// The lower-case hexadecimal digit of a number below sixteen.
pub open spec fn hex_char(n: int) -> char {
    if n < 10 {
        (48 + n) as char
    } else {
        (87 + n) as char
    }
}

/// The hexadecimal digit at a place of a UUID, counted from the left.
pub open spec fn hex_digit(id: u128, place: int) -> int {
    (id as int / pow(16, (31 - place) as nat)) % 16
}

/// The hexadecimal digits of a UUID from one place to another.
pub open spec fn hex_digits(id: u128, from: int, to: int) -> Seq<char> {
    Seq::new((to - from) as nat, |i: int| hex_char(hex_digit(id, from + i)))
}

/// The text of a UUID: its thirty-two lower-case digits in groups of eight,
/// four, four, four and twelve, with hyphens between.
pub open spec fn hyphenated(id: u128) -> Seq<char> {
    hex_digits(id, 0, 8) + seq!['-'] + hex_digits(id, 8, 12) + seq!['-'] + hex_digits(id, 12, 16)
        + seq!['-'] + hex_digits(id, 16, 20) + seq!['-'] + hex_digits(id, 20, 32)
}

/// `uuid::Uuid::to_string`: the hyphenated lower-case text.
#[verifier::external_body]
pub(crate) fn uuid_text(id: u128) -> (r: String)
    ensures
        r@ == hyphenated(id),
{
    uuid::Uuid::from_u128(id).to_string()
}

/// Why a text is not a UUID: what the error says, and what it prints for
/// debugging.
#[derive(Debug)]
pub struct UuidError {
    pub message: String,
    pub debug: String,
}

/// The UUID that a text stands for, or the two texts of the error.
pub uninterp spec fn parsed_uuid(text: Seq<char>) -> Result<u128, (Seq<char>, Seq<char>)>;

/// The result of reading a UUID, with its texts as sequences.
pub open spec fn uuid_result(r: Result<u128, UuidError>) -> Result<
    u128,
    (Seq<char>, Seq<char>),
> {
    match r {
        Ok(id) => Ok(id),
        Err(error) => Err((error.message@, error.debug@)),
    }
}

/// `uuid::Uuid::parse_str`: reads back the hyphenated text of every UUID.
/// Which other texts it takes, and what it says of the rest, is left to
/// `uuid` and only named.
#[verifier::external_body]
pub(crate) fn parse_uuid(text: &str) -> (r: Result<u128, UuidError>)
    ensures
        uuid_result(r) == parsed_uuid(text@),
        forall|id: u128| text@ == #[trigger] hyphenated(id) ==> (r is Ok && r->Ok_0 == id),
{
    match uuid::Uuid::parse_str(text) {
        Ok(id) => Ok(id.as_u128()),
        Err(error) => Err(UuidError { message: error.to_string(), debug: format!("{:?}", error) }),
    }
}

/// Whether a UUID is marked as a random one.
pub open spec fn is_random_uuid(id: u128) -> bool {
    hex_digit(id, 12) == 4 && 8 <= hex_digit(id, 16) < 12
}

/// `uuid::Uuid::new_v4`: some UUID that is marked as random. That it has not
/// been drawn before is left to chance.
#[verifier::external_body]
pub(crate) fn random_uuid() -> (r: u128)
    ensures
        is_random_uuid(r),
{
    uuid::Uuid::new_v4().as_u128()
}

/// The hexadecimal digits of a UUID up to a place give the number that they
/// stand for.
proof fn lemma_leading_digits(a: u128, b: u128, k: nat)
    requires
        k <= 32,
        forall|place: int| 0 <= place < 32 ==> hex_digit(a, place) == hex_digit(b, place),
    ensures
        a as int / pow(16, k) == b as int / pow(16, k),
    decreases 32 - k,
{
    lemma_pow_positive(16, k);
    if k == 32 {
        assert(pow(16, 32) == 0x1_0000_0000_0000_0000_0000_0000_0000_0000int) by {
            lemma_sixteen_pow();
        }
        lemma_basic_div(a as int, pow(16, 32));
        lemma_basic_div(b as int, pow(16, 32));
    } else {
        lemma_leading_digits(a, b, k + 1);
        lemma_pow1(16);
        lemma_pow_adds(16, k, 1);
        lemma_div_denominator(a as int, pow(16, k), 16);
        lemma_div_denominator(b as int, pow(16, k), 16);
        let x = a as int / pow(16, k);
        let y = b as int / pow(16, k);
        assert(hex_digit(a, 31 - k) == x % 16);
        assert(hex_digit(b, 31 - k) == y % 16);
        assert(x / 16 == y / 16);
        lemma_fundamental_div_mod(x, 16);
        lemma_fundamental_div_mod(y, 16);
    }
}

/// Sixteen to the number of digits of a UUID.
proof fn lemma_sixteen_pow()
    ensures
        pow(16, 32) == 0x1_0000_0000_0000_0000_0000_0000_0000_0000int,
{
    reveal(pow);
    assert(pow(16, 4) == 0x10000) by {
        reveal_with_fuel(pow, 5);
    }
    lemma_pow_adds(16, 4, 4);
    lemma_pow_adds(16, 8, 8);
    lemma_pow_adds(16, 16, 16);
    assert(0x10000 * 0x10000 == 0x1_0000_0000int) by (nonlinear_arith);
    assert(0x1_0000_0000int * 0x1_0000_0000int == 0x1_0000_0000_0000_0000int) by (nonlinear_arith);
    assert(0x1_0000_0000_0000_0000int * 0x1_0000_0000_0000_0000int
        == 0x1_0000_0000_0000_0000_0000_0000_0000_0000int) by (nonlinear_arith);
}

/// The place of a digit in the text of a UUID: one further for each hyphen
/// before it.
spec fn text_place(place: int) -> int {
    place + (if place < 8 {
        0int
    } else if place < 12 {
        1
    } else if place < 16 {
        2
    } else if place < 20 {
        3
    } else {
        4
    })
}

/// A digit stands at its place in the text.
proof fn lemma_digit_in_text(id: u128, place: int)
    requires
        0 <= place < 32,
    ensures
        hyphenated(id).len() == 36,
        hyphenated(id)[text_place(place)] == hex_char(hex_digit(id, place)),
{
}

/// The text of every UUID has thirty-six characters.
pub proof fn lemma_text_length(id: u128)
    ensures
        hyphenated(id).len() == 36,
{
}

/// Different UUIDs have different texts, so that no message can be taken for
/// one on another flow.
pub proof fn law_texts_do_not_collide(a: u128, b: u128)
    requires
        a != b,
    ensures
        hyphenated(a) != hyphenated(b),
{
    if hyphenated(a) == hyphenated(b) {
        assert forall|place: int| 0 <= place < 32 implies hex_digit(a, place) == hex_digit(
            b,
            place,
        ) by {
            lemma_digit_in_text(a, place);
            lemma_digit_in_text(b, place);
            lemma_pow_positive(16, (31 - place) as nat);
            lemma_mod_bound(a as int / pow(16, (31 - place) as nat), 16);
            lemma_mod_bound(b as int / pow(16, (31 - place) as nat), 16);
        }
        lemma_leading_digits(a, b, 0);
        lemma_pow0(16);
        lemma_div_basics(a as int);
        lemma_div_basics(b as int);
    }
}

/// The text of a UUID is its thirty-two hexadecimal digits, the highest
/// first, with hyphens at their four places; every digit is a decimal digit
/// or one of the letters from `a` to `f`.
pub proof fn law_text_of_a_uuid(id: u128, place: int)
    requires
        0 <= place < 32,
    ensures
        ({
            let at = place + (if place < 8 {
                0int
            } else if place < 12 {
                1
            } else if place < 16 {
                2
            } else if place < 20 {
                3
            } else {
                4
            });
            let digit = (id as int / pow(16, (31 - place) as nat)) % 16;
            &&& hyphenated(id).len() == 36
            &&& hyphenated(id)[8] == '-' && hyphenated(id)[13] == '-' && hyphenated(id)[18] == '-'
                && hyphenated(id)[23] == '-'
            &&& 0 <= digit < 16
            &&& digit < 10 ==> hyphenated(id)[at] as int == '0' as int + digit
            &&& digit >= 10 ==> hyphenated(id)[at] as int == 'a' as int + digit - 10
        }),
{
    lemma_digit_in_text(id, place);
    lemma_pow_positive(16, (31 - place) as nat);
    lemma_mod_bound(id as int / pow(16, (31 - place) as nat), 16);
}

/// The result of reading a UUID is seen as it is.
pub proof fn law_uuid_result_is_seen(id: u128, error: UuidError)
    ensures
        uuid_result(Ok(id)) == Ok::<u128, (Seq<char>, Seq<char>)>(id),
        uuid_result(Err(error)) == Err::<u128, (Seq<char>, Seq<char>)>(
            (error.message@, error.debug@),
        ),
{
}

/// A random UUID shows as such in its text: the third group begins with a
/// four, and the fourth with an eight, a nine, an `a` or a `b`.
pub proof fn law_random_uuid_shows_in_its_text(id: u128)
    ensures
        is_random_uuid(id) <==> hyphenated(id)[14] == '4' && (hyphenated(id)[19] == '8'
            || hyphenated(id)[19] == '9' || hyphenated(id)[19] == 'a' || hyphenated(id)[19] == 'b'),
{
    law_text_of_a_uuid(id, 12);
    law_text_of_a_uuid(id, 16);
}

} // verus!
