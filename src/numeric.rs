//! Integers read from token text in a radix from 2 to 36, with `,` taken
//! as a grouping separator.
use vstd::prelude::*;

verus! {

/// The value of a digit character: `0`-`9`, then `a`-`z` or `A`-`Z` for 10
/// to 35. Any other character gets 36, which no radix accepts.
pub open spec fn digit_value(c: char) -> nat {
    let u = c as u32;
    if 48 <= u <= 57 {
        (u - 48) as nat
    } else if 97 <= u <= 122 {
        (u - 97 + 10) as nat
    } else if 65 <= u <= 90 {
        (u - 65 + 10) as nat
    } else {
        36
    }
}

/// A non-empty run of digits of the radix.
pub open spec fn is_digits(s: Seq<char>, radix: nat) -> bool {
    s.len() > 0 && forall|i: int| 0 <= i < s.len() ==> #[trigger] digit_value(s[i]) < radix
}

/// The number that a run of digits denotes, most significant first.
pub open spec fn digits_value(s: Seq<char>, radix: nat) -> int
    decreases s.len(),
{
    if s.len() == 0 {
        0
    } else {
        digits_value(s.drop_last(), radix) * radix + digit_value(s.last())
    }
}

/// The integer that a text denotes: an optional `+` (or, for a signed
/// type, `-`) followed by digits of the radix; `None` for any other text.
pub open spec fn int_text_value(s: Seq<char>, radix: nat, signed: bool) -> Option<int> {
    if s.len() > 0 && s[0] == '+' {
        if is_digits(s.drop_first(), radix) {
            Some(digits_value(s.drop_first(), radix))
        } else {
            None
        }
    } else if signed && s.len() > 0 && s[0] == '-' {
        if is_digits(s.drop_first(), radix) {
            Some(-digits_value(s.drop_first(), radix))
        } else {
            None
        }
    } else if is_digits(s, radix) {
        Some(digits_value(s, radix))
    } else {
        None
    }
}

/// The integer that a text denotes where it lies in `[min, max]`.
pub open spec fn int_in_range(s: Seq<char>, radix: nat, min: int, max: int) -> Option<int> {
    match int_text_value(s, radix, min < 0) {
        Some(v) => if min <= v <= max {
            Some(v)
        } else {
            None
        },
        None => None,
    }
}

/// The text with every `,` left out.
pub open spec fn without_commas(s: Seq<char>) -> Seq<char> {
    s.filter(|c: char| c != ',')
}

/// Relies on `str::replace`: every `,` is replaced by nothing.
#[verifier::external_body]
fn drop_commas(text: &str) -> (r: String)
    ensures
        r@ == without_commas(text@),
{
    text.replace(',', "")
}

/// Relies on `num::Num::from_str_radix` for `i32`, which is
/// `i32::from_str_radix`: a sign and digits; out of range is an error.
#[verifier::external_body]
fn i32_from_text(text: &str, radix: u32) -> (r: Option<i32>)
    requires
        2 <= radix <= 36,
    ensures
        match r {
            Some(x) => int_in_range(text@, radix as nat, i32::MIN as int, i32::MAX as int) == Some(
                x as int,
            ),
            None => int_in_range(text@, radix as nat, i32::MIN as int, i32::MAX as int) is None,
        },
{
    <i32 as num::Num>::from_str_radix(text, radix).ok()
}

/// Relies on `num::Num::from_str_radix` for `i64`, which is
/// `i64::from_str_radix`: a sign and digits; out of range is an error.
#[verifier::external_body]
fn i64_from_text(text: &str, radix: u32) -> (r: Option<i64>)
    requires
        2 <= radix <= 36,
    ensures
        match r {
            Some(x) => int_in_range(text@, radix as nat, i64::MIN as int, i64::MAX as int) == Some(
                x as int,
            ),
            None => int_in_range(text@, radix as nat, i64::MIN as int, i64::MAX as int) is None,
        },
{
    <i64 as num::Num>::from_str_radix(text, radix).ok()
}

/// Relies on `num::Num::from_str_radix` for `u32`, which is
/// `u32::from_str_radix`: a `+` and digits; out of range is an error.
#[verifier::external_body]
fn u32_from_text(text: &str, radix: u32) -> (r: Option<u32>)
    requires
        2 <= radix <= 36,
    ensures
        match r {
            Some(x) => int_in_range(text@, radix as nat, 0, u32::MAX as int) == Some(x as int),
            None => int_in_range(text@, radix as nat, 0, u32::MAX as int) is None,
        },
{
    <u32 as num::Num>::from_str_radix(text, radix).ok()
}

/// Relies on `num::Num::from_str_radix` for `u64`, which is
/// `u64::from_str_radix`: a `+` and digits; out of range is an error.
#[verifier::external_body]
fn u64_from_text(text: &str, radix: u32) -> (r: Option<u64>)
    requires
        2 <= radix <= 36,
    ensures
        match r {
            Some(x) => int_in_range(text@, radix as nat, 0, u64::MAX as int) == Some(x as int),
            None => int_in_range(text@, radix as nat, 0, u64::MAX as int) is None,
        },
{
    <u64 as num::Num>::from_str_radix(text, radix).ok()
}

/// Relies on `num::Num::from_str_radix` for `i8`, which is
/// `i8::from_str_radix`: a sign and digits; out of range is an error.
#[verifier::external_body]
fn i8_from_text(text: &str, radix: u32) -> (r: Option<i8>)
    requires
        2 <= radix <= 36,
    ensures
        match r {
            Some(x) => int_in_range(text@, radix as nat, i8::MIN as int, i8::MAX as int) == Some(x as int),
            None => int_in_range(text@, radix as nat, i8::MIN as int, i8::MAX as int) is None,
        },
{
    <i8 as num::Num>::from_str_radix(text, radix).ok()
}

/// Relies on `num::Num::from_str_radix` for `i16`, which is
/// `i16::from_str_radix`: a sign and digits; out of range is an error.
#[verifier::external_body]
fn i16_from_text(text: &str, radix: u32) -> (r: Option<i16>)
    requires
        2 <= radix <= 36,
    ensures
        match r {
            Some(x) => int_in_range(text@, radix as nat, i16::MIN as int, i16::MAX as int) == Some(x as int),
            None => int_in_range(text@, radix as nat, i16::MIN as int, i16::MAX as int) is None,
        },
{
    <i16 as num::Num>::from_str_radix(text, radix).ok()
}

/// Relies on `num::Num::from_str_radix` for `i128`, which is
/// `i128::from_str_radix`: a sign and digits; out of range is an error.
#[verifier::external_body]
fn i128_from_text(text: &str, radix: u32) -> (r: Option<i128>)
    requires
        2 <= radix <= 36,
    ensures
        match r {
            Some(x) => int_in_range(text@, radix as nat, i128::MIN as int, i128::MAX as int) == Some(x as int),
            None => int_in_range(text@, radix as nat, i128::MIN as int, i128::MAX as int) is None,
        },
{
    <i128 as num::Num>::from_str_radix(text, radix).ok()
}

/// Relies on `num::Num::from_str_radix` for `isize`, which is
/// `isize::from_str_radix`: a sign and digits; out of range is an error.
#[verifier::external_body]
fn isize_from_text(text: &str, radix: u32) -> (r: Option<isize>)
    requires
        2 <= radix <= 36,
    ensures
        match r {
            Some(x) => int_in_range(text@, radix as nat, isize::MIN as int, isize::MAX as int) == Some(x as int),
            None => int_in_range(text@, radix as nat, isize::MIN as int, isize::MAX as int) is None,
        },
{
    <isize as num::Num>::from_str_radix(text, radix).ok()
}

/// Relies on `num::Num::from_str_radix` for `u8`, which is
/// `u8::from_str_radix`: a `+` and digits; out of range is an error.
#[verifier::external_body]
fn u8_from_text(text: &str, radix: u32) -> (r: Option<u8>)
    requires
        2 <= radix <= 36,
    ensures
        match r {
            Some(x) => int_in_range(text@, radix as nat, 0, u8::MAX as int) == Some(x as int),
            None => int_in_range(text@, radix as nat, 0, u8::MAX as int) is None,
        },
{
    <u8 as num::Num>::from_str_radix(text, radix).ok()
}

/// Relies on `num::Num::from_str_radix` for `u16`, which is
/// `u16::from_str_radix`: a `+` and digits; out of range is an error.
#[verifier::external_body]
fn u16_from_text(text: &str, radix: u32) -> (r: Option<u16>)
    requires
        2 <= radix <= 36,
    ensures
        match r {
            Some(x) => int_in_range(text@, radix as nat, 0, u16::MAX as int) == Some(x as int),
            None => int_in_range(text@, radix as nat, 0, u16::MAX as int) is None,
        },
{
    <u16 as num::Num>::from_str_radix(text, radix).ok()
}

/// Relies on `num::Num::from_str_radix` for `u128`, which is
/// `u128::from_str_radix`: a `+` and digits; out of range is an error.
#[verifier::external_body]
fn u128_from_text(text: &str, radix: u32) -> (r: Option<u128>)
    requires
        2 <= radix <= 36,
    ensures
        match r {
            Some(x) => int_in_range(text@, radix as nat, 0, u128::MAX as int) == Some(x as int),
            None => int_in_range(text@, radix as nat, 0, u128::MAX as int) is None,
        },
{
    <u128 as num::Num>::from_str_radix(text, radix).ok()
}

/// Relies on `num::Num::from_str_radix` for `usize`, which is
/// `usize::from_str_radix`: a `+` and digits; out of range is an error.
#[verifier::external_body]
fn usize_from_text(text: &str, radix: u32) -> (r: Option<usize>)
    requires
        2 <= radix <= 36,
    ensures
        match r {
            Some(x) => int_in_range(text@, radix as nat, 0, usize::MAX as int) == Some(x as int),
            None => int_in_range(text@, radix as nat, 0, usize::MAX as int) is None,
        },
{
    <usize as num::Num>::from_str_radix(text, radix).ok()
}

/// An integer type that tokens can be read as.
pub trait ScanInt: Sized {
    spec fn int_value(&self) -> int;

    spec fn min_value() -> int;

    spec fn max_value() -> int;

    /// Reads the text in the radix; `None` where it is not an integer of
    /// the type.
    fn from_text_radix(text: &str, radix: u32) -> (r: Option<Self>)
        requires
            2 <= radix <= 36,
        ensures
            match r {
                Some(x) => int_in_range(text@, radix as nat, Self::min_value(), Self::max_value())
                    == Some(x.int_value()),
                None => int_in_range(
                    text@,
                    radix as nat,
                    Self::min_value(),
                    Self::max_value(),
                ) is None,
            },
    ;
}

impl ScanInt for i32 {
    open spec fn int_value(&self) -> int {
        *self as int
    }

    open spec fn min_value() -> int {
        i32::MIN as int
    }

    open spec fn max_value() -> int {
        i32::MAX as int
    }

    fn from_text_radix(text: &str, radix: u32) -> (r: Option<i32>) {
        i32_from_text(text, radix)
    }
}

impl ScanInt for i64 {
    open spec fn int_value(&self) -> int {
        *self as int
    }

    open spec fn min_value() -> int {
        i64::MIN as int
    }

    open spec fn max_value() -> int {
        i64::MAX as int
    }

    fn from_text_radix(text: &str, radix: u32) -> (r: Option<i64>) {
        i64_from_text(text, radix)
    }
}

impl ScanInt for u32 {
    open spec fn int_value(&self) -> int {
        *self as int
    }

    open spec fn min_value() -> int {
        0
    }

    open spec fn max_value() -> int {
        u32::MAX as int
    }

    fn from_text_radix(text: &str, radix: u32) -> (r: Option<u32>) {
        u32_from_text(text, radix)
    }
}

impl ScanInt for u64 {
    open spec fn int_value(&self) -> int {
        *self as int
    }

    open spec fn min_value() -> int {
        0
    }

    open spec fn max_value() -> int {
        u64::MAX as int
    }

    fn from_text_radix(text: &str, radix: u32) -> (r: Option<u64>) {
        u64_from_text(text, radix)
    }
}

impl ScanInt for i8 {
    open spec fn int_value(&self) -> int {
        *self as int
    }

    open spec fn min_value() -> int {
        i8::MIN as int
    }

    open spec fn max_value() -> int {
        i8::MAX as int
    }

    fn from_text_radix(text: &str, radix: u32) -> (r: Option<i8>) {
        i8_from_text(text, radix)
    }
}

impl ScanInt for i16 {
    open spec fn int_value(&self) -> int {
        *self as int
    }

    open spec fn min_value() -> int {
        i16::MIN as int
    }

    open spec fn max_value() -> int {
        i16::MAX as int
    }

    fn from_text_radix(text: &str, radix: u32) -> (r: Option<i16>) {
        i16_from_text(text, radix)
    }
}

impl ScanInt for i128 {
    open spec fn int_value(&self) -> int {
        *self as int
    }

    open spec fn min_value() -> int {
        i128::MIN as int
    }

    open spec fn max_value() -> int {
        i128::MAX as int
    }

    fn from_text_radix(text: &str, radix: u32) -> (r: Option<i128>) {
        i128_from_text(text, radix)
    }
}

impl ScanInt for isize {
    open spec fn int_value(&self) -> int {
        *self as int
    }

    open spec fn min_value() -> int {
        isize::MIN as int
    }

    open spec fn max_value() -> int {
        isize::MAX as int
    }

    fn from_text_radix(text: &str, radix: u32) -> (r: Option<isize>) {
        isize_from_text(text, radix)
    }
}

impl ScanInt for u8 {
    open spec fn int_value(&self) -> int {
        *self as int
    }

    open spec fn min_value() -> int {
        0
    }

    open spec fn max_value() -> int {
        u8::MAX as int
    }

    fn from_text_radix(text: &str, radix: u32) -> (r: Option<u8>) {
        u8_from_text(text, radix)
    }
}

impl ScanInt for u16 {
    open spec fn int_value(&self) -> int {
        *self as int
    }

    open spec fn min_value() -> int {
        0
    }

    open spec fn max_value() -> int {
        u16::MAX as int
    }

    fn from_text_radix(text: &str, radix: u32) -> (r: Option<u16>) {
        u16_from_text(text, radix)
    }
}

impl ScanInt for u128 {
    open spec fn int_value(&self) -> int {
        *self as int
    }

    open spec fn min_value() -> int {
        0
    }

    open spec fn max_value() -> int {
        u128::MAX as int
    }

    fn from_text_radix(text: &str, radix: u32) -> (r: Option<u128>) {
        u128_from_text(text, radix)
    }
}

impl ScanInt for usize {
    open spec fn int_value(&self) -> int {
        *self as int
    }

    open spec fn min_value() -> int {
        0
    }

    open spec fn max_value() -> int {
        usize::MAX as int
    }

    fn from_text_radix(text: &str, radix: u32) -> (r: Option<usize>) {
        usize_from_text(text, radix)
    }
}

/// The integer of type `T` that a token denotes once its commas are left
/// out, or `None`.
pub open spec fn token_int<T: ScanInt>(token: Seq<char>, radix: nat) -> Option<int> {
    int_in_range(without_commas(token), radix, T::min_value(), T::max_value())
}

/// Reads a token as an integer in the radix, ignoring every `,` in it.
/// A text that is not an integer, or does not fit the type, gives `None`.
pub fn parse_int<T: ScanInt>(token: &str, radix: u32) -> (r: Option<T>)
    requires
        2 <= radix <= 36,
    ensures
        match r {
            Some(x) => token_int::<T>(token@, radix as nat) == Some(x.int_value()),
            None => token_int::<T>(token@, radix as nat) is None,
        },
{
    let digits = drop_commas(token);
    T::from_text_radix(digits.as_str(), radix)
}

/// Leaves out every `,` of a token, as a number is read with them.
pub fn strip_commas(token: &str) -> (r: String)
    ensures
        r@ == without_commas(token@),
{
    drop_commas(token)
}

} // verus!
