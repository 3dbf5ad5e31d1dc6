//! Reading the date text of a listing item.

use vstd::prelude::*;
use vstd::string::*;
use crate::text::{
    all_digits, decimal, digits_value, in_class, is_digit, is_hyphen, lemma_skip, lemma_skip_to,
    parse_decimal, same_text, scan, skip, to_chars, trim_text, trimmed, CharClass,
};

verus! {

/// A calendar day as a listing gives it. Nothing holds the day to the
/// length of its month.
#[derive(Clone, Copy, Debug, PartialEq, Eq, Structural)]
pub struct RawDate {
    pub day: i32,
    /// January is 0, December is 11.
    pub month: i8,
    pub year: u32,
}

/// When a show plays: on one day, or from a first day to a last.
#[derive(Clone, Copy, Debug, PartialEq, Eq, Structural)]
pub enum Date {
    Single(RawDate),
    Range { start: RawDate, end: RawDate },
}

/// Why a date text could not be read.
#[derive(Clone, Debug, PartialEq, Eq)]
pub enum DateParseError {
    /// The text in the month's place is no English month name.
    UnrecognizedMonth(String),
    /// The text holds more than one hyphen.
    MalformedRange,
    /// The text does not begin with a day number that fits.
    InvalidDay,
}

/// The mathematical value of a `DateParseError`.
pub enum DateFailure {
    UnrecognizedMonth(Seq<char>),
    MalformedRange,
    InvalidDay,
}

impl View for DateParseError {
    type V = DateFailure;

    open spec fn view(&self) -> DateFailure {
        match self {
            DateParseError::UnrecognizedMonth(t) => DateFailure::UnrecognizedMonth(t@),
            DateParseError::MalformedRange => DateFailure::MalformedRange,
            DateParseError::InvalidDay => DateFailure::InvalidDay,
        }
    }
}

impl RawDate {
    /// The day is not negative and the month is one of the twelve.
    pub open spec fn wf(&self) -> bool {
        0 <= self.day && 0 <= self.month <= 11
    }
}

/// The English name of the month with index `m`.
pub open spec fn month_name(m: int) -> Seq<char> {
    if m == 0 {
        "January"@
    } else if m == 1 {
        "February"@
    } else if m == 2 {
        "March"@
    } else if m == 3 {
        "April"@
    } else if m == 4 {
        "May"@
    } else if m == 5 {
        "June"@
    } else if m == 6 {
        "July"@
    } else if m == 7 {
        "August"@
    } else if m == 8 {
        "September"@
    } else if m == 9 {
        "October"@
    } else if m == 10 {
        "November"@
    } else {
        "December"@
    }
}

/// The index of the month that `s` names, exactly and with its capital.
pub open spec fn month_index(s: Seq<char>) -> Option<i8> {
    if s == "January"@ {
        Some(0i8)
    } else if s == "February"@ {
        Some(1i8)
    } else if s == "March"@ {
        Some(2i8)
    } else if s == "April"@ {
        Some(3i8)
    } else if s == "May"@ {
        Some(4i8)
    } else if s == "June"@ {
        Some(5i8)
    } else if s == "July"@ {
        Some(6i8)
    } else if s == "August"@ {
        Some(7i8)
    } else if s == "September"@ {
        Some(8i8)
    } else if s == "October"@ {
        Some(9i8)
    } else if s == "November"@ {
        Some(10i8)
    } else if s == "December"@ {
        Some(11i8)
    } else {
        None
    }
}

/// What follows the first white space at or after `from`; empty where
/// there is none.
pub open spec fn after_space(s: Seq<char>, from: int) -> Seq<char> {
    let sp = skip(s, CharClass::NonSpace, from);
    if sp < s.len() {
        s.subrange(sp + 1, s.len() as int)
    } else {
        Seq::empty()
    }
}

/// A text without a hyphen as one day: the leading digits are the day,
/// what follows the first white space after them names the month.
pub open spec fn single_date(s: Seq<char>, year: u32) -> Result<RawDate, DateFailure> {
    let day_end = skip(s, CharClass::Digit, 0);
    let month_text = after_space(s, day_end);
    match decimal(s.subrange(0, day_end), i32::MAX as int) {
        None => Err(DateFailure::InvalidDay),
        Some(day) => match month_index(month_text) {
            None => Err(DateFailure::UnrecognizedMonth(month_text)),
            Some(month) => Ok(RawDate { day: day as i32, month, year }),
        },
    }
}

/// A date text as a date: one day where it holds no hyphen, a range of two
/// days around its one hyphen, and malformed where it holds more.
pub open spec fn date_of_text(s: Seq<char>, year: u32) -> Result<Date, DateFailure> {
    let h = skip(s, CharClass::NonHyphen, 0);
    if h >= s.len() {
        match single_date(s, year) {
            Ok(d) => Ok(Date::Single(d)),
            Err(e) => Err(e),
        }
    } else if skip(s, CharClass::NonHyphen, h + 1) < s.len() {
        Err(DateFailure::MalformedRange)
    } else {
        match single_date(trimmed(s.subrange(0, h)), year) {
            Err(e) => Err(e),
            Ok(start) => match single_date(trimmed(s.subrange(h + 1, s.len() as int)), year) {
                Err(e) => Err(e),
                Ok(end) => Ok(Date::Range { start, end }),
            },
        }
    }
}

/// An outcome of the executable parser, by the view of its error.
pub open spec fn outcome<T>(r: Result<T, DateParseError>) -> Result<T, DateFailure> {
    match r {
        Ok(v) => Ok(v),
        Err(e) => Err(e@),
    }
}

/// Each of the twelve names is found under its own index, so no two are
/// alike.
pub proof fn lemma_month_names()
    ensures
        forall|m: int| 0 <= m <= 11 ==> month_index(#[trigger] month_name(m)) == Some(m as i8),
{
    reveal_strlit("January");
    reveal_strlit("February");
    reveal_strlit("March");
    reveal_strlit("April");
    reveal_strlit("May");
    reveal_strlit("June");
    reveal_strlit("July");
    reveal_strlit("August");
    reveal_strlit("September");
    reveal_strlit("October");
    reveal_strlit("November");
    reveal_strlit("December");
    assert("January"@.len() == 7 && "January"@[0] == 'J' && "January"@[2] == 'n');
    assert("February"@.len() == 8 && "February"@[0] == 'F' && "February"@[2] == 'b');
    assert("March"@.len() == 5 && "March"@[0] == 'M' && "March"@[2] == 'r');
    assert("April"@.len() == 5 && "April"@[0] == 'A' && "April"@[2] == 'r');
    assert("May"@.len() == 3 && "May"@[0] == 'M' && "May"@[2] == 'y');
    assert("June"@.len() == 4 && "June"@[0] == 'J' && "June"@[2] == 'n');
    assert("July"@.len() == 4 && "July"@[0] == 'J' && "July"@[2] == 'l');
    assert("August"@.len() == 6 && "August"@[0] == 'A' && "August"@[2] == 'g');
    assert("September"@.len() == 9 && "September"@[0] == 'S' && "September"@[2] == 'p');
    assert("October"@.len() == 7 && "October"@[0] == 'O' && "October"@[2] == 't');
    assert("November"@.len() == 8 && "November"@[0] == 'N' && "November"@[2] == 'v');
    assert("December"@.len() == 8 && "December"@[0] == 'D' && "December"@[2] == 'c');
    assert forall|m: int| 0 <= m <= 11 implies month_index(#[trigger] month_name(m)) == Some(
        m as i8,
    ) by {
        let s = month_name(m);
        assert(s.len() >= 3);
    }
}

/// The character that writes the digit `d`.
pub open spec fn digit_char(d: int) -> char {
    (0x30 + d) as char
}

/// The digits that write `n` in base ten, without leading zeros.
pub open spec fn decimal_digits(n: nat) -> Seq<char>
    decreases n,
{
    if n < 10 {
        seq![digit_char(n as int)]
    } else {
        decimal_digits(n / 10).push(digit_char((n % 10) as int))
    }
}

/// A day as a listing writes it: the day's number, a space, and the
/// month's name.
pub open spec fn date_text(d: RawDate) -> Seq<char> {
    decimal_digits(d.day as nat) + seq![' '] + month_name(d.month as int)
}

/// The digits of a number are digits, at least one, and write that number.
pub proof fn lemma_decimal_digits(n: nat)
    ensures
        all_digits(decimal_digits(n)),
        decimal_digits(n).len() >= 1,
        digits_value(decimal_digits(n)) == n,
    decreases n,
{
    let s = decimal_digits(n);
    assert(digits_value(Seq::<char>::empty()) == 0);
    if n < 10 {
        assert(s.drop_last() =~= Seq::<char>::empty());
        assert(s.last() == digit_char(n as int));
    } else {
        lemma_decimal_digits(n / 10);
        let p = decimal_digits(n / 10);
        assert(s.drop_last() =~= p);
        assert(s.last() == digit_char((n % 10) as int));
        assert forall|i: int| 0 <= i < s.len() implies is_digit(#[trigger] s[i]) by {
            if i < p.len() {
                assert(s[i] == p[i]);
            }
        }
    }
}

/// No month name holds a hyphen.
pub proof fn lemma_month_name_plain(m: int)
    requires
        0 <= m <= 11,
    ensures
        forall|k: int| 0 <= k < month_name(m).len() ==> !is_hyphen(#[trigger] month_name(m)[k]),
{
    reveal_strlit("January");
    reveal_strlit("February");
    reveal_strlit("March");
    reveal_strlit("April");
    reveal_strlit("May");
    reveal_strlit("June");
    reveal_strlit("July");
    reveal_strlit("August");
    reveal_strlit("September");
    reveal_strlit("October");
    reveal_strlit("November");
    reveal_strlit("December");
}

/// Writing a day as text and reading the text again in the day's year gives
/// the day back.
pub proof fn lemma_round_trip(d: RawDate)
    requires
        d.wf(),
    ensures
        date_of_text(date_text(d), d.year) == Ok::<Date, DateFailure>(Date::Single(d)),
        single_date(date_text(d), d.year) == Ok::<RawDate, DateFailure>(d),
{
    let digits = decimal_digits(d.day as nat);
    let name = month_name(d.month as int);
    let s = date_text(d);
    let n = digits.len() as int;
    lemma_decimal_digits(d.day as nat);
    lemma_month_name_plain(d.month as int);
    lemma_month_names();
    assert(s.len() == n + 1 + name.len());
    assert(s[n] == ' ');
    assert forall|k: int| 0 <= k < n implies s[k] == digits[k] by {}
    assert forall|k: int| n < k < s.len() implies s[k] == name[k - n - 1] by {}
    assert forall|k: int| 0 <= k < s.len() implies in_class(
        CharClass::NonHyphen,
        #[trigger] s[k],
    ) by {
        if k < n {
            assert(is_digit(digits[k]));
        } else if k > n {
            assert(!is_hyphen(name[k - n - 1]));
        }
    }
    lemma_skip_to(s, CharClass::NonHyphen, 0, s.len() as int);
    assert forall|k: int| 0 <= k < n implies in_class(CharClass::Digit, #[trigger] s[k]) by {
        assert(is_digit(digits[k]));
    }
    lemma_skip_to(s, CharClass::Digit, 0, n);
    assert(s.subrange(0, n) =~= digits);
    assert(skip(s, CharClass::NonSpace, n) == n);
    assert(s.subrange(n + 1, s.len() as int) =~= name);
    assert(after_space(s, n) == name);
}

/// A text with two hyphens is a malformed range, whatever stands around
/// them.
pub proof fn lemma_two_hyphens(s: Seq<char>, i: int, j: int, year: u32)
    requires
        0 <= i < j < s.len(),
        is_hyphen(s[i]),
        is_hyphen(s[j]),
    ensures
        date_of_text(s, year) == Err::<Date, DateFailure>(DateFailure::MalformedRange),
{
    let h = skip(s, CharClass::NonHyphen, 0);
    lemma_skip(s, CharClass::NonHyphen, 0);
    if h > i {
        assert(in_class(CharClass::NonHyphen, s[i]));
    }
    let g = skip(s, CharClass::NonHyphen, h + 1);
    lemma_skip(s, CharClass::NonHyphen, h + 1);
    if g > j {
        assert(in_class(CharClass::NonHyphen, s[j]));
    }
}

/// The text of one digit.
pub fn digit_text(d: u32) -> (r: &'static str)
    requires
        d < 10,
    ensures
        r@ == seq![digit_char(d as int)],
{
    proof {
        reveal_strlit("0");
        reveal_strlit("1");
        reveal_strlit("2");
        reveal_strlit("3");
        reveal_strlit("4");
        reveal_strlit("5");
        reveal_strlit("6");
        reveal_strlit("7");
        reveal_strlit("8");
        reveal_strlit("9");
    }
    let r: &'static str = if d == 0 {
        "0"
    } else if d == 1 {
        "1"
    } else if d == 2 {
        "2"
    } else if d == 3 {
        "3"
    } else if d == 4 {
        "4"
    } else if d == 5 {
        "5"
    } else if d == 6 {
        "6"
    } else if d == 7 {
        "7"
    } else if d == 8 {
        "8"
    } else {
        "9"
    };
    proof {
        assert(r@ =~= seq![digit_char(d as int)]);
    }
    r
}

/// The digits of a number, without leading zeros.
pub fn decimal_text(n: u32) -> (r: String)
    ensures
        r@ == decimal_digits(n as nat),
    decreases n,
{
    if n < 10 {
        String::from_str(digit_text(n))
    } else {
        let r = decimal_text(n / 10).concat(digit_text(n % 10));
        proof {
            assert(r@ =~= decimal_digits(n as nat));
        }
        r
    }
}

/// The English name of a month.
pub fn month_text(month: i8) -> (r: &'static str)
    requires
        0 <= month <= 11,
    ensures
        r@ == month_name(month as int),
{
    if month == 0 {
        "January"
    } else if month == 1 {
        "February"
    } else if month == 2 {
        "March"
    } else if month == 3 {
        "April"
    } else if month == 4 {
        "May"
    } else if month == 5 {
        "June"
    } else if month == 6 {
        "July"
    } else if month == 7 {
        "August"
    } else if month == 8 {
        "September"
    } else if month == 9 {
        "October"
    } else if month == 10 {
        "November"
    } else {
        "December"
    }
}

impl RawDate {
    /// The day as a listing writes it, such as "25 December".
    pub fn to_text(&self) -> (r: String)
        requires
            self.wf(),
        ensures
            r@ == date_text(*self),
    {
        proof {
            reveal_strlit(" ");
        }
        let digits = decimal_text(self.day as u32);
        let r = digits.concat(" ").concat(month_text(self.month));
        proof {
            assert(" "@ =~= seq![' ']);
        }
        r
    }
}

/// The zero-based index of an English month name.
pub fn month_str_to_int(s: &str) -> (r: Result<i8, DateParseError>)
    ensures
        outcome(r) == match month_index(s@) {
            Some(m) => Ok::<i8, DateFailure>(m),
            None => Err(DateFailure::UnrecognizedMonth(s@)),
        },
        r is Ok ==> 0 <= r->Ok_0 <= 11 && month_name(r->Ok_0 as int) == s@,
{
    if same_text(s, "January") {
        Ok(0)
    } else if same_text(s, "February") {
        Ok(1)
    } else if same_text(s, "March") {
        Ok(2)
    } else if same_text(s, "April") {
        Ok(3)
    } else if same_text(s, "May") {
        Ok(4)
    } else if same_text(s, "June") {
        Ok(5)
    } else if same_text(s, "July") {
        Ok(6)
    } else if same_text(s, "August") {
        Ok(7)
    } else if same_text(s, "September") {
        Ok(8)
    } else if same_text(s, "October") {
        Ok(9)
    } else if same_text(s, "November") {
        Ok(10)
    } else if same_text(s, "December") {
        Ok(11)
    } else {
        Err(DateParseError::UnrecognizedMonth(s.to_owned()))
    }
}

/// Reads a text that holds no range as one day of `year`.
pub fn single_date_from_text(s: &str, year: u32) -> (r: Result<RawDate, DateParseError>)
    ensures
        outcome(r) == single_date(s@, year),
        r is Ok ==> r->Ok_0.wf(),
{
    let v = to_chars(s);
    let day_end: usize = scan(&v, CharClass::Digit, 0);
    let day: i32 = match parse_decimal(&v, 0, day_end, 0x7fff_ffff) {
        Some(d) => d as i32,
        None => {
            return Err(DateParseError::InvalidDay);
        },
    };
    let sp: usize = scan(&v, CharClass::NonSpace, day_end);
    let month_text: &str = if sp < v.len() {
        s.substring_char(sp + 1, v.len())
    } else {
        s.substring_char(0, 0)
    };
    proof {
        assert(s@.subrange(0, 0) =~= Seq::<char>::empty());
    }
    match month_str_to_int(month_text) {
        Ok(month) => Ok(RawDate { day, month, year }),
        Err(e) => Err(e),
    }
}

/// Reads the date text of a listing item, a day or a range of days, in the
/// year that the listing's heading gave.
pub fn date_from_text(s: &str, year: u32) -> (r: Result<Date, DateParseError>)
    ensures
        outcome(r) == date_of_text(s@, year),
        r matches Ok(Date::Single(d)) ==> d.wf(),
        r matches Ok(Date::Range { start, end }) ==> start.wf() && end.wf(),
{
    let v = to_chars(s);
    let h: usize = scan(&v, CharClass::NonHyphen, 0);
    if h >= v.len() {
        return match single_date_from_text(s, year) {
            Ok(d) => Ok(Date::Single(d)),
            Err(e) => Err(e),
        };
    }
    if scan(&v, CharClass::NonHyphen, h + 1) < v.len() {
        return Err(DateParseError::MalformedRange);
    }
    let first: &str = trim_text(s.substring_char(0, h));
    let second: &str = trim_text(s.substring_char(h + 1, v.len()));
    let start: RawDate = match single_date_from_text(first, year) {
        Ok(d) => d,
        Err(e) => {
            return Err(e);
        },
    };
    match single_date_from_text(second, year) {
        Ok(end) => Ok(Date::Range { start, end }),
        Err(e) => Err(e),
    }
}

} // verus!
