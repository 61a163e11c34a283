//! The DS18B20 1-Wire temperature sensor: which device entry is one, and
//! how its report is read.

use std::io;
use std::num::ParseIntError;
use vstd::prelude::*;

use crate::number::{
    digits_value, is_digit, is_u32_text, lemma_nat_text, nat_text, parse_u32, unsigned_digits,
};
use crate::text::{
    chars_of, contains_text, find_text, law_contains_three, law_digits_and_letters_are_not_white_space,
    law_trim_drops_newline, occurs_at, trim, trim_text,
};

verus! {

/// `std::io::Error`, the error of reading the sensor's report; it is
/// carried through unopened.
#[verifier::external_type_specification]
#[verifier::external_body]
pub struct ExIoError(io::Error);

/// Why a temperature could not be read.
#[derive(Debug)]
pub enum W1Error {
    Io(io::Error),
    Parse(ParseIntError),
    BadSerialConnection,
}

impl From<io::Error> for W1Error {
    fn from(err: io::Error) -> W1Error {
        W1Error::Io(err)
    }
}

impl vstd::std_specs::convert::FromSpecImpl<io::Error> for W1Error {
    open spec fn obeys_from_spec() -> bool {
        true
    }

    open spec fn from_spec(v: io::Error) -> W1Error {
        W1Error::Io(v)
    }
}

impl From<ParseIntError> for W1Error {
    fn from(err: ParseIntError) -> W1Error {
        W1Error::Parse(err)
    }
}

impl vstd::std_specs::convert::FromSpecImpl<ParseIntError> for W1Error {
    open spec fn obeys_from_spec() -> bool {
        true
    }

    open spec fn from_spec(v: ParseIntError) -> W1Error {
        W1Error::Parse(v)
    }
}

/// A temperature in thousandths of a degree Celsius.
pub struct MilliCelsius(u32);

impl View for MilliCelsius {
    type V = u32;

    /// The temperature in thousandths of a degree Celsius.
    closed spec fn view(&self) -> u32 {
        self.0
    }
}

impl MilliCelsius {
    /// The temperature in thousandths of a degree Celsius.
    pub fn millis(&self) -> (r: u32)
        ensures
            r == self@,
    {
        self.0
    }
}

/// A DS18B20 sensor, known by its 1-Wire device id.
pub struct DS18B20 {
    w1_id: String,
}

impl View for DS18B20 {
    type V = Seq<char>;

    /// The sensor's 1-Wire device id.
    closed spec fn view(&self) -> Seq<char> {
        self.w1_id@
    }
}

/// The mark of a DS18B20 in a 1-Wire device name: its family code `28-`.
pub open spec fn family_mark() -> Seq<char> {
    seq!['2', '8', '-']
}

/// The mark of a good CRC in the sensor's report.
pub open spec fn crc_ok_mark() -> Seq<char> {
    seq!['Y', 'E', 'S']
}

/// The mark before the temperature in the sensor's report.
pub open spec fn temp_mark() -> Seq<char> {
    seq!['t', '=']
}

/// Where the first occurrence of `needle` stands in `hay`.
pub open spec fn first_occurrence(hay: Seq<char>, needle: Seq<char>) -> int {
    choose|i: int| occurs_at(hay, needle, i) && forall|j: int| 0 <= j < i ==> !occurs_at(hay, needle, j)
}

/// The temperature field of a report: what follows the first `t=`, without
/// surrounding white space.
pub open spec fn temp_text(data: Seq<char>) -> Seq<char> {
    trim(data.skip(first_occurrence(data, temp_mark()) + 2))
}

proof fn lemma_first_occurrence(hay: Seq<char>, needle: Seq<char>, i: int)
    requires
        occurs_at(hay, needle, i),
        forall|j: int| 0 <= j < i ==> !occurs_at(hay, needle, j),
    ensures
        first_occurrence(hay, needle) == i,
{
    let c = first_occurrence(hay, needle);
    assert(occurs_at(hay, needle, c) && forall|j: int| 0 <= j < c ==> !occurs_at(hay, needle, j));
    if c < i {
        assert(!occurs_at(hay, needle, c));
    }
    if i < c {
        assert(!occurs_at(hay, needle, i));
    }
}

fn mark_chars(a: char, b: char, c: Option<char>) -> (r: Vec<char>)
    ensures
        r@ == (match c {
            Some(c) => seq![a, b, c],
            None => seq![a, b],
        }),
{
    let mut r: Vec<char> = Vec::new();
    r.push(a);
    r.push(b);
    if let Some(c) = c {
        r.push(c);
    }
    assert(r@ =~= (match c {
        Some(c) => seq![a, b, c],
        None => seq![a, b],
    }));
    r
}

/// Reads the temperature field of a sensor report: the text after the
/// first `t=`, trimmed, as a `u32`.
pub fn parse_temp(temp_data: String) -> (r: Result<u32, ParseIntError>)
    requires
        contains_text(temp_data@, temp_mark()),
    ensures
        r is Ok <==> is_u32_text(temp_text(temp_data@)),
        r matches Ok(v) ==> v == digits_value(unsigned_digits(temp_text(temp_data@))),
{
    let cs = chars_of(temp_data.as_str());
    let mark = mark_chars('t', '=', None);
    let i = match find_text(&cs, &mark) {
        Some(i) => i,
        None => {
            assert(false);
            0
        },
    };
    proof {
        assert(mark@ =~= temp_mark());
        assert(occurs_at(cs@, mark@, i as int));
        lemma_first_occurrence(temp_data@, temp_mark(), i as int);
    }
    assert(i + 2 <= cs.len());
    let rest = temp_data.as_str().substring_char(i + 2, cs.len());
    assert(rest@ =~= temp_data@.skip(i + 2));
    let field = trim_text(rest);
    parse_u32(field.as_str())
}

impl DS18B20 {
    /// The sensor behind a 1-Wire device entry, if the entry's name bears
    /// the DS18B20 family mark `28-`.
    pub fn from_device_name(name: String) -> (r: Option<DS18B20>)
        ensures
            r is Some <==> contains_text(name@, family_mark()),
            r matches Some(d) ==> d@ == name@,
    {
        let cs = chars_of(name.as_str());
        let mark = mark_chars('2', '8', Some('-'));
        match find_text(&cs, &mark) {
            Some(_) => Some(DS18B20 { w1_id: name }),
            None => None,
        }
    }

    /// The sensor's 1-Wire device id.
    pub fn w1_id(&self) -> (r: &str)
        ensures
            r@ == self@,
    {
        self.w1_id.as_str()
    }

    /// Reads the temperature from the sensor's report `temp_data`: a report
    /// without `YES` (a failed CRC) is a bad serial connection; otherwise the
    /// temperature field is read as thousandths of a degree.
    pub fn read_temp(&self, temp_data: String) -> (r: Result<MilliCelsius, W1Error>)
        requires
            contains_text(temp_data@, crc_ok_mark()) ==> contains_text(temp_data@, temp_mark()),
        ensures
            !contains_text(temp_data@, crc_ok_mark()) ==> r matches Err(
                W1Error::BadSerialConnection,
            ),
            contains_text(temp_data@, crc_ok_mark()) ==> {
                &&& r is Ok <==> is_u32_text(temp_text(temp_data@))
                &&& r matches Ok(m) ==> m@ == digits_value(
                    unsigned_digits(temp_text(temp_data@)),
                )
                &&& r is Err ==> r matches Err(W1Error::Parse(_))
            },
    {
        let cs = chars_of(temp_data.as_str());
        let mark = mark_chars('Y', 'E', Some('S'));
        if find_text(&cs, &mark).is_none() {
            return Err(W1Error::BadSerialConnection);
        }
        match parse_temp(temp_data) {
            Ok(v) => Ok(MilliCelsius(v)),
            Err(e) => Err(W1Error::Parse(e)),
        }
    }
}

/// A device name bears the DS18B20 family mark exactly when `2`, `8`, `-`
/// stand in a row in it; a report carries the good-CRC mark exactly when
/// `Y`, `E`, `S` stand in a row in it.
pub proof fn law_marks(name: Seq<char>, report: Seq<char>)
    ensures
        contains_text(name, family_mark()) <==> exists|i: int|
            0 <= i && i + 3 <= name.len() && #[trigger] name[i] == '2' && name[i + 1] == '8'
                && name[i + 2] == '-',
        contains_text(report, crc_ok_mark()) <==> exists|i: int|
            0 <= i && i + 3 <= report.len() && #[trigger] report[i] == 'Y' && report[i + 1]
                == 'E' && report[i + 2] == 'S',
{
    law_contains_three(name, '2', '8', '-');
    law_contains_three(report, 'Y', 'E', 'S');
}

/// A report whose first `t=` is followed by the decimal text of `n` and a
/// newline reads as `n`: the field is the whole number, none of its digits
/// trimmed.
pub proof fn law_report_reads_number(prefix: Seq<char>, n: nat)
    requires
        !contains_text(prefix, seq!['t', '=']),
        n <= u32::MAX,
    ensures
        ({
            let data = prefix + seq!['t', '='] + nat_text(n) + seq!['\n'];
            &&& contains_text(data, temp_mark())
            &&& temp_text(data) == nat_text(n)
            &&& is_u32_text(temp_text(data))
            &&& digits_value(unsigned_digits(temp_text(data))) == n
        }),
{
    let t = nat_text(n);
    let data = prefix + seq!['t', '='] + t + seq!['\n'];
    let mark = temp_mark();
    let p = prefix.len() as int;
    lemma_nat_text(n);
    assert(data.subrange(p, p + 2) =~= mark);
    assert(occurs_at(data, mark, p));
    assert forall|j: int| 0 <= j < p implies !occurs_at(data, mark, j) by {
        if j + 2 <= p {
            if occurs_at(data, mark, j) {
                assert(prefix.subrange(j, j + 2) =~= data.subrange(j, j + 2));
                assert(occurs_at(prefix, seq!['t', '='], j));
            }
        } else {
            assert(data[j + 1] == 't');
            if occurs_at(data, mark, j) {
                assert(data.subrange(j, j + 2)[1] == data[j + 1]);
            }
        }
    }
    lemma_first_occurrence(data, mark, p);
    assert(data.skip(p + 2) =~= t.push('\n'));
    assert(is_digit(t[0]));
    assert(is_digit(t.last()));
    law_digits_and_letters_are_not_white_space(t[0]);
    law_digits_and_letters_are_not_white_space(t.last());
    law_trim_drops_newline(t);
    assert(unsigned_digits(t) == t);
}

} // verus!
