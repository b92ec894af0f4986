//! The card-record decoder: a fixed-layout byte buffer read from the card
//! becomes a structured record, or a parse failure. No I/O, deterministic,
//! total over its success/failure partition.

use vstd::prelude::*;

use crate::big5::{big5_decode, decode_big5};
use crate::date::{date_valid, Date};
use crate::errors::NHICardParseError;
use crate::text::push_char;

verus! {

/// The card holder's sex, as the single marker byte encodes it.
#[derive(Debug, Clone, Copy, PartialEq, Eq, Structural)]
pub enum Sex {
    Male,
    Female,
}

pub open spec fn sex_char(s: Sex) -> char {
    if s == Sex::Male {
        'M'
    } else {
        'F'
    }
}

impl Sex {
    pub open spec fn spec_as_str(self) -> Seq<char> {
        seq![sex_char(self)]
    }

    pub fn as_str(&self) -> (r: &'static str)
        ensures
            r@ == self.spec_as_str(),
    {
        proof {
            reveal_strlit("M");
            reveal_strlit("F");
        }
        match self {
            Sex::Male => "M",
            Sex::Female => "F",
        }
    }
}

/// One decoded card: the reader it came from (set after decoding), the card
/// serial number, the holder's name, the national ID number, the birth and
/// issue dates, and the sex marker.
#[derive(Debug)]
pub struct NHICardBasic {
    pub reader_name: Option<String>,
    pub card_no: String,
    pub full_name: String,
    pub id_no: String,
    pub birth_date: Date,
    pub sex: Sex,
    pub issue_date: Date,
}

/// The mathematical shadow of a record: its text fields as character
/// sequences.
pub struct CardModel {
    pub reader_name: Option<Seq<char>>,
    pub card_no: Seq<char>,
    pub full_name: Seq<char>,
    pub id_no: Seq<char>,
    pub birth_date: Date,
    pub sex: Sex,
    pub issue_date: Date,
}

impl View for NHICardBasic {
    type V = CardModel;

    open spec fn view(&self) -> CardModel {
        CardModel {
            reader_name: match self.reader_name {
                Option::Some(s) => Option::Some(s@),
                Option::None => Option::None,
            },
            card_no: self.card_no@,
            full_name: self.full_name@,
            id_no: self.id_no@,
            birth_date: self.birth_date,
            sex: self.sex,
            issue_date: self.issue_date,
        }
    }
}

pub open spec fn is_digit_byte(b: u8) -> bool {
    48 <= b <= 57
}

pub open spec fn digit_byte_val(b: u8) -> int {
    b - 48
}

pub open spec fn window_is_ascii(data: Seq<u8>, start: int, end: int) -> bool {
    forall|i: int| start <= i < end ==> #[trigger] data[i] < 128
}

/// The characters of an all-ASCII byte window.
pub open spec fn ascii_window(data: Seq<u8>, start: int, end: int) -> Seq<char> {
    data.subrange(start, end).map_values(|b: u8| b as char)
}

/// Where the name field ends: the first zero byte at or after `i`, bounded
/// at offset 32.
pub open spec fn name_end(data: Seq<u8>, i: int) -> int
    decreases 32 - i,
{
    if i >= 32 {
        32
    } else if data[i] == 0 {
        i
    } else {
        name_end(data, i + 1)
    }
}

pub open spec fn date_window_digits(data: Seq<u8>, off: int) -> bool {
    forall|i: int| off <= i < off + 7 ==> is_digit_byte(#[trigger] data[i])
}

/// The civil year of a date window: three Minguo-calendar digits, offset by
/// 1911 years.
pub open spec fn window_year(data: Seq<u8>, off: int) -> int {
    1911 + 100 * digit_byte_val(data[off]) + 10 * digit_byte_val(data[off + 1]) + digit_byte_val(
        data[off + 2],
    )
}

pub open spec fn window_month(data: Seq<u8>, off: int) -> int {
    10 * digit_byte_val(data[off + 3]) + digit_byte_val(data[off + 4])
}

pub open spec fn window_day(data: Seq<u8>, off: int) -> int {
    10 * digit_byte_val(data[off + 5]) + digit_byte_val(data[off + 6])
}

/// A seven-byte date window decodes when all bytes are digits and the triple
/// names a day of the civil calendar.
pub open spec fn date_window_valid(data: Seq<u8>, off: int) -> bool {
    &&& date_window_digits(data, off)
    &&& date_valid(window_year(data, off), window_month(data, off), window_day(data, off))
}

pub open spec fn date_of_window(data: Seq<u8>, off: int) -> Date {
    Date {
        year: window_year(data, off) as u16,
        month: window_month(data, off) as u8,
        day: window_day(data, off) as u8,
    }
}

/// 77 and 70 are the ASCII codes of `M` and `F`.
pub open spec fn sex_byte_ok(b: u8) -> bool {
    b == 77 || b == 70
}

pub open spec fn sex_of_byte(b: u8) -> Sex {
    if b == 77 {
        Sex::Male
    } else {
        Sex::Female
    }
}

/// When a raw buffer decodes: long enough, serial and ID windows ASCII, the
/// name window clean Big5, both date windows valid, and a known sex marker.
pub open spec fn raw_valid(data: Seq<u8>) -> bool {
    &&& data.len() >= 57
    &&& window_is_ascii(data, 0, 12)
    &&& big5_decode(data.subrange(12, name_end(data, 12))) is Some
    &&& window_is_ascii(data, 32, 42)
    &&& date_window_valid(data, 42)
    &&& sex_byte_ok(data[49])
    &&& date_window_valid(data, 50)
}

/// The record a valid raw buffer decodes to, reader name not yet set.
pub open spec fn decoded_card(data: Seq<u8>) -> CardModel
    recommends
        raw_valid(data),
{
    CardModel {
        reader_name: Option::None,
        card_no: ascii_window(data, 0, 12),
        full_name: match big5_decode(data.subrange(12, name_end(data, 12))) {
            Option::Some(s) => s,
            Option::None => Seq::empty(),
        },
        id_no: ascii_window(data, 32, 42),
        birth_date: date_of_window(data, 42),
        sex: sex_of_byte(data[49]),
        issue_date: date_of_window(data, 50),
    }
}

/// A buffer shorter than 57 bytes never decodes, and neither does one whose
/// sex marker at offset 49 is not `M` or `F` — whatever the rest holds.
pub proof fn lemma_decode_rejects(data: Seq<u8>)
    ensures
        data.len() < 57 ==> !raw_valid(data),
        !sex_byte_ok(data[49]) ==> !raw_valid(data),
{
}

proof fn lemma_name_end_unterminated_from(data: Seq<u8>, i: int)
    requires
        12 <= i <= 32,
        forall|j: int| i <= j < 32 ==> data[j] != 0,
    ensures
        name_end(data, i) == 32,
    decreases 32 - i,
{
    if i < 32 {
        lemma_name_end_unterminated_from(data, i + 1);
    }
}

/// A name field with no zero terminator anywhere before offset 32 is taken
/// whole: the full 20-byte window is the name.
pub proof fn lemma_name_window_unterminated(data: Seq<u8>)
    requires
        forall|j: int| 12 <= j < 32 ==> data[j] != 0,
    ensures
        name_end(data, 12) == 32,
{
    lemma_name_end_unterminated_from(data, 12);
}

/// A zero byte inside the name window ends the name there: the first one
/// wins.
pub proof fn lemma_name_window_terminated(data: Seq<u8>, z: int)
    requires
        12 <= z < 32,
        data[z] == 0,
        forall|j: int| 12 <= j < z ==> data[j] != 0,
    ensures
        name_end(data, 12) == z,
{
    lemma_name_end_terminated_from(data, 12, z);
}

proof fn lemma_name_end_terminated_from(data: Seq<u8>, i: int, z: int)
    requires
        12 <= i <= z < 32,
        data[z] == 0,
        forall|j: int| i <= j < z ==> data[j] != 0,
    ensures
        name_end(data, i) == z,
    decreases 32 - i,
{
    if i < z {
        lemma_name_end_terminated_from(data, i + 1, z);
    }
}

/// Copies an all-ASCII byte window into a string, or reports the window as
/// non-ASCII.
fn ascii_string(data: &[u8], start: usize, end: usize) -> (r: Option<String>)
    requires
        start <= end <= data@.len(),
    ensures
        r is Some <==> window_is_ascii(data@, start as int, end as int),
        r matches Some(s) ==> s@ == ascii_window(data@, start as int, end as int),
{
    let mut s = String::new();
    let mut i: usize = start;
    while i < end
        invariant
            start <= i <= end <= data@.len(),
            window_is_ascii(data@, start as int, i as int),
            s@ == ascii_window(data@, start as int, i as int),
        decreases end - i,
    {
        let b = data[i];
        if b >= 128 {
            return None;
        }
        push_char(&mut s, b as char);
        proof {
            assert(s@ =~= ascii_window(data@, start as int, i + 1));
        }
        i = i + 1;
    }
    Some(s)
}

impl NHICardBasic {
    /// Decodes a seven-byte window as a Minguo-encoded date.
    fn raw_to_date(window: &[u8]) -> (r: Result<Date, NHICardParseError>)
        requires
            window@.len() == 7,
        ensures
            r is Ok <==> date_window_valid(window@, 0),
            r matches Ok(d) ==> d == date_of_window(window@, 0),
    {
        let mut i: usize = 0;
        while i < 7
            invariant
                i <= 7,
                window@.len() == 7,
                forall|j: int| 0 <= j < i ==> is_digit_byte(#[trigger] window@[j]),
            decreases 7 - i,
        {
            let b = window[i];
            if b < 48 || b > 57 {
                return Err(NHICardParseError);
            }
            i = i + 1;
        }
        let year: u16 = 1911 + 100 * ((window[0] - 48) as u16) + 10 * ((window[1] - 48) as u16) + (
        (window[2] - 48) as u16);
        let month: u8 = 10 * (window[3] - 48) + (window[4] - 48);
        let day: u8 = 10 * (window[5] - 48) + (window[6] - 48);
        match Date::new(year, month, day) {
            Some(date) => Ok(date),
            None => Err(NHICardParseError),
        }
    }

    /// Decodes the raw READ response. Succeeds exactly on the buffers that
    /// `raw_valid` admits, and then returns the record the fixed layout
    /// spells out, with no reader name set yet.
    pub fn from_raw(data: &[u8]) -> (r: Result<Self, NHICardParseError>)
        ensures
            r is Ok <==> raw_valid(data@),
            r matches Ok(c) ==> c@ == decoded_card(data@),
    {
        if data.len() < 57 {
            return Err(NHICardParseError);
        }

        let card_no = match ascii_string(data, 0, 12) {
            Some(s) => s,
            None => {
                return Err(NHICardParseError);
            },
        };

        let mut e: usize = 12;
        while e < 32 && data[e] != 0
            invariant
                12 <= e <= 32,
                data@.len() >= 57,
                name_end(data@, 12) == name_end(data@, e as int),
            decreases 32 - e,
        {
            proof {
                assert(name_end(data@, e as int) == name_end(data@, e as int + 1));
            }
            e = e + 1;
        }
        proof {
            assert(name_end(data@, e as int) == e as int);
        }

        let full_name = match decode_big5(&data[12..e]) {
            Some(s) => s,
            None => {
                return Err(NHICardParseError);
            },
        };

        let id_no = match ascii_string(data, 32, 42) {
            Some(s) => s,
            None => {
                return Err(NHICardParseError);
            },
        };

        let birth_date = match Self::raw_to_date(&data[42..49]) {
            Ok(d) => d,
            Err(err) => {
                return Err(err);
            },
        };

        let sex = if data[49] == 77 {
            Sex::Male
        } else if data[49] == 70 {
            Sex::Female
        } else {
            return Err(NHICardParseError);
        };

        let issue_date = match Self::raw_to_date(&data[50..57]) {
            Ok(d) => d,
            Err(err) => {
                return Err(err);
            },
        };

        Ok(NHICardBasic {
            reader_name: None,
            card_no,
            full_name,
            id_no,
            birth_date,
            sex,
            issue_date,
        })
    }
}

} // verus!
