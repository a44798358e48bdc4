//! One telemetry reading: the three values a sensor sends and the time at
//! which they were received.

use crate::number::{is_number, is_number_text};
use crate::query::QueryParams;
use vstd::prelude::*;

verus! {

/// One of the three values of a reading.
#[derive(Debug, Clone, Copy, PartialEq, Eq)]
pub enum Field {
    /// Counts per minute.
    Cpm,
    /// Counts per minute, averaged.
    Acpm,
    /// Microsieverts per hour.
    Usv,
}

impl Field {
    /// The name of the query parameter that carries this value. Names are
    /// matched exactly, capitals included.
    pub open spec fn key_text(self) -> Seq<char> {
        match self {
            Field::Cpm => "CPM"@,
            Field::Acpm => "ACPM"@,
            Field::Usv => "uSV"@,
        }
    }

    /// The name under which this value is stored and reported.
    pub open spec fn name_text(self) -> Seq<char> {
        match self {
            Field::Cpm => "cpm"@,
            Field::Acpm => "acpm"@,
            Field::Usv => "usv"@,
        }
    }

    /// The name of the query parameter that carries this value.
    pub fn key(self) -> (k: &'static str)
        ensures
            k@ == self.key_text(),
    {
        match self {
            Field::Cpm => "CPM",
            Field::Acpm => "ACPM",
            Field::Usv => "uSV",
        }
    }

    /// The name under which this value is stored and reported.
    pub fn name(self) -> (n: &'static str)
        ensures
            n@ == self.name_text(),
    {
        match self {
            Field::Cpm => "cpm",
            Field::Acpm => "acpm",
            Field::Usv => "usv",
        }
    }
}

/// Why a request carries no reading.
#[derive(Debug, Clone, Copy, PartialEq, Eq)]
pub enum ValidationError {
    /// The query has no parameter for this value.
    Missing(Field),
    /// The parameter for this value is not written as a number.
    NotNumeric(Field),
}

impl ValidationError {
    /// The diagnostic for this error, as text.
    pub open spec fn message_text(self) -> Seq<char> {
        match self {
            ValidationError::Missing(f) => "missing query parameter "@ + f.key_text(),
            ValidationError::NotNumeric(f) => "query parameter is not a number: "@ + f.key_text(),
        }
    }

    /// The diagnostic for this error.
    pub fn message(&self) -> (m: String)
        ensures
            m@ == self.message_text(),
    {
        match self {
            ValidationError::Missing(f) => "missing query parameter ".to_owned().concat(f.key()),
            ValidationError::NotNumeric(f) => "query parameter is not a number: ".to_owned().concat(
                f.key(),
            ),
        }
    }
}

/// What a reading is: the time of receipt in whole seconds since the epoch,
/// and the three values as the text of their numbers.
pub ghost struct ReadingView {
    pub timestamp: int,
    pub cpm: Seq<char>,
    pub acpm: Seq<char>,
    pub usv: Seq<char>,
}

impl ReadingView {
    /// Whether this is a reading: the time fits 64 bits and each value is
    /// written as a number.
    pub open spec fn valid(self) -> bool {
        &&& i64::MIN <= self.timestamp <= i64::MAX
        &&& is_number(self.cpm)
        &&& is_number(self.acpm)
        &&& is_number(self.usv)
    }

    /// The text of one of the three values.
    pub open spec fn value(self, field: Field) -> Seq<char> {
        match field {
            Field::Cpm => self.cpm,
            Field::Acpm => self.acpm,
            Field::Usv => self.usv,
        }
    }
}

/// The reading made of a time and three texts, or the error for the first of
/// `cpm`, `acpm`, `usv`, in this order, that is not written as a number.
pub open spec fn checked_reading(
    timestamp: int,
    cpm: Seq<char>,
    acpm: Seq<char>,
    usv: Seq<char>,
) -> Result<ReadingView, ValidationError> {
    if !is_number(cpm) {
        Err(ValidationError::NotNumeric(Field::Cpm))
    } else if !is_number(acpm) {
        Err(ValidationError::NotNumeric(Field::Acpm))
    } else if !is_number(usv) {
        Err(ValidationError::NotNumeric(Field::Usv))
    } else {
        Ok(ReadingView { timestamp, cpm, acpm, usv })
    }
}

/// What the parameters hold for one value: its text where the parameter is
/// there and is written as a number, else the error that says what is wrong.
pub open spec fn param_value(params: Map<Seq<char>, Seq<char>>, field: Field) -> Result<
    Seq<char>,
    ValidationError,
> {
    if !params.contains_key(field.key_text()) {
        Err(ValidationError::Missing(field))
    } else if !is_number(params[field.key_text()]) {
        Err(ValidationError::NotNumeric(field))
    } else {
        Ok(params[field.key_text()])
    }
}

/// The reading that a request's parameters carry, stamped with `timestamp`.
/// The three values are looked at in the order `CPM`, `ACPM`, `uSV`; the first
/// one that is missing or no number decides the error.
pub open spec fn read_params(params: Map<Seq<char>, Seq<char>>, timestamp: int) -> Result<
    ReadingView,
    ValidationError,
> {
    match param_value(params, Field::Cpm) {
        Err(e) => Err(e),
        Ok(cpm) => match param_value(params, Field::Acpm) {
            Err(e) => Err(e),
            Ok(acpm) => match param_value(params, Field::Usv) {
                Err(e) => Err(e),
                Ok(usv) => Ok(ReadingView { timestamp, cpm, acpm, usv }),
            },
        },
    }
}

/// What a result that holds a reading stands for.
pub open spec fn result_view(r: Result<Reading, ValidationError>) -> Result<
    ReadingView,
    ValidationError,
> {
    match r {
        Ok(reading) => Ok(reading@),
        Err(e) => Err(e),
    }
}

/// A request that carries all three parameters, each written as a number,
/// yields the reading with exactly those three values and the time it was
/// stamped with.
pub proof fn lemma_numeric_params_are_read(
    params: Map<Seq<char>, Seq<char>>,
    timestamp: int,
    cpm: Seq<char>,
    acpm: Seq<char>,
    usv: Seq<char>,
)
    requires
        params.contains_pair(Field::Cpm.key_text(), cpm),
        params.contains_pair(Field::Acpm.key_text(), acpm),
        params.contains_pair(Field::Usv.key_text(), usv),
        is_number(cpm),
        is_number(acpm),
        is_number(usv),
    ensures
        read_params(params, timestamp) == Ok::<ReadingView, ValidationError>(
            ReadingView { timestamp, cpm, acpm, usv },
        ),
{
}

/// A request yields a reading only if it carries all three parameters, each
/// written as a number; the reading then holds the time it was stamped with
/// and, for each value, the text that the parameter holds.
pub proof fn lemma_reading_comes_from_params(
    params: Map<Seq<char>, Seq<char>>,
    timestamp: int,
    r: ReadingView,
)
    requires
        read_params(params, timestamp) == Ok::<ReadingView, ValidationError>(r),
    ensures
        r.timestamp == timestamp,
        forall|f: Field|
            {
                &&& params.contains_key(#[trigger] f.key_text())
                &&& is_number(params[f.key_text()])
                &&& r.value(f) == params[f.key_text()]
            },
{
    assert(param_value(params, Field::Cpm) is Ok);
    assert(param_value(params, Field::Acpm) is Ok);
    assert(param_value(params, Field::Usv) is Ok);
    assert forall|f: Field|
        {
            &&& params.contains_key(#[trigger] f.key_text())
            &&& is_number(params[f.key_text()])
            &&& r.value(f) == params[f.key_text()]
        } by {
        match f {
            Field::Cpm => {},
            Field::Acpm => {},
            Field::Usv => {},
        }
    }
}

/// One telemetry reading. It cannot be changed once made, and each of its
/// three values is written as a number.
#[derive(Debug, PartialEq, Eq)]
pub struct Reading {
    timestamp: i64,
    cpm: String,
    acpm: String,
    usv: String,
}

impl View for Reading {
    type V = ReadingView;

    closed spec fn view(&self) -> ReadingView {
        ReadingView {
            timestamp: self.timestamp as int,
            cpm: self.cpm@,
            acpm: self.acpm@,
            usv: self.usv@,
        }
    }
}

impl Clone for Reading {
    fn clone(&self) -> (r: Reading)
        ensures
            r@ == self@,
    {
        proof {
            use_type_invariant(self);
        }
        Reading {
            timestamp: self.timestamp,
            cpm: self.cpm.clone(),
            acpm: self.acpm.clone(),
            usv: self.usv.clone(),
        }
    }
}

impl Reading {
    #[verifier::type_invariant]
    spec fn numeric(&self) -> bool {
        is_number(self.cpm@) && is_number(self.acpm@) && is_number(self.usv@)
    }

    /// The reading received at `timestamp` with the three values given as
    /// text, or the error for the first text that is not written as a number.
    pub fn new(timestamp: i64, cpm: String, acpm: String, usv: String) -> (r: Result<
        Reading,
        ValidationError,
    >)
        ensures
            result_view(r) == checked_reading(timestamp as int, cpm@, acpm@, usv@),
            r matches Ok(reading) ==> reading@.valid(),
    {
        if !is_number_text(cpm.as_str()) {
            Err(ValidationError::NotNumeric(Field::Cpm))
        } else if !is_number_text(acpm.as_str()) {
            Err(ValidationError::NotNumeric(Field::Acpm))
        } else if !is_number_text(usv.as_str()) {
            Err(ValidationError::NotNumeric(Field::Usv))
        } else {
            Ok(Reading { timestamp, cpm, acpm, usv })
        }
    }

    /// The reading that a request's parameters carry, received at
    /// `timestamp`, or the error for the first of the three values that is
    /// missing or not written as a number.
    pub fn from_params(params: &QueryParams, timestamp: i64) -> (r: Result<Reading, ValidationError>)
        ensures
            result_view(r) == read_params(params@, timestamp as int),
            r matches Ok(reading) ==> reading@.valid(),
    {
        let cpm = match param_text(params, Field::Cpm) {
            Ok(text) => text,
            Err(e) => {
                return Err(e);
            },
        };
        let acpm = match param_text(params, Field::Acpm) {
            Ok(text) => text,
            Err(e) => {
                return Err(e);
            },
        };
        let usv = match param_text(params, Field::Usv) {
            Ok(text) => text,
            Err(e) => {
                return Err(e);
            },
        };
        Ok(Reading { timestamp, cpm, acpm, usv })
    }

    /// The time of receipt, in whole seconds since the epoch.
    pub fn timestamp(&self) -> (t: i64)
        ensures
            t == self@.timestamp,
    {
        self.timestamp
    }

    /// The text of one of the three values.
    pub fn value(&self, field: Field) -> (v: &str)
        ensures
            v@ == self@.value(field),
            is_number(v@),
            self@.valid(),
    {
        proof {
            use_type_invariant(self);
        }
        match field {
            Field::Cpm => self.cpm.as_str(),
            Field::Acpm => self.acpm.as_str(),
            Field::Usv => self.usv.as_str(),
        }
    }
}

/// The text that the parameters hold for one value, or what is wrong with it.
fn param_text(params: &QueryParams, field: Field) -> (r: Result<String, ValidationError>)
    ensures
        match r {
            Ok(text) => param_value(params@, field) == Ok::<Seq<char>, ValidationError>(text@),
            Err(e) => param_value(params@, field) == Err::<Seq<char>, ValidationError>(e),
        },
{
    match params.get(field.key()) {
        None => Err(ValidationError::Missing(field)),
        Some(text) => {
            if is_number_text(text) {
                Ok(text.to_owned())
            } else {
                Err(ValidationError::NotNumeric(field))
            }
        },
    }
}

} // verus!
