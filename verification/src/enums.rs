use crate::error::Error;
use vstd::prelude::*;

verus! {

/// Relies on `str`'s `PartialEq`: two string slices compare equal exactly
/// when their character sequences are equal.
pub assume_specification[ <str as PartialEq>::eq ](a: &str, b: &str) -> (r: bool)
    ensures
        r == (a@ == b@),
;

/// Equality of two string slices as character sequences.
pub(crate) fn str_eq(a: &str, b: &str) -> (r: bool)
    ensures
        r == (a@ == b@),
{
    <str as PartialEq>::eq(a, b)
}

/// Side of the book an order or an aggressor belongs to, carried on the
/// wire as the ASCII byte of its initial.
#[derive(Debug, Clone, Copy, PartialEq, Eq, Hash, Structural)]
pub enum Side {
    /// A sell order or sell aggressor in a trade (`A`).
    Ask,
    /// A buy order or a buy aggressor in a trade (`B`).
    Bid,
    /// No side specified by the original source (`N`).
    Unspecified,
}

impl Side {
    /// The ASCII byte this side is carried as.
    pub fn to_u8(self) -> (r: u8)
        ensures
            r == (match self {
                Side::Ask => 65u8,
                Side::Bid => 66u8,
                Side::Unspecified => 78u8,
            }),
    {
        match self {
            Side::Ask => 65u8,
            Side::Bid => 66u8,
            Side::Unspecified => 78u8,
        }
    }

    /// The same byte as a signed value, as record fields store it.
    pub fn to_i8(self) -> (r: i8)
        ensures
            r == (match self {
                Side::Ask => 65i8,
                Side::Bid => 66i8,
                Side::Unspecified => 78i8,
            }),
    {
        match self {
            Side::Ask => 65i8,
            Side::Bid => 66i8,
            Side::Unspecified => 78i8,
        }
    }

    /// The side's initial as a character.
    pub fn to_char(self) -> (r: char)
        ensures
            r == (match self {
                Side::Ask => 'A',
                Side::Bid => 'B',
                Side::Unspecified => 'N',
            }),
    {
        match self {
            Side::Ask => 'A',
            Side::Bid => 'B',
            Side::Unspecified => 'N',
        }
    }

    /// The side a byte stands for, if any.
    pub fn try_from(value: u8) -> (r: Result<Side, Error>)
        ensures
            r == (if value == 65u8 {
                Ok::<Side, Error>(Side::Ask)
            } else if value == 66u8 {
                Ok::<Side, Error>(Side::Bid)
            } else if value == 78u8 {
                Ok::<Side, Error>(Side::Unspecified)
            } else {
                Err::<Side, Error>(Error::Conversion)
            }),
    {
        if value == 65u8 {
            Ok(Side::Ask)
        } else if value == 66u8 {
            Ok(Side::Bid)
        } else if value == 78u8 {
            Ok(Side::Unspecified)
        } else {
            Err(Error::Conversion)
        }
    }
}

/// What a book event did, carried on the wire as the ASCII byte of its
/// initial.
#[derive(Debug, Clone, Copy, PartialEq, Eq, Hash, Structural)]
pub enum Action {
    /// An existing order was modified: price and/or size (`M`).
    Modify,
    /// An aggressing order traded; does not affect the book (`T`).
    Trade,
    /// An existing order was filled; does not affect the book (`F`).
    Fill,
    /// An order was fully or partially cancelled (`C`).
    Cancel,
    /// A new order was added to the book (`A`).
    Add,
    /// Reset the book: clear all orders for an instrument (`R`).
    Clear,
}

impl Action {
    /// The ASCII byte this action is carried as.
    pub fn to_u8(self) -> (r: u8)
        ensures
            r == (match self {
                Action::Modify => 77u8,
                Action::Trade => 84u8,
                Action::Fill => 70u8,
                Action::Cancel => 67u8,
                Action::Add => 65u8,
                Action::Clear => 82u8,
            }),
    {
        match self {
            Action::Modify => 77u8,
            Action::Trade => 84u8,
            Action::Fill => 70u8,
            Action::Cancel => 67u8,
            Action::Add => 65u8,
            Action::Clear => 82u8,
        }
    }

    /// The same byte as a signed value, as record fields store it.
    pub fn to_i8(self) -> (r: i8)
        ensures
            r == (match self {
                Action::Modify => 77i8,
                Action::Trade => 84i8,
                Action::Fill => 70i8,
                Action::Cancel => 67i8,
                Action::Add => 65i8,
                Action::Clear => 82i8,
            }),
    {
        match self {
            Action::Modify => 77i8,
            Action::Trade => 84i8,
            Action::Fill => 70i8,
            Action::Cancel => 67i8,
            Action::Add => 65i8,
            Action::Clear => 82i8,
        }
    }

    /// The action's initial as a character.
    pub fn to_char(self) -> (r: char)
        ensures
            r == (match self {
                Action::Modify => 'M',
                Action::Trade => 'T',
                Action::Fill => 'F',
                Action::Cancel => 'C',
                Action::Add => 'A',
                Action::Clear => 'R',
            }),
    {
        match self {
            Action::Modify => 'M',
            Action::Trade => 'T',
            Action::Fill => 'F',
            Action::Cancel => 'C',
            Action::Add => 'A',
            Action::Clear => 'R',
        }
    }

    /// The action a byte stands for, if any.
    pub fn try_from(value: u8) -> (r: Result<Action, Error>)
        ensures
            r == (if value == 77u8 {
                Ok::<Action, Error>(Action::Modify)
            } else if value == 84u8 {
                Ok::<Action, Error>(Action::Trade)
            } else if value == 70u8 {
                Ok::<Action, Error>(Action::Fill)
            } else if value == 67u8 {
                Ok::<Action, Error>(Action::Cancel)
            } else if value == 65u8 {
                Ok::<Action, Error>(Action::Add)
            } else if value == 82u8 {
                Ok::<Action, Error>(Action::Clear)
            } else {
                Err::<Action, Error>(Error::Conversion)
            }),
    {
        if value == 77u8 {
            Ok(Action::Modify)
        } else if value == 84u8 {
            Ok(Action::Trade)
        } else if value == 70u8 {
            Ok(Action::Fill)
        } else if value == 67u8 {
            Ok(Action::Cancel)
        } else if value == 65u8 {
            Ok(Action::Add)
        } else if value == 82u8 {
            Ok(Action::Clear)
        } else {
            Err(Error::Conversion)
        }
    }
}

/// The data shape a container was captured in: top-of-book updates or
/// bars of one of the supported widths.
#[derive(Debug, Clone, Copy, PartialEq, Eq, Hash, Structural)]
pub enum Schema {
    Mbp1,
    Ohlcv1S,
    Ohlcv1M,
    Ohlcv1H,
    Ohlcv1D,
}

/// The byte a schema is carried as inside the metadata block.
pub open spec fn schema_byte(s: Schema) -> u8 {
    match s {
        Schema::Mbp1 => 1u8,
        Schema::Ohlcv1S => 2u8,
        Schema::Ohlcv1M => 3u8,
        Schema::Ohlcv1H => 4u8,
        Schema::Ohlcv1D => 5u8,
    }
}

/// The schema a metadata byte stands for, if any.
pub open spec fn schema_of_byte(b: u8) -> Option<Schema> {
    if b == 1u8 {
        Some(Schema::Mbp1)
    } else if b == 2u8 {
        Some(Schema::Ohlcv1S)
    } else if b == 3u8 {
        Some(Schema::Ohlcv1M)
    } else if b == 4u8 {
        Some(Schema::Ohlcv1H)
    } else if b == 5u8 {
        Some(Schema::Ohlcv1D)
    } else {
        None
    }
}

impl Schema {
    /// The byte this schema is carried as inside the metadata block.
    pub fn to_u8(self) -> (r: u8)
        ensures
            r == schema_byte(self),
    {
        match self {
            Schema::Mbp1 => 1u8,
            Schema::Ohlcv1S => 2u8,
            Schema::Ohlcv1M => 3u8,
            Schema::Ohlcv1H => 4u8,
            Schema::Ohlcv1D => 5u8,
        }
    }

    /// The schema a metadata byte stands for, if any.
    pub fn try_from(value: u8) -> (r: Result<Schema, Error>)
        ensures
            r == (match schema_of_byte(value) {
                Some(s) => Ok::<Schema, Error>(s),
                None => Err::<Schema, Error>(Error::Conversion),
            }),
    {
        if value == 1u8 {
            Ok(Schema::Mbp1)
        } else if value == 2u8 {
            Ok(Schema::Ohlcv1S)
        } else if value == 3u8 {
            Ok(Schema::Ohlcv1M)
        } else if value == 4u8 {
            Ok(Schema::Ohlcv1H)
        } else if value == 5u8 {
            Ok(Schema::Ohlcv1D)
        } else {
            Err(Error::Conversion)
        }
    }

    /// The schema's display name.
    pub fn as_str(&self) -> (r: &'static str)
        ensures
            r@ == (match self {
                Schema::Mbp1 => "mbp-1"@,
                Schema::Ohlcv1S => "ohlcv-1s"@,
                Schema::Ohlcv1M => "ohlcv-1m"@,
                Schema::Ohlcv1H => "ohlcv-1h"@,
                Schema::Ohlcv1D => "ohlcv-1d"@,
            }),
    {
        match self {
            Schema::Mbp1 => "mbp-1",
            Schema::Ohlcv1S => "ohlcv-1s",
            Schema::Ohlcv1M => "ohlcv-1m",
            Schema::Ohlcv1H => "ohlcv-1h",
            Schema::Ohlcv1D => "ohlcv-1d",
        }
    }

    /// The schema a display name stands for, if any.
    pub fn from_str(value: &str) -> (r: Result<Schema, Error>)
        ensures
            r == (if value@ == "mbp-1"@ {
                Ok::<Schema, Error>(Schema::Mbp1)
            } else if value@ == "ohlcv-1s"@ {
                Ok::<Schema, Error>(Schema::Ohlcv1S)
            } else if value@ == "ohlcv-1m"@ {
                Ok::<Schema, Error>(Schema::Ohlcv1M)
            } else if value@ == "ohlcv-1h"@ {
                Ok::<Schema, Error>(Schema::Ohlcv1H)
            } else if value@ == "ohlcv-1d"@ {
                Ok::<Schema, Error>(Schema::Ohlcv1D)
            } else {
                Err::<Schema, Error>(Error::Conversion)
            }),
    {
        if str_eq(value, "mbp-1") {
            Ok(Schema::Mbp1)
        } else if str_eq(value, "ohlcv-1s") {
            Ok(Schema::Ohlcv1S)
        } else if str_eq(value, "ohlcv-1m") {
            Ok(Schema::Ohlcv1M)
        } else if str_eq(value, "ohlcv-1h") {
            Ok(Schema::Ohlcv1H)
        } else if str_eq(value, "ohlcv-1d") {
            Ok(Schema::Ohlcv1D)
        } else {
            Err(Error::Conversion)
        }
    }
}

/// One-byte discriminant identifying a record's concrete layout.
#[derive(Debug, Clone, Copy, PartialEq, Eq, Hash, Structural)]
pub enum RType {
    Mbp1,
    Ohlcv,
}

impl RType {
    /// The byte this record type is carried as in a record header.
    pub fn to_u8(self) -> (r: u8)
        ensures
            r == (match self {
                RType::Mbp1 => 1u8,
                RType::Ohlcv => 2u8,
            }),
    {
        match self {
            RType::Mbp1 => 1u8,
            RType::Ohlcv => 2u8,
        }
    }

    /// The record type a header byte stands for, if any.
    pub fn try_from(value: u8) -> (r: Result<RType, Error>)
        ensures
            r == (if value == 1u8 {
                Ok::<RType, Error>(RType::Mbp1)
            } else if value == 2u8 {
                Ok::<RType, Error>(RType::Ohlcv)
            } else {
                Err::<RType, Error>(Error::Conversion)
            }),
    {
        if value == 1u8 {
            Ok(RType::Mbp1)
        } else if value == 2u8 {
            Ok(RType::Ohlcv)
        } else {
            Err(Error::Conversion)
        }
    }

    /// The record type that carries data of a given schema.
    pub fn from(schema: Schema) -> (r: RType)
        ensures
            r == (match schema {
                Schema::Mbp1 => RType::Mbp1,
                Schema::Ohlcv1S => RType::Ohlcv,
                Schema::Ohlcv1M => RType::Ohlcv,
                Schema::Ohlcv1H => RType::Ohlcv,
                Schema::Ohlcv1D => RType::Ohlcv,
            }),
    {
        match schema {
            Schema::Mbp1 => RType::Mbp1,
            Schema::Ohlcv1S => RType::Ohlcv,
            Schema::Ohlcv1M => RType::Ohlcv,
            Schema::Ohlcv1H => RType::Ohlcv,
            Schema::Ohlcv1D => RType::Ohlcv,
        }
    }

    /// The record type's display name.
    pub fn as_str(&self) -> (r: &'static str)
        ensures
            r@ == (match self {
                RType::Mbp1 => "mbp-1"@,
                RType::Ohlcv => "ohlcv"@,
            }),
    {
        match self {
            RType::Mbp1 => "mbp-1",
            RType::Ohlcv => "ohlcv",
        }
    }

    /// The record type a display name stands for, if any.
    pub fn from_str(s: &str) -> (r: Result<RType, Error>)
        ensures
            r == (if s@ == "mbp-1"@ {
                Ok::<RType, Error>(RType::Mbp1)
            } else if s@ == "ohlcv"@ {
                Ok::<RType, Error>(RType::Ohlcv)
            } else {
                Err::<RType, Error>(Error::Conversion)
            }),
    {
        if str_eq(s, "mbp-1") {
            Ok(RType::Mbp1)
        } else if str_eq(s, "ohlcv") {
            Ok(RType::Ohlcv)
        } else {
            Err(Error::Conversion)
        }
    }
}

} // verus!
