//! The control-plane vocabulary: requests, responses and target descriptors.
//!
//! A controller sends a [`Request`] over the control plane and receives a
//! [`Response`].  Targets are catalog entries ([`AirportCodes`]) identified
//! by an enumerated code ([`TargetCode`]).  Every type has a mathematical
//! model, and the wire codecs for the vocabulary are specified and proved
//! against those models.

use vstd::prelude::*;
use vstd::bytes::lemma_auto_spec_u32_to_from_le_bytes;
use vstd::utf8::encode_utf8;
use crate::errors::CoreError;
use crate::wire::{
    fits_u32, read_bool, read_byte, read_string, read_string_list, read_u32, spec_parse_bool,
    spec_parse_byte, spec_parse_string, spec_parse_string_list, spec_parse_u32, spec_ser_bool,
    spec_ser_byte, spec_ser_string, spec_ser_string_list, spec_ser_u32, string_fits, strings_fit,
    write_bool, write_byte, write_string, write_string_list, write_u32,
};
use crate::wire::{
    lemma_parse_bool_at, lemma_parse_byte_at, lemma_parse_string_at, lemma_parse_string_list_at,
    lemma_parse_u32_at, lemma_split3,
};

verus! {

// ---------------------------------------------------------------------------
// Target codes
// ---------------------------------------------------------------------------

/// The enumerated code that identifies a catalog target.  The catalog is
/// externally supplied configuration; the core only reads it.
#[derive(Clone, Copy, PartialEq, Eq, Structural, Debug, Hash)]
pub enum TargetCode {
    ALL,
    JFK,
    LHR,
    CDG,
    PEK,
    SFO,
    SYD,
    HND,
    DXB,
    YYZ,
    MUC,
    AMS,
    ICN,
    DEL,
    MIA,
    SIN,
    KUL,
    IST,
    MEX,
    SYR,
    BOM,
}

impl TargetCode {
    /// The one-byte wire tag of this code.
    pub open spec fn spec_tag(self) -> u8 {
        match self {
            TargetCode::ALL => 0,
            TargetCode::JFK => 1,
            TargetCode::LHR => 2,
            TargetCode::CDG => 3,
            TargetCode::PEK => 4,
            TargetCode::SFO => 5,
            TargetCode::SYD => 6,
            TargetCode::HND => 7,
            TargetCode::DXB => 8,
            TargetCode::YYZ => 9,
            TargetCode::MUC => 10,
            TargetCode::AMS => 11,
            TargetCode::ICN => 12,
            TargetCode::DEL => 13,
            TargetCode::MIA => 14,
            TargetCode::SIN => 15,
            TargetCode::KUL => 16,
            TargetCode::IST => 17,
            TargetCode::MEX => 18,
            TargetCode::SYR => 19,
            TargetCode::BOM => 20,
        }
    }

    /// The code a one-byte wire tag stands for, if any.
    pub open spec fn spec_from_tag(t: u8) -> Option<TargetCode> {
        if t == 0 {
            Some(TargetCode::ALL)
        } else if t == 1 {
            Some(TargetCode::JFK)
        } else if t == 2 {
            Some(TargetCode::LHR)
        } else if t == 3 {
            Some(TargetCode::CDG)
        } else if t == 4 {
            Some(TargetCode::PEK)
        } else if t == 5 {
            Some(TargetCode::SFO)
        } else if t == 6 {
            Some(TargetCode::SYD)
        } else if t == 7 {
            Some(TargetCode::HND)
        } else if t == 8 {
            Some(TargetCode::DXB)
        } else if t == 9 {
            Some(TargetCode::YYZ)
        } else if t == 10 {
            Some(TargetCode::MUC)
        } else if t == 11 {
            Some(TargetCode::AMS)
        } else if t == 12 {
            Some(TargetCode::ICN)
        } else if t == 13 {
            Some(TargetCode::DEL)
        } else if t == 14 {
            Some(TargetCode::MIA)
        } else if t == 15 {
            Some(TargetCode::SIN)
        } else if t == 16 {
            Some(TargetCode::KUL)
        } else if t == 17 {
            Some(TargetCode::IST)
        } else if t == 18 {
            Some(TargetCode::MEX)
        } else if t == 19 {
            Some(TargetCode::SYR)
        } else if t == 20 {
            Some(TargetCode::BOM)
        } else {
            None
        }
    }

    /// Parsing a code's own tag yields the code back.
    pub proof fn lemma_tag_round_trip(self)
        ensures
            TargetCode::spec_from_tag(self.spec_tag()) == Some(self),
    {
    }

    pub fn tag(self) -> (r: u8)
        ensures
            r == self.spec_tag(),
    {
        match self {
            TargetCode::ALL => 0,
            TargetCode::JFK => 1,
            TargetCode::LHR => 2,
            TargetCode::CDG => 3,
            TargetCode::PEK => 4,
            TargetCode::SFO => 5,
            TargetCode::SYD => 6,
            TargetCode::HND => 7,
            TargetCode::DXB => 8,
            TargetCode::YYZ => 9,
            TargetCode::MUC => 10,
            TargetCode::AMS => 11,
            TargetCode::ICN => 12,
            TargetCode::DEL => 13,
            TargetCode::MIA => 14,
            TargetCode::SIN => 15,
            TargetCode::KUL => 16,
            TargetCode::IST => 17,
            TargetCode::MEX => 18,
            TargetCode::SYR => 19,
            TargetCode::BOM => 20,
        }
    }

    pub fn from_tag(t: u8) -> (r: Option<TargetCode>)
        ensures
            r == TargetCode::spec_from_tag(t),
    {
        if t == 0 {
            Some(TargetCode::ALL)
        } else if t == 1 {
            Some(TargetCode::JFK)
        } else if t == 2 {
            Some(TargetCode::LHR)
        } else if t == 3 {
            Some(TargetCode::CDG)
        } else if t == 4 {
            Some(TargetCode::PEK)
        } else if t == 5 {
            Some(TargetCode::SFO)
        } else if t == 6 {
            Some(TargetCode::SYD)
        } else if t == 7 {
            Some(TargetCode::HND)
        } else if t == 8 {
            Some(TargetCode::DXB)
        } else if t == 9 {
            Some(TargetCode::YYZ)
        } else if t == 10 {
            Some(TargetCode::MUC)
        } else if t == 11 {
            Some(TargetCode::AMS)
        } else if t == 12 {
            Some(TargetCode::ICN)
        } else if t == 13 {
            Some(TargetCode::DEL)
        } else if t == 14 {
            Some(TargetCode::MIA)
        } else if t == 15 {
            Some(TargetCode::SIN)
        } else if t == 16 {
            Some(TargetCode::KUL)
        } else if t == 17 {
            Some(TargetCode::IST)
        } else if t == 18 {
            Some(TargetCode::MEX)
        } else if t == 19 {
            Some(TargetCode::SYR)
        } else if t == 20 {
            Some(TargetCode::BOM)
        } else {
            None
        }
    }
}

// ---------------------------------------------------------------------------
// Target descriptors
// ---------------------------------------------------------------------------

/// The enumerated catalog of targets.  Each entry carries a location, a
/// numeric identifier, a display name and a lock flag; the core only reads
/// or toggles the lock flag and filters by code.
#[derive(Clone, Debug, PartialEq, Eq, Hash, PartialOrd, Ord)]
pub enum AirportCodes {
    /// All targets at once.
    ALL { location: String, target_number: u32, target_name: String, locked: bool },
    /// John F. Kennedy International Airport (New York, USA).
    JFK { location: String, target_number: u32, target_name: String, locked: bool },
    /// London Heathrow Airport (London, UK).
    LHR { location: String, target_number: u32, target_name: String, locked: bool },
    /// Charles de Gaulle Airport (Paris, France).
    CDG { location: String, target_number: u32, target_name: String, locked: bool },
    /// Beijing Capital International Airport (Beijing, China).
    PEK { location: String, target_number: u32, target_name: String, locked: bool },
    /// San Francisco International Airport (San Francisco, USA).
    SFO { location: String, target_number: u32, target_name: String, locked: bool },
    /// Sydney Kingsford Smith Airport (Sydney, Australia).
    SYD { location: String, target_number: u32, target_name: String, locked: bool },
    /// Haneda Airport (Tokyo, Japan).
    HND { location: String, target_number: u32, target_name: String, locked: bool },
    /// Dubai International Airport (Dubai, UAE).
    DXB { location: String, target_number: u32, target_name: String, locked: bool },
    /// Toronto Pearson International Airport (Toronto, Canada).
    YYZ { location: String, target_number: u32, target_name: String, locked: bool },
    /// Munich Airport (Munich, Germany).
    MUC { location: String, target_number: u32, target_name: String, locked: bool },
    /// Amsterdam Airport Schiphol (Amsterdam, Netherlands).
    AMS { location: String, target_number: u32, target_name: String, locked: bool },
    /// Incheon International Airport (Seoul, South Korea).
    ICN { location: String, target_number: u32, target_name: String, locked: bool },
    /// Indira Gandhi International Airport (New Delhi, India).
    DEL { location: String, target_number: u32, target_name: String, locked: bool },
    /// Miami International Airport (Miami, USA).
    MIA { location: String, target_number: u32, target_name: String, locked: bool },
    /// Singapore Changi Airport (Singapore).
    SIN { location: String, target_number: u32, target_name: String, locked: bool },
    /// Kuala Lumpur International Airport (Kuala Lumpur, Malaysia).
    KUL { location: String, target_number: u32, target_name: String, locked: bool },
    /// Istanbul Airport (Istanbul, Turkey).
    IST { location: String, target_number: u32, target_name: String, locked: bool },
    /// Mexico City International Airport (Mexico City, Mexico).
    MEX { location: String, target_number: u32, target_name: String, locked: bool },
    /// Syracuse Hancock International Airport (Syracuse, USA).
    SYR { location: String, target_number: u32, target_name: String, locked: bool },
    /// Chhatrapati Shivaji Maharaj International Airport (Mumbai, India).
    BOM { location: String, target_number: u32, target_name: String, locked: bool },
}

/// The mathematical model of a target descriptor.
pub struct TargetModel {
    pub code: TargetCode,
    pub location: Seq<char>,
    pub target_number: u32,
    pub target_name: Seq<char>,
    pub locked: bool,
}

impl View for AirportCodes {
    type V = TargetModel;

    open spec fn view(&self) -> TargetModel {
        match self {
            AirportCodes::ALL { location, target_number, target_name, locked } => TargetModel {
                code: TargetCode::ALL,
                location: location@,
                target_number: *target_number,
                target_name: target_name@,
                locked: *locked,
            },
            AirportCodes::JFK { location, target_number, target_name, locked } => TargetModel {
                code: TargetCode::JFK,
                location: location@,
                target_number: *target_number,
                target_name: target_name@,
                locked: *locked,
            },
            AirportCodes::LHR { location, target_number, target_name, locked } => TargetModel {
                code: TargetCode::LHR,
                location: location@,
                target_number: *target_number,
                target_name: target_name@,
                locked: *locked,
            },
            AirportCodes::CDG { location, target_number, target_name, locked } => TargetModel {
                code: TargetCode::CDG,
                location: location@,
                target_number: *target_number,
                target_name: target_name@,
                locked: *locked,
            },
            AirportCodes::PEK { location, target_number, target_name, locked } => TargetModel {
                code: TargetCode::PEK,
                location: location@,
                target_number: *target_number,
                target_name: target_name@,
                locked: *locked,
            },
            AirportCodes::SFO { location, target_number, target_name, locked } => TargetModel {
                code: TargetCode::SFO,
                location: location@,
                target_number: *target_number,
                target_name: target_name@,
                locked: *locked,
            },
            AirportCodes::SYD { location, target_number, target_name, locked } => TargetModel {
                code: TargetCode::SYD,
                location: location@,
                target_number: *target_number,
                target_name: target_name@,
                locked: *locked,
            },
            AirportCodes::HND { location, target_number, target_name, locked } => TargetModel {
                code: TargetCode::HND,
                location: location@,
                target_number: *target_number,
                target_name: target_name@,
                locked: *locked,
            },
            AirportCodes::DXB { location, target_number, target_name, locked } => TargetModel {
                code: TargetCode::DXB,
                location: location@,
                target_number: *target_number,
                target_name: target_name@,
                locked: *locked,
            },
            AirportCodes::YYZ { location, target_number, target_name, locked } => TargetModel {
                code: TargetCode::YYZ,
                location: location@,
                target_number: *target_number,
                target_name: target_name@,
                locked: *locked,
            },
            AirportCodes::MUC { location, target_number, target_name, locked } => TargetModel {
                code: TargetCode::MUC,
                location: location@,
                target_number: *target_number,
                target_name: target_name@,
                locked: *locked,
            },
            AirportCodes::AMS { location, target_number, target_name, locked } => TargetModel {
                code: TargetCode::AMS,
                location: location@,
                target_number: *target_number,
                target_name: target_name@,
                locked: *locked,
            },
            AirportCodes::ICN { location, target_number, target_name, locked } => TargetModel {
                code: TargetCode::ICN,
                location: location@,
                target_number: *target_number,
                target_name: target_name@,
                locked: *locked,
            },
            AirportCodes::DEL { location, target_number, target_name, locked } => TargetModel {
                code: TargetCode::DEL,
                location: location@,
                target_number: *target_number,
                target_name: target_name@,
                locked: *locked,
            },
            AirportCodes::MIA { location, target_number, target_name, locked } => TargetModel {
                code: TargetCode::MIA,
                location: location@,
                target_number: *target_number,
                target_name: target_name@,
                locked: *locked,
            },
            AirportCodes::SIN { location, target_number, target_name, locked } => TargetModel {
                code: TargetCode::SIN,
                location: location@,
                target_number: *target_number,
                target_name: target_name@,
                locked: *locked,
            },
            AirportCodes::KUL { location, target_number, target_name, locked } => TargetModel {
                code: TargetCode::KUL,
                location: location@,
                target_number: *target_number,
                target_name: target_name@,
                locked: *locked,
            },
            AirportCodes::IST { location, target_number, target_name, locked } => TargetModel {
                code: TargetCode::IST,
                location: location@,
                target_number: *target_number,
                target_name: target_name@,
                locked: *locked,
            },
            AirportCodes::MEX { location, target_number, target_name, locked } => TargetModel {
                code: TargetCode::MEX,
                location: location@,
                target_number: *target_number,
                target_name: target_name@,
                locked: *locked,
            },
            AirportCodes::SYR { location, target_number, target_name, locked } => TargetModel {
                code: TargetCode::SYR,
                location: location@,
                target_number: *target_number,
                target_name: target_name@,
                locked: *locked,
            },
            AirportCodes::BOM { location, target_number, target_name, locked } => TargetModel {
                code: TargetCode::BOM,
                location: location@,
                target_number: *target_number,
                target_name: target_name@,
                locked: *locked,
            },
        }
    }
}

impl DeepView for AirportCodes {
    type V = TargetModel;

    open spec fn deep_view(&self) -> TargetModel {
        self.view()
    }
}

impl AirportCodes {
    /// Split a descriptor into its code and fields.
    pub fn parts(&self) -> (r: (TargetCode, &String, u32, &String, bool))
        ensures
            r.0 == self@.code,
            r.1@ == self@.location,
            r.2 == self@.target_number,
            r.3@ == self@.target_name,
            r.4 == self@.locked,
    {
        match self {
            AirportCodes::ALL { location, target_number, target_name, locked } => (
                TargetCode::ALL,
                location,
                *target_number,
                target_name,
                *locked,
            ),
            AirportCodes::JFK { location, target_number, target_name, locked } => (
                TargetCode::JFK,
                location,
                *target_number,
                target_name,
                *locked,
            ),
            AirportCodes::LHR { location, target_number, target_name, locked } => (
                TargetCode::LHR,
                location,
                *target_number,
                target_name,
                *locked,
            ),
            AirportCodes::CDG { location, target_number, target_name, locked } => (
                TargetCode::CDG,
                location,
                *target_number,
                target_name,
                *locked,
            ),
            AirportCodes::PEK { location, target_number, target_name, locked } => (
                TargetCode::PEK,
                location,
                *target_number,
                target_name,
                *locked,
            ),
            AirportCodes::SFO { location, target_number, target_name, locked } => (
                TargetCode::SFO,
                location,
                *target_number,
                target_name,
                *locked,
            ),
            AirportCodes::SYD { location, target_number, target_name, locked } => (
                TargetCode::SYD,
                location,
                *target_number,
                target_name,
                *locked,
            ),
            AirportCodes::HND { location, target_number, target_name, locked } => (
                TargetCode::HND,
                location,
                *target_number,
                target_name,
                *locked,
            ),
            AirportCodes::DXB { location, target_number, target_name, locked } => (
                TargetCode::DXB,
                location,
                *target_number,
                target_name,
                *locked,
            ),
            AirportCodes::YYZ { location, target_number, target_name, locked } => (
                TargetCode::YYZ,
                location,
                *target_number,
                target_name,
                *locked,
            ),
            AirportCodes::MUC { location, target_number, target_name, locked } => (
                TargetCode::MUC,
                location,
                *target_number,
                target_name,
                *locked,
            ),
            AirportCodes::AMS { location, target_number, target_name, locked } => (
                TargetCode::AMS,
                location,
                *target_number,
                target_name,
                *locked,
            ),
            AirportCodes::ICN { location, target_number, target_name, locked } => (
                TargetCode::ICN,
                location,
                *target_number,
                target_name,
                *locked,
            ),
            AirportCodes::DEL { location, target_number, target_name, locked } => (
                TargetCode::DEL,
                location,
                *target_number,
                target_name,
                *locked,
            ),
            AirportCodes::MIA { location, target_number, target_name, locked } => (
                TargetCode::MIA,
                location,
                *target_number,
                target_name,
                *locked,
            ),
            AirportCodes::SIN { location, target_number, target_name, locked } => (
                TargetCode::SIN,
                location,
                *target_number,
                target_name,
                *locked,
            ),
            AirportCodes::KUL { location, target_number, target_name, locked } => (
                TargetCode::KUL,
                location,
                *target_number,
                target_name,
                *locked,
            ),
            AirportCodes::IST { location, target_number, target_name, locked } => (
                TargetCode::IST,
                location,
                *target_number,
                target_name,
                *locked,
            ),
            AirportCodes::MEX { location, target_number, target_name, locked } => (
                TargetCode::MEX,
                location,
                *target_number,
                target_name,
                *locked,
            ),
            AirportCodes::SYR { location, target_number, target_name, locked } => (
                TargetCode::SYR,
                location,
                *target_number,
                target_name,
                *locked,
            ),
            AirportCodes::BOM { location, target_number, target_name, locked } => (
                TargetCode::BOM,
                location,
                *target_number,
                target_name,
                *locked,
            ),
        }
    }

    /// Build a descriptor from a code and its fields.
    pub fn from_parts(
        code: TargetCode,
        location: String,
        target_number: u32,
        target_name: String,
        locked: bool,
    ) -> (r: AirportCodes)
        ensures
            r@ == (TargetModel {
                code,
                location: location@,
                target_number,
                target_name: target_name@,
                locked,
            }),
    {
        match code {
            TargetCode::ALL => AirportCodes::ALL { location, target_number, target_name, locked },
            TargetCode::JFK => AirportCodes::JFK { location, target_number, target_name, locked },
            TargetCode::LHR => AirportCodes::LHR { location, target_number, target_name, locked },
            TargetCode::CDG => AirportCodes::CDG { location, target_number, target_name, locked },
            TargetCode::PEK => AirportCodes::PEK { location, target_number, target_name, locked },
            TargetCode::SFO => AirportCodes::SFO { location, target_number, target_name, locked },
            TargetCode::SYD => AirportCodes::SYD { location, target_number, target_name, locked },
            TargetCode::HND => AirportCodes::HND { location, target_number, target_name, locked },
            TargetCode::DXB => AirportCodes::DXB { location, target_number, target_name, locked },
            TargetCode::YYZ => AirportCodes::YYZ { location, target_number, target_name, locked },
            TargetCode::MUC => AirportCodes::MUC { location, target_number, target_name, locked },
            TargetCode::AMS => AirportCodes::AMS { location, target_number, target_name, locked },
            TargetCode::ICN => AirportCodes::ICN { location, target_number, target_name, locked },
            TargetCode::DEL => AirportCodes::DEL { location, target_number, target_name, locked },
            TargetCode::MIA => AirportCodes::MIA { location, target_number, target_name, locked },
            TargetCode::SIN => AirportCodes::SIN { location, target_number, target_name, locked },
            TargetCode::KUL => AirportCodes::KUL { location, target_number, target_name, locked },
            TargetCode::IST => AirportCodes::IST { location, target_number, target_name, locked },
            TargetCode::MEX => AirportCodes::MEX { location, target_number, target_name, locked },
            TargetCode::SYR => AirportCodes::SYR { location, target_number, target_name, locked },
            TargetCode::BOM => AirportCodes::BOM { location, target_number, target_name, locked },
        }
    }
}

// ---------------------------------------------------------------------------
// Target codec
// ---------------------------------------------------------------------------

/// True when a target descriptor can be carried on the wire.
pub open spec fn target_fits(t: TargetModel) -> bool {
    string_fits(t.location) && string_fits(t.target_name)
}

/// A target on the wire: code tag, location, numeric id, name, lock flag.
pub open spec fn spec_ser_target(t: TargetModel) -> Seq<u8>
    recommends
        target_fits(t),
{
    spec_ser_byte(t.code.spec_tag()) + spec_ser_string(t.location) + spec_ser_u32(t.target_number)
        + spec_ser_string(t.target_name) + spec_ser_bool(t.locked)
}

/// Parse one target descriptor.
pub open spec fn spec_parse_target(buf: Seq<u8>, pos: int) -> Option<(TargetModel, int)> {
    match spec_parse_byte(buf, pos) {
        Some((tag, p0)) => match TargetCode::spec_from_tag(tag) {
            Some(code) => match spec_parse_string(buf, p0) {
                Some((location, p1)) => match spec_parse_u32(buf, p1) {
                    Some((target_number, p2)) => match spec_parse_string(buf, p2) {
                        Some((target_name, p3)) => match spec_parse_bool(buf, p3) {
                            Some((locked, p4)) => Some(
                                (
                                    TargetModel {
                                        code,
                                        location,
                                        target_number,
                                        target_name,
                                        locked,
                                    },
                                    p4,
                                ),
                            ),
                            None => None,
                        },
                        None => None,
                    },
                    None => None,
                },
                None => None,
            },
            None => None,
        },
        None => None,
    }
}

/// Wherever a buffer holds a serialized target, the parser recovers it.
pub proof fn lemma_parse_target_at(buf: Seq<u8>, pos: int, t: TargetModel)
    requires
        target_fits(t),
        0 <= pos,
        pos + spec_ser_target(t).len() <= buf.len(),
        buf.subrange(pos, pos + spec_ser_target(t).len()) == spec_ser_target(t),
    ensures
        spec_parse_target(buf, pos) == Some((t, pos + spec_ser_target(t).len())),
{
    lemma_auto_spec_u32_to_from_le_bytes();
    let whole = spec_ser_target(t);
    let s0 = spec_ser_byte(t.code.spec_tag());
    let s1 = spec_ser_string(t.location);
    let s2 = spec_ser_u32(t.target_number);
    let s3 = spec_ser_string(t.target_name);
    let s4 = spec_ser_bool(t.locked);
    let p0 = pos + s0.len();
    let p1 = p0 + s1.len();
    let p2 = p1 + s2.len();
    let p3 = p2 + s3.len();
    let p4 = p3 + s4.len();
    assert(whole =~= s0 + s1 + s2 + s3 + s4);
    assert(whole.len() == s0.len() + s1.len() + s2.len() + s3.len() + s4.len());
    assert(buf.subrange(pos, p0) =~= s0) by {
        assert forall|i: int| 0 <= i < s0.len() implies buf.subrange(pos, p0)[i] == s0[i] by {
            assert(buf.subrange(pos, pos + whole.len())[i] == whole[i]);
        }
    }
    assert(buf.subrange(p0, p1) =~= s1) by {
        assert forall|i: int| 0 <= i < s1.len() implies buf.subrange(p0, p1)[i] == s1[i] by {
            assert(buf.subrange(pos, pos + whole.len())[s0.len() + i] == whole[s0.len() + i]);
        }
    }
    assert(buf.subrange(p1, p2) =~= s2) by {
        assert forall|i: int| 0 <= i < s2.len() implies buf.subrange(p1, p2)[i] == s2[i] by {
            assert(buf.subrange(pos, pos + whole.len())[s0.len() + s1.len() + i] == whole[s0.len()
                + s1.len() + i]);
        }
    }
    assert(buf.subrange(p2, p3) =~= s3) by {
        assert forall|i: int| 0 <= i < s3.len() implies buf.subrange(p2, p3)[i] == s3[i] by {
            assert(buf.subrange(pos, pos + whole.len())[s0.len() + s1.len() + s2.len() + i]
                == whole[s0.len() + s1.len() + s2.len() + i]);
        }
    }
    assert(buf.subrange(p3, p4) =~= s4) by {
        assert forall|i: int| 0 <= i < s4.len() implies buf.subrange(p3, p4)[i] == s4[i] by {
            assert(buf.subrange(pos, pos + whole.len())[s0.len() + s1.len() + s2.len() + s3.len()
                + i] == whole[s0.len() + s1.len() + s2.len() + s3.len() + i]);
        }
    }
    lemma_parse_byte_at(buf, pos, t.code.spec_tag());
    t.code.lemma_tag_round_trip();
    lemma_parse_string_at(buf, p0, t.location);
    lemma_parse_u32_at(buf, p1, t.target_number);
    lemma_parse_string_at(buf, p2, t.target_name);
    lemma_parse_bool_at(buf, p3, t.locked);
}

/// Write one target descriptor.
pub fn write_target(out: &mut Vec<u8>, t: &AirportCodes) -> (r: Result<(), CoreError>)
    ensures
        match r {
            Ok(u) => target_fits(t@) && final(out)@ == old(out)@ + spec_ser_target(t@),
            Err(e) => e == CoreError::EncodingError && !target_fits(t@),
        },
{
    let (code, location, target_number, target_name, locked) = t.parts();
    write_byte(out, code.tag());
    write_string(out, location.as_str())?;
    write_u32(out, target_number);
    write_string(out, target_name.as_str())?;
    write_bool(out, locked);
    proof {
        assert(out@ =~= old(out)@ + spec_ser_target(t@));
    }
    Ok(())
}

/// Read one target descriptor.
pub fn read_target(buf: &[u8], pos: usize) -> (r: Result<(AirportCodes, usize), CoreError>)
    ensures
        match r {
            Ok((t, p)) => spec_parse_target(buf@, pos as int) == Some((t@, p as int)),
            Err(e) => e == CoreError::DecodingError && spec_parse_target(buf@, pos as int)
                is None,
        },
{
    let (tag, p0) = read_byte(buf, pos)?;
    let code = match TargetCode::from_tag(tag) {
        Some(code) => code,
        None => {
            return Err(CoreError::DecodingError);
        },
    };
    let (location, p1) = read_string(buf, p0)?;
    let (target_number, p2) = read_u32(buf, p1)?;
    let (target_name, p3) = read_string(buf, p2)?;
    let (locked, p4) = read_bool(buf, p3)?;
    Ok((AirportCodes::from_parts(code, location, target_number, target_name, locked), p4))
}

// ---------------------------------------------------------------------------
// Target lists
// ---------------------------------------------------------------------------

/// True when a list of targets can be carried on the wire.
pub open spec fn targets_fit(ts: Seq<TargetModel>) -> bool {
    fits_u32(ts.len()) && (forall|i: int| 0 <= i < ts.len() ==> target_fits(#[trigger] ts[i]))
}

/// The concatenation of the serialized targets, in order.
pub open spec fn spec_ser_targets(ts: Seq<TargetModel>) -> Seq<u8>
    decreases ts.len(),
{
    if ts.len() == 0 {
        Seq::empty()
    } else {
        spec_ser_target(ts[0]) + spec_ser_targets(ts.drop_first())
    }
}

/// A list of targets on the wire: element count, then the elements.
pub open spec fn spec_ser_target_list(ts: Seq<TargetModel>) -> Seq<u8>
    recommends
        targets_fit(ts),
{
    spec_ser_u32(ts.len() as u32) + spec_ser_targets(ts)
}

/// Parse exactly `count` targets starting at `pos`.
pub open spec fn spec_parse_targets(buf: Seq<u8>, pos: int, count: nat) -> Option<
    (Seq<TargetModel>, int),
>
    decreases count,
{
    if count == 0 {
        Some((Seq::empty(), pos))
    } else {
        match spec_parse_target(buf, pos) {
            Some((t, p)) => match spec_parse_targets(buf, p, (count - 1) as nat) {
                Some((ts, end)) => Some((seq![t] + ts, end)),
                None => None,
            },
            None => None,
        }
    }
}

/// Parse a counted list of targets.
pub open spec fn spec_parse_target_list(buf: Seq<u8>, pos: int) -> Option<(Seq<TargetModel>, int)> {
    match spec_parse_u32(buf, pos) {
        Some((n, p)) => spec_parse_targets(buf, p, n as nat),
        None => None,
    }
}

/// Appending one more target serializes as the old list plus that target.
pub proof fn lemma_ser_targets_take_succ(ts: Seq<TargetModel>, i: int)
    requires
        0 <= i < ts.len(),
    ensures
        spec_ser_targets(ts.take(i + 1)) == spec_ser_targets(ts.take(i)) + spec_ser_target(ts[i]),
    decreases i,
{
    if i == 0 {
        assert(ts.take(0) =~= Seq::<TargetModel>::empty());
        assert(spec_ser_targets(Seq::<TargetModel>::empty()) == Seq::<u8>::empty());
        assert(ts.take(1) =~= seq![ts[0]]);
        assert(seq![ts[0]].drop_first() =~= Seq::<TargetModel>::empty());
        assert(spec_ser_targets(seq![ts[0]]) == spec_ser_target(ts[0]) + Seq::<u8>::empty());
        assert(spec_ser_target(ts[0]) + Seq::<u8>::empty() =~= spec_ser_target(ts[0]));
        assert(Seq::<u8>::empty() + spec_ser_target(ts[0]) =~= spec_ser_target(ts[0]));
    } else {
        lemma_ser_targets_take_succ(ts.drop_first(), i - 1);
        assert(ts.take(i + 1).drop_first() =~= ts.drop_first().take(i));
        assert(ts.take(i).drop_first() =~= ts.drop_first().take(i - 1));
        assert(ts.take(i + 1)[0] == ts[0]);
        assert(ts.take(i)[0] == ts[0]);
        assert(ts.drop_first()[i - 1] == ts[i]);
        assert(spec_ser_targets(ts.take(i + 1)) == spec_ser_target(ts[0]) + spec_ser_targets(
            ts.drop_first().take(i),
        ));
        assert(spec_ser_target(ts[0]) + (spec_ser_targets(ts.drop_first().take(i - 1))
            + spec_ser_target(ts[i])) =~= (spec_ser_target(ts[0]) + spec_ser_targets(
            ts.drop_first().take(i - 1),
        )) + spec_ser_target(ts[i]));
        assert(spec_ser_targets(ts.take(i)) == spec_ser_target(ts[0]) + spec_ser_targets(
            ts.drop_first().take(i - 1),
        ));
    }
}

/// Wherever a buffer holds `count` serialized targets, the counted parser
/// recovers exactly those targets.
pub proof fn lemma_parse_targets_at(buf: Seq<u8>, pos: int, ts: Seq<TargetModel>)
    requires
        targets_fit(ts),
        0 <= pos,
        pos + spec_ser_targets(ts).len() <= buf.len(),
        buf.subrange(pos, pos + spec_ser_targets(ts).len()) == spec_ser_targets(ts),
    ensures
        spec_parse_targets(buf, pos, ts.len()) == Some((ts, pos + spec_ser_targets(ts).len())),
    decreases ts.len(),
{
    if ts.len() == 0 {
        assert(spec_parse_targets(buf, pos, 0) == Some((Seq::<TargetModel>::empty(), pos)));
    } else {
        let head = spec_ser_target(ts[0]);
        let tail = spec_ser_targets(ts.drop_first());
        assert(spec_ser_targets(ts) == head + tail);
        assert(buf.subrange(pos, pos + head.len()) =~= head) by {
            assert forall|i: int| 0 <= i < head.len() implies buf.subrange(
                pos,
                pos + head.len(),
            )[i] == head[i] by {
                assert(buf.subrange(pos, pos + spec_ser_targets(ts).len())[i] == (head + tail)[i]);
            }
        }
        lemma_parse_target_at(buf, pos, ts[0]);
        let p = pos + head.len();
        assert(buf.subrange(p, p + tail.len()) =~= tail) by {
            assert forall|i: int| 0 <= i < tail.len() implies buf.subrange(p, p + tail.len())[i]
                == tail[i] by {
                assert(buf.subrange(pos, pos + spec_ser_targets(ts).len())[head.len() + i] == (head
                    + tail)[head.len() + i]);
            }
        }
        assert(forall|i: int| 0 <= i < ts.drop_first().len() ==> target_fits(
            #[trigger] ts.drop_first()[i],
        ));
        lemma_parse_targets_at(buf, p, ts.drop_first());
        assert(seq![ts[0]] + ts.drop_first() =~= ts);
    }
}

/// Wherever a buffer holds a serialized target list, the list parser
/// recovers exactly that list.
pub proof fn lemma_parse_target_list_at(buf: Seq<u8>, pos: int, ts: Seq<TargetModel>)
    requires
        targets_fit(ts),
        0 <= pos,
        pos + spec_ser_target_list(ts).len() <= buf.len(),
        buf.subrange(pos, pos + spec_ser_target_list(ts).len()) == spec_ser_target_list(ts),
    ensures
        spec_parse_target_list(buf, pos) == Some((ts, pos + spec_ser_target_list(ts).len())),
{
    lemma_auto_spec_u32_to_from_le_bytes();
    let cnt = spec_ser_u32(ts.len() as u32);
    let body = spec_ser_targets(ts);
    assert(spec_ser_target_list(ts) == cnt + body);
    assert(buf.subrange(pos, pos + 4) =~= cnt) by {
        assert forall|i: int| 0 <= i < 4 implies buf.subrange(pos, pos + 4)[i] == cnt[i] by {
            assert(buf.subrange(pos, pos + spec_ser_target_list(ts).len())[i] == (cnt + body)[i]);
        }
    }
    lemma_parse_u32_at(buf, pos, ts.len() as u32);
    assert(buf.subrange(pos + 4, pos + 4 + body.len()) =~= body) by {
        assert forall|i: int| 0 <= i < body.len() implies buf.subrange(
            pos + 4,
            pos + 4 + body.len(),
        )[i] == body[i] by {
            assert(buf.subrange(pos, pos + spec_ser_target_list(ts).len())[4 + i] == (cnt + body)[4
                + i]);
        }
    }
    lemma_parse_targets_at(buf, pos + 4, ts);
}

/// Prefix a parsed tail of targets with already-parsed elements.
spec fn prepend_targets(
    prefix: Seq<TargetModel>,
    r: Option<(Seq<TargetModel>, int)>,
) -> Option<(Seq<TargetModel>, int)> {
    match r {
        Some((ts, p)) => Some((prefix + ts, p)),
        None => None,
    }
}

proof fn lemma_prepend_targets_assoc(
    a: Seq<TargetModel>,
    b: Seq<TargetModel>,
    r: Option<(Seq<TargetModel>, int)>,
)
    ensures
        prepend_targets(a, prepend_targets(b, r)) == prepend_targets(a + b, r),
{
    match r {
        Some((ts, p)) => {
            assert(a + (b + ts) =~= (a + b) + ts);
        },
        None => {},
    }
}

/// Write a counted list of targets.
pub fn write_target_list(out: &mut Vec<u8>, ts: &Vec<AirportCodes>) -> (r: Result<(), CoreError>)
    ensures
        match r {
            Ok(u) => targets_fit(ts.deep_view()) && final(out)@ == old(out)@ + spec_ser_target_list(
                ts.deep_view(),
            ),
            Err(e) => e == CoreError::EncodingError && !targets_fit(ts.deep_view()),
        },
{
    if ts.len() as u64 > u32::MAX as u64 {
        return Err(CoreError::EncodingError);
    }
    write_u32(out, ts.len() as u32);
    let ghost base = out@;
    let ghost views = ts.deep_view();
    let mut i: usize = 0;
    while i < ts.len()
        invariant
            i <= ts.len(),
            views == ts.deep_view(),
            views.len() == ts@.len(),
            forall|j: int| 0 <= j < i ==> target_fits(#[trigger] views[j]),
            out@ == base + spec_ser_targets(views.take(i as int)),
        decreases ts.len() - i,
    {
        assert(ts.deep_view()[i as int] == ts@[i as int]@);
        match write_target(out, &ts[i]) {
            Ok(u) => {},
            Err(e) => {
                return Err(CoreError::EncodingError);
            },
        }
        proof {
            lemma_ser_targets_take_succ(views, i as int);
            assert((base + spec_ser_targets(views.take(i as int))) + spec_ser_target(
                views[i as int],
            ) =~= base + (spec_ser_targets(views.take(i as int)) + spec_ser_target(
                views[i as int],
            )));
        }
        i = i + 1;
    }
    proof {
        assert(views.take(views.len() as int) =~= views);
    }
    Ok(())
}

/// Read a counted list of targets.
pub fn read_target_list(buf: &[u8], pos: usize) -> (r: Result<(Vec<AirportCodes>, usize), CoreError>)
    ensures
        match r {
            Ok((v, p)) => spec_parse_target_list(buf@, pos as int) == Some(
                (v.deep_view(), p as int),
            ),
            Err(e) => e == CoreError::DecodingError && spec_parse_target_list(buf@, pos as int)
                is None,
        },
{
    let (count, start) = read_u32(buf, pos)?;
    let mut acc: Vec<AirportCodes> = Vec::new();
    let mut cur = start;
    let mut i: u32 = 0;
    while i < count
        invariant
            i <= count,
            acc.deep_view().len() == i as nat,
            spec_parse_u32(buf@, pos as int) == Some((count, start as int)),
            spec_parse_targets(buf@, start as int, count as nat) == prepend_targets(
                acc.deep_view(),
                spec_parse_targets(buf@, cur as int, (count - i) as nat),
            ),
        decreases count - i,
    {
        let ghost acc0 = acc.deep_view();
        match read_target(buf, cur) {
            Ok((t, p)) => {
                proof {
                    let rest = spec_parse_targets(buf@, p as int, (count - i - 1) as nat);
                    assert(spec_parse_targets(buf@, cur as int, (count - i) as nat)
                        == prepend_targets(seq![t@], rest));
                    lemma_prepend_targets_assoc(acc0, seq![t@], rest);
                }
                acc.push(t);
                proof {
                    assert(acc.deep_view() =~= acc0 + seq![t@]);
                }
                cur = p;
            },
            Err(e) => {
                proof {
                    assert(spec_parse_targets(buf@, cur as int, (count - i) as nat) is None);
                    assert(spec_parse_targets(buf@, start as int, count as nat) is None);
                }
                return Err(CoreError::DecodingError);
            },
        }
        i = i + 1;
    }
    proof {
        assert(spec_parse_targets(buf@, cur as int, 0) == Some(
            (Seq::<TargetModel>::empty(), cur as int),
        ));
        assert(acc.deep_view() + Seq::<TargetModel>::empty() =~= acc.deep_view());
    }
    Ok((acc, cur))
}

// ---------------------------------------------------------------------------
// Requests
// ---------------------------------------------------------------------------

/// Ask the pool to queue a command for the named targets.
#[derive(Clone, Debug, PartialEq, Eq)]
pub struct Queue {
    pub command: String,
    pub targets: Vec<String>,
}

/// Ask the pool to retract a command from the named targets.
#[derive(Clone, Debug, PartialEq, Eq)]
pub struct Dequeue {
    pub command: String,
    pub targets: Vec<String>,
}

/// Ask to toggle the lock flag on the named targets.
#[derive(Clone, Debug, PartialEq, Eq)]
pub struct Lock {
    pub targets: Vec<String>,
}

/// Ask for the commands queued for the named targets.
#[derive(Clone, Debug, PartialEq, Eq)]
pub struct List {
    pub targets: Vec<String>,
}

/// Ask the server to shut down; `destroy` only changes the confirmation text.
#[derive(Clone, Debug, PartialEq, Eq)]
pub struct Quit {
    pub destroy: bool,
}

/// A control-plane request, one of the five operations on the command pool.
#[derive(Clone, Debug, PartialEq, Eq)]
pub enum Request {
    QUEUE(Queue),
    DEQUEUE(Dequeue),
    LOCK(Lock),
    LIST(List),
    QUIT(Quit),
}

/// What a control-plane exchange answers: a confirmation text, the commands
/// asked for, and the targets concerned.
#[derive(Clone, Debug, PartialEq, Eq)]
pub struct Response {
    pub confirmation: String,
    pub commands: Vec<String>,
    pub targets: Vec<AirportCodes>,
}

/// The mathematical model of [`Queue`].
pub struct QueueModel {
    pub command: Seq<char>,
    pub targets: Seq<Seq<char>>,
}

/// The mathematical model of [`Dequeue`].
pub struct DequeueModel {
    pub command: Seq<char>,
    pub targets: Seq<Seq<char>>,
}

/// The mathematical model of [`Lock`].
pub struct LockModel {
    pub targets: Seq<Seq<char>>,
}

/// The mathematical model of [`List`].
pub struct ListModel {
    pub targets: Seq<Seq<char>>,
}

/// The mathematical model of [`Quit`].
pub struct QuitModel {
    pub destroy: bool,
}

/// The mathematical model of [`Request`].
pub enum RequestModel {
    QUEUE(QueueModel),
    DEQUEUE(DequeueModel),
    LOCK(LockModel),
    LIST(ListModel),
    QUIT(QuitModel),
}

/// The mathematical model of [`Response`].
pub struct ResponseModel {
    pub confirmation: Seq<char>,
    pub commands: Seq<Seq<char>>,
    pub targets: Seq<TargetModel>,
}

impl View for Queue {
    type V = QueueModel;

    open spec fn view(&self) -> QueueModel {
        QueueModel { command: self.command@, targets: self.targets.deep_view() }
    }
}

impl View for Dequeue {
    type V = DequeueModel;

    open spec fn view(&self) -> DequeueModel {
        DequeueModel { command: self.command@, targets: self.targets.deep_view() }
    }
}

impl View for Lock {
    type V = LockModel;

    open spec fn view(&self) -> LockModel {
        LockModel { targets: self.targets.deep_view() }
    }
}

impl View for List {
    type V = ListModel;

    open spec fn view(&self) -> ListModel {
        ListModel { targets: self.targets.deep_view() }
    }
}

impl View for Quit {
    type V = QuitModel;

    open spec fn view(&self) -> QuitModel {
        QuitModel { destroy: self.destroy }
    }
}

impl View for Request {
    type V = RequestModel;

    open spec fn view(&self) -> RequestModel {
        match self {
            Request::QUEUE(q) => RequestModel::QUEUE(q@),
            Request::DEQUEUE(d) => RequestModel::DEQUEUE(d@),
            Request::LOCK(l) => RequestModel::LOCK(l@),
            Request::LIST(l) => RequestModel::LIST(l@),
            Request::QUIT(q) => RequestModel::QUIT(q@),
        }
    }
}

impl View for Response {
    type V = ResponseModel;

    open spec fn view(&self) -> ResponseModel {
        ResponseModel {
            confirmation: self.confirmation@,
            commands: self.commands.deep_view(),
            targets: self.targets.deep_view(),
        }
    }
}

// ---------------------------------------------------------------------------
// Request codec
// ---------------------------------------------------------------------------

/// True when a request can be carried on the wire.
pub open spec fn request_fits(r: RequestModel) -> bool {
    match r {
        RequestModel::QUEUE(q) => string_fits(q.command) && strings_fit(q.targets),
        RequestModel::DEQUEUE(d) => string_fits(d.command) && strings_fit(d.targets),
        RequestModel::LOCK(l) => strings_fit(l.targets),
        RequestModel::LIST(l) => strings_fit(l.targets),
        RequestModel::QUIT(q) => true,
    }
}

/// A request on the wire: a one-byte operation tag, then its fields.
pub open spec fn spec_ser_request(r: RequestModel) -> Seq<u8>
    recommends
        request_fits(r),
{
    match r {
        RequestModel::QUEUE(q) => spec_ser_byte(0) + spec_ser_string(q.command)
            + spec_ser_string_list(q.targets),
        RequestModel::DEQUEUE(d) => spec_ser_byte(1) + spec_ser_string(d.command)
            + spec_ser_string_list(d.targets),
        RequestModel::LOCK(l) => spec_ser_byte(2) + spec_ser_string_list(l.targets),
        RequestModel::LIST(l) => spec_ser_byte(3) + spec_ser_string_list(l.targets),
        RequestModel::QUIT(q) => spec_ser_byte(4) + spec_ser_bool(q.destroy),
    }
}

/// Parse one request.
pub open spec fn spec_parse_request(buf: Seq<u8>, pos: int) -> Option<(RequestModel, int)> {
    match spec_parse_byte(buf, pos) {
        Some((tag, p0)) => if tag == 0 {
            match spec_parse_string(buf, p0) {
                Some((command, p1)) => match spec_parse_string_list(buf, p1) {
                    Some((targets, p2)) => Some(
                        (RequestModel::QUEUE(QueueModel { command, targets }), p2),
                    ),
                    None => None,
                },
                None => None,
            }
        } else if tag == 1 {
            match spec_parse_string(buf, p0) {
                Some((command, p1)) => match spec_parse_string_list(buf, p1) {
                    Some((targets, p2)) => Some(
                        (RequestModel::DEQUEUE(DequeueModel { command, targets }), p2),
                    ),
                    None => None,
                },
                None => None,
            }
        } else if tag == 2 {
            match spec_parse_string_list(buf, p0) {
                Some((targets, p1)) => Some((RequestModel::LOCK(LockModel { targets }), p1)),
                None => None,
            }
        } else if tag == 3 {
            match spec_parse_string_list(buf, p0) {
                Some((targets, p1)) => Some((RequestModel::LIST(ListModel { targets }), p1)),
                None => None,
            }
        } else if tag == 4 {
            match spec_parse_bool(buf, p0) {
                Some((destroy, p1)) => Some((RequestModel::QUIT(QuitModel { destroy }), p1)),
                None => None,
            }
        } else {
            None
        },
        None => None,
    }
}

/// Wherever a buffer holds a serialized request, the parser recovers it.
pub proof fn lemma_parse_request_at(buf: Seq<u8>, pos: int, r: RequestModel)
    requires
        request_fits(r),
        0 <= pos,
        pos + spec_ser_request(r).len() <= buf.len(),
        buf.subrange(pos, pos + spec_ser_request(r).len()) == spec_ser_request(r),
    ensures
        spec_parse_request(buf, pos) == Some((r, pos + spec_ser_request(r).len())),
{
    lemma_auto_spec_u32_to_from_le_bytes();
    let whole = spec_ser_request(r);
    match r {
        RequestModel::QUEUE(q) => {
            let s0 = spec_ser_byte(0);
            let s1 = spec_ser_string(q.command);
            let s2 = spec_ser_string_list(q.targets);
            let p0 = pos + 1;
            let p1 = p0 + s1.len();
            let p2 = p1 + s2.len();
            assert(whole =~= s0 + s1 + s2);
            lemma_split3(buf, pos, s0, s1, s2);
            lemma_parse_byte_at(buf, pos, 0);
            assert(s1.len() == 4 + encode_utf8(q.command).len());
            lemma_parse_string_at(buf, p0, q.command);
            lemma_parse_string_list_at(buf, p1, q.targets);
        },
        RequestModel::DEQUEUE(d) => {
            let s0 = spec_ser_byte(1);
            let s1 = spec_ser_string(d.command);
            let s2 = spec_ser_string_list(d.targets);
            let p0 = pos + 1;
            let p1 = p0 + s1.len();
            assert(whole =~= s0 + s1 + s2);
            lemma_split3(buf, pos, s0, s1, s2);
            lemma_parse_byte_at(buf, pos, 1);
            assert(s1.len() == 4 + encode_utf8(d.command).len());
            lemma_parse_string_at(buf, p0, d.command);
            lemma_parse_string_list_at(buf, p1, d.targets);
        },
        RequestModel::LOCK(l) => {
            let s0 = spec_ser_byte(2);
            let s1 = spec_ser_string_list(l.targets);
            let p0 = pos + 1;
            assert(whole =~= s0 + s1 + Seq::<u8>::empty());
            lemma_split3(buf, pos, s0, s1, Seq::<u8>::empty());
            lemma_parse_byte_at(buf, pos, 2);
            lemma_parse_string_list_at(buf, p0, l.targets);
        },
        RequestModel::LIST(l) => {
            let s0 = spec_ser_byte(3);
            let s1 = spec_ser_string_list(l.targets);
            let p0 = pos + 1;
            assert(whole =~= s0 + s1 + Seq::<u8>::empty());
            lemma_split3(buf, pos, s0, s1, Seq::<u8>::empty());
            lemma_parse_byte_at(buf, pos, 3);
            lemma_parse_string_list_at(buf, p0, l.targets);
        },
        RequestModel::QUIT(q) => {
            let s0 = spec_ser_byte(4);
            let s1 = spec_ser_bool(q.destroy);
            let p0 = pos + 1;
            assert(whole =~= s0 + s1 + Seq::<u8>::empty());
            lemma_split3(buf, pos, s0, s1, Seq::<u8>::empty());
            lemma_parse_byte_at(buf, pos, 4);
            lemma_parse_bool_at(buf, p0, q.destroy);
        },
    }
}

/// Write one request.
pub fn write_request(out: &mut Vec<u8>, r: &Request) -> (res: Result<(), CoreError>)
    ensures
        match res {
            Ok(u) => request_fits(r@) && final(out)@ == old(out)@ + spec_ser_request(r@),
            Err(e) => e == CoreError::EncodingError && !request_fits(r@),
        },
{
    match r {
        Request::QUEUE(q) => {
            write_byte(out, 0);
            write_string(out, q.command.as_str())?;
            write_string_list(out, &q.targets)?;
            proof {
                assert(out@ =~= old(out)@ + spec_ser_request(r@));
            }
            Ok(())
        },
        Request::DEQUEUE(d) => {
            write_byte(out, 1);
            write_string(out, d.command.as_str())?;
            write_string_list(out, &d.targets)?;
            proof {
                assert(out@ =~= old(out)@ + spec_ser_request(r@));
            }
            Ok(())
        },
        Request::LOCK(l) => {
            write_byte(out, 2);
            write_string_list(out, &l.targets)?;
            proof {
                assert(out@ =~= old(out)@ + spec_ser_request(r@));
            }
            Ok(())
        },
        Request::LIST(l) => {
            write_byte(out, 3);
            write_string_list(out, &l.targets)?;
            proof {
                assert(out@ =~= old(out)@ + spec_ser_request(r@));
            }
            Ok(())
        },
        Request::QUIT(q) => {
            write_byte(out, 4);
            write_bool(out, q.destroy);
            proof {
                assert(out@ =~= old(out)@ + spec_ser_request(r@));
            }
            Ok(())
        },
    }
}

/// Read one request.
pub fn read_request(buf: &[u8], pos: usize) -> (r: Result<(Request, usize), CoreError>)
    ensures
        match r {
            Ok((req, p)) => spec_parse_request(buf@, pos as int) == Some((req@, p as int)),
            Err(e) => e == CoreError::DecodingError && spec_parse_request(buf@, pos as int)
                is None,
        },
{
    let (tag, p0) = read_byte(buf, pos)?;
    if tag == 0 {
        let (command, p1) = read_string(buf, p0)?;
        let (targets, p2) = read_string_list(buf, p1)?;
        Ok((Request::QUEUE(Queue { command, targets }), p2))
    } else if tag == 1 {
        let (command, p1) = read_string(buf, p0)?;
        let (targets, p2) = read_string_list(buf, p1)?;
        Ok((Request::DEQUEUE(Dequeue { command, targets }), p2))
    } else if tag == 2 {
        let (targets, p1) = read_string_list(buf, p0)?;
        Ok((Request::LOCK(Lock { targets }), p1))
    } else if tag == 3 {
        let (targets, p1) = read_string_list(buf, p0)?;
        Ok((Request::LIST(List { targets }), p1))
    } else if tag == 4 {
        let (destroy, p1) = read_bool(buf, p0)?;
        Ok((Request::QUIT(Quit { destroy }), p1))
    } else {
        Err(CoreError::DecodingError)
    }
}

// ---------------------------------------------------------------------------
// Response codec
// ---------------------------------------------------------------------------

/// True when a response can be carried on the wire.
pub open spec fn response_fits(r: ResponseModel) -> bool {
    string_fits(r.confirmation) && strings_fit(r.commands) && targets_fit(r.targets)
}

/// A response on the wire: confirmation, command list, target list.
pub open spec fn spec_ser_response(r: ResponseModel) -> Seq<u8>
    recommends
        response_fits(r),
{
    spec_ser_string(r.confirmation) + spec_ser_string_list(r.commands) + spec_ser_target_list(
        r.targets,
    )
}

/// Parse one response.
pub open spec fn spec_parse_response(buf: Seq<u8>, pos: int) -> Option<(ResponseModel, int)> {
    match spec_parse_string(buf, pos) {
        Some((confirmation, p0)) => match spec_parse_string_list(buf, p0) {
            Some((commands, p1)) => match spec_parse_target_list(buf, p1) {
                Some((targets, p2)) => Some(
                    (ResponseModel { confirmation, commands, targets }, p2),
                ),
                None => None,
            },
            None => None,
        },
        None => None,
    }
}

/// Wherever a buffer holds a serialized response, the parser recovers it.
pub proof fn lemma_parse_response_at(buf: Seq<u8>, pos: int, r: ResponseModel)
    requires
        response_fits(r),
        0 <= pos,
        pos + spec_ser_response(r).len() <= buf.len(),
        buf.subrange(pos, pos + spec_ser_response(r).len()) == spec_ser_response(r),
    ensures
        spec_parse_response(buf, pos) == Some((r, pos + spec_ser_response(r).len())),
{
    lemma_auto_spec_u32_to_from_le_bytes();
    let s0 = spec_ser_string(r.confirmation);
    let s1 = spec_ser_string_list(r.commands);
    let s2 = spec_ser_target_list(r.targets);
    assert(spec_ser_response(r) =~= s0 + s1 + s2);
    lemma_split3(buf, pos, s0, s1, s2);
    assert(s0.len() == 4 + encode_utf8(r.confirmation).len());
    lemma_parse_string_at(buf, pos, r.confirmation);
    lemma_parse_string_list_at(buf, pos + s0.len(), r.commands);
    lemma_parse_target_list_at(buf, pos + s0.len() + s1.len(), r.targets);
}

/// Write one response.
pub fn write_response(out: &mut Vec<u8>, r: &Response) -> (res: Result<(), CoreError>)
    ensures
        match res {
            Ok(u) => response_fits(r@) && final(out)@ == old(out)@ + spec_ser_response(r@),
            Err(e) => e == CoreError::EncodingError && !response_fits(r@),
        },
{
    write_string(out, r.confirmation.as_str())?;
    write_string_list(out, &r.commands)?;
    write_target_list(out, &r.targets)?;
    proof {
        assert(out@ =~= old(out)@ + spec_ser_response(r@));
    }
    Ok(())
}

/// Read one response.
pub fn read_response(buf: &[u8], pos: usize) -> (r: Result<(Response, usize), CoreError>)
    ensures
        match r {
            Ok((resp, p)) => spec_parse_response(buf@, pos as int) == Some((resp@, p as int)),
            Err(e) => e == CoreError::DecodingError && spec_parse_response(buf@, pos as int)
                is None,
        },
{
    let (confirmation, p0) = read_string(buf, pos)?;
    let (commands, p1) = read_string_list(buf, p0)?;
    let (targets, p2) = read_target_list(buf, p1)?;
    Ok((Response { confirmation, commands, targets }, p2))
}

} // verus!

