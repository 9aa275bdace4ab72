use vstd::prelude::*;

verus! {

/// The broad class of a tracked aircraft.
#[derive(Copy, Clone, Debug, PartialEq, Eq, Structural)]
pub enum PlaneType {
    Commercial,
    Cargo,
    Unknown,
}

impl PlaneType {
    /// The label shown for this plane type.
    pub open spec fn label(self) -> Seq<char> {
        match self {
            PlaneType::Commercial => "Commercial"@,
            PlaneType::Cargo => "Cargo"@,
            PlaneType::Unknown => "Unkown"@,
        }
    }

    pub fn to_str(self) -> (r: &'static str)
        ensures
            r@ == self.label(),
    {
        match self {
            PlaneType::Commercial => "Commercial",
            PlaneType::Cargo => "Cargo",
            PlaneType::Unknown => "Unkown",
        }
    }
}

/// A few specific airlines, and the selections of `All` or `Other` which
/// the user can filter by.
#[derive(Copy, Clone, Debug, PartialEq, Eq, Structural)]
pub enum Airline {
    American,
    Spirit,
    Southwest,
    United,
    All,
    Other,
    Delta,
}

impl Airline {
    /// The label shown for this airline.
    pub open spec fn label(self) -> Seq<char> {
        match self {
            Airline::American => "American Airlines"@,
            Airline::Spirit => "Spirit Airlines"@,
            Airline::Southwest => "Southwest Airlines"@,
            Airline::United => "United Airlines"@,
            Airline::Delta => "Delta Airlines"@,
            _ => "Unknown"@,
        }
    }

    pub fn to_str(self) -> (r: &'static str)
        ensures
            r@ == self.label(),
    {
        match self {
            Airline::American => "American Airlines",
            Airline::Spirit => "Spirit Airlines",
            Airline::Southwest => "Southwest Airlines",
            Airline::United => "United Airlines",
            Airline::Delta => "Delta Airlines",
            _ => "Unknown",
        }
    }
}

} // verus!
