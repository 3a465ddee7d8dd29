//! Group data for the runtime: revenue and banking records loaded from an
//! on-disk data directory. Reading and decoding the files happens outside
//! the verified core; the records themselves and their accessors live here.

use vstd::prelude::*;
use std::collections::HashMap;

verus! {

/// The group's revenue record.
#[derive(Debug)]
pub struct OwlbanRevenue {
    pub amount: String,
    pub routing_number: String,
    pub account_number: String,
    pub bank_name: String,
}

/// The group's banking record: routing and account numbers by institution.
#[derive(Debug)]
pub struct OwlbanBanking {
    pub routing_numbers: HashMap<String, String>,
    pub account_numbers: HashMap<String, String>,
}

/// The group data found in the data directory: either record may be absent.
#[derive(Debug)]
pub struct OwlbanData {
    pub revenue: Option<OwlbanRevenue>,
    pub banking: Option<OwlbanBanking>,
}

impl OwlbanData {
    /// Assembles the group data from the records the loader found.
    pub fn from_parts(revenue: Option<OwlbanRevenue>, banking: Option<OwlbanBanking>) -> (r:
        OwlbanData)
        ensures
            r.revenue == revenue,
            r.banking == banking,
    {
        OwlbanData { revenue, banking }
    }

    /// The revenue record, if one was found.
    pub fn get_revenue(&self) -> (r: Option<&OwlbanRevenue>)
        ensures
            match r {
                Some(v) => self.revenue == Some(*v),
                None => self.revenue is None,
            },
    {
        self.revenue.as_ref()
    }

    /// The banking record, if one was found.
    pub fn get_banking(&self) -> (r: Option<&OwlbanBanking>)
        ensures
            match r {
                Some(v) => self.banking == Some(*v),
                None => self.banking is None,
            },
    {
        self.banking.as_ref()
    }
}

} // verus!
