//! Progress of a run: the stage of each entity's retrieval, and the advisory
//! total number of entities.
use vstd::prelude::*;
use vstd::string::StringExecFns;

use crate::text::{decimal, decimal_spec};

verus! {

/// Where the retrieval of one entity stands.
#[derive(Clone, Copy, Debug, PartialEq, Eq, Structural)]
pub enum Stage {
    Pending,
    FetchingBuy,
    FetchingSell,
    Merging,
    Written,
    Failed,
}

/// The stage after the work of stage `s` succeeded (`ok`) or failed.
pub open spec fn stage_after(s: Stage, ok: bool) -> Stage {
    match s {
        Stage::Written => Stage::Written,
        Stage::Failed => Stage::Failed,
        _ => if !ok {
            Stage::Failed
        } else {
            match s {
                Stage::Pending => Stage::FetchingBuy,
                Stage::FetchingBuy => Stage::FetchingSell,
                Stage::FetchingSell => Stage::Merging,
                _ => Stage::Written,
            }
        },
    }
}

impl Stage {
    /// The next stage, once the work of this one succeeded (`ok`) or failed.
    /// `Written` and `Failed` are final.
    pub fn advance(self, ok: bool) -> (r: Stage)
        ensures
            r == stage_after(self, ok),
    {
        match self {
            Stage::Written => Stage::Written,
            Stage::Failed => Stage::Failed,
            _ => if !ok {
                Stage::Failed
            } else {
                match self {
                    Stage::Pending => Stage::FetchingBuy,
                    Stage::FetchingBuy => Stage::FetchingSell,
                    Stage::FetchingSell => Stage::Merging,
                    _ => Stage::Written,
                }
            },
        }
    }

    /// The stage is final.
    pub fn is_final(&self) -> (r: bool)
        ensures
            r == (*self == Stage::Written || *self == Stage::Failed),
    {
        match self {
            Stage::Written | Stage::Failed => true,
            _ => false,
        }
    }
}

/// The advisory total of a run, if one is known.
pub struct Total(pub Option<usize>);

pub open spec fn total_text(t: Option<usize>) -> Seq<char> {
    match t {
        None => "unknown"@,
        Some(n) => decimal_spec(n as nat),
    }
}

impl Total {
    /// The total, if known.
    pub fn deref(&self) -> (r: &Option<usize>)
        ensures
            *r == self.0,
    {
        &self.0
    }

    /// The total in words: its number, or `unknown`.
    pub fn to_string(&self) -> (r: String)
        ensures
            r@ == total_text(self.0),
    {
        match self.0 {
            None => String::from_str("unknown"),
            Some(n) => decimal(n as u64),
        }
    }
}

impl Default for Total {
    fn default() -> (r: Self)
        ensures
            r.0 is None,
    {
        Total(None)
    }
}

impl From<Option<usize>> for Total {
    fn from(count: Option<usize>) -> Self {
        Total(count)
    }
}

impl vstd::std_specs::convert::FromSpecImpl<Option<usize>> for Total {
    open spec fn obeys_from_spec() -> bool {
        true
    }

    open spec fn from_spec(v: Option<usize>) -> Total {
        Total(v)
    }
}

} // verus!
