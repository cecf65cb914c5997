//! Small pieces of the trading companion: the built-in strategy ids, trade
//! sides, and the response envelope of its command-line interface.

use vstd::prelude::*;
use vstd::string::StringExecFns;
use crate::block::equals_lit;
use crate::text::{chars_of, lowercase, lowercase_of};

verus! {

/// Whether `s` is the id of a built-in strategy.
pub open spec fn is_strategy_id(s: Seq<char>) -> bool {
    s == "momentum"@ || s == "mean_reversion"@ || s == "sma_crossover"@ || s == "rsi_strategy"@
        || s == "buy_and_hold"@
}

/// Whether an already lower-cased id names a built-in strategy.
pub fn is_builtin_strategy_id(lowered: &str) -> (r: bool)
    ensures
        r == is_strategy_id(lowered@),
{
    let cs = chars_of(lowered);
    equals_lit(&cs, "momentum") || equals_lit(&cs, "mean_reversion") || equals_lit(
        &cs,
        "sma_crossover",
    ) || equals_lit(&cs, "rsi_strategy") || equals_lit(&cs, "buy_and_hold")
}

/// Whether `id`, in any letter case, names a built-in strategy.
pub fn is_valid_strategy(id: &str) -> (r: bool)
    ensures
        r == is_strategy_id(lowercase_of(id@)),
{
    let lowered = lowercase(id);
    is_builtin_strategy_id(lowered.as_str())
}

/// The ids of the built-in strategies.
pub fn strategy_ids() -> (r: Vec<String>)
    ensures
        r@.map_values(|s: String| s@) == seq![
            "momentum"@,
            "mean_reversion"@,
            "sma_crossover"@,
            "rsi_strategy"@,
            "buy_and_hold"@,
        ],
{
    let mut r: Vec<String> = Vec::new();
    r.push(String::from_str("momentum"));
    r.push(String::from_str("mean_reversion"));
    r.push(String::from_str("sma_crossover"));
    r.push(String::from_str("rsi_strategy"));
    r.push(String::from_str("buy_and_hold"));
    assert(r@.map_values(|s: String| s@) =~= seq![
        "momentum"@,
        "mean_reversion"@,
        "sma_crossover"@,
        "rsi_strategy"@,
        "buy_and_hold"@,
    ]);
    r
}

/// Direction of a trade.
#[derive(Clone, Copy, Debug, PartialEq, Eq, Structural)]
pub enum TradeSide {
    Buy,
    Sell,
}

/// Envelope of a command's answer: data on success, a message on failure.
#[derive(Clone, Debug)]
pub struct ApiResponse<T> {
    pub ok: bool,
    pub data: Option<T>,
    pub error: Option<String>,
}

impl<T> ApiResponse<T> {
    /// A successful answer carrying `data`.
    pub fn ok(data: T) -> (r: ApiResponse<T>)
        ensures
            r.ok,
            r.data == Some(data),
            r.error is None,
    {
        ApiResponse { ok: true, data: Some(data), error: None }
    }

    /// A failed answer carrying the message `error`.
    pub fn err(error: &str) -> (r: ApiResponse<T>)
        ensures
            !r.ok,
            r.data is None,
            r.error is Some,
            r.error->0@ == error@,
    {
        ApiResponse { ok: false, data: None, error: Some(error.to_owned()) }
    }
}

} // verus!
