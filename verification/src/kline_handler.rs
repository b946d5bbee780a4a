//! Answering a request for the bars of one symbol.

use vstd::prelude::*;
use crate::interval::{interval_of_label, Interval, IntervalError};
use crate::kline::{bar_views, KlineResponse};
use crate::kline_service::KlineService;

verus! {

/// The optional parameters of a request for bars.
#[derive(Debug, PartialEq, Eq)]
pub struct KlineQuery {
    /// Label of the interval; one minute where absent.
    pub interval: Option<String>,
    /// Greatest number of closed bars wanted.
    pub limit: Option<usize>,
}

impl KlineQuery {
    /// The interval that the request asks for: the one that its label
    /// names, one minute where it gives no label, none where the label is
    /// not recognised.
    pub open spec fn requested_interval(&self) -> Option<Interval> {
        match self.interval {
            Some(label) => interval_of_label(label@),
            None => Some(Interval::OneMinute),
        }
    }
}

/// Answers a request for the bars of `symbol`.
///
/// The answer names the symbol and the interval and holds what the store
/// returns for them under the request's limit. A label that names none of
/// the five intervals is an error; it is never read as one minute.
pub fn get_klines(service: &KlineService, symbol: String, params: KlineQuery) -> (r: Result<
    KlineResponse,
    IntervalError,
>)
    requires
        service.wf(),
    ensures
        match params.requested_interval() {
            None => r == Err::<KlineResponse, IntervalError>(IntervalError::UnknownInterval),
            Some(interval) => r matches Ok(response) && response.symbol == symbol
                && response.interval == interval && bar_views(response.data@) == service.series(
                symbol@,
                interval,
            ).query(params.limit),
        },
{
    let requested = match &params.interval {
        Some(label) => Interval::parse(label.as_str()),
        None => Some(Interval::OneMinute),
    };
    match requested {
        None => Err(IntervalError::UnknownInterval),
        Some(interval) => {
            let data = service.get_klines_of(symbol.as_str(), interval, params.limit);
            Ok(KlineResponse { symbol, interval, data })
        },
    }
}

} // verus!
