//! Classification of a provider response against the requested date: exact,
//! estimated, or explained by a non-working day, and whether the request
//! should stay on the retry queue.

use vstd::prelude::*;

use crate::date::Date;
use crate::date::day_is_weekend;

verus! {

/// Why a snapshot is marked as covering a non-working day.
#[derive(Clone, Copy, PartialEq, Eq, Debug)]
pub enum NonWorkingDayReason {
    Weekend,
    PublicHoliday,
    ExchangeClosed,
}

impl NonWorkingDayReason {
    /// The display text of the reason.
    pub fn text(&self) -> (r: String)
        ensures
            r@ == self.spec_text(),
    {
        match self {
            NonWorkingDayReason::Weekend => "weekend".to_owned(),
            NonWorkingDayReason::PublicHoliday => "public_holiday".to_owned(),
            NonWorkingDayReason::ExchangeClosed => "exchange closed".to_owned(),
        }
    }

    pub open spec fn spec_text(self) -> Seq<char> {
        match self {
            NonWorkingDayReason::Weekend => "weekend"@,
            NonWorkingDayReason::PublicHoliday => "public_holiday"@,
            NonWorkingDayReason::ExchangeClosed => "exchange closed"@,
        }
    }
}

/// How a provider response relates to the requested date, and what follows
/// for the retry queue.
#[derive(Clone, Copy, PartialEq, Eq, Debug)]
pub struct RateStatus {
    /// The snapshot does not reflect the exact requested date.
    pub is_estimated: bool,
    /// The gap is explained by a weekend, holiday, or a closed market.
    pub is_non_working_day: bool,
    /// Present exactly when `is_non_working_day` holds.
    pub reason: Option<NonWorkingDayReason>,
    /// Keep (or put) the request on the retry queue.
    pub should_retry: bool,
}

/// The decision table behind `determine_rate_status`, first match wins:
/// a zero-day gap is authoritative; a gap to exactly the previous business
/// day is explained by the calendar and terminal; an unexplained one-day gap
/// is provider latency and is retried; any larger unexplained gap counts as
/// a closed market and is accepted as a terminal estimate.
pub open spec fn spec_rate_status(
    diff: int,
    is_non_working_day: bool,
    non_working_day_reason: Option<NonWorkingDayReason>,
) -> RateStatus {
    if diff == 0 {
        RateStatus { is_estimated: false, is_non_working_day: false, reason: None, should_retry: false }
    } else if is_non_working_day {
        RateStatus {
            is_estimated: true,
            is_non_working_day: true,
            reason: non_working_day_reason,
            should_retry: false,
        }
    } else if diff == 1 {
        RateStatus { is_estimated: true, is_non_working_day: false, reason: None, should_retry: true }
    } else {
        RateStatus {
            is_estimated: true,
            is_non_working_day: true,
            reason: Some(NonWorkingDayReason::ExchangeClosed),
            should_retry: false,
        }
    }
}

/// Decides the classification flags from the day gap between the requested
/// and the reported date, and from whether that gap is already known to be a
/// non-working-day gap (reported date == previous business day).
pub fn determine_rate_status(
    diff: i64,
    is_non_working_day: bool,
    non_working_day_reason: Option<NonWorkingDayReason>,
) -> (r: RateStatus)
    ensures
        r == spec_rate_status(diff as int, is_non_working_day, non_working_day_reason),
{
    if diff == 0 {
        RateStatus { is_estimated: false, is_non_working_day: false, reason: None, should_retry: false }
    } else if is_non_working_day {
        RateStatus {
            is_estimated: true,
            is_non_working_day: true,
            reason: non_working_day_reason,
            should_retry: false,
        }
    } else if diff == 1 {
        RateStatus { is_estimated: true, is_non_working_day: false, reason: None, should_retry: true }
    } else {
        RateStatus {
            is_estimated: true,
            is_non_working_day: true,
            reason: Some(NonWorkingDayReason::ExchangeClosed),
            should_retry: false,
        }
    }
}

/// The whole classification of a provider response: day gap, the
/// previous-business-day test, and the weekend/holiday reason, fed through
/// the decision table.
pub open spec fn spec_classify(requested: Date, provider: Date) -> RateStatus {
    let diff = requested.days - provider.days;
    let nwd = diff > 0 && provider.days == requested.spec_prev_business_day();
    let reason = if nwd {
        if requested.spec_is_weekend() {
            Some(NonWorkingDayReason::Weekend)
        } else {
            Some(NonWorkingDayReason::PublicHoliday)
        }
    } else {
        None
    };
    spec_rate_status(diff, nwd, reason)
}

/// Classifies the provider's reported date against the requested date.
pub fn classify(requested: Date, provider: Date) -> (r: RateStatus)
    requires
        requested.wf(),
        provider.wf(),
    ensures
        r == spec_classify(requested, provider),
{
    let diff = requested.days - provider.days;
    let is_non_working_day = diff > 0 && provider.days == requested.previous_business_day().days;
    let reason = if is_non_working_day {
        if requested.is_weekend() {
            Some(NonWorkingDayReason::Weekend)
        } else {
            Some(NonWorkingDayReason::PublicHoliday)
        }
    } else {
        None
    };
    determine_rate_status(diff, is_non_working_day, reason)
}

/// Classification is a pure function of the day gap and the two dates:
/// a zero gap is exact; a report of exactly the previous business day is a
/// terminal non-working-day estimate, blamed on the weekend precisely when
/// the requested date falls on one; an unexplained one-day gap is a
/// retryable estimate; any larger unexplained gap is a terminal
/// closed-market estimate.
pub proof fn lemma_classification_cases(requested: Date, provider: Date)
    ensures
        provider.days == requested.days ==> spec_classify(requested, provider) == (RateStatus {
            is_estimated: false,
            is_non_working_day: false,
            reason: None,
            should_retry: false,
        }),
        provider.days == requested.spec_prev_business_day() && requested.spec_is_weekend()
            ==> spec_classify(requested, provider) == (RateStatus {
            is_estimated: true,
            is_non_working_day: true,
            reason: Some(NonWorkingDayReason::Weekend),
            should_retry: false,
        }),
        provider.days == requested.spec_prev_business_day() && !requested.spec_is_weekend()
            ==> spec_classify(requested, provider) == (RateStatus {
            is_estimated: true,
            is_non_working_day: true,
            reason: Some(NonWorkingDayReason::PublicHoliday),
            should_retry: false,
        }),
        requested.days - provider.days == 1 && provider.days != requested.spec_prev_business_day()
            ==> spec_classify(requested, provider) == (RateStatus {
            is_estimated: true,
            is_non_working_day: false,
            reason: None,
            should_retry: true,
        }),
        requested.days - provider.days > 1 && provider.days != requested.spec_prev_business_day()
            ==> spec_classify(requested, provider) == (RateStatus {
            is_estimated: true,
            is_non_working_day: true,
            reason: Some(NonWorkingDayReason::ExchangeClosed),
            should_retry: false,
        }),
{
}

/// A provider that reports the business day before a weekend request gets
/// the weekend classification, terminally: the snapshot is an estimate, the
/// day is a non-working day, the reason is the weekend, and nothing is
/// retried.
pub proof fn lemma_weekend_report_is_terminal(requested: Date, provider: Date)
    requires
        requested.spec_is_weekend(),
        provider.days == requested.spec_prev_business_day(),
    ensures
        spec_classify(requested, provider) == (RateStatus {
            is_estimated: true,
            is_non_working_day: true,
            reason: Some(NonWorkingDayReason::Weekend),
            should_retry: false,
        }),
        !spec_classify(requested, provider).should_retry,
{
}

} // verus!
