//! Shared schedule trigger layer.
//!
//! A `ScheduleSpec` names when something recurs: a standard 5-field cron
//! expression, an interval, or both (cron wins). Cron jobs and schedule-trigger
//! wake definitions both resolve their next fire through this module so the
//! expression expansion and timezone conversion exist exactly once.
use vstd::prelude::*;
use std::str::FromStr;
use crate::text;
use crate::time;
use crate::time::Instant;

verus! {

/// When a scheduled trigger recurs.
#[derive(Debug)]
pub struct ScheduleSpec {
    /// Standard 5-field cron expression. Takes precedence over
    /// `interval_secs` when both are set.
    pub cron_expr: Option<String>,
    pub interval_secs: Option<u64>,
}

/// What `cron::Schedule::from_str` says against an expression; nothing where
/// it accepts it.
pub uninterp spec fn cron_complaint(expr: Seq<char>) -> Option<Seq<char>>;

/// Calls `cron::Schedule::from_str`. The claim is that whether it accepts an
/// expression, and the text of its error where it does not, depend on the
/// expression alone.
#[verifier::external_body]
fn check_cron(expr: &str) -> (complaint: Option<String>)
    ensures
        text::opt_text(complaint) == cron_complaint(expr@),
{
    cron::Schedule::from_str(expr).err().map(|error| error.to_string())
}

/// The instant at a place of what `cron::Schedule::after` gives for an
/// expression, an instant and the name of a time zone; none where the
/// expression or the name means nothing, or the schedule has ended.
pub uninterp spec fn cron_fire(expr: Seq<char>, after: int, zone: Seq<char>, place: nat) -> Option<int>;

/// Calls `cron::Schedule::after` on the schedule of an expression, in a zone
/// of `chrono_tz`. The claim is that the instant at a place depends on the
/// expression, the starting instant, the zone and the place alone, and has a
/// date. It is left unsaid that the instant lies behind the starting one: in
/// an hour that a clock goes through twice, the first may not.
#[verifier::external_body]
fn nth_fire(expr: &str, after: i64, zone: &str, place: usize) -> (fire: Option<i64>)
    requires
        time::well_inside_calendar(after as int),
    ensures
        instant(fire) == cron_fire(expr@, after as int, zone@, place as nat),
        fire matches Some(fire) ==> time::in_calendar(fire as int),
{
    let schedule = cron::Schedule::from_str(expr).ok()?;
    let zone = chrono_tz::Tz::from_str(zone).ok()?;
    let after = chrono::DateTime::<chrono::Utc>::from_timestamp(after, 0)?;
    let fire = schedule.after(&after.with_timezone(&zone)).nth(place)?;
    Some(fire.timestamp())
}

/// An instant that may be none.
pub open spec fn instant(at: Option<i64>) -> Option<int> {
    match at {
        Some(at) => Some(at as int),
        None => None,
    }
}

/// The first of two fires that lies behind an instant.
pub open spec fn first_behind(after: int, first: Option<int>, second: Option<int>) -> Option<int> {
    match (first, second) {
        (Some(first), _) if first > after => Some(first),
        (Some(_), Some(second)) if second > after => Some(second),
        _ => None,
    }
}

/// Picks the first of two fires that lies behind an instant.
pub fn pick_behind(after: i64, first: Option<i64>, second: Option<i64>) -> (next: Option<i64>)
    ensures
        instant(next) == first_behind(after as int, instant(first), instant(second)),
        next matches Some(next) ==> next > after,
{
    match (first, second) {
        (Some(first), _) if first > after => Some(first),
        (Some(_), Some(second)) if second > after => Some(second),
        _ => None,
    }
}

/// The first fire of an expression strictly behind an instant. In an hour that
/// a clock goes through twice, every fire comes twice, and the earlier of the
/// two may lie before the instant.
pub open spec fn cron_next(expr: Seq<char>, after: int, zone: Seq<char>) -> Option<int> {
    first_behind(after, cron_fire(expr, after, zone, 0), cron_fire(expr, after, zone, 1))
}

/// An expression in the form with seconds and years that schedules are parsed
/// from.
pub open spec fn expanded(expr: Seq<char>) -> Seq<char> {
    if text::words_of(expr).len() == 5 {
        "0 "@ + expr + " *"@
    } else {
        expr
    }
}

/// Expands a 5-field standard cron expression to the 7-field format
/// `sec min hour dom month dow year`. If the expression already has 6 or more
/// fields, it is returned as it is.
pub fn expand_cron_expr(expr: &str) -> (full: String)
    ensures
        full@ == expanded(expr@),
{
    let fields = text::split_whitespace(expr);
    assert(fields@.len() == text::texts(fields@).len());
    if fields.len() == 5 {
        let mut full = "0 ".to_owned();
        full.push_str(expr);
        full.push_str(" *");
        full
    } else {
        expr.to_owned()
    }
}

/// A cron expression that was accepted.
#[derive(Debug)]
pub struct CronSchedule {
    source: String,
}

impl CronSchedule {
    /// The expression that the schedule was parsed from.
    pub closed spec fn view(&self) -> Seq<char> {
        self.source@
    }
}

/// Parses a cron expression, accepting the standard 5-field form.
pub fn parse_cron_schedule(expr: &str) -> (parsed: Result<CronSchedule, String>)
    ensures
        match parsed {
            Ok(schedule) => cron_complaint(expanded(expr@)) is None && schedule@ == expanded(expr@),
            Err(complaint) => cron_complaint(expanded(expr@)) == Some(complaint@),
        },
{
    let source = expand_cron_expr(expr);
    match check_cron(source.as_str()) {
        None => Ok(CronSchedule { source }),
        Some(complaint) => Err(complaint),
    }
}

/// Next fire of a schedule strictly after an instant, evaluated in a time zone
/// and returned in UTC.
pub fn next_cron_occurrence(schedule: &CronSchedule, after: i64, zone: &str) -> (next: Option<i64>)
    requires
        time::well_inside_calendar(after as int),
    ensures
        instant(next) == cron_next(schedule@, after as int, zone@),
        next matches Some(next) ==> next > after,
{
    let source = schedule.source.as_str();
    pick_behind(after, nth_fire(source, after, zone, 0), nth_fire(source, after, zone, 1))
}

/// The next occurrence by an interval. An interval of nothing would recur
/// immediately forever, so it is no schedule; nor is one too long to add.
pub open spec fn interval_next(interval_secs: Option<u64>, after: Instant) -> Option<Instant> {
    match interval_secs {
        Some(seconds) => if 0 < seconds <= time::LONGEST && after.at + seconds <= time::LAST_SECOND {
            Some(Instant { at: (after.at + seconds) as i64, nanos: after.nanos })
        } else {
            None
        },
        None => None,
    }
}

/// The start of a second.
pub open spec fn start_of(second: Option<int>) -> Option<Instant> {
    match second {
        Some(at) => Some(Instant { at: at as i64, nanos: 0 }),
        None => None,
    }
}

impl ScheduleSpec {
    /// The next occurrence of this schedule, given what its cron expression
    /// fires next in the zone it is evaluated in.
    pub open spec fn next(self, after: Instant, fired: Option<Instant>) -> Option<Instant> {
        match self.cron_expr {
            Some(_) => fired,
            None => interval_next(self.interval_secs, after),
        }
    }

    /// The second at which the cron expression of this schedule fires next in
    /// a zone. An expression that does not parse never fires.
    pub open spec fn fired(self, after: int, zone: Seq<char>) -> Option<int> {
        match self.cron_expr {
            Some(expr) => if cron_complaint(expanded(expr@)) is None {
                cron_next(expanded(expr@), after, zone)
            } else {
                None
            },
            None => None,
        }
    }

    /// Next occurrence strictly after `after`, evaluated in a time zone and
    /// returned in UTC. A cron expression fires at the start of a second; an
    /// interval keeps the part of a second that `after` is into. Returns `None`
    /// for expressions that do not parse (they were validated at load; a runtime
    /// surprise degrades to no occurrence) and for specs with neither a cron
    /// expression nor a positive interval.
    pub fn next_occurrence(&self, after: Instant, zone: &str) -> (next: Option<Instant>)
        requires
            after.well_formed(),
            self.cron_expr is Some ==> time::well_inside_calendar(after.at as int),
        ensures
            next == self.next(after, start_of(self.fired(after.at as int, zone@))),
            next matches Some(next) ==> after.precedes(next),
    {
        let fired = match &self.cron_expr {
            Some(expr) => match parse_cron_schedule(expr.as_str()) {
                Ok(schedule) => match next_cron_occurrence(&schedule, after.at, zone) {
                    Some(at) => Some(Instant { at, nanos: 0 }),
                    None => None,
                },
                Err(_) => None,
            },
            None => None,
        };
        self.next_occurrence_in(after, fired)
    }

    /// Next occurrence after `after`, given what the cron expression fires
    /// next in whatever zone the caller evaluates it in.
    pub fn next_occurrence_in(&self, after: Instant, fired: Option<Instant>) -> (next: Option<Instant>)
        requires
            after.well_formed(),
        ensures
            next == self.next(after, fired),
    {
        if self.cron_expr.is_some() {
            return fired;
        }
        match self.interval_secs {
            Some(seconds) => if seconds > 0 {
                match time::seconds_later(after.at, seconds) {
                    Some(at) => Some(Instant { at, nanos: after.nanos }),
                    None => None,
                }
            } else {
                None
            },
            None => None,
        }
    }
}

/// Why a cron expression is refused.
#[derive(Debug)]
pub enum CronExprError {
    /// It has another number of fields than five: the number and the
    /// expression.
    FieldCount(usize, String),
    /// It does not parse: the expression and what is wrong with it.
    Invalid(String, String),
}

impl CronExprError {
    /// How the refusal reads.
    pub open spec fn wording(self) -> Seq<char> {
        match self {
            CronExprError::FieldCount(count, expr) => "cron expression must have exactly 5 fields (got "@
                + text::decimal(count as nat) + "): '"@ + expr@ + "'"@,
            CronExprError::Invalid(expr, complaint) => "invalid cron expression '"@ + expr@ + "': "@ + complaint@,
        }
    }

    /// How the refusal reads.
    pub fn message(&self) -> (message: String)
        ensures
            message@ == self.wording(),
    {
        match self {
            CronExprError::FieldCount(count, expr) => {
                let mut message = "cron expression must have exactly 5 fields (got ".to_owned();
                message.push_str(text::show_usize(*count).as_str());
                message.push_str("): '");
                message.push_str(expr.as_str());
                message.push_str("'");
                message
            },
            CronExprError::Invalid(expr, complaint) => {
                let mut message = "invalid cron expression '".to_owned();
                message.push_str(expr.as_str());
                message.push_str("': ");
                message.push_str(complaint.as_str());
                message
            },
        }
    }
}

/// What becomes of an optional cron expression, given what the parser says
/// against its expanded form.
pub open spec fn normalized(
    cron_expr: Option<Seq<char>>,
    complaint: Option<Seq<char>>,
) -> Result<Option<Seq<char>>, (nat, Seq<char>, Option<Seq<char>>)> {
    match cron_expr {
        None => Ok(None),
        Some(expr) => {
            let trimmed = text::trimmed(expr);
            let fields = text::words_of(trimmed).len();
            if trimmed.len() == 0 {
                Ok(None)
            } else if fields != 5 {
                Err((fields, trimmed, None))
            } else if complaint is Some {
                Err((fields, trimmed, complaint))
            } else {
                Ok(Some(trimmed))
            }
        },
    }
}

/// What a refusal holds.
pub open spec fn refusal(error: CronExprError) -> (nat, Seq<char>, Option<Seq<char>>) {
    match error {
        CronExprError::FieldCount(count, expr) => (count as nat, expr@, None),
        CronExprError::Invalid(expr, complaint) => (5, expr@, Some(complaint@)),
    }
}

/// Judges a trimmed expression once the parser has had its say.
pub fn judge_cron_expr(trimmed: String, complaint: Option<String>) -> (judged: Result<
    Option<String>,
    CronExprError,
>)
    requires
        text::trimmed(trimmed@) == trimmed@,
    ensures
        match judged {
            Ok(expr) => normalized(Some(trimmed@), text::opt_text(complaint)) == Ok::<
                Option<Seq<char>>,
                (nat, Seq<char>, Option<Seq<char>>),
            >(text::opt_text(expr)),
            Err(error) => normalized(Some(trimmed@), text::opt_text(complaint)) == Err::<
                Option<Seq<char>>,
                (nat, Seq<char>, Option<Seq<char>>),
            >(refusal(error)),
        },
{
    if trimmed.as_str().is_empty() {
        return Ok(None);
    }
    let fields = text::split_whitespace(trimmed.as_str());
    assert(fields@.len() == text::texts(fields@).len());
    if fields.len() != 5 {
        return Err(CronExprError::FieldCount(fields.len(), trimmed));
    }
    match complaint {
        Some(complaint) => Err(CronExprError::Invalid(trimmed, complaint)),
        // The 5-field form is what users and the UI expect.
        None => Ok(Some(trimmed)),
    }
}

/// Validates and normalizes an optional 5-field cron expression, returning the
/// 5-field form. Shared by cron job and wake config validation.
pub fn normalize_cron_expr(cron_expr: Option<String>) -> (result: Result<Option<String>, CronExprError>)
    ensures
        ({
            let complaint = match cron_expr {
                Some(expr) => cron_complaint(expanded(text::trimmed(expr@))),
                None => None,
            };
            match result {
                Ok(expr) => normalized(text::opt_text(cron_expr), complaint) == Ok::<
                    Option<Seq<char>>,
                    (nat, Seq<char>, Option<Seq<char>>),
                >(text::opt_text(expr)),
                Err(error) => normalized(text::opt_text(cron_expr), complaint) == Err::<
                    Option<Seq<char>>,
                    (nat, Seq<char>, Option<Seq<char>>),
                >(refusal(error)),
            }
        }),
{
    let expr = match cron_expr {
        Some(expr) => expr,
        None => {
            return Ok(None);
        },
    };
    let trimmed = text::trim(expr.as_str());
    proof {
        text::trimmed_twice(expr@);
    }
    let complaint = match parse_cron_schedule(trimmed.as_str()) {
        Ok(_) => None,
        Err(complaint) => Some(complaint),
    };
    judge_cron_expr(trimmed, complaint)
}

// ---------------------------------------------------------------------------
// Laws
// ---------------------------------------------------------------------------

/// A cron expression takes precedence: with one set, the interval plays no
/// part.
pub proof fn law_cron_wins_over_interval(a: ScheduleSpec, b: ScheduleSpec, after: Instant, fired: Option<Instant>)
    requires
        a.cron_expr is Some,
        b.cron_expr == a.cron_expr,
    ensures
        a.next(after, fired) == b.next(after, fired),
        a.next(after, fired) == fired,
{
}

/// By an interval, the next occurrence lies that many seconds after the
/// instant, to the nanosecond.
pub proof fn law_intervals_move_forward(spec: ScheduleSpec, after: Instant)
    requires
        spec.cron_expr is None,
        after.well_formed(),
    ensures
        spec.next(after, None) matches Some(next) ==> after.precedes(next) && next.at == after.at
            + spec.interval_secs->0 && next.nanos == after.nanos,
{
}

/// Normalizing an accepted expression again gives the same expression, as long
/// as the parser accepts it again.
pub proof fn law_normalizing_is_idempotent(expr: Seq<char>)
    requires
        normalized(Some(expr), None) is Ok,
    ensures
        normalized(normalized(Some(expr), None)->Ok_0, None) == normalized(Some(expr), None),
{
    text::trimmed_twice(expr);
}

/// A fire lies behind the start, and the first that does is taken: the second
/// is asked for only where the first does not.
pub proof fn law_the_first_fire_behind_the_start_is_taken(after: int, first: Option<int>, second: Option<int>)
    ensures
        first_behind(after, first, second) matches Some(at) ==> at > after && (Some(at) == first || Some(at) == second),
        first is Some && first->0 > after ==> first_behind(after, first, second) == first,
        first is Some && first->0 <= after && second is Some && second->0 > after ==> first_behind(
            after,
            first,
            second,
        ) == second,
        first is None ==> first_behind(after, first, second) is None,
{
}

/// Five fields become seven, the second and the year around them; an expression
/// with another number of fields is left as it is.
pub proof fn law_five_fields_get_a_second_and_a_year(expr: Seq<char>)
    ensures
        text::words_of(expr).len() != 5 ==> expanded(expr) == expr,
        text::words_of(expr).len() == 5 ==> text::begins(expanded(expr), "0 "@) && text::ends(expanded(expr), " *"@)
            && text::occurs_in(expanded(expr), expr) && expanded(expr).len() == expr.len() + 4,
{
    if text::words_of(expr).len() == 5 {
        reveal_strlit("0 ");
        reveal_strlit(" *");
        text::law_parts_occur("0 "@, expr, " *"@);
        text::law_parts_occur("0 "@ + expr, " *"@, Seq::empty());
        assert(expanded(expr).subrange(0, 2) =~= "0 "@);
    }
}

/// A schedule fires by its cron expression or by its interval, and one with
/// neither, or with an interval of nothing, never does.
pub proof fn law_no_schedule_no_fire(spec: ScheduleSpec, after: Instant, zone: Seq<char>, fired: Option<Instant>)
    requires
        after.well_formed(),
    ensures
        spec.cron_expr is None && spec.interval_secs is None ==> spec.next(after, fired) is None,
        spec.cron_expr is None && spec.interval_secs == Some(0u64) ==> spec.next(after, fired) is None,
        spec.cron_expr is None ==> spec.fired(after.at as int, zone) is None,
        spec.cron_expr is None && spec.interval_secs is Some && 0 < spec.interval_secs->0 <= time::LONGEST && after.at
            + spec.interval_secs->0 <= time::LAST_SECOND ==> spec.next(after, fired) is Some,
        spec.cron_expr matches Some(expr) && cron_complaint(expanded(expr@)) is Some ==> spec.fired(
            after.at as int,
            zone,
        ) is None,
        spec.fired(after.at as int, zone) matches Some(at) ==> at > after.at,
        start_of(spec.fired(after.at as int, zone)) is Some <==> spec.fired(after.at as int, zone) is Some,
{
}

/// A cron expression is kept without the whitespace around it, a blank one is
/// none at all, and one that is refused is refused for its number of fields
/// before anything else.
pub proof fn law_a_kept_expression_has_five_fields(expr: Seq<char>, complaint: Option<Seq<char>>)
    ensures
        normalized(None, complaint) == Ok::<Option<Seq<char>>, (nat, Seq<char>, Option<Seq<char>>)>(None),
        normalized(Some(expr), complaint) matches Ok(None) <==> text::trimmed(expr).len() == 0,
        normalized(Some(expr), complaint) matches Ok(Some(kept)) ==> kept == text::trimmed(expr) && text::words_of(
            kept,
        ).len() == 5 && complaint is None,
        normalized(Some(expr), complaint) matches Err((count, shown, why)) ==> {
            &&& shown == text::trimmed(expr)
            &&& count == text::words_of(shown).len()
            &&& why is Some ==> count == 5 && why == complaint
            &&& why is None ==> count != 5
        },
        normalized(Some(expr), complaint) is Err <==> text::trimmed(expr).len() > 0 && (text::words_of(
            text::trimmed(expr),
        ).len() != 5 || complaint is Some),
{
}

/// A refusal names the expression, and the count or the complaint.
pub proof fn law_a_refusal_tells_why(error: CronExprError)
    ensures
        text::occurs_in(error.wording(), refusal(error).1),
        error matches CronExprError::FieldCount(count, expr) ==> text::occurs_in(
            error.wording(),
            text::decimal(count as nat),
        ) && refusal(error).0 == count && refusal(error).2 is None,
        error matches CronExprError::Invalid(expr, complaint) ==> text::ends(error.wording(), complaint@) && refusal(
            error,
        ).2 == Some(complaint@),
{
    match error {
        CronExprError::FieldCount(count, expr) => {
            let a = "cron expression must have exactly 5 fields (got "@;
            let n = text::decimal(count as nat);
            text::law_parts_occur(a + n + "): '"@, expr@, "'"@);
            text::law_parts_occur(a, n, "): '"@ + expr@ + "'"@);
            assert(error.wording() =~= a + n + ("): '"@ + expr@ + "'"@));
        },
        CronExprError::Invalid(expr, complaint) => {
            let a = "invalid cron expression '"@;
            text::law_parts_occur(a, expr@, "': "@ + complaint@);
            text::law_parts_occur(a + expr@ + "': "@, complaint@, Seq::empty());
            assert(error.wording() =~= a + expr@ + ("': "@ + complaint@));
        },
    }
}

} // verus!
