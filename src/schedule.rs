use vstd::prelude::*;
use vstd::string::StringExecFns;
use crate::bin::{bin_label, format_bin};
use crate::date::{decode_date, decoded_date, following_day, next_date, CalendarDate};
use crate::error::ScheduleError;
use crate::tokens::{get_coded_schedule, token_view, tokens_of_text, tokens_view};

verus! {

/// The entry that one token decodes to.
pub open spec fn entry_of(tok: (Seq<char>, char)) -> Result<(CalendarDate, Seq<char>), ScheduleError> {
    match decoded_date(tok.0) {
        Ok(d) => Ok((d, bin_label(tok.1))),
        Err(e) => Err(e),
    }
}

/// The schedule that a token sequence decodes to; the first token that
/// fails to decode decides the error.
pub open spec fn schedule_of_tokens(toks: Seq<(Seq<char>, char)>) -> Result<Seq<(CalendarDate, Seq<char>)>, ScheduleError>
    decreases toks.len(),
{
    if toks.len() == 0 {
        Ok(Seq::empty())
    } else {
        match schedule_of_tokens(toks.drop_last()) {
            Err(e) => Err(e),
            Ok(prefix) => match entry_of(toks.last()) {
                Err(e) => Err(e),
                Ok(en) => Ok(prefix.push(en)),
            },
        }
    }
}

/// The schedule of the first line of `text` that begins with `key`.
pub open spec fn schedule_of_text(text: Seq<char>, key: Seq<char>) -> Result<Seq<(CalendarDate, Seq<char>)>, ScheduleError> {
    match tokens_of_text(text, key) {
        Err(e) => Err(e),
        Ok(toks) => schedule_of_tokens(toks),
    }
}

pub open spec fn entry_view(p: (CalendarDate, String)) -> (CalendarDate, Seq<char>) {
    (p.0, p.1@)
}

pub open spec fn entries_view(v: Seq<(CalendarDate, String)>) -> Seq<(CalendarDate, Seq<char>)> {
    v.map_values(|p: (CalendarDate, String)| entry_view(p))
}

pub open spec fn entry_result_view(r: Result<(CalendarDate, String), ScheduleError>) -> Result<(CalendarDate, Seq<char>), ScheduleError> {
    match r {
        Ok(p) => Ok(entry_view(p)),
        Err(e) => Err(e),
    }
}

pub open spec fn schedule_view(r: Result<Vec<(CalendarDate, String)>, ScheduleError>) -> Result<Seq<(CalendarDate, Seq<char>)>, ScheduleError> {
    match r {
        Ok(v) => Ok(entries_view(v@)),
        Err(e) => Err(e),
    }
}

/// The label of the first entry, from index `i` on, dated `target`.
pub open spec fn first_label_on(s: Seq<(CalendarDate, Seq<char>)>, target: CalendarDate, i: int) -> Option<Seq<char>>
    decreases s.len() - i,
{
    if i < 0 || i >= s.len() {
        None
    } else if s[i].0 == target {
        Some(s[i].1)
    } else {
        first_label_on(s, target, i + 1)
    }
}

/// The label of the first entry dated the day after `today`.
pub open spec fn tomorrows_label(s: Seq<(CalendarDate, Seq<char>)>, today: CalendarDate) -> Option<Seq<char>> {
    match next_date(today) {
        None => None,
        Some(t) => first_label_on(s, t, 0),
    }
}

pub open spec fn label_view(r: Option<String>) -> Option<Seq<char>> {
    match r {
        Some(s) => Some(s@),
        None => None,
    }
}

/// An empty schedule has nothing due tomorrow, whatever the day.
pub proof fn lemma_empty_schedule_no_match(today: CalendarDate)
    ensures
        tomorrows_label(Seq::empty(), today) is None,
{
}

proof fn lemma_first_label_before(s: Seq<(CalendarDate, Seq<char>)>, target: CalendarDate, i: int, k: int)
    requires
        0 <= k <= i < s.len(),
        s[i].0 == target,
        forall|j: int| 0 <= j < i ==> (#[trigger] s[j]).0 != target,
    ensures
        first_label_on(s, target, k) == Some(s[i].1),
    decreases i - k,
{
    if k < i {
        lemma_first_label_before(s, target, i, k + 1);
    }
}

/// Where several entries are dated tomorrow, the first of them in schedule
/// order gives the label.
pub proof fn lemma_first_duplicate_wins(s: Seq<(CalendarDate, Seq<char>)>, today: CalendarDate, i: int)
    requires
        0 <= i < s.len(),
        next_date(today) == Some(s[i].0),
        forall|j: int| 0 <= j < i ==> (#[trigger] s[j]).0 != s[i].0,
    ensures
        tomorrows_label(s, today) == Some(s[i].1),
{
    lemma_first_label_before(s, s[i].0, i, 0);
}

/// Decodes one token into its date and bin label.
pub fn decode_data(coded_data: (String, char)) -> (r: Result<(CalendarDate, String), ScheduleError>)
    ensures
        entry_result_view(r) == entry_of(token_view(coded_data)),
        r matches Ok(p) ==> p.0.wf(),
{
    let (coded_date, bin_code) = coded_data;
    let decoded = decode_date(coded_date);
    match decoded {
        Ok(d) => Ok((d, format_bin(bin_code))),
        Err(e) => Err(e),
    }
}

proof fn lemma_error_persists(toks: Seq<(Seq<char>, char)>, j: int)
    requires
        0 <= j <= toks.len(),
        schedule_of_tokens(toks.take(j)) is Err,
    ensures
        schedule_of_tokens(toks) == schedule_of_tokens(toks.take(j)),
    decreases toks.len(),
{
    if j == toks.len() {
        assert(toks.take(j) =~= toks);
    } else {
        assert(toks.drop_last().take(j) =~= toks.take(j));
        lemma_error_persists(toks.drop_last(), j);
    }
}

/// Decodes the schedule of the first line of `schedule_string` that begins
/// with `address_code`, stopping at the first token that fails.
pub fn get_schedule(schedule_string: String, address_code: &str) -> (r: Result<Vec<(CalendarDate, String)>, ScheduleError>)
    ensures
        schedule_view(r) == schedule_of_text(schedule_string@, address_code@),
        r matches Ok(v) ==> forall|i: int| 0 <= i < v@.len() ==> (#[trigger] v@[i]).0.wf(),
{
    let coded = get_coded_schedule(schedule_string, address_code);
    let tokens = match coded {
        Ok(t) => t,
        Err(e) => {
            return Err(e);
        },
    };
    let ghost toks = tokens@.map_values(|p: (String, char)| token_view(p));
    let mut out: Vec<(CalendarDate, String)> = Vec::new();
    let mut i: usize = 0;
    assert(entries_view(out@) =~= Seq::empty());
    assert(toks.take(0) =~= Seq::empty());
    while i < tokens.len()
        invariant
            0 <= i <= tokens@.len(),
            toks == tokens@.map_values(|p: (String, char)| token_view(p)),
            tokens_of_text(schedule_string@, address_code@) == Ok::<_, ScheduleError>(toks),
            schedule_of_tokens(toks.take(i as int)) == Ok::<_, ScheduleError>(entries_view(out@)),
            forall|m: int| 0 <= m < out@.len() ==> (#[trigger] out@[m]).0.wf(),
        decreases tokens@.len() - i,
    {
        let pair = (tokens[i].0.clone(), tokens[i].1);
        assert(token_view(pair) == toks[i as int]);
        assert(toks.take(i + 1).drop_last() =~= toks.take(i as int));
        assert(toks.take(i + 1).last() == toks[i as int]);
        match decode_data(pair) {
            Ok(p) => {
                let ghost before = out@;
                out.push(p);
                assert(entries_view(out@) =~= entries_view(before).push(entry_view(p)));
            },
            Err(e) => {
                proof {
                    lemma_error_persists(toks, i + 1);
                    assert(toks.take(toks.len() as int) =~= toks);
                }
                return Err(e);
            },
        }
        i = i + 1;
    }
    assert(toks.take(i as int) =~= toks);
    Ok(out)
}

/// The label of the first entry of `schedule` dated the day after `today`.
pub fn get_tomorrows_bin(schedule: Vec<(CalendarDate, String)>, today: CalendarDate) -> (r: Option<String>)
    requires
        today.wf(),
    ensures
        label_view(r) == tomorrows_label(entries_view(schedule@), today),
{
    let target = match following_day(today) {
        Some(t) => t,
        None => {
            return None;
        },
    };
    let ghost s = entries_view(schedule@);
    let mut i: usize = 0;
    while i < schedule.len()
        invariant
            0 <= i <= schedule@.len(),
            s == entries_view(schedule@),
            next_date(today) == Some(target),
            first_label_on(s, target, 0) == first_label_on(s, target, i as int),
        decreases schedule@.len() - i,
    {
        if schedule[i].0 == target {
            return Some(schedule[i].1.clone());
        }
        i = i + 1;
    }
    None
}

/// What is due tomorrow at `address_code`, from the fetched schedule text.
pub fn get_bin(site_response: String, address_code: &str, today: CalendarDate) -> (r: Result<Option<String>, ScheduleError>)
    requires
        today.wf(),
    ensures
        match schedule_of_text(site_response@, address_code@) {
            Err(e) => r == Err::<Option<String>, ScheduleError>(e),
            Ok(s) => r matches Ok(b) && label_view(b) == tomorrows_label(s, today),
        },
{
    let schedule = get_schedule(site_response, address_code);
    match schedule {
        Ok(s) => Ok(get_tomorrows_bin(s, today)),
        Err(e) => Err(e),
    }
}

/// The text of the notification for an outcome of `get_bin`: a reminder
/// where a bin is due, the error where decoding failed, none otherwise.
pub fn notification_text(outcome: &Result<Option<String>, ScheduleError>) -> (r: Option<String>)
    ensures
        match outcome {
            Ok(Some(bin)) => r matches Some(m) && m@ == "Put out "@ + bin@ + " for tomorrow"@,
            Ok(None) => r is None,
            Err(e) => r matches Some(m) && m@ == "Error: "@ + e.description_spec(),
        },
{
    match outcome {
        Ok(Some(bin)) => {
            let mut m = String::from_str("Put out ");
            m.append(bin.as_str());
            m.append(" for tomorrow");
            Some(m)
        },
        Ok(None) => None,
        Err(e) => {
            let mut m = String::from_str("Error: ");
            let d = e.description();
            m.append(d.as_str());
            Some(m)
        },
    }
}

} // verus!
