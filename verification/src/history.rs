//! History entries: how a new entry is stamped and titled, how a listing is
//! paged, and which entries the retention settings remove.
use crate::clock::{
    calendar_title_shape, current_timestamp, local_calendar_text, utc_timestamp_representable,
};
use crate::error::HistoryError;
use crate::text::{char_from_ascii_code, chars_of, string_of};
use vstd::prelude::*;

verus! {

/// One recorded transcription.
#[derive(Clone, Debug)]
pub struct HistoryEntry {
    pub id: i64,
    pub file_name: String,
    pub timestamp: i64,
    pub saved: bool,
    pub title: String,
    pub transcription_text: String,
    pub post_processed_text: Option<String>,
    pub post_process_prompt: Option<String>,
    pub post_process_requested: bool,
}

/// One page of history, newest first.
#[derive(Clone, Debug)]
pub struct PaginatedHistory {
    pub entries: Vec<HistoryEntry>,
    pub has_more: bool,
}

/// A change to the history, as announced to listeners.
#[derive(Clone, Debug)]
pub enum HistoryUpdatePayload {
    Added { entry: HistoryEntry },
    Updated { entry: HistoryEntry },
    Deleted { id: i64 },
    Toggled { id: i64 },
}

// ---------------------------------------------------------------------------
// Titles
// ---------------------------------------------------------------------------

/// The character of decimal digit `d`.
pub open spec fn digit_char(d: nat) -> char {
    (d + 48) as char
}

/// The decimal digits of `n`, most significant first, without leading zeros.
pub open spec fn digits_spec(n: nat) -> Seq<char>
    decreases n,
{
    if n < 10 {
        seq![digit_char(n)]
    } else {
        digits_spec(n / 10).push(digit_char(n % 10))
    }
}

/// `n` written in decimal, with a leading `-` when negative.
pub open spec fn decimal_spec(n: int) -> Seq<char> {
    if n < 0 {
        seq!['-'] + digits_spec((-n) as nat)
    } else {
        digits_spec(n as nat)
    }
}

/// Appends the decimal digits of `m` to `out`.
fn push_digits(out: &mut Vec<char>, m: u64)
    ensures
        final(out)@ == old(out)@ + digits_spec(m as nat),
    decreases m,
{
    if m >= 10 {
        push_digits(out, m / 10);
    }
    let d: u64 = m % 10;
    let c = char_from_ascii_code((d + 48) as u32);
    out.push(c);
    proof {
        assert(c == digit_char(d as nat));
        if m >= 10 {
            assert(old(out)@ + digits_spec((m / 10) as nat) + seq![c] =~= old(out)@ + digits_spec(
                m as nat,
            ));
        } else {
            assert(old(out)@.push(c) =~= old(out)@ + digits_spec(m as nat));
        }
    }
}

/// Appends `n` in decimal to `out`.
fn push_decimal(out: &mut Vec<char>, n: i64)
    ensures
        final(out)@ == old(out)@ + decimal_spec(n as int),
{
    if n < 0 {
        out.push('-');
        let m: u64 = ((-(n + 1)) as u64) + 1;
        assert(m == -n);
        let ghost mid = out@;
        push_digits(out, m);
        assert(mid + digits_spec(m as nat) =~= old(out)@ + decimal_spec(n as int));
    } else {
        push_digits(out, n as u64);
    }
}

/// The title given to an entry recorded at `secs`: the local calendar text
/// when there is one, else `Recording ` followed by the number of seconds.
pub open spec fn title_spec(secs: i64, calendar_text: Option<Seq<char>>) -> Seq<char> {
    match calendar_text {
        Some(text) => text,
        None => "Recording "@ + decimal_spec(secs as int),
    }
}

/// Chooses the title of an entry from the calendar text of its timestamp.
pub fn timestamp_title(secs: i64, calendar_text: Option<String>) -> (title: String)
    ensures
        title@ == title_spec(
            secs,
            match calendar_text {
                Some(t) => Some(t@),
                None => None,
            },
        ),
{
    match calendar_text {
        Some(text) => text,
        None => {
            let mut chars = chars_of("Recording ");
            push_decimal(&mut chars, secs);
            string_of(&chars)
        },
    }
}

/// The title of an entry recorded at `secs`, such as
/// `March 5, 2024 -  3:07PM` in the local time zone.
pub fn format_timestamp_title(secs: i64) -> (title: String)
    ensures
        !utc_timestamp_representable(secs as int) ==> title@ == title_spec(secs, None),
        utc_timestamp_representable(secs as int) ==> calendar_title_shape(title@, secs as int),
{
    let text = local_calendar_text(secs, "%B %e, %Y - %l:%M%p");
    timestamp_title(secs, text)
}

// ---------------------------------------------------------------------------
// New and updated entries
// ---------------------------------------------------------------------------

/// An entry about to be inserted, before the store has given it an id.
#[derive(Clone, Debug)]
pub struct NewHistoryEntry {
    pub file_name: String,
    pub timestamp: i64,
    pub saved: bool,
    pub title: String,
    pub transcription_text: String,
    pub post_processed_text: Option<String>,
    pub post_process_prompt: Option<String>,
    pub post_process_requested: bool,
}

/// A new, unsaved entry recorded at `timestamp` and titled after it.
pub fn new_history_entry_at(
    file_name: String,
    transcription_text: String,
    post_process_requested: bool,
    post_processed_text: Option<String>,
    post_process_prompt: Option<String>,
    timestamp: i64,
) -> (entry: NewHistoryEntry)
    ensures
        entry.file_name == file_name,
        entry.transcription_text == transcription_text,
        entry.post_process_requested == post_process_requested,
        entry.post_processed_text == post_processed_text,
        entry.post_process_prompt == post_process_prompt,
        !entry.saved,
        entry.timestamp == timestamp,
        utc_timestamp_representable(timestamp as int) ==> calendar_title_shape(
            entry.title@,
            timestamp as int,
        ),
        !utc_timestamp_representable(timestamp as int) ==> entry.title@ == title_spec(
            timestamp,
            None,
        ),
{
    let title = format_timestamp_title(timestamp);
    NewHistoryEntry {
        file_name,
        timestamp,
        saved: false,
        title,
        transcription_text,
        post_processed_text,
        post_process_prompt,
        post_process_requested,
    }
}

/// A new, unsaved entry stamped with the current time and titled after it;
/// fails only when the clock gives no time.
pub fn new_history_entry(
    file_name: String,
    transcription_text: String,
    post_process_requested: bool,
    post_processed_text: Option<String>,
    post_process_prompt: Option<String>,
) -> (r: Result<NewHistoryEntry, HistoryError>)
    ensures
        r is Err ==> r == Err::<NewHistoryEntry, HistoryError>(HistoryError::ClockUnavailable),
        r matches Ok(entry) ==> {
            &&& entry.file_name == file_name
            &&& entry.transcription_text == transcription_text
            &&& entry.post_process_requested == post_process_requested
            &&& entry.post_processed_text == post_processed_text
            &&& entry.post_process_prompt == post_process_prompt
            &&& !entry.saved
            &&& utc_timestamp_representable(entry.timestamp as int)
            &&& calendar_title_shape(entry.title@, entry.timestamp as int)
        },
{
    match current_timestamp() {
        Some(timestamp) => Ok(
            new_history_entry_at(
                file_name,
                transcription_text,
                post_process_requested,
                post_processed_text,
                post_process_prompt,
                timestamp,
            ),
        ),
        None => Err(HistoryError::ClockUnavailable),
    }
}

impl NewHistoryEntry {
    /// The stored entry, under the id the store gave it.
    pub fn with_id(self, id: i64) -> (entry: HistoryEntry)
        ensures
            entry.id == id,
            entry.file_name == self.file_name,
            entry.timestamp == self.timestamp,
            entry.saved == self.saved,
            entry.title == self.title,
            entry.transcription_text == self.transcription_text,
            entry.post_processed_text == self.post_processed_text,
            entry.post_process_prompt == self.post_process_prompt,
            entry.post_process_requested == self.post_process_requested,
    {
        HistoryEntry {
            id,
            file_name: self.file_name,
            timestamp: self.timestamp,
            saved: self.saved,
            title: self.title,
            transcription_text: self.transcription_text,
            post_processed_text: self.post_processed_text,
            post_process_prompt: self.post_process_prompt,
            post_process_requested: self.post_process_requested,
        }
    }
}

/// An update of the entry `id` that touched no row means the entry does not
/// exist.
pub fn require_entry_changed(rows_changed: usize, id: i64) -> (r: Result<(), HistoryError>)
    ensures
        rows_changed == 0 ==> r == Err::<(), HistoryError>(HistoryError::EntryNotFound(id)),
        rows_changed != 0 ==> r is Ok,
{
    if rows_changed == 0 {
        Err(HistoryError::EntryNotFound(id))
    } else {
        Ok(())
    }
}

/// The saved flag after toggling `saved`.
pub open spec fn toggled_spec(saved: bool) -> bool {
    !saved
}

/// The new saved flag of an entry whose flag was `current`.
pub fn toggled_saved(current: bool) -> (new_saved: bool)
    ensures
        new_saved == toggled_spec(current),
{
    !current
}

/// Toggling the saved flag twice restores it.
pub proof fn lemma_toggle_twice_restores(saved: bool)
    ensures
        toggled_spec(toggled_spec(saved)) == saved,
{
}

// ---------------------------------------------------------------------------
// Paging
// ---------------------------------------------------------------------------

/// The largest page a listing returns.
pub const MAX_PAGE_SIZE: usize = 100;

/// The page size a request for `limit` entries is served with.
pub open spec fn page_limit_spec(limit: Option<usize>) -> Option<usize> {
    match limit {
        Some(l) => Some(if l > MAX_PAGE_SIZE { MAX_PAGE_SIZE } else { l }),
        None => None,
    }
}

/// Caps a requested page size at [`MAX_PAGE_SIZE`]; no limit stays no limit.
pub fn page_limit(limit: Option<usize>) -> (r: Option<usize>)
    ensures
        r == page_limit_spec(limit),
{
    match limit {
        Some(l) => Some(if l > MAX_PAGE_SIZE { MAX_PAGE_SIZE } else { l }),
        None => None,
    }
}

/// How many rows to fetch for a page of `limit` entries: one more, to learn
/// whether another page follows.
pub fn page_fetch_count(limit: usize) -> (count: i64)
    requires
        limit <= MAX_PAGE_SIZE,
    ensures
        count == limit + 1,
{
    (limit + 1) as i64
}

/// Which rows a listing fetches.
#[derive(Clone, Copy, Debug, PartialEq, Eq)]
pub enum PageQuery {
    /// The `fetch` newest entries with an id below `cursor`.
    Before { cursor: i64, fetch: i64 },
    /// The `fetch` newest entries.
    Newest { fetch: i64 },
    /// Every entry, newest first.
    All,
}

/// The rows a listing fetches for `cursor` and the requested `limit`: with
/// a limit, one more than the capped limit, before the cursor when there is
/// one; without a limit, every entry, whatever the cursor.
pub open spec fn page_query_spec(cursor: Option<i64>, limit: Option<usize>) -> PageQuery {
    match (cursor, page_limit_spec(limit)) {
        (Some(c), Some(l)) => PageQuery::Before { cursor: c, fetch: (l + 1) as i64 },
        (None, Some(l)) => PageQuery::Newest { fetch: (l + 1) as i64 },
        (_, None) => PageQuery::All,
    }
}

/// Chooses the rows a listing fetches.
pub fn page_query(cursor: Option<i64>, limit: Option<usize>) -> (q: PageQuery)
    ensures
        q == page_query_spec(cursor, limit),
{
    match (cursor, page_limit(limit)) {
        (Some(c), Some(l)) => PageQuery::Before { cursor: c, fetch: page_fetch_count(l) },
        (None, Some(l)) => PageQuery::Newest { fetch: page_fetch_count(l) },
        (_, None) => PageQuery::All,
    }
}

/// The page cut from the rows fetched for it, and whether more follow: with
/// a limit, a fetch longer than the limit means more follow, and its last
/// row is dropped.
pub open spec fn page_spec(fetched: Seq<HistoryEntry>, limit: Option<usize>) -> (
    Seq<HistoryEntry>,
    bool,
) {
    match limit {
        Some(l) => if fetched.len() > l {
            (fetched.drop_last(), true)
        } else {
            (fetched, false)
        },
        None => (fetched, false),
    }
}

/// Cuts a page from the rows fetched for it.
pub fn paginate(entries: Vec<HistoryEntry>, limit: Option<usize>) -> (page: PaginatedHistory)
    ensures
        (page.entries@, page.has_more) == page_spec(entries@, limit),
        page.has_more <==> (limit matches Some(l) && entries@.len() > l),
        page.has_more ==> page.entries@ == entries@.subrange(0, entries@.len() - 1),
        !page.has_more ==> page.entries@ == entries@,
{
    let mut entries = entries;
    let has_more = match limit {
        Some(l) => entries.len() > l,
        None => false,
    };
    if has_more {
        entries.pop();
    }
    PaginatedHistory { entries, has_more }
}

/// A page never holds more entries than its limit when at most one more row
/// than the limit was fetched, and it holds the fetched rows in their order.
pub proof fn lemma_page_within_limit(fetched: Seq<HistoryEntry>, limit: usize)
    requires
        fetched.len() <= limit + 1,
    ensures
        page_spec(fetched, Some(limit)).0.len() <= limit,
        page_spec(fetched, Some(limit)).0 == fetched.take(
            page_spec(fetched, Some(limit)).0.len() as int,
        ),
        page_spec(fetched, Some(limit)).1 <==> fetched.len() == limit + 1,
{
    let page = page_spec(fetched, Some(limit)).0;
    assert(page =~= fetched.take(page.len() as int));
}

/// A page drops a fetched row only when one more row than the limit was
/// fetched, and then only the last one: a fetch that fits in the limit, or
/// a listing without a limit, is the page itself, with no more to follow.
pub proof fn lemma_page_drops_only_the_lookahead_row(
    fetched: Seq<HistoryEntry>,
    limit: Option<usize>,
)
    ensures
        limit matches Some(l) && fetched.len() <= l ==> page_spec(fetched, limit) == (
            fetched,
            false,
        ),
        limit is None ==> page_spec(fetched, limit) == (fetched, false),
        limit matches Some(l) && fetched.len() > l ==> page_spec(fetched, limit) == (
            fetched.subrange(0, fetched.len() - 1),
            true,
        ),
        page_spec(fetched, limit).0.len() + (if page_spec(fetched, limit).1 {
            1int
        } else {
            0int
        }) == fetched.len(),
{
    if let Some(l) = limit {
        if fetched.len() > l {
            assert(fetched.drop_last() =~= fetched.subrange(0, fetched.len() - 1));
        }
    }
}

// ---------------------------------------------------------------------------
// Retention
// ---------------------------------------------------------------------------

/// How long unsaved recordings are kept.
#[derive(Clone, Copy, Debug, PartialEq, Eq)]
pub enum RecordingRetentionPeriod {
    Never,
    PreserveLimit,
    Days3,
    Weeks2,
    Months3,
}

/// The age in seconds past which a time-based period removes an entry.
pub open spec fn retention_seconds_spec(period: RecordingRetentionPeriod) -> Option<int> {
    match period {
        RecordingRetentionPeriod::Days3 => Some(3 * 24 * 60 * 60int),
        RecordingRetentionPeriod::Weeks2 => Some(2 * 7 * 24 * 60 * 60int),
        RecordingRetentionPeriod::Months3 => Some(3 * 30 * 24 * 60 * 60int),
        _ => None,
    }
}

/// The age in seconds past which `period` removes an entry, for the
/// time-based periods.
pub fn retention_seconds(period: RecordingRetentionPeriod) -> (secs: Option<i64>)
    ensures
        period == RecordingRetentionPeriod::Days3 ==> secs == Some(259_200i64),
        period == RecordingRetentionPeriod::Weeks2 ==> secs == Some(1_209_600i64),
        period == RecordingRetentionPeriod::Months3 ==> secs == Some(7_776_000i64),
        period == RecordingRetentionPeriod::Never ==> secs is None,
        period == RecordingRetentionPeriod::PreserveLimit ==> secs is None,
        match secs {
            Some(s) => retention_seconds_spec(period) == Some(s as int),
            None => retention_seconds_spec(period) is None,
        },
{
    match period {
        RecordingRetentionPeriod::Days3 => Some(3 * 24 * 60 * 60),
        RecordingRetentionPeriod::Weeks2 => Some(2 * 7 * 24 * 60 * 60),
        RecordingRetentionPeriod::Months3 => Some(3 * 30 * 24 * 60 * 60),
        _ => None,
    }
}

/// What a clean-up after saving an entry does.
#[derive(Clone, Copy, Debug, PartialEq, Eq)]
pub enum CleanupPlan {
    /// Remove nothing.
    KeepAll,
    /// Keep this many of the newest unsaved entries and remove the rest.
    KeepNewest(usize),
    /// Remove the unsaved entries recorded before this timestamp.
    RemoveOlderThan(i64),
}

/// The clean-up that `period` calls for at time `now`.
pub open spec fn cleanup_plan_spec(period: RecordingRetentionPeriod, history_limit: usize, now: int) -> CleanupPlan {
    match period {
        RecordingRetentionPeriod::Never => CleanupPlan::KeepAll,
        RecordingRetentionPeriod::PreserveLimit => CleanupPlan::KeepNewest(history_limit),
        _ => CleanupPlan::RemoveOlderThan((now - retention_seconds_spec(period)->0) as i64),
    }
}

/// The clean-up that `period` calls for at time `now`: none, a count-based
/// one with the history limit, or one that removes what is older than the
/// period.
pub fn plan_cleanup(period: RecordingRetentionPeriod, history_limit: usize, now: i64) -> (plan:
    CleanupPlan)
    requires
        utc_timestamp_representable(now as int),
    ensures
        plan == cleanup_plan_spec(period, history_limit, now as int),
        period == RecordingRetentionPeriod::Never ==> plan == CleanupPlan::KeepAll,
        period == RecordingRetentionPeriod::PreserveLimit ==> plan == CleanupPlan::KeepNewest(
            history_limit,
        ),
        period == RecordingRetentionPeriod::Days3 ==> plan == CleanupPlan::RemoveOlderThan(
            (now - 259_200) as i64,
        ),
        period == RecordingRetentionPeriod::Weeks2 ==> plan == CleanupPlan::RemoveOlderThan(
            (now - 1_209_600) as i64,
        ),
        period == RecordingRetentionPeriod::Months3 ==> plan == CleanupPlan::RemoveOlderThan(
            (now - 7_776_000) as i64,
        ),
{
    match retention_seconds(period) {
        Some(secs) => CleanupPlan::RemoveOlderThan(now - secs),
        None => match period {
            RecordingRetentionPeriod::PreserveLimit => CleanupPlan::KeepNewest(history_limit),
            _ => CleanupPlan::KeepAll,
        },
    }
}

/// Each period plans its own clean-up: none for `Never`, the history limit
/// for `PreserveLimit`, and for a time-based period a cut-off exactly that
/// period's length before `now` (3 days, 2 weeks, 90 days), so a longer
/// period always keeps at least what a shorter one keeps.
pub proof fn lemma_cleanup_plan_per_period(history_limit: usize, now: int)
    requires
        utc_timestamp_representable(now),
    ensures
        cleanup_plan_spec(RecordingRetentionPeriod::Never, history_limit, now)
            == CleanupPlan::KeepAll,
        cleanup_plan_spec(RecordingRetentionPeriod::PreserveLimit, history_limit, now)
            == CleanupPlan::KeepNewest(history_limit),
        cleanup_plan_spec(RecordingRetentionPeriod::Days3, history_limit, now)
            == CleanupPlan::RemoveOlderThan((now - 3 * 24 * 60 * 60) as i64),
        cleanup_plan_spec(RecordingRetentionPeriod::Weeks2, history_limit, now)
            == CleanupPlan::RemoveOlderThan((now - 14 * 24 * 60 * 60) as i64),
        cleanup_plan_spec(RecordingRetentionPeriod::Months3, history_limit, now)
            == CleanupPlan::RemoveOlderThan((now - 90 * 24 * 60 * 60) as i64),
        now - 90 * 24 * 60 * 60 < now - 14 * 24 * 60 * 60 < now - 3 * 24 * 60 * 60,
{
}

/// The clean-up that `period` calls for now.
///
/// A time-based period needs the current time; when the clock gives none,
/// nothing is planned and the error is reported.
pub fn plan_cleanup_now(period: RecordingRetentionPeriod, history_limit: usize) -> (r: Result<
    CleanupPlan,
    HistoryError,
>)
    ensures
        r is Err ==> r == Err::<CleanupPlan, HistoryError>(HistoryError::ClockUnavailable)
            && retention_seconds_spec(period) is Some,
        r matches Ok(plan) ==> exists|now: int|
            utc_timestamp_representable(now as int) && plan == cleanup_plan_spec(
                period,
                history_limit,
                now,
            ),
{
    match retention_seconds(period) {
        None => {
            let plan = plan_cleanup(period, history_limit, 0);
            assert(utc_timestamp_representable(0int) && plan == cleanup_plan_spec(
                period,
                history_limit,
                0int,
            ));
            Ok(plan)
        },
        Some(_) => {
            let now = match current_timestamp() {
                Some(t) => t,
                None => return Err(HistoryError::ClockUnavailable),
            };
            let plan = plan_cleanup(period, history_limit, now);
            assert(utc_timestamp_representable(now as int) && plan == cleanup_plan_spec(
                period,
                history_limit,
                now as int,
            ));
            Ok(plan)
        },
    }
}

/// Of the unsaved entries, newest first, those past the `limit` newest; the
/// rest are kept.
pub fn entries_beyond_limit(entries: Vec<(i64, String)>, limit: usize) -> (removed: Vec<
    (i64, String),
>)
    ensures
        entries@.len() > limit ==> removed@ == entries@.subrange(
            limit as int,
            entries@.len() as int,
        ),
        entries@.len() <= limit ==> removed@.len() == 0,
        entries@.len() > limit ==> entries@ == entries@.take(limit as int) + removed@,
{
    let mut entries = entries;
    if entries.len() > limit {
        let ghost all = entries@;
        let removed = entries.split_off(limit);
        assert(all =~= all.take(limit as int) + removed@);
        removed
    } else {
        Vec::new()
    }
}

} // verus!
