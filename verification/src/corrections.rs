//! Correction rules: a heard phrase and the text that replaces it in a
//! transcription.
use crate::clock::{current_timestamp, utc_timestamp_representable};
use crate::error::HistoryError;
use crate::text::{
    ascii_lower, ascii_lower_seq, chars_of, correction_key, correction_key_spec,
    eq_ignore_ascii_case, eq_ignore_ascii_case_spec, lemma_normalize_idempotent,
    normalize_correction_text, normalize_spec,
    string_of, to_ascii_lower,
};
use vstd::prelude::*;

verus! {

/// A stored correction rule.
#[derive(Clone, Debug)]
pub struct CorrectionRule {
    pub id: i64,
    pub heard_text: String,
    pub correct_text: String,
    pub enabled: bool,
    pub source_history_entry_id: Option<i64>,
    pub created_at: i64,
    pub updated_at: i64,
}

impl CorrectionRule {
    /// The phrase this rule looks for.
    pub fn heard_text(&self) -> (r: &str)
        ensures
            r@ == self.heard_text@,
    {
        self.heard_text.as_str()
    }

    /// The text that replaces the heard phrase.
    pub fn correct_text(&self) -> (r: &str)
        ensures
            r@ == self.correct_text@,
    {
        self.correct_text.as_str()
    }

    /// Whether the rule is applied to transcriptions.
    pub fn enabled(&self) -> (r: bool)
        ensures
            r == self.enabled,
    {
        self.enabled
    }
}

// ---------------------------------------------------------------------------
// Validation and preparation of rule texts
// ---------------------------------------------------------------------------

/// The verdict on a pair of rule texts: both must be non-empty, and the
/// correct text must differ from the heard text beyond ASCII case.
pub open spec fn validation_outcome(heard: Seq<char>, correct: Seq<char>) -> Result<(), HistoryError> {
    if heard.len() == 0 || correct.len() == 0 {
        Err(HistoryError::MissingText)
    } else if eq_ignore_ascii_case_spec(heard, correct) {
        Err(HistoryError::UnchangedText)
    } else {
        Ok(())
    }
}

/// Checks that a rule has both texts and that it changes the heard text.
pub fn validate_correction_rule_texts(heard_text: &str, correct_text: &str) -> (r: Result<
    (),
    HistoryError,
>)
    ensures
        r == validation_outcome(heard_text@, correct_text@),
        r == Err::<(), HistoryError>(HistoryError::MissingText) <==> (heard_text@.len() == 0
            || correct_text@.len() == 0),
        r == Err::<(), HistoryError>(HistoryError::UnchangedText) <==> ({
            &&& heard_text@.len() > 0
            &&& heard_text@.len() == correct_text@.len()
            &&& forall|i: int|
                0 <= i < heard_text@.len() ==> ascii_lower(#[trigger] heard_text@[i])
                    == ascii_lower(correct_text@[i])
        }),
        r is Ok || r == Err::<(), HistoryError>(HistoryError::MissingText) || r == Err::<
            (),
            HistoryError,
        >(HistoryError::UnchangedText),
{
    proof {
        lemma_validation_outcome_by_characters(heard_text@, correct_text@);
    }
    if heard_text.is_empty() || correct_text.is_empty() {
        return Err(HistoryError::MissingText);
    }
    if eq_ignore_ascii_case(heard_text, correct_text) {
        return Err(HistoryError::UnchangedText);
    }
    Ok(())
}

/// Validation judges the characters: a rule is refused for a missing text
/// exactly when one of its texts is empty, and as unchanged exactly when
/// both are non-empty, of one length, and agree at every position once
/// ASCII letters are lower-cased; every other pair passes.
pub proof fn lemma_validation_outcome_by_characters(heard: Seq<char>, correct: Seq<char>)
    ensures
        validation_outcome(heard, correct) == Err::<(), HistoryError>(HistoryError::MissingText)
            <==> (heard.len() == 0 || correct.len() == 0),
        validation_outcome(heard, correct) == Err::<(), HistoryError>(HistoryError::UnchangedText)
            <==> ({
            &&& heard.len() > 0
            &&& heard.len() == correct.len()
            &&& forall|i: int|
                0 <= i < heard.len() ==> ascii_lower(#[trigger] heard[i]) == ascii_lower(correct[i])
        }),
        validation_outcome(heard, correct) is Ok || validation_outcome(heard, correct) == Err::<
            (),
            HistoryError,
        >(HistoryError::MissingText) || validation_outcome(heard, correct) == Err::<
            (),
            HistoryError,
        >(HistoryError::UnchangedText),
{
    let same = heard.len() == correct.len() && forall|i: int|
        0 <= i < heard.len() ==> ascii_lower(#[trigger] heard[i]) == ascii_lower(correct[i]);
    if same {
        assert(ascii_lower_seq(heard) =~= ascii_lower_seq(correct));
    } else if heard.len() == correct.len() {
        let i = choose|i: int|
            0 <= i < heard.len() && !(ascii_lower(#[trigger] heard[i]) == ascii_lower(correct[i]));
        assert(ascii_lower_seq(heard)[i] != ascii_lower_seq(correct)[i]);
    } else {
        assert(ascii_lower_seq(heard).len() != ascii_lower_seq(correct).len());
    }
}

/// The texts of a rule as they are stored: both normalised, with the key
/// that makes a heard text unique.
#[derive(Clone, Debug)]
pub struct CorrectionRuleTexts {
    pub heard_text: String,
    pub heard_text_key: String,
    pub correct_text: String,
}

/// `texts` holds `heard` and `correct` as stored, with the key of `heard`.
pub open spec fn texts_hold(texts: CorrectionRuleTexts, heard: Seq<char>, correct: Seq<char>) -> bool {
    &&& texts.heard_text@ == heard
    &&& texts.correct_text@ == correct
    &&& texts.heard_text_key@ == correction_key_spec(heard)
}

/// Texts fit to be stored: both in normal form, passing validation, with
/// the key of the heard text.
pub open spec fn texts_valid(texts: CorrectionRuleTexts) -> bool {
    &&& normalize_spec(texts.heard_text@) == texts.heard_text@
    &&& normalize_spec(texts.correct_text@) == texts.correct_text@
    &&& validation_outcome(texts.heard_text@, texts.correct_text@) is Ok
    &&& texts.heard_text_key@ == correction_key_spec(texts.heard_text@)
}

/// Validates the stored forms `heard` and `correct` and, when they pass,
/// adds the key.
fn checked_texts(heard: String, correct: String) -> (r: Result<CorrectionRuleTexts, HistoryError>)
    ensures
        validation_outcome(heard@, correct@) is Ok ==> (r matches Ok(t) && texts_hold(t, heard@, correct@)),
        validation_outcome(heard@, correct@) matches Err(e) ==> r == Err::<
            CorrectionRuleTexts,
            HistoryError,
        >(e),
{
    match validate_correction_rule_texts(heard.as_str(), correct.as_str()) {
        Err(e) => Err(e),
        Ok(()) => {
            let key = correction_key(heard.as_str());
            Ok(CorrectionRuleTexts { heard_text: heard, heard_text_key: key, correct_text: correct })
        },
    }
}

/// A rule about to be inserted.
#[derive(Clone, Debug)]
pub struct NewCorrectionRule {
    pub texts: CorrectionRuleTexts,
    pub enabled: bool,
    pub source_history_entry_id: Option<i64>,
    pub created_at: i64,
    pub updated_at: i64,
}

/// Normalises and validates the texts of a new rule and stamps it with the
/// time `now`; a new rule is enabled. It succeeds exactly when the
/// normalised texts pass validation.
pub fn new_correction_rule_at(
    heard_text: &str,
    correct_text: &str,
    source_history_entry_id: Option<i64>,
    now: i64,
) -> (r: Result<NewCorrectionRule, HistoryError>)
    ensures
        ({
            let heard = normalize_spec(heard_text@);
            let correct = normalize_spec(correct_text@);
            &&& validation_outcome(heard, correct) matches Err(e) ==> r == Err::<
                NewCorrectionRule,
                HistoryError,
            >(e)
            &&& validation_outcome(heard, correct) is Ok ==> ((r matches Ok(rule) && {
                &&& texts_hold(rule.texts, heard, correct)
                &&& texts_valid(rule.texts)
                &&& rule.enabled
                &&& rule.source_history_entry_id == source_history_entry_id
                &&& rule.created_at == now
                &&& rule.updated_at == now
            }))
        }),
{
    let heard = normalize_correction_text(heard_text);
    let correct = normalize_correction_text(correct_text);
    proof {
        lemma_normalize_idempotent(heard_text@);
        lemma_normalize_idempotent(correct_text@);
    }
    let texts = checked_texts(heard, correct)?;
    Ok(NewCorrectionRule { texts, enabled: true, source_history_entry_id, created_at: now, updated_at: now })
}

/// Normalises and validates the texts of a new rule and stamps it with the
/// current time; a new rule is enabled.
pub fn new_correction_rule(
    heard_text: &str,
    correct_text: &str,
    source_history_entry_id: Option<i64>,
) -> (r: Result<NewCorrectionRule, HistoryError>)
    ensures
        ({
            let heard = normalize_spec(heard_text@);
            let correct = normalize_spec(correct_text@);
            &&& validation_outcome(heard, correct) matches Err(e) ==> r == Err::<
                NewCorrectionRule,
                HistoryError,
            >(e)
            &&& validation_outcome(heard, correct) is Ok ==> (r == Err::<
                NewCorrectionRule,
                HistoryError,
            >(HistoryError::ClockUnavailable) || (r matches Ok(rule) && {
                &&& texts_hold(rule.texts, heard, correct)
                &&& texts_valid(rule.texts)
                &&& rule.enabled
                &&& rule.source_history_entry_id == source_history_entry_id
                &&& rule.created_at == rule.updated_at
                &&& utc_timestamp_representable(rule.created_at as int)
            }))
        }),
{
    match current_timestamp() {
        Some(now) => new_correction_rule_at(heard_text, correct_text, source_history_entry_id, now),
        None => match new_correction_rule_at(heard_text, correct_text, source_history_entry_id, 0) {
            Err(e) => Err(e),
            Ok(_) => Err(HistoryError::ClockUnavailable),
        },
    }
}

/// Refuses a rule whose key another rule already has.
pub fn check_duplicate_key(duplicate_found: bool, texts: &CorrectionRuleTexts) -> (r: Result<
    (),
    HistoryError,
>)
    ensures
        duplicate_found ==> r == Err::<(), HistoryError>(
            HistoryError::DuplicateRule(texts.heard_text),
        ),
        !duplicate_found ==> r is Ok,
{
    if duplicate_found {
        Err(HistoryError::DuplicateRule(texts.heard_text.clone()))
    } else {
        Ok(())
    }
}

/// The text a rule ends up with: the normalised new text when one is given,
/// else the rule's present text.
pub open spec fn merged_text(given: Option<Seq<char>>, present: Seq<char>) -> Seq<char> {
    match given {
        Some(t) => normalize_spec(t),
        None => present,
    }
}

/// The new state of an existing rule.
#[derive(Clone, Debug)]
pub struct CorrectionRuleUpdate {
    pub id: i64,
    pub texts: CorrectionRuleTexts,
    pub enabled: bool,
    pub updated_at: i64,
}

/// The texts an update leaves a rule with: each given text normalised, each
/// missing one taken from `existing`.
pub open spec fn update_heard(existing: CorrectionRule, heard_text: Option<String>) -> Seq<char> {
    merged_text(
        match heard_text {
            Some(t) => Some(t@),
            None => None,
        },
        existing.heard_text@,
    )
}

/// See [`update_heard`]; the same for the correct text.
pub open spec fn update_correct(existing: CorrectionRule, correct_text: Option<String>) -> Seq<char> {
    merged_text(
        match correct_text {
            Some(t) => Some(t@),
            None => None,
        },
        existing.correct_text@,
    )
}

/// Merges the fields given for an update into `existing`, validates the
/// result and stamps it with the time `now`: the update succeeds exactly
/// when the merged texts pass validation.
pub fn correction_rule_update_at(
    existing: &CorrectionRule,
    heard_text: Option<String>,
    correct_text: Option<String>,
    enabled: Option<bool>,
    now: i64,
) -> (r: Result<CorrectionRuleUpdate, HistoryError>)
    ensures
        ({
            let heard = update_heard(*existing, heard_text);
            let correct = update_correct(*existing, correct_text);
            &&& validation_outcome(heard, correct) matches Err(e) ==> r == Err::<
                CorrectionRuleUpdate,
                HistoryError,
            >(e)
            &&& validation_outcome(heard, correct) is Ok ==> (r matches Ok(u) && {
                &&& u.id == existing.id
                &&& (normalize_spec(existing.heard_text@) == existing.heard_text@
                    && normalize_spec(existing.correct_text@) == existing.correct_text@)
                    ==> texts_valid(u.texts)
                &&& u.updated_at == now
                &&& texts_hold(u.texts, heard, correct)
                &&& u.enabled == match enabled {
                    Some(b) => b,
                    None => existing.enabled,
                }
            })
        }),
        r is Err ==> validation_outcome(
            update_heard(*existing, heard_text),
            update_correct(*existing, correct_text),
        ) is Err,
{
    let heard = match heard_text {
        Some(t) => normalize_correction_text(t.as_str()),
        None => existing.heard_text.clone(),
    };
    let correct = match correct_text {
        Some(t) => normalize_correction_text(t.as_str()),
        None => existing.correct_text.clone(),
    };
    let enabled = match enabled {
        Some(b) => b,
        None => existing.enabled,
    };
    proof {
        if heard_text is Some {
            lemma_normalize_idempotent(heard_text->0@);
        }
        if correct_text is Some {
            lemma_normalize_idempotent(correct_text->0@);
        }
    }
    let texts = checked_texts(heard, correct)?;
    Ok(CorrectionRuleUpdate { id: existing.id, texts, enabled, updated_at: now })
}

/// Merges the fields given for an update into `existing`, validates the
/// result and stamps it with the current time.
///
/// What it returns is what [`correction_rule_update_at`] returns for the
/// clock's reading; a clock without a reading turns a valid update into
/// `ClockUnavailable`.
pub fn correction_rule_update(
    existing: &CorrectionRule,
    heard_text: Option<String>,
    correct_text: Option<String>,
    enabled: Option<bool>,
) -> (r: Result<CorrectionRuleUpdate, HistoryError>)
    ensures
        ({
            let heard = update_heard(*existing, heard_text);
            let correct = update_correct(*existing, correct_text);
            &&& validation_outcome(heard, correct) matches Err(e) ==> r == Err::<
                CorrectionRuleUpdate,
                HistoryError,
            >(e)
            &&& validation_outcome(heard, correct) is Ok ==> (r == Err::<
                CorrectionRuleUpdate,
                HistoryError,
            >(HistoryError::ClockUnavailable) || (r matches Ok(u) && {
                &&& u.id == existing.id
                &&& (normalize_spec(existing.heard_text@) == existing.heard_text@
                    && normalize_spec(existing.correct_text@) == existing.correct_text@)
                    ==> texts_valid(u.texts)
                &&& utc_timestamp_representable(u.updated_at as int)
                &&& texts_hold(u.texts, heard, correct)
                &&& u.enabled == match enabled {
                    Some(b) => b,
                    None => existing.enabled,
                }
            }))
        }),
{
    match current_timestamp() {
        Some(now) => correction_rule_update_at(existing, heard_text, correct_text, enabled, now),
        None => match correction_rule_update_at(existing, heard_text, correct_text, enabled, 0) {
            Err(e) => Err(e),
            Ok(_) => Err(HistoryError::ClockUnavailable),
        },
    }
}

/// An update or delete of the rule `id` that touched no row means the rule
/// does not exist.
pub fn require_rule_changed(rows_changed: usize, id: i64) -> (r: Result<(), HistoryError>)
    ensures
        rows_changed == 0 ==> r == Err::<(), HistoryError>(HistoryError::RuleNotFound(id)),
        rows_changed != 0 ==> r is Ok,
{
    if rows_changed == 0 {
        Err(HistoryError::RuleNotFound(id))
    } else {
        Ok(())
    }
}

/// A change of a rule's `enabled` flag.
#[derive(Clone, Copy, Debug)]
pub struct RuleEnabledChange {
    pub id: i64,
    pub enabled: bool,
    pub updated_at: i64,
}

/// Turns the rule `id` on or off, stamped with the current time; fails only
/// when the clock gives no time.
pub fn rule_enabled_change(id: i64, enabled: bool) -> (r: Result<RuleEnabledChange, HistoryError>)
    ensures
        r is Err ==> r == Err::<RuleEnabledChange, HistoryError>(HistoryError::ClockUnavailable),
        r matches Ok(change) ==> {
            &&& change.id == id
            &&& change.enabled == enabled
            &&& utc_timestamp_representable(change.updated_at as int)
        },
{
    match current_timestamp() {
        Some(t) => Ok(RuleEnabledChange { id, enabled, updated_at: t }),
        None => Err(HistoryError::ClockUnavailable),
    }
}

// ---------------------------------------------------------------------------
// The rule table and its invariant
// ---------------------------------------------------------------------------

/// The columns of a stored rule that the table's invariant speaks of.
#[derive(Clone, Debug)]
pub struct StoredRule {
    pub texts: CorrectionRuleTexts,
    pub enabled: bool,
}

/// The rule table's invariant: every row holds texts fit to be stored, and
/// no two rows share a key.
pub open spec fn rule_table_valid(table: Map<i64, StoredRule>) -> bool {
    &&& forall|id: i64| #[trigger] table.contains_key(id) ==> texts_valid(table[id].texts)
    &&& forall|a: i64, b: i64|
        #[trigger] table.contains_key(a) && #[trigger] table.contains_key(b) && a != b
            ==> table[a].texts.heard_text_key@ != table[b].texts.heard_text_key@
}

/// Whether a row other than `except` already holds `key`: what the duplicate
/// check asks the table.
pub open spec fn key_taken(table: Map<i64, StoredRule>, key: Seq<char>, except: Option<i64>) -> bool {
    exists|id: i64|
        #[trigger] table.contains_key(id) && table[id].texts.heard_text_key@ == key && except
            != Some(id)
}

/// The table after inserting `rule` under the fresh id `id`.
pub open spec fn table_insert(table: Map<i64, StoredRule>, id: i64, rule: NewCorrectionRule) -> Map<i64, StoredRule> {
    table.insert(id, StoredRule { texts: rule.texts, enabled: rule.enabled })
}

/// The table after an update of an existing rule.
pub open spec fn table_update(table: Map<i64, StoredRule>, u: CorrectionRuleUpdate) -> Map<i64, StoredRule> {
    if table.contains_key(u.id) {
        table.insert(u.id, StoredRule { texts: u.texts, enabled: u.enabled })
    } else {
        table
    }
}

/// The table after changing a rule's `enabled` flag.
pub open spec fn table_set_enabled(table: Map<i64, StoredRule>, change: RuleEnabledChange) -> Map<i64, StoredRule> {
    if table.contains_key(change.id) {
        table.insert(
            change.id,
            StoredRule { texts: table[change.id].texts, enabled: change.enabled },
        )
    } else {
        table
    }
}

/// Inserting a rule made by [`new_correction_rule`], after the duplicate
/// check found its key free, keeps the rule table valid.
pub proof fn lemma_insert_keeps_rule_table_valid(
    table: Map<i64, StoredRule>,
    id: i64,
    rule: NewCorrectionRule,
)
    requires
        rule_table_valid(table),
        !table.contains_key(id),
        texts_valid(rule.texts),
        !key_taken(table, rule.texts.heard_text_key@, None),
    ensures
        rule_table_valid(table_insert(table, id, rule)),
{
    let t2 = table_insert(table, id, rule);
    assert forall|a: i64, b: i64|
        #[trigger] t2.contains_key(a) && #[trigger] t2.contains_key(b) && a != b implies t2[a].texts.heard_text_key@
        != t2[b].texts.heard_text_key@ by {
        if a == id {
            assert(table.contains_key(b));
        } else if b == id {
            assert(table.contains_key(a));
        }
    }
}

/// Applying an update made by [`correction_rule_update`] from a stored rule,
/// after the duplicate check found its key free among the other rules,
/// keeps the rule table valid.
pub proof fn lemma_update_keeps_rule_table_valid(table: Map<i64, StoredRule>, u: CorrectionRuleUpdate)
    requires
        rule_table_valid(table),
        texts_valid(u.texts),
        !key_taken(table, u.texts.heard_text_key@, Some(u.id)),
    ensures
        rule_table_valid(table_update(table, u)),
{
    let t2 = table_update(table, u);
    assert forall|a: i64, b: i64|
        #[trigger] t2.contains_key(a) && #[trigger] t2.contains_key(b) && a != b implies t2[a].texts.heard_text_key@
        != t2[b].texts.heard_text_key@ by {
        if table.contains_key(u.id) {
            if a == u.id {
                assert(table.contains_key(b));
            } else if b == u.id {
                assert(table.contains_key(a));
            }
        }
    }
}

/// Turning a rule on or off keeps the rule table valid.
pub proof fn lemma_set_enabled_keeps_rule_table_valid(
    table: Map<i64, StoredRule>,
    change: RuleEnabledChange,
)
    requires
        rule_table_valid(table),
    ensures
        rule_table_valid(table_set_enabled(table, change)),
{
}

/// Deleting a rule keeps the rule table valid.
pub proof fn lemma_delete_keeps_rule_table_valid(table: Map<i64, StoredRule>, id: i64)
    requires
        rule_table_valid(table),
    ensures
        rule_table_valid(table.remove(id)),
{
}

/// The correct texts of `rules`, in order: the vocabulary that the enabled
/// rules teach.
pub fn correction_vocabulary(rules: &Vec<CorrectionRule>) -> (words: Vec<String>)
    ensures
        words@.len() == rules@.len(),
        forall|i: int| 0 <= i < rules@.len() ==> #[trigger] words@[i] == rules@[i].correct_text,
{
    let mut words: Vec<String> = Vec::new();
    let n = rules.len();
    for i in 0..n
        invariant
            n == rules@.len(),
            words@.len() == i,
            forall|j: int| 0 <= j < i ==> #[trigger] words@[j] == rules@[j].correct_text,
    {
        words.push(rules[i].correct_text.clone());
    }
    words
}

// ---------------------------------------------------------------------------
// Applying rules to a transcription
// ---------------------------------------------------------------------------

/// What `char::is_alphanumeric` returns for `c`: whether `c` has the Unicode
/// `Alphabetic` property or is numeric.
pub uninterp spec fn char_is_alphanumeric(c: char) -> bool;

/// `char::is_alphanumeric`. Among ASCII characters it holds exactly for the
/// letters and digits.
#[verifier::external_body]
fn is_alphanumeric(c: char) -> (r: bool)
    ensures
        r == char_is_alphanumeric(c),
        (c as u32) < 128 ==> (r <==> is_ascii_alphanumeric(c)),
{
    c.is_alphanumeric()
}

/// An ASCII letter or digit.
pub open spec fn is_ascii_alphanumeric(c: char) -> bool {
    ('a' <= c && c <= 'z') || ('A' <= c && c <= 'Z') || ('0' <= c && c <= '9')
}

/// A character that belongs to a word: alphanumeric (for ASCII, a letter or
/// digit) or an underscore.
pub open spec fn is_word_char(c: char) -> bool {
    if (c as u32) < 128 {
        is_ascii_alphanumeric(c) || c == '_'
    } else {
        char_is_alphanumeric(c) || c == '_'
    }
}

fn is_word_character(c: char) -> (r: bool)
    ensures
        r == is_word_char(c),
        c == '_' ==> r,
        char_is_alphanumeric(c) ==> r,
{
    c == '_' || is_alphanumeric(c)
}

/// The phrase `p` occurs at position `i` of `t` as whole words: the
/// characters agree up to ASCII case, and neither neighbour of the
/// occurrence is a word character.
pub open spec fn phrase_at(t: Seq<char>, p: Seq<char>, i: int) -> bool {
    &&& p.len() > 0
    &&& 0 <= i
    &&& i + p.len() <= t.len()
    &&& eq_ignore_ascii_case_spec(t.subrange(i, i + p.len()), p)
    &&& (i == 0 || !is_word_char(t[i - 1]))
    &&& (i + p.len() == t.len() || !is_word_char(t[i + p.len()]))
}

/// The text from position `i` of `t` on, with each occurrence of `p` found
/// scanning from the left replaced by `r`; occurrences do not overlap.
pub open spec fn replace_phrase_from(t: Seq<char>, p: Seq<char>, r: Seq<char>, i: int) -> Seq<
    char,
>
    decreases t.len() - i,
{
    if i < 0 || i >= t.len() {
        Seq::empty()
    } else if phrase_at(t, p, i) {
        r + replace_phrase_from(t, p, r, i + p.len())
    } else {
        seq![t[i]] + replace_phrase_from(t, p, r, i + 1)
    }
}

/// `t` with every whole-word occurrence of `p` replaced by `r`.
pub open spec fn replace_phrase(t: Seq<char>, p: Seq<char>, r: Seq<char>) -> Seq<char> {
    replace_phrase_from(t, p, r, 0)
}

/// What one rule does to a text: an enabled rule replaces its heard phrase
/// by its correct text; a disabled one leaves the text as it is.
pub open spec fn apply_rule(t: Seq<char>, rule: CorrectionRule) -> Seq<char> {
    if rule.enabled {
        replace_phrase(t, rule.heard_text@, rule.correct_text@)
    } else {
        t
    }
}

/// `t` after each rule of `rules` has been applied in order.
pub open spec fn apply_rules(t: Seq<char>, rules: Seq<CorrectionRule>) -> Seq<char>
    decreases rules.len(),
{
    if rules.len() == 0 {
        t
    } else {
        apply_rule(apply_rules(t, rules.drop_last()), rules.last())
    }
}

/// Whether `p` occurs as whole words at position `i` of `t`.
fn phrase_matches_at(t: &Vec<char>, p: &Vec<char>, i: usize) -> (r: bool)
    requires
        i < t@.len(),
    ensures
        r == phrase_at(t@, p@, i as int),
{
    let n = t.len();
    let m = p.len();
    if m == 0 || m > n - i {
        return false;
    }
    for j in 0..m
        invariant
            n == t@.len(),
            m == p@.len(),
            i + m <= n,
            forall|k: int| 0 <= k < j ==> ascii_lower(t@[i + k]) == ascii_lower(#[trigger] p@[k]),
    {
        if to_ascii_lower(t[i + j]) != to_ascii_lower(p[j]) {
            assert(ascii_lower_seq(t@.subrange(i as int, i + m))[j as int] != ascii_lower_seq(
                p@,
            )[j as int]);
            return false;
        }
    }
    assert(ascii_lower_seq(t@.subrange(i as int, i + m)) =~= ascii_lower_seq(p@)) by {
        assert forall|k: int| 0 <= k < m implies ascii_lower_seq(t@.subrange(i as int, i + m))[k]
            == ascii_lower_seq(p@)[k] by {
            assert(ascii_lower(t@[i + k]) == ascii_lower(p@[k]));
        }
    }
    if i > 0 && is_word_character(t[i - 1]) {
        return false;
    }
    if i + m < n && is_word_character(t[i + m]) {
        return false;
    }
    true
}

/// `t` with every whole-word occurrence of `p` replaced by `r`.
fn replace_phrase_chars(t: &Vec<char>, p: &Vec<char>, r: &Vec<char>) -> (out: Vec<char>)
    ensures
        out@ == replace_phrase(t@, p@, r@),
{
    let n = t.len();
    let mut out: Vec<char> = Vec::new();
    let mut i: usize = 0;
    while i < n
        invariant
            n == t@.len(),
            i <= n,
            out@ + replace_phrase_from(t@, p@, r@, i as int) == replace_phrase(t@, p@, r@),
        decreases n - i,
    {
        if phrase_matches_at(t, p, i) {
            let ghost before = out@;
            let rn = r.len();
            for k in 0..rn
                invariant
                    rn == r@.len(),
                    out@ == before + r@.take(k as int),
            {
                out.push(r[k]);
                assert(r@.take(k + 1) == r@.take(k as int).push(r@[k as int]));
            }
            assert(r@.take(rn as int) == r@);
            assert(before + replace_phrase_from(t@, p@, r@, i as int) == out@
                + replace_phrase_from(t@, p@, r@, i + p@.len()));
            i = i + p.len();
        } else {
            let ghost before = out@;
            out.push(t[i]);
            assert(before + replace_phrase_from(t@, p@, r@, i as int) == out@
                + replace_phrase_from(t@, p@, r@, i + 1));
            i = i + 1;
        }
    }
    assert(out@ + replace_phrase_from(t@, p@, r@, i as int) == out@);
    out
}

/// Applies the enabled rules of `rules`, in order, to `text`: each replaces
/// every whole-word occurrence of its heard phrase, matched ignoring ASCII
/// case, by its correct text.
pub fn apply_correction_rules(text: &str, rules: &[CorrectionRule]) -> (out: String)
    ensures
        out@ == apply_rules(text@, rules@),
{
    let mut cur = chars_of(text);
    let n = rules.len();
    for i in 0..n
        invariant
            n == rules@.len(),
            cur@ == apply_rules(text@, rules@.take(i as int)),
    {
        let rule = &rules[i];
        assert(rules@.take(i + 1).drop_last() == rules@.take(i as int));
        assert(rules@.take(i + 1).last() == rules@[i as int]);
        if rule.enabled() {
            let heard = chars_of(rule.heard_text());
            let correct = chars_of(rule.correct_text());
            cur = replace_phrase_chars(&cur, &heard, &correct);
        }
    }
    assert(rules@.take(n as int) == rules@);
    string_of(&cur)
}

// ---------------------------------------------------------------------------
// Laws of rule application
// ---------------------------------------------------------------------------

proof fn lemma_replace_from_without_occurrence(t: Seq<char>, p: Seq<char>, r: Seq<char>, i: int)
    requires
        0 <= i <= t.len(),
        forall|j: int| i <= j < t.len() ==> !#[trigger] phrase_at(t, p, j),
    ensures
        replace_phrase_from(t, p, r, i) == t.subrange(i, t.len() as int),
    decreases t.len() - i,
{
    if i < t.len() {
        assert(!phrase_at(t, p, i));
        lemma_replace_from_without_occurrence(t, p, r, i + 1);
        assert(seq![t[i]] + t.subrange(i + 1, t.len() as int) =~= t.subrange(i, t.len() as int));
    } else {
        assert(t.subrange(i, t.len() as int) =~= Seq::<char>::empty());
    }
}

/// A text in which the heard phrase never occurs as whole words is left
/// unchanged.
pub proof fn lemma_replace_without_occurrence_is_identity(t: Seq<char>, p: Seq<char>, r: Seq<char>)
    requires
        forall|j: int| 0 <= j < t.len() ==> !#[trigger] phrase_at(t, p, j),
    ensures
        replace_phrase(t, p, r) == t,
{
    lemma_replace_from_without_occurrence(t, p, r, 0);
    assert(t.subrange(0, t.len() as int) =~= t);
}

proof fn lemma_replace_from_case_blind(t: Seq<char>, p: Seq<char>, q: Seq<char>, r: Seq<char>, i: int)
    requires
        eq_ignore_ascii_case_spec(p, q),
    ensures
        replace_phrase_from(t, p, r, i) == replace_phrase_from(t, q, r, i),
    decreases t.len() - i,
{
    assert(ascii_lower_seq(p).len() == p.len());
    assert(ascii_lower_seq(q).len() == q.len());
    assert(phrase_at(t, p, i) == phrase_at(t, q, i));
    if 0 <= i < t.len() {
        if phrase_at(t, p, i) {
            lemma_replace_from_case_blind(t, p, q, r, i + p.len());
        } else {
            lemma_replace_from_case_blind(t, p, q, r, i + 1);
        }
    }
}

/// Matching ignores ASCII case: two heard phrases that differ only in ASCII
/// case rewrite every text alike.
pub proof fn lemma_replace_ignores_ascii_case_of_phrase(
    t: Seq<char>,
    p: Seq<char>,
    q: Seq<char>,
    r: Seq<char>,
)
    requires
        eq_ignore_ascii_case_spec(p, q),
    ensures
        replace_phrase(t, p, r) == replace_phrase(t, q, r),
{
    lemma_replace_from_case_blind(t, p, q, r, 0);
}

/// A text that is exactly the heard phrase becomes the correct text.
pub proof fn lemma_replace_whole_text(p: Seq<char>, r: Seq<char>)
    requires
        p.len() > 0,
    ensures
        replace_phrase(p, p, r) == r,
{
    assert(p.subrange(0, p.len() as int) =~= p);
    assert(phrase_at(p, p, 0));
    assert(replace_phrase_from(p, p, r, p.len() as int) == Seq::<char>::empty());
    assert(r + Seq::<char>::empty() =~= r);
}

/// Disabled rules play no part: applying a list of rules gives what applying
/// only its enabled rules, in the same order, gives.
pub proof fn lemma_disabled_rules_are_inert(t: Seq<char>, rules: Seq<CorrectionRule>)
    ensures
        apply_rules(t, rules) == apply_rules(t, rules.filter(|rule: CorrectionRule| rule.enabled)),
    decreases rules.len(),
{
    let pred = |rule: CorrectionRule| rule.enabled;
    reveal_with_fuel(Seq::<_>::filter, 1);
    if rules.len() > 0 {
        lemma_disabled_rules_are_inert(t, rules.drop_last());
        let kept = rules.drop_last().filter(pred);
        if rules.last().enabled {
            assert(rules.filter(pred) == kept.push(rules.last()));
            assert(kept.push(rules.last()).drop_last() =~= kept);
        } else {
            assert(rules.filter(pred) == kept);
        }
    }
}

/// A phrase never matches where it would continue a word: when the
/// character before or after the place is a word character, nothing is
/// replaced there.
pub proof fn lemma_no_match_inside_word(t: Seq<char>, p: Seq<char>, i: int)
    requires
        0 <= i,
        i + p.len() <= t.len(),
        (0 < i && is_word_char(t[i - 1])) || (i + p.len() < t.len() && is_word_char(
            t[i + p.len()],
        )),
    ensures
        !phrase_at(t, p, i),
{
}

/// Word characters are the underscore, the ASCII letters and digits, and
/// every character outside ASCII that `char::is_alphanumeric` accepts.
pub proof fn lemma_word_characters(c: char)
    ensures
        c == '_' ==> is_word_char(c),
        ('a' <= c && c <= 'z') || ('A' <= c && c <= 'Z') || ('0' <= c && c <= '9') ==> is_word_char(c),
        (c as u32) >= 128 && char_is_alphanumeric(c) ==> is_word_char(c),
        (c as u32) >= 128 && !char_is_alphanumeric(c) && c != '_' ==> !is_word_char(c),
        c == ' ' || c == ',' || c == '.' || c == '(' || c == ')' ==> !is_word_char(c),
{
}

/// A phrase is only ever replaced as whole words: when every place where
/// the text agrees with the phrase up to ASCII case has a letter, digit or
/// underscore (ASCII), or an alphanumeric character outside ASCII, right
/// before or right after it, the text comes back unchanged.
pub proof fn lemma_phrase_inside_words_is_kept(t: Seq<char>, p: Seq<char>, r: Seq<char>)
    requires
        forall|j: int|
            0 <= j && j + p.len() <= t.len() && eq_ignore_ascii_case_spec(
                #[trigger] t.subrange(j, j + p.len()),
                p,
            ) ==> {
                ||| (0 < j && {
                    let c = t[j - 1];
                    ||| c == '_'
                    ||| ('a' <= c && c <= 'z') || ('A' <= c && c <= 'Z') || ('0' <= c && c <= '9')
                    ||| (c as u32) >= 128 && char_is_alphanumeric(c)
                })
                ||| (j + p.len() < t.len() && {
                    let c = t[j + p.len()];
                    ||| c == '_'
                    ||| ('a' <= c && c <= 'z') || ('A' <= c && c <= 'Z') || ('0' <= c && c <= '9')
                    ||| (c as u32) >= 128 && char_is_alphanumeric(c)
                })
            },
    ensures
        replace_phrase(t, p, r) == t,
{
    assert forall|j: int| 0 <= j < t.len() implies !#[trigger] phrase_at(t, p, j) by {
        if phrase_at(t, p, j) {
            assert(eq_ignore_ascii_case_spec(t.subrange(j, j + p.len()), p));
            if 0 < j {
                lemma_word_characters(t[j - 1]);
            }
            if j + p.len() < t.len() {
                lemma_word_characters(t[j + p.len()]);
            }
        }
    }
    lemma_replace_without_occurrence_is_identity(t, p, r);
}

/// With no enabled rule a transcription is returned unchanged.
pub proof fn lemma_no_enabled_rule_is_identity(t: Seq<char>, rules: Seq<CorrectionRule>)
    requires
        forall|i: int| 0 <= i < rules.len() ==> !(#[trigger] rules[i]).enabled,
    ensures
        apply_rules(t, rules) == t,
    decreases rules.len(),
{
    if rules.len() > 0 {
        assert(!rules[rules.len() - 1].enabled);
        lemma_no_enabled_rule_is_identity(t, rules.drop_last());
    }
}

} // verus!
