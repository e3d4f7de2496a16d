//! Behavioural telemetry: what the widget reports of the interaction on the page.
//!
//! Only the presence of organic interaction matters. That a visitor moved no pointer,
//! or interacted at once, is held against nobody who leaves a trail of interactions:
//! keyboard and screen-reader visitors do both. A report that was not sent is worth
//! nothing.
use std::collections::hash_map::DefaultHasher;
use std::hash::Hasher;
use vstd::prelude::*;
use vstd::std_specs::hash::*;

use crate::bytes::u64_le;
use crate::risk::weights::SignalWeights;

verus! {

/// What the widget counted between its mount and the submit.
#[derive(Debug, Clone, Copy, PartialEq, Eq, Structural)]
pub struct BehaviorReport {
    pub mouse_moves: u32,
    pub touches: u32,
    /// Clicks, key presses, scrolls and focus events.
    pub interactions: u32,
    /// Milliseconds from the mount to the first interaction that is no pointer move.
    pub first_interaction_ms: Option<u64>,
    /// `navigator.webdriver` at the mount; absent from older widgets.
    pub webdriver: Option<bool>,
    /// Globals that automation drivers leave behind; absent from older widgets.
    pub automation: Option<bool>,
    /// Hints of a headless environment; absent from older widgets.
    pub headless: Option<bool>,
}

impl Default for BehaviorReport {
    fn default() -> (r: Self)
        ensures
            r == (BehaviorReport {
                mouse_moves: 0,
                touches: 0,
                interactions: 0,
                first_interaction_ms: None,
                webdriver: None,
                automation: None,
                headless: None,
            }),
    {
        BehaviorReport {
            mouse_moves: 0,
            touches: 0,
            interactions: 0,
            first_interaction_ms: None,
            webdriver: None,
            automation: None,
            headless: None,
        }
    }
}

/// Whether a report was sent at all. An empty report is not the same as none.
#[derive(Debug, Clone, Copy, PartialEq, Eq, Structural)]
pub enum BehaviorPresence {
    Absent,
    Present(BehaviorReport),
}

/// No pointer activity and no other interaction.
pub const BEHAVIOR_FLATLINE_SCORE: u32 = 30;

/// One interaction and no pointer activity.
pub const BEHAVIOR_NO_POINTER_SCORE: u32 = 15;

/// The number of interactions above which they count as a trail.
pub const BEHAVIOR_ISOLATED_INTERACTION_MAX: u32 = 1;

/// An interaction sooner than this after the mount is not a deliberate one.
pub const BEHAVIOR_INSTANT_INTERACTION_MS: u64 = 50;

pub const BEHAVIOR_INSTANT_INTERACTION_SCORE: u32 = 20;

/// The browser is driven.
pub const BEHAVIOR_AUTOMATION_SCORE: u32 = 30;

pub const BEHAVIOR_HEADLESS_SCORE: u32 = 20;

/// How far the claimed first interaction may lie behind the server's dwell time: the
/// widget starts counting before the puzzle is issued.
pub const BEHAVIOR_IMPOSSIBLE_TIMING_SLACK_MS: u64 = 30_000;

pub const BEHAVIOR_IMPOSSIBLE_TIMING_SCORE: u32 = 30;

/// The number of identical reports to one site from which on the next one scores.
pub const BEHAVIOR_DUPLICATE_MIN: u32 = 5;

/// The window within which identical reports are counted.
pub const BEHAVIOR_DUPLICATE_WINDOW_SECS: i64 = 600;

pub const BEHAVIOR_DUPLICATE_SCORE: u32 = 30;

/// The report claims any activity.
pub open spec fn is_active(b: BehaviorReport) -> bool {
    b.mouse_moves > 0 || b.touches > 0 || b.interactions > 0
}

/// Whether a report claims any activity. Only such reports are counted for
/// duplicates: the one without any is what every visitor sends who does not touch the
/// page.
pub fn claims_activity(b: &BehaviorReport) -> (r: bool)
    ensures
        r == is_active(*b),
{
    b.mouse_moves > 0 || b.touches > 0 || b.interactions > 0
}

/// An optional flag as a byte.
pub open spec fn flag_byte(flag: Option<bool>) -> u8 {
    match flag {
        None => 0,
        Some(false) => 1,
        Some(true) => 2,
    }
}

/// All fields of a report as bytes.
pub open spec fn report_bytes(b: BehaviorReport) -> Seq<u8> {
    crate::bytes::le_bytes(b.mouse_moves as nat, 8) + crate::bytes::le_bytes(b.touches as nat, 8)
        + crate::bytes::le_bytes(b.interactions as nat, 8) + (match b.first_interaction_ms {
        None => seq![0u8] + crate::bytes::le_bytes(0, 8),
        Some(ms) => seq![1u8] + crate::bytes::le_bytes(ms as nat, 8),
    }) + seq![flag_byte(b.webdriver), flag_byte(b.automation), flag_byte(b.headless)]
}

/// The fingerprint of a report: std's default hash of its fields.
pub open spec fn fingerprint(b: BehaviorReport) -> u64 {
    DefaultHasher::spec_finish(seq![report_bytes(b)])
}

fn flag_of(flag: Option<bool>) -> (r: u8)
    ensures
        r == flag_byte(flag),
{
    match flag {
        None => 0,
        Some(false) => 1,
        Some(true) => 2,
    }
}

/// A fingerprint of the fields of a report, by which identical ones are counted. It is
/// taken of the fields, not of the text that they came in: reordering that text makes
/// no new report.
pub fn behavior_fingerprint(b: &BehaviorReport) -> (r: u64)
    ensures
        r == fingerprint(*b),
{
    let mut data: Vec<u8> = Vec::new();
    let mut field = u64_le(b.mouse_moves as u64);
    data.append(&mut field);
    let mut field = u64_le(b.touches as u64);
    data.append(&mut field);
    let mut field = u64_le(b.interactions as u64);
    data.append(&mut field);
    match b.first_interaction_ms {
        None => {
            data.push(0);
            let mut field = u64_le(0);
            data.append(&mut field);
        },
        Some(ms) => {
            data.push(1);
            let mut field = u64_le(ms);
            data.append(&mut field);
        },
    }
    data.push(flag_of(b.webdriver));
    data.push(flag_of(b.automation));
    data.push(flag_of(b.headless));
    assert(data@ =~= report_bytes(*b));
    let mut hasher = DefaultHasher::new();
    hasher.write(data.as_slice());
    assert(hasher@ =~= seq![report_bytes(*b)]);
    hasher.finish()
}

/// The report claims a first interaction that lies further behind the dwell time than
/// can be.
pub open spec fn is_impossible(b: BehaviorReport, dwell_ms: u64) -> bool {
    b.first_interaction_ms matches Some(first) && first > dwell_ms
        + BEHAVIOR_IMPOSSIBLE_TIMING_SLACK_MS
}

/// What an impossible timeline is worth.
pub open spec fn timing_score(
    w: SignalWeights,
    presence: BehaviorPresence,
    time_on_page_ms: Option<u64>,
) -> nat {
    match (presence, time_on_page_ms) {
        (BehaviorPresence::Present(b), Some(dwell)) => if is_impossible(b, dwell) {
            w.behavior_impossible_timing as nat
        } else {
            0
        },
        _ => 0,
    }
}

/// `score_impossible_timing_with` at the default weights.
pub fn score_impossible_timing(presence: BehaviorPresence, time_on_page_ms: Option<u64>) -> (r: u32)
    ensures
        r == timing_score(crate::risk::weights::default_weights(), presence, time_on_page_ms),
{
    score_impossible_timing_with(&SignalWeights::default(), presence, time_on_page_ms)
}

/// What it is worth that a report claims an interaction from before the visitor was
/// there. Where no dwell time is known, nothing contradicts the report.
pub fn score_impossible_timing_with(
    w: &SignalWeights,
    presence: BehaviorPresence,
    time_on_page_ms: Option<u64>,
) -> (r: u32)
    ensures
        r == timing_score(*w, presence, time_on_page_ms),
{
    match (presence, time_on_page_ms) {
        (BehaviorPresence::Present(b), Some(dwell)) => match b.first_interaction_ms {
            None => 0,
            Some(first) => if first > dwell.saturating_add(BEHAVIOR_IMPOSSIBLE_TIMING_SLACK_MS) {
                w.behavior_impossible_timing
            } else {
                0
            },
        },
        _ => 0,
    }
}

/// What repeated reports are worth.
pub open spec fn duplicate_score(
    w: SignalWeights,
    presence: BehaviorPresence,
    duplicate_count: u32,
) -> nat {
    match presence {
        BehaviorPresence::Absent => 0,
        BehaviorPresence::Present(b) => if is_active(b) && duplicate_count
            >= BEHAVIOR_DUPLICATE_MIN {
            w.behavior_duplicate as nat
        } else {
            0
        },
    }
}

/// `score_duplicate_blob_with` at the default weights.
pub fn score_duplicate_blob(presence: BehaviorPresence, duplicate_count: u32) -> (r: u32)
    ensures
        r == duplicate_score(crate::risk::weights::default_weights(), presence, duplicate_count),
{
    score_duplicate_blob_with(&SignalWeights::default(), presence, duplicate_count)
}

/// What it is worth that a site received this very report `duplicate_count` times
/// within the window, this time included.
pub fn score_duplicate_blob_with(
    w: &SignalWeights,
    presence: BehaviorPresence,
    duplicate_count: u32,
) -> (r: u32)
    ensures
        r == duplicate_score(*w, presence, duplicate_count),
{
    match presence {
        BehaviorPresence::Absent => 0,
        BehaviorPresence::Present(b) => if claims_activity(&b) && duplicate_count
            >= BEHAVIOR_DUPLICATE_MIN {
            w.behavior_duplicate
        } else {
            0
        },
    }
}

/// What the counters of a report are worth.
pub open spec fn report_score(w: SignalWeights, b: BehaviorReport) -> nat {
    let no_pointer = b.mouse_moves == 0 && b.touches == 0;
    let isolated = b.interactions <= BEHAVIOR_ISOLATED_INTERACTION_MAX;
    let pointer: nat = if no_pointer && b.interactions == 0 {
        w.behavior_flatline as nat
    } else if no_pointer && isolated {
        w.behavior_no_pointer as nat
    } else {
        0
    };
    let instant: nat = if isolated && (b.first_interaction_ms matches Some(t) && t
        < BEHAVIOR_INSTANT_INTERACTION_MS) {
        w.behavior_instant_interaction as nat
    } else {
        0
    };
    let driven: nat = if b.webdriver == Some(true) || b.automation == Some(true) {
        w.behavior_automation as nat
    } else {
        0
    };
    let headless: nat = if b.headless == Some(true) {
        w.behavior_headless as nat
    } else {
        0
    };
    pointer + instant + driven + headless
}

pub open spec fn behavior_score(w: SignalWeights, presence: BehaviorPresence) -> nat {
    match presence {
        BehaviorPresence::Absent => 0,
        BehaviorPresence::Present(b) => report_score(w, b),
    }
}

/// `score_behavior_with` at the default weights.
pub fn score_behavior(presence: BehaviorPresence) -> (r: u32)
    ensures
        r == behavior_score(crate::risk::weights::default_weights(), presence),
{
    score_behavior_with(&SignalWeights::default(), presence)
}

fn is_set(flag: Option<bool>) -> (r: bool)
    ensures
        r == (flag == Some(true)),
{
    match flag {
        Some(b) => b,
        None => false,
    }
}

/// What the counters of a report are worth: no sign of a visitor at all, or a single
/// event of the kind that a driver makes, a driven browser, and a headless one. The two
/// marks of a driven browser are two views of one fact and count once.
pub fn score_behavior_with(w: &SignalWeights, presence: BehaviorPresence) -> (r: u32)
    ensures
        r == crate::risk::weights::capped(behavior_score(*w, presence)),
{
    let b = match presence {
        BehaviorPresence::Absent => {
            return 0;
        },
        BehaviorPresence::Present(b) => b,
    };
    let no_pointer = b.mouse_moves == 0 && b.touches == 0;
    let no_interaction = b.interactions == 0;
    let isolated = b.interactions <= BEHAVIOR_ISOLATED_INTERACTION_MAX;
    let mut score: u32 = 0;
    if no_pointer && no_interaction {
        score = score.saturating_add(w.behavior_flatline);
    } else if no_pointer && isolated {
        score = score.saturating_add(w.behavior_no_pointer);
    }
    let instant = match b.first_interaction_ms {
        Some(t) => t < BEHAVIOR_INSTANT_INTERACTION_MS,
        None => false,
    };
    if isolated && instant {
        score = score.saturating_add(w.behavior_instant_interaction);
    }
    if is_set(b.webdriver) || is_set(b.automation) {
        score = score.saturating_add(w.behavior_automation);
    }
    if is_set(b.headless) {
        score = score.saturating_add(w.behavior_headless);
    }
    score
}

/// The two marks of a driven browser saturate: both together are worth what either is
/// alone.
pub proof fn lemma_driver_marks_saturate(w: SignalWeights, b: BehaviorReport)
    requires
        b.webdriver == Some(true) || b.automation == Some(true),
    ensures
        report_score(w, b) == report_score(
            w,
            BehaviorReport { webdriver: Some(true), automation: Some(true), ..b },
        ),
        report_score(w, b) == report_score(
            w,
            BehaviorReport { webdriver: Some(true), automation: None, ..b },
        ),
{
}

/// A visitor with a trail of interactions is judged neither by their pointer nor by how
/// soon they interacted.
pub proof fn lemma_interaction_trail_is_neutral(w: SignalWeights, b: BehaviorReport)
    requires
        b.interactions > BEHAVIOR_ISOLATED_INTERACTION_MAX,
        b.webdriver != Some(true),
        b.automation != Some(true),
        b.headless != Some(true),
    ensures
        report_score(w, b) == 0,
{
}

/// A report that was not sent is worth nothing, whatever comes with it.
pub proof fn lemma_absent_report_is_neutral(w: SignalWeights, dwell: Option<u64>, count: u32)
    ensures
        behavior_score(w, BehaviorPresence::Absent) == 0,
        timing_score(w, BehaviorPresence::Absent, dwell) == 0,
        duplicate_score(w, BehaviorPresence::Absent, count) == 0,
{
}

/// Every field of a report goes into its fingerprint: what is hashed of two reports is
/// the same only where the reports are.
pub proof fn lemma_report_bytes_injective(a: BehaviorReport, b: BehaviorReport)
    requires
        report_bytes(a) == report_bytes(b),
    ensures
        a == b,
{
    reveal_with_fuel(crate::bytes::pow256, 9);
    let x = report_bytes(a);
    let y = report_bytes(b);
    crate::bytes::lemma_le_bytes_len(a.mouse_moves as nat, 8);
    crate::bytes::lemma_le_bytes_len(b.mouse_moves as nat, 8);
    crate::bytes::lemma_le_bytes_len(a.touches as nat, 8);
    crate::bytes::lemma_le_bytes_len(b.touches as nat, 8);
    crate::bytes::lemma_le_bytes_len(a.interactions as nat, 8);
    crate::bytes::lemma_le_bytes_len(b.interactions as nat, 8);
    let am = if a.first_interaction_ms is Some {
        a.first_interaction_ms->0
    } else {
        0
    };
    let bm = if b.first_interaction_ms is Some {
        b.first_interaction_ms->0
    } else {
        0
    };
    crate::bytes::lemma_le_bytes_len(am as nat, 8);
    crate::bytes::lemma_le_bytes_len(bm as nat, 8);
    assert(x.subrange(0, 8) =~= crate::bytes::le_bytes(a.mouse_moves as nat, 8));
    assert(y.subrange(0, 8) =~= crate::bytes::le_bytes(b.mouse_moves as nat, 8));
    assert(x.subrange(8, 16) =~= crate::bytes::le_bytes(a.touches as nat, 8));
    assert(y.subrange(8, 16) =~= crate::bytes::le_bytes(b.touches as nat, 8));
    assert(x.subrange(16, 24) =~= crate::bytes::le_bytes(a.interactions as nat, 8));
    assert(y.subrange(16, 24) =~= crate::bytes::le_bytes(b.interactions as nat, 8));
    assert(x.subrange(25, 33) =~= crate::bytes::le_bytes(am as nat, 8));
    assert(y.subrange(25, 33) =~= crate::bytes::le_bytes(bm as nat, 8));
    crate::bytes::lemma_le_bytes_injective(a.mouse_moves as nat, b.mouse_moves as nat, 8);
    crate::bytes::lemma_le_bytes_injective(a.touches as nat, b.touches as nat, 8);
    crate::bytes::lemma_le_bytes_injective(a.interactions as nat, b.interactions as nat, 8);
    crate::bytes::lemma_le_bytes_injective(am as nat, bm as nat, 8);
    assert(x[24] == if a.first_interaction_ms is Some {
        1u8
    } else {
        0u8
    });
    assert(y[24] == if b.first_interaction_ms is Some {
        1u8
    } else {
        0u8
    });
    assert(x[33] == flag_byte(a.webdriver) && y[33] == flag_byte(b.webdriver));
    assert(x[34] == flag_byte(a.automation) && y[34] == flag_byte(b.automation));
    assert(x[35] == flag_byte(a.headless) && y[35] == flag_byte(b.headless));
}

/// The fingerprint of a report is the hash of an encoding that two reports share only where
/// they agree in all their fields, so that no field is left out of it and equal reports have
/// equal fingerprints.
pub proof fn lemma_fingerprint_covers_every_field(a: BehaviorReport, b: BehaviorReport)
    ensures
        fingerprint(a) == DefaultHasher::spec_finish(seq![report_bytes(a)]),
        report_bytes(a) == report_bytes(b) <==> a == b,
        a == b ==> fingerprint(a) == fingerprint(b),
        a.mouse_moves != b.mouse_moves || a.touches != b.touches || a.interactions
            != b.interactions || a.first_interaction_ms != b.first_interaction_ms || a.webdriver
            != b.webdriver || a.automation != b.automation || a.headless != b.headless
            ==> report_bytes(a) != report_bytes(b),
{
    if report_bytes(a) == report_bytes(b) {
        lemma_report_bytes_injective(a, b);
    }
}

/// More repetitions of a report never score less. A report that claims activity scores the
/// weight of a duplicate from the fifth time on, every time, and nothing before; one that
/// claims none never scores.
pub proof fn lemma_repetitions_score(w: SignalWeights, presence: BehaviorPresence, m: u32, n: u32)
    ensures
        m <= n ==> duplicate_score(w, presence, m) <= duplicate_score(w, presence, n),
        presence matches BehaviorPresence::Present(b) ==> {
            &&& (b.mouse_moves > 0 || b.touches > 0 || b.interactions > 0) && n >= 5
                ==> duplicate_score(w, presence, n) == w.behavior_duplicate
            &&& n < 5 ==> duplicate_score(w, presence, n) == 0
            &&& b.mouse_moves == 0 && b.touches == 0 && b.interactions == 0 ==> duplicate_score(
                w,
                presence,
                n,
            ) == 0
        },
        presence is Absent ==> duplicate_score(w, presence, n) == 0,
{
}

/// A claimed first interaction is impossible exactly where it lies more than thirty seconds
/// behind the time on the page, and then it scores; a later claim never scores less, and a
/// longer stay never more. Without a claim or without a known stay nothing scores.
pub proof fn lemma_impossible_timing_scores(
    w: SignalWeights,
    b: BehaviorReport,
    first: u64,
    dwell: u64,
)
    ensures
        b.first_interaction_ms == Some(first) && first > dwell + 30_000 ==> timing_score(
            w,
            BehaviorPresence::Present(b),
            Some(dwell),
        ) == w.behavior_impossible_timing,
        b.first_interaction_ms == Some(first) && first <= dwell + 30_000 ==> timing_score(
            w,
            BehaviorPresence::Present(b),
            Some(dwell),
        ) == 0,
        b.first_interaction_ms is None ==> timing_score(
            w,
            BehaviorPresence::Present(b),
            Some(dwell),
        ) == 0,
        timing_score(w, BehaviorPresence::Present(b), None) == 0,
        timing_score(w, BehaviorPresence::Absent, Some(dwell)) == 0,
{
}

/// What a report scores, mark by mark: nothing at all on the page, or a single interaction
/// without a pointer; a first interaction sooner than fifty milliseconds, where it is the only
/// one; a driven browser, by either mark; a headless one. Each mark adds its own weight, and
/// nothing else counts.
pub proof fn lemma_marks_of_report(w: SignalWeights, b: BehaviorReport)
    ensures
        b.interactions >= 2 && b.webdriver != Some(true) && b.automation != Some(true)
            && b.headless != Some(true) ==> report_score(w, b) == 0,
        b.mouse_moves == 0 && b.touches == 0 && b.interactions == 0 && b.first_interaction_ms
            is None && b.webdriver != Some(true) && b.automation != Some(true) && b.headless
            != Some(true) ==> report_score(w, b) == w.behavior_flatline,
        b.mouse_moves == 0 && b.touches == 0 && b.interactions == 1 && b.first_interaction_ms
            is None && b.webdriver != Some(true) && b.automation != Some(true) && b.headless
            != Some(true) ==> report_score(w, b) == w.behavior_no_pointer,
        (b.mouse_moves > 0 || b.touches > 0) && b.first_interaction_ms is None && b.webdriver
            != Some(true) && b.automation != Some(true) && b.headless != Some(true)
            ==> report_score(w, b) == 0,
        b.interactions <= 1 ==> (b.first_interaction_ms matches Some(t) ==> report_score(w, b)
            == report_score(w, BehaviorReport { first_interaction_ms: None, ..b }) + (if t < 50 {
            w.behavior_instant_interaction as nat
        } else {
            0
        })),
        b.interactions >= 2 ==> report_score(w, b) == report_score(
            w,
            BehaviorReport { first_interaction_ms: None, ..b },
        ),
        report_score(w, b) == report_score(
            w,
            BehaviorReport { webdriver: None, automation: None, ..b },
        ) + (if b.webdriver == Some(true) || b.automation == Some(true) {
            w.behavior_automation as nat
        } else {
            0
        }),
        report_score(w, b) == report_score(w, BehaviorReport { headless: None, ..b }) + (
        if b.headless == Some(true) {
            w.behavior_headless as nat
        } else {
            0
        }),
        behavior_score(w, BehaviorPresence::Present(b)) == report_score(w, b),
{
}

/// A report claims activity exactly where one of its three counters is not zero.
pub proof fn lemma_activity(b: BehaviorReport)
    ensures
        is_active(b) <==> b.mouse_moves + b.touches + b.interactions > 0,
{
}

} // verus!
