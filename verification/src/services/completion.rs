//! Completions in the store: what a new completion holds, and how the rows
//! of the store become what the services answer.

use vstd::prelude::*;
use vstd::string::*;
use crate::entities::{Challenge, Completion, JournalRecord, TextMap, Timestamp};

verus! {

/// A completion that was just made.
pub fn create_completion(
    user_id: &str,
    challenge_name: &str,
    s3_link: Option<String>,
    note: Option<String>,
    now: Timestamp,
) -> (completion: Completion)
    ensures
        completion.user_id@ == user_id@,
        completion.challenge_name@ == challenge_name@,
        completion.timestamp == now,
        completion.s3_link == s3_link,
        completion.note == note,
{
    Completion {
        user_id: String::from_str(user_id),
        challenge_name: String::from_str(challenge_name),
        timestamp: now,
        s3_link,
        note,
    }
}

/// A completion with its note set.
pub fn update_completion_note(completion: Completion, note: Option<String>) -> (updated: Completion)
    ensures
        updated == (Completion { note, ..completion }),
{
    Completion {
        user_id: completion.user_id,
        challenge_name: completion.challenge_name,
        timestamp: completion.timestamp,
        s3_link: completion.s3_link,
        note,
    }
}

/// A completion with its photo set.
pub fn update_completion_photo(
    completion: Completion,
    s3_link: Option<String>,
) -> (updated: Completion)
    ensures
        updated == (Completion { s3_link, ..completion }),
{
    Completion {
        user_id: completion.user_id,
        challenge_name: completion.challenge_name,
        timestamp: completion.timestamp,
        s3_link,
        note: completion.note,
    }
}

/// The completion map of the first `n` completions: each challenge name to
/// the time of the last completion that names it.
pub open spec fn completion_map(completions: Seq<Completion>, n: nat) -> Map<Seq<char>, Timestamp>
    decreases n,
{
    if n == 0 {
        Map::empty()
    } else {
        completion_map(completions, (n - 1) as nat).insert(
            completions[n - 1].challenge_name@,
            completions[n - 1].timestamp,
        )
    }
}

/// The completion map of a user, from their completions.
pub fn get_user_completion_map(completions: &Vec<Completion>) -> (map: TextMap<Timestamp>)
    ensures
        map@ == completion_map(completions@, completions@.len()),
{
    let mut map: TextMap<Timestamp> = TextMap::new();
    let mut i: usize = 0;
    assert(map@ =~= completion_map(completions@, 0));
    while i < completions.len()
        invariant
            i <= completions@.len(),
            map@ == completion_map(completions@, i as nat),
        decreases completions@.len() - i,
    {
        map.insert(completions[i].challenge_name.clone(), completions[i].timestamp);
        i = i + 1;
    }
    map
}

/// A completion with its challenge, where the store found the challenge.
pub open spec fn paired(row: (Completion, Option<Challenge>)) -> Option<JournalRecord> {
    match row.1 {
        Some(challenge) => Some(JournalRecord { completion: row.0, challenge }),
        None => None,
    }
}

/// The first `n` completions with their challenges, without those whose
/// challenge the store did not find.
pub open spec fn paired_rows(
    rows: Seq<(Completion, Option<Challenge>)>,
    n: nat,
) -> Seq<JournalRecord>
    decreases n,
{
    if n == 0 {
        Seq::empty()
    } else {
        match paired(rows[n - 1]) {
            Some(record) => paired_rows(rows, (n - 1) as nat).push(record),
            None => paired_rows(rows, (n - 1) as nat),
        }
    }
}

/// A user's completion of one challenge with that challenge, where the
/// store found both.
pub fn get_user_completion_with_challenge(
    row: Option<(Completion, Option<Challenge>)>,
) -> (record: Option<JournalRecord>)
    ensures
        record == (match row {
            Some(r) => paired(r),
            None => None,
        }),
{
    match row {
        Some((completion, Some(challenge))) => Some(JournalRecord { completion, challenge }),
        _ => None,
    }
}

/// A user's completions with their challenges, without those whose
/// challenge the store did not find.
pub fn get_user_completions_with_challenges(
    rows: &Vec<(Completion, Option<Challenge>)>,
) -> (records: Vec<JournalRecord>)
    ensures
        records@ == paired_rows(rows@, rows@.len()),
{
    let mut records: Vec<JournalRecord> = Vec::new();
    let mut i: usize = 0;
    while i < rows.len()
        invariant
            i <= rows@.len(),
            records@ == paired_rows(rows@, i as nat),
        decreases rows@.len() - i,
    {
        match &rows[i].1 {
            Some(challenge) => {
                records.push(
                    JournalRecord { completion: rows[i].0.clone(), challenge: challenge.clone() },
                );
            },
            None => {},
        }
        i = i + 1;
    }
    records
}

/// Whether the store found a completion.
pub fn completion_exists(found: &Option<Completion>) -> (exists: bool)
    ensures
        exists == found is Some,
{
    found.is_some()
}

} // verus!
