//! The journal of a user: their completions with notes and photos, the
//! most recent first.

use vstd::prelude::*;
use vstd::string::*;
use crate::entities::{JournalRecord, Timestamp};
use crate::sorting::{ascending_places, as_places, places_ascending};
use crate::text::copy_optional_text;

verus! {

/// One completion as the journal shows it.
#[derive(Debug, PartialEq, Eq)]
pub struct JournalEntry {
    pub challenge_name: String,
    pub completed_at: Timestamp,
    pub note: Option<String>,
    pub image_url: Option<String>,
    pub coins_earned: i32,
    pub challenge_tagline: String,
    pub challenge_location: String,
    pub challenge_category: String,
}

impl Clone for JournalEntry {
    fn clone(&self) -> (copy: Self)
        ensures
            copy == *self,
    {
        JournalEntry {
            challenge_name: self.challenge_name.clone(),
            completed_at: self.completed_at,
            note: copy_optional_text(&self.note),
            image_url: copy_optional_text(&self.image_url),
            coins_earned: self.coins_earned,
            challenge_tagline: self.challenge_tagline.clone(),
            challenge_location: self.challenge_location.clone(),
            challenge_category: self.challenge_category.clone(),
        }
    }
}

/// The journal as the user gets it.
#[derive(Debug, PartialEq, Eq)]
pub struct JournalListResponse {
    pub entries: Vec<JournalEntry>,
}

/// One journal entry as the user gets it, where there is one.
#[derive(Debug, PartialEq, Eq)]
pub struct JournalEntryResponse {
    pub entry: Option<JournalEntry>,
}

/// A request to set the note of a journal entry.
#[derive(Debug, PartialEq, Eq)]
pub struct UpdateJournalRequest {
    pub note: Option<String>,
}

/// The answer to a request to delete the photo of a journal entry.
#[derive(Debug, PartialEq, Eq)]
pub struct DeletePhotoResponse {
    pub success: bool,
    pub message: String,
}

/// The journal entry of a completion with its challenge, shown with the
/// photo at `image_url`.
pub open spec fn entry_of(record: JournalRecord, image_url: Option<String>) -> JournalEntry {
    JournalEntry {
        challenge_name: record.completion.challenge_name,
        completed_at: record.completion.timestamp,
        note: record.completion.note,
        image_url,
        coins_earned: record.challenge.scotty_coins,
        challenge_tagline: record.challenge.tagline,
        challenge_location: record.challenge.location,
        challenge_category: record.challenge.category,
    }
}

/// The journal entry of a completion with its challenge, shown with the
/// photo at `image_url`.
pub fn journal_entry(record: JournalRecord, image_url: Option<String>) -> (entry: JournalEntry)
    ensures
        entry == entry_of(record, image_url),
{
    JournalEntry {
        challenge_name: record.completion.challenge_name,
        completed_at: record.completion.timestamp,
        note: record.completion.note,
        image_url,
        coins_earned: record.challenge.scotty_coins,
        challenge_tagline: record.challenge.tagline,
        challenge_location: record.challenge.location,
        challenge_category: record.challenge.category,
    }
}

/// A number that is smaller the later a time is.
pub open spec fn recency_key(time: Timestamp) -> i128 {
    (-(time.seconds * 0x1_0000_0000 + time.nanos)) as i128
}

/// A number that is smaller the later a time is.
pub fn recency_key_of(time: &Timestamp) -> (key: i128)
    ensures
        key == recency_key(*time),
{
    -(time.seconds as i128 * 0x1_0000_0000 + time.nanos as i128)
}

/// The keys of the entries of a journal.
pub open spec fn journal_keys(entries: Seq<JournalEntry>) -> Seq<i128> {
    Seq::new(entries.len(), |i: int| recency_key(entries[i].completed_at))
}

/// The journal with the most recent completion first, completions of the
/// same time in the order given.
pub open spec fn journal_order(entries: Seq<JournalEntry>) -> Seq<JournalEntry> {
    Seq::new(entries.len(), |k: int| entries[ascending_places(journal_keys(entries))[k]])
}

/// The journal with the most recent completion first.
pub fn get_journal(entries: Vec<JournalEntry>) -> (journal: JournalListResponse)
    ensures
        journal.entries@ == journal_order(entries@),
{
    let mut keys: Vec<i128> = Vec::new();
    let mut i: usize = 0;
    while i < entries.len()
        invariant
            i <= entries@.len(),
            keys@.len() == i,
            forall|j: int| 0 <= j < i ==> keys@[j] == recency_key(entries@[j].completed_at),
        decreases entries@.len() - i,
    {
        keys.push(recency_key_of(&entries[i].completed_at));
        i = i + 1;
    }
    assert(keys@ =~= journal_keys(entries@));
    let order = places_ascending(&keys);
    let mut sorted: Vec<JournalEntry> = Vec::new();
    let mut k: usize = 0;
    while k < order.len()
        invariant
            k <= order@.len(),
            order@.len() == entries@.len(),
            sorted@.len() == k,
            as_places(order@) == ascending_places(journal_keys(entries@)),
            forall|j: int| 0 <= j < order@.len() ==> #[trigger] order@[j] < entries@.len(),
            forall|j: int| 0 <= j < k ==> sorted@[j] == journal_order(entries@)[j],
        decreases order@.len() - k,
    {
        assert(as_places(order@)[k as int] == order@[k as int] as int);
        sorted.push(entries[order[k]].clone());
        k = k + 1;
    }
    assert(sorted@ =~= journal_order(entries@));
    JournalListResponse { entries: sorted }
}

/// What to do with a request to delete the photo of a journal entry: the
/// link of the photo to delete, or the answer that refuses.
pub fn photo_to_delete(
    found: &Option<JournalRecord>,
) -> (decision: Result<String, DeletePhotoResponse>)
    ensures
        match decision {
            Ok(link) => found matches Some(record) && record.completion.s3_link == Some(link),
            Err(response) => !response.success && match *found {
                None => response.message@ == "Journal entry not found"@,
                Some(record) => record.completion.s3_link is None && response.message@
                    == "No photo to delete"@,
            },
        },
{
    match found {
        None => Err(
            DeletePhotoResponse {
                success: false,
                message: String::from_str("Journal entry not found"),
            },
        ),
        Some(record) => match &record.completion.s3_link {
            Some(link) => Ok(link.clone()),
            None => Err(
                DeletePhotoResponse {
                    success: false,
                    message: String::from_str("No photo to delete"),
                },
            ),
        },
    }
}

/// The answer to a request to delete a photo, after the store was asked to
/// forget it: `updated` says whether the entry was still there, `removed`
/// whether the photo itself could be deleted.
pub fn delete_journal_photo(updated: bool, removed: bool) -> (response: DeletePhotoResponse)
    ensures
        response.success == updated,
        response.message@ == (if !updated {
            "Failed to delete photo"@
        } else if removed {
            "Photo deleted successfully"@
        } else {
            "Photo removed from journal, S3 deletion failed"@
        }),
{
    if !updated {
        DeletePhotoResponse { success: false, message: String::from_str("Failed to delete photo") }
    } else if removed {
        DeletePhotoResponse {
            success: true,
            message: String::from_str("Photo deleted successfully"),
        }
    } else {
        DeletePhotoResponse {
            success: true,
            message: String::from_str("Photo removed from journal, S3 deletion failed"),
        }
    }
}

} // verus!
