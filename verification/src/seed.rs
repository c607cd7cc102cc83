//! Seeding the store from tables of challenges and rewards: what a row of a
//! table becomes, and which rows are left out.

use vstd::prelude::*;
use vstd::string::*;
use crate::entities::{Challenge, Reward, Timestamp};
use crate::text::push_decimal;

verus! {

/// Whether a character is white space: one of the 25 code points with the
/// Unicode property White_Space.
pub open spec fn is_white_space(c: char) -> bool {
    let code = c as u32;
    ||| 0x09 <= code <= 0x0D
    ||| code == 0x20
    ||| code == 0x85
    ||| code == 0xA0
    ||| code == 0x1680
    ||| 0x2000 <= code <= 0x200A
    ||| code == 0x2028
    ||| code == 0x2029
    ||| code == 0x202F
    ||| code == 0x205F
    ||| code == 0x3000
}

/// Whether a character is white space.
pub fn char_is_white_space(c: char) -> (white: bool)
    ensures
        white == is_white_space(c),
{
    let code: u32 = c as u32;
    (0x09 <= code && code <= 0x0D) || code == 0x20 || code == 0x85 || code == 0xA0 || code
        == 0x1680 || (0x2000 <= code && code <= 0x200A) || code == 0x2028 || code == 0x2029
        || code == 0x202F || code == 0x205F || code == 0x3000
}

/// A text without the white space that it starts with.
pub open spec fn without_leading_space(text: Seq<char>) -> Seq<char>
    decreases text.len(),
{
    if text.len() > 0 && is_white_space(text.first()) {
        without_leading_space(text.drop_first())
    } else {
        text
    }
}

/// A text without the white space that it ends with.
pub open spec fn without_trailing_space(text: Seq<char>) -> Seq<char>
    decreases text.len(),
{
    if text.len() > 0 && is_white_space(text.last()) {
        without_trailing_space(text.drop_last())
    } else {
        text
    }
}

/// A text without the white space around it.
pub open spec fn trimmed(text: Seq<char>) -> Seq<char> {
    without_trailing_space(without_leading_space(text))
}

/// The text of a table cell that may be left empty: nothing where the cell
/// holds white space only, else the cell without the white space around it.
pub open spec fn cleaned(cell: Seq<char>) -> Option<Seq<char>> {
    if trimmed(cell).len() == 0 {
        None
    } else {
        Some(trimmed(cell))
    }
}

/// A text without the white space around it.
pub fn trim_text(text: &str) -> (inner: &str)
    ensures
        inner@ == trimmed(text@),
{
    let n: usize = text.unicode_len();
    let mut start: usize = 0;
    assert(text@.subrange(0, n as int) =~= text@);
    while start < n && char_is_white_space(text.get_char(start))
        invariant
            start <= n,
            n == text@.len(),
            without_leading_space(text@) == without_leading_space(
                text@.subrange(start as int, n as int),
            ),
        decreases n - start,
    {
        proof {
            let rest = text@.subrange(start as int, n as int);
            assert(rest.first() == text@[start as int]);
            assert(rest.drop_first() =~= text@.subrange(start + 1, n as int));
        }
        start = start + 1;
    }
    let ghost solid = text@.subrange(start as int, n as int);
    proof {
        if start < n {
            assert(solid.first() == text@[start as int]);
        }
        assert(without_leading_space(text@) == solid);
    }
    let mut end: usize = n;
    while end > start && char_is_white_space(text.get_char(end - 1))
        invariant
            start <= end <= n,
            n == text@.len(),
            solid == text@.subrange(start as int, n as int),
            without_trailing_space(solid) == without_trailing_space(
                text@.subrange(start as int, end as int),
            ),
        decreases end,
    {
        proof {
            let rest = text@.subrange(start as int, end as int);
            assert(rest.last() == text@[end - 1]);
            assert(rest.drop_last() =~= text@.subrange(start as int, end - 1));
        }
        end = end - 1;
    }
    proof {
        let rest = text@.subrange(start as int, end as int);
        if end > start {
            assert(rest.last() == text@[end - 1]);
        }
        assert(without_trailing_space(rest) == rest);
    }
    text.substring_char(start, end)
}

/// The text of a table cell that may be left empty.
pub fn clean_cell(cell: &str) -> (text: Option<String>)
    ensures
        text_seen(text) == cleaned(cell@),
{
    let inner = trim_text(cell);
    if inner.is_empty() {
        None
    } else {
        Some(String::from_str(inner))
    }
}

/// One row of the table of challenges.
#[derive(Debug, PartialEq, Eq)]
pub struct ChallengeRecord {
    pub category: String,
    pub location: String,
    pub maps_link: String,
    pub challenge_name: String,
    pub tagline: String,
    pub description: String,
    pub more_info_link: String,
    pub unlock_date: String,
    pub verification_string: String,
}

/// The coins that every seeded challenge is worth.
pub open spec fn seeded_coins() -> i32 {
    100
}

impl ChallengeRecord {
    /// The link to the map, where the row gives one.
    pub fn clean_maps_link(&self) -> (link: Option<String>)
        ensures
            text_seen(link) == cleaned(self.maps_link@),
    {
        clean_cell(self.maps_link.as_str())
    }

    /// The link to more information, where the row gives one.
    pub fn clean_more_info_link(&self) -> (link: Option<String>)
        ensures
            text_seen(link) == cleaned(self.more_info_link@),
    {
        clean_cell(self.more_info_link.as_str())
    }

    /// The challenge that the row describes, unlocked at `unlock_timestamp`:
    /// worth 100 coins and without a place on the map yet.
    pub fn to_challenge(&self, unlock_timestamp: Timestamp) -> (challenge: Challenge)
        ensures
            describes(*self, unlock_timestamp, challenge),
    {
        Challenge {
            name: self.challenge_name.clone(),
            category: self.category.clone(),
            location: self.location.clone(),
            scotty_coins: 100,
            maps_link: self.clean_maps_link(),
            tagline: self.tagline.clone(),
            description: self.description.clone(),
            more_info_link: self.clean_more_info_link(),
            unlock_timestamp,
            secret: self.verification_string.clone(),
            latitude_bits: None,
            longitude_bits: None,
            location_accuracy: None,
        }
    }
}

/// What an optional text says.
pub open spec fn text_seen(text: Option<String>) -> Option<Seq<char>> {
    match text {
        Some(t) => Some(t@),
        None => None,
    }
}

/// `challenge` is the challenge that the row `record` describes, unlocked
/// at `unlock_timestamp`.
pub open spec fn describes(
    record: ChallengeRecord,
    unlock_timestamp: Timestamp,
    challenge: Challenge,
) -> bool {
    &&& challenge.name == record.challenge_name
    &&& challenge.category == record.category
    &&& challenge.location == record.location
    &&& challenge.scotty_coins == seeded_coins()
    &&& text_seen(challenge.maps_link) == cleaned(record.maps_link@)
    &&& challenge.tagline == record.tagline
    &&& challenge.description == record.description
    &&& text_seen(challenge.more_info_link) == cleaned(record.more_info_link@)
    &&& challenge.unlock_timestamp == unlock_timestamp
    &&& challenge.secret == record.verification_string
    &&& challenge.latitude_bits is None
    &&& challenge.longitude_bits is None
    &&& challenge.location_accuracy is None
}

/// One row of the table of rewards.
#[derive(Debug, PartialEq, Eq)]
pub struct RewardRecord {
    pub item: String,
    pub cost: i32,
    pub trade_limit: i32,
    pub stock: i32,
}

impl RewardRecord {
    /// The reward that the row describes.
    pub fn to_reward(&self) -> (reward: Reward)
        ensures
            describes_reward(*self, reward),
    {
        Reward {
            name: self.item.clone(),
            cost: self.cost,
            stock: self.stock,
            trade_limit: self.trade_limit,
        }
    }
}

/// The line of a table on which the row at `place` stands: rows are counted
/// from 0, lines from 1, and the first line holds the header. No line
/// number is greater than the greatest 64-bit number.
pub open spec fn line_of(place: nat) -> nat {
    if place + 2 <= u64::MAX {
        place + 2
    } else {
        u64::MAX as nat
    }
}

/// What is reported of a row that was left out.
pub open spec fn row_error_text(place: nat, reason: Seq<char>) -> Seq<char> {
    "Line "@ + crate::text::decimal(line_of(place)) + ": "@ + reason
}

/// What is reported of a row that was left out.
pub fn row_error(place: usize, reason: &str) -> (message: String)
    ensures
        message@ == row_error_text(place as nat, reason@),
{
    let line: u64 = if place as u64 <= u64::MAX - 2 {
        place as u64 + 2
    } else {
        u64::MAX
    };
    let mut message = String::from_str("Line ");
    push_decimal(&mut message, line);
    message.append(": ");
    message.append(reason);
    message
}

/// Whether seeding goes on after the rows were read: it stops only where
/// rows were left out and none is left.
pub fn may_insert(kept: usize, left_out: usize) -> (go_on: bool)
    ensures
        go_on == !(left_out > 0 && kept == 0),
{
    !(left_out > 0 && kept == 0)
}

/// What `chrono::NaiveDateTime::parse_from_str` makes of a text under a
/// format: the point in time, or what chrono says of its error.
pub uninterp spec fn date_time_parsed(
    text: Seq<char>,
    format: Seq<char>,
) -> Result<Timestamp, Seq<char>>;

/// A parsed time as it reads.
pub open spec fn parse_seen(parsed: Result<Timestamp, String>) -> Result<Timestamp, Seq<char>> {
    match parsed {
        Ok(time) => Ok(time),
        Err(error) => Err(error@),
    }
}

/// `chrono::NaiveDateTime::parse_from_str`: the point in time that `text`
/// names under `format`, as seconds since the epoch and nanoseconds, or the
/// text of the error.
#[verifier::external_body]
fn parse_date_time(text: &str, format: &str) -> (parsed: Result<Timestamp, String>)
    ensures
        parse_seen(parsed) == date_time_parsed(text@, format@),
{
    match chrono::NaiveDateTime::parse_from_str(text, format) {
        Ok(time) => Ok(
            Timestamp {
                seconds: time.and_utc().timestamp(),
                nanos: time.and_utc().timestamp_subsec_nanos(),
            },
        ),
        Err(error) => Err(error.to_string()),
    }
}

/// The format of the time at which a challenge unlocks: month, day and year,
/// then the time of day by the twelve-hour clock.
pub open spec fn unlock_format() -> Seq<char> {
    "%m/%d/%Y %I:%M %p"@
}

/// What is said of an unlock date that does not parse.
pub open spec fn unlock_error_text(unlock_date: Seq<char>, error: Seq<char>) -> Seq<char> {
    "Failed to parse date '"@ + unlock_date + "': "@ + error
}

/// The time at which a challenge unlocks, from what parsing its unlock date
/// gave: the time, or what is said of the date that does not parse.
pub fn unlock_timestamp_from(
    unlock_date: &str,
    parsed: Result<Timestamp, String>,
) -> (unlock: Result<Timestamp, String>)
    ensures
        match parsed {
            Ok(time) => unlock == Ok::<Timestamp, String>(time),
            Err(error) => unlock matches Err(message) && message@ == unlock_error_text(
                unlock_date@,
                error@,
            ),
        },
{
    match parsed {
        Ok(time) => Ok(time),
        Err(error) => {
            let mut message = String::from_str("Failed to parse date '");
            message.append(unlock_date);
            message.append("': ");
            message.append(error.as_str());
            Err(message)
        },
    }
}

impl ChallengeRecord {
    /// The time at which the challenge of the row unlocks.
    pub fn parse_unlock_timestamp(&self) -> (unlock: Result<Timestamp, String>)
        ensures
            match date_time_parsed(self.unlock_date@, unlock_format()) {
                Ok(time) => unlock == Ok::<Timestamp, String>(time),
                Err(error) => unlock matches Err(message) && message@ == unlock_error_text(
                    self.unlock_date@,
                    error,
                ),
            },
    {
        let parsed = parse_date_time(self.unlock_date.as_str(), "%m/%d/%Y %I:%M %p");
        unlock_timestamp_from(self.unlock_date.as_str(), parsed)
    }
}

/// What is said of a row that the table reader could not read.
pub open spec fn unread_row_text(error: Seq<char>) -> Seq<char> {
    "Failed to parse CSV record: "@ + error
}

/// What is said of a row that the table reader could not read.
pub fn unread_row(error: &str) -> (reason: String)
    ensures
        reason@ == unread_row_text(error@),
{
    let mut reason = String::from_str("Failed to parse CSV record: ");
    reason.append(error);
    reason
}

/// What reading the table of challenges gave: the challenges to insert, and
/// what is reported of the rows that were left out.
#[derive(Debug, PartialEq, Eq)]
pub struct ChallengePlan {
    pub challenges: Vec<Challenge>,
    pub errors: Vec<String>,
}

/// What reading the table of rewards gave: the rewards to insert, and what
/// is reported of the rows that were left out.
#[derive(Debug, PartialEq, Eq)]
pub struct RewardPlan {
    pub rewards: Vec<Reward>,
    pub errors: Vec<String>,
}

/// Whether the row of the table of challenges is kept: it was read and its
/// unlock date parses.
pub open spec fn is_kept(row: Result<ChallengeRecord, String>) -> bool {
    row matches Ok(record) && date_time_parsed(record.unlock_date@, unlock_format()) is Ok
}

/// What is reported of a row of the table of challenges that is left out.
pub open spec fn challenge_row_error(
    row: Result<ChallengeRecord, String>,
    place: nat,
) -> Seq<char> {
    match row {
        Ok(record) => row_error_text(
            place,
            unlock_error_text(
                record.unlock_date@,
                date_time_parsed(record.unlock_date@, unlock_format())->Err_0,
            ),
        ),
        Err(error) => row_error_text(place, unread_row_text(error@)),
    }
}

/// What is reported of those of the first `n` rows that are left out, in
/// the order of the table.
pub open spec fn left_out(rows: Seq<Result<ChallengeRecord, String>>, n: nat) -> Seq<Seq<char>>
    decreases n,
{
    if n == 0 {
        Seq::empty()
    } else if is_kept(rows[n - 1]) {
        left_out(rows, (n - 1) as nat)
    } else {
        left_out(rows, (n - 1) as nat).push(challenge_row_error(rows[n - 1], (n - 1) as nat))
    }
}

/// The texts of a list as they read.
pub open spec fn texts_of(list: Seq<String>) -> Seq<Seq<char>> {
    Seq::new(list.len(), |i: int| list[i]@)
}

/// The rows of the table of challenges that are kept among the first `n`,
/// each with the time at which its challenge unlocks, in the order of the
/// table.
pub open spec fn kept_rows(
    rows: Seq<Result<ChallengeRecord, String>>,
    n: nat,
) -> Seq<(ChallengeRecord, Timestamp)>
    decreases n,
{
    if n == 0 {
        Seq::empty()
    } else if is_kept(rows[n - 1]) {
        kept_rows(rows, (n - 1) as nat).push(
            (
                rows[n - 1]->Ok_0,
                date_time_parsed(rows[n - 1]->Ok_0.unlock_date@, unlock_format())->Ok_0,
            ),
        )
    } else {
        kept_rows(rows, (n - 1) as nat)
    }
}

/// Reads the rows of the table of challenges: a row is kept where it was
/// read and its unlock date parses, and left out with a report otherwise.
pub fn plan_challenges(rows: &Vec<Result<ChallengeRecord, String>>) -> (plan: ChallengePlan)
    ensures
        plan.challenges@.len() == kept_rows(rows@, rows@.len()).len(),
        forall|k: int|
            0 <= k < plan.challenges@.len() ==> describes(
                kept_rows(rows@, rows@.len())[k].0,
                kept_rows(rows@, rows@.len())[k].1,
                #[trigger] plan.challenges@[k],
            ),
        texts_of(plan.errors@) == left_out(rows@, rows@.len()),
{
    let mut challenges: Vec<Challenge> = Vec::new();
    let mut errors: Vec<String> = Vec::new();
    let mut place: usize = 0;
    assert(texts_of(errors@) =~= left_out(rows@, 0));
    while place < rows.len()
        invariant
            place <= rows@.len(),
            challenges@.len() == kept_rows(rows@, place as nat).len(),
            forall|k: int|
                0 <= k < challenges@.len() ==> describes(
                    kept_rows(rows@, place as nat)[k].0,
                    kept_rows(rows@, place as nat)[k].1,
                    #[trigger] challenges@[k],
                ),
            texts_of(errors@) == left_out(rows@, place as nat),
        decreases rows@.len() - place,
    {
        let ghost reports = texts_of(errors@);
        match &rows[place] {
            Ok(record) => {
                match record.parse_unlock_timestamp() {
                    Ok(unlock) => {
                        challenges.push(record.to_challenge(unlock));
                    },
                    Err(reason) => {
                        errors.push(row_error(place, reason.as_str()));
                        assert(texts_of(errors@) =~= reports.push(
                            challenge_row_error(rows@[place as int], place as nat),
                        ));
                    },
                }
            },
            Err(error) => {
                let reason = unread_row(error.as_str());
                errors.push(row_error(place, reason.as_str()));
                assert(texts_of(errors@) =~= reports.push(
                    challenge_row_error(rows@[place as int], place as nat),
                ));
            },
        }
        place = place + 1;
    }
    ChallengePlan { challenges, errors }
}

/// What is reported of those of the first `n` rows of the table of rewards
/// that the table reader could not read.
pub open spec fn unread_rewards(rows: Seq<Result<RewardRecord, String>>, n: nat) -> Seq<Seq<char>>
    decreases n,
{
    if n == 0 {
        Seq::empty()
    } else {
        match rows[n - 1] {
            Ok(_) => unread_rewards(rows, (n - 1) as nat),
            Err(error) => unread_rewards(rows, (n - 1) as nat).push(
                row_error_text((n - 1) as nat, unread_row_text(error@)),
            ),
        }
    }
}

/// The rewards that the first `n` rows of the table of rewards describe.
pub open spec fn read_rewards(rows: Seq<Result<RewardRecord, String>>, n: nat) -> Seq<RewardRecord>
    decreases n,
{
    if n == 0 {
        Seq::empty()
    } else {
        match rows[n - 1] {
            Ok(record) => read_rewards(rows, (n - 1) as nat).push(record),
            Err(_) => read_rewards(rows, (n - 1) as nat),
        }
    }
}

/// `reward` is the reward that the row `record` describes.
pub open spec fn describes_reward(record: RewardRecord, reward: Reward) -> bool {
    &&& reward.name == record.item
    &&& reward.cost == record.cost
    &&& reward.stock == record.stock
    &&& reward.trade_limit == record.trade_limit
}

/// Reads the rows of the table of rewards: a row is kept where it was read,
/// and left out with a report otherwise.
pub fn plan_rewards(rows: &Vec<Result<RewardRecord, String>>) -> (plan: RewardPlan)
    ensures
        plan.rewards@.len() == read_rewards(rows@, rows@.len()).len(),
        forall|k: int|
            0 <= k < plan.rewards@.len() ==> describes_reward(
                read_rewards(rows@, rows@.len())[k],
                #[trigger] plan.rewards@[k],
            ),
        texts_of(plan.errors@) == unread_rewards(rows@, rows@.len()),
{
    let mut rewards: Vec<Reward> = Vec::new();
    let mut errors: Vec<String> = Vec::new();
    let mut place: usize = 0;
    assert(texts_of(errors@) =~= unread_rewards(rows@, 0));
    while place < rows.len()
        invariant
            place <= rows@.len(),
            rewards@.len() == read_rewards(rows@, place as nat).len(),
            forall|k: int|
                0 <= k < rewards@.len() ==> describes_reward(
                    read_rewards(rows@, place as nat)[k],
                    #[trigger] rewards@[k],
                ),
            texts_of(errors@) == unread_rewards(rows@, place as nat),
        decreases rows@.len() - place,
    {
        let ghost reports = texts_of(errors@);
        match &rows[place] {
            Ok(record) => {
                rewards.push(record.to_reward());
            },
            Err(error) => {
                let reason = unread_row(error.as_str());
                errors.push(row_error(place, reason.as_str()));
                assert(texts_of(errors@) =~= reports.push(
                    row_error_text(place as nat, unread_row_text(error@)),
                ));
            },
        }
        place = place + 1;
    }
    RewardPlan { rewards, errors }
}

} // verus!
