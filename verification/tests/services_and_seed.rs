use backend::entities::{
    Challenge, Completion, Reward, StoreError, TextMap, Timestamp, Transaction,
};
use backend::export::{export_text, qr_challenges, QrChallenge};
use backend::seed::{
    char_is_white_space, clean_cell, may_insert, plan_challenges, plan_rewards, row_error, trim_text, unread_row,
    ChallengeRecord, RewardRecord,
};
use backend::services::completion::{
    completion_exists, create_completion, get_user_completion_map,
    get_user_completion_with_challenge, get_user_completions_with_challenges,
    update_completion_note, update_completion_photo,
};
use backend::services::reward::{decrement_stock, increment_stock, with_stock, StockChange};
use backend::services::storage::{
    decode_image, default_expiry, expiry, journal_expiry, object_link, object_name, read_link,
    upload_target, S3Link,
};
use backend::services::transaction::{
    check_transaction_id, create_transaction, delete_transaction, get_ccup_total_purchased,
    get_user_total_counts, new_status, new_transaction, total_coins,
};
use backend::sorting::places_ascending;
use backend::text::{
    bytes_contain, order_bytes, order_text, push_decimal, push_signed_decimal, same_text,
    text_contains, Order,
};

fn at(seconds: i64) -> Timestamp {
    Timestamp { seconds, nanos: 0 }
}

fn record(name: &str, unlock_date: &str) -> ChallengeRecord {
    ChallengeRecord {
        category: "Campus".to_string(),
        location: "The Fence".to_string(),
        maps_link: "  https://maps.example/fence \n".to_string(),
        challenge_name: name.to_string(),
        tagline: "Paint it".to_string(),
        description: "Find the fence".to_string(),
        more_info_link: " \t ".to_string(),
        unlock_date: unlock_date.to_string(),
        verification_string: "fence-secret".to_string(),
    }
}

#[test]
fn texts_are_ordered_byte_by_byte() {
    assert_eq!(order_text("abc", "abd"), Order::Before);
    assert_eq!(order_text("abd", "abc"), Order::After);
    assert_eq!(order_text("abc", "abc"), Order::Same);
    assert_eq!(order_text("ab", "abc"), Order::Before);
    assert_eq!(order_text("abc", "ab"), Order::After);
    assert_eq!(order_text("", ""), Order::Same);
    assert_eq!(order_text("", "a"), Order::Before);
    assert_eq!(order_text("Z", "a"), Order::Before);
    assert_eq!(order_text("z", "é"), Order::Before);
    assert_eq!(order_text("é", "z"), Order::After);
    assert_eq!(order_bytes(&[1, 2, 255], &[1, 3]), Order::Before);
    assert!(same_text("héllo", "héllo"));
    assert!(!same_text("hello", "héllo"));
    assert!(!same_text("a", "A"));
}

#[test]
fn texts_agree_with_the_order_of_the_standard_library() {
    let words = ["", "a", "A", "ab", "aB", "b", "é", "z", "zz", "日本", "日", "~", " "];
    for a in words {
        for b in words {
            let expected = match a.cmp(b) {
                std::cmp::Ordering::Less => Order::Before,
                std::cmp::Ordering::Equal => Order::Same,
                std::cmp::Ordering::Greater => Order::After,
            };
            assert_eq!(order_text(a, b), expected, "{a:?} against {b:?}");
            assert_eq!(same_text(a, b), a == b);
            assert_eq!(text_contains(a, b), a.contains(b), "{a:?} holds {b:?}");
        }
    }
}

#[test]
fn numbers_are_written_in_decimal() {
    let cases: [(u64, &str); 7] = [
        (0, "0"),
        (7, "7"),
        (10, "10"),
        (99, "99"),
        (100, "100"),
        (1234567890, "1234567890"),
        (u64::MAX, "18446744073709551615"),
    ];
    for (n, text) in cases {
        let mut s = String::from("n=");
        push_decimal(&mut s, n);
        assert_eq!(s, format!("n={text}"));
    }
    let signed: [(i64, &str); 6] = [
        (0, "0"),
        (-1, "-1"),
        (42, "42"),
        (-1000, "-1000"),
        (i64::MAX, "9223372036854775807"),
        (i64::MIN, "-9223372036854775808"),
    ];
    for (n, text) in signed {
        let mut s = String::new();
        push_signed_decimal(&mut s, n);
        assert_eq!(s, text);
    }
}

#[test]
fn a_text_holds_its_parts() {
    assert!(text_contains("hello world", "lo w"));
    assert!(text_contains("hello", ""));
    assert!(text_contains("", ""));
    assert!(!text_contains("", "a"));
    assert!(!text_contains("hello", "hello!"));
    assert!(!text_contains("hello", "world"));
    assert!(text_contains("aaab", "aab"));
    assert!(bytes_contain(&[1, 2, 3, 4], &[3, 4]));
    assert!(!bytes_contain(&[1, 2, 3, 4], &[4, 3]));
}

#[test]
fn places_are_put_in_ascending_order_of_their_numbers() {
    assert_eq!(places_ascending(&vec![30, 10, 20]), vec![1, 2, 0]);
    assert_eq!(places_ascending(&vec![5, 5, 1, 5]), vec![2, 0, 1, 3]);
    assert_eq!(places_ascending(&Vec::new()), Vec::<usize>::new());
    assert_eq!(places_ascending(&vec![i128::MAX, i128::MIN, 0]), vec![1, 2, 0]);
    let keys: Vec<i128> = (0..200).map(|i| ((i * 7919) % 101) as i128).collect();
    let order = places_ascending(&keys);
    let mut expected: Vec<usize> = (0..200).collect();
    expected.sort_by_key(|&i| keys[i]);
    assert_eq!(order, expected);
}

#[test]
fn a_text_map_keeps_one_value_for_each_key() {
    let mut map: TextMap<i32> = TextMap::new();
    assert_eq!(map.len(), 0);
    assert_eq!(map.get("a"), None);
    assert!(!map.contains_key("a"));
    map.insert("a".to_string(), 1);
    map.insert("b".to_string(), 2);
    map.insert("a".to_string(), 3);
    assert_eq!(map.len(), 2);
    assert_eq!(map.get("a"), Some(3));
    assert_eq!(map.get("b"), Some(2));
    assert!(map.contains_key("b"));
    assert!(!map.contains_key("B"));
    assert_eq!(map.key_at(0), "a");
    assert_eq!(map.key_at(1), "b");
    assert_eq!(map.value_at(0), 3);
    assert_eq!(map.value_at(1), 2);
    let copy = map.clone();
    assert_eq!(copy, map);
    assert_eq!(copy.get("a"), Some(3));
}

#[test]
fn records_are_copied_as_they_are() {
    let first = Challenge {
        name: "Fence".to_string(),
        category: "Campus".to_string(),
        location: "Cut".to_string(),
        scotty_coins: 3,
        maps_link: Some("m".to_string()),
        tagline: "t".to_string(),
        description: "d".to_string(),
        more_info_link: None,
        unlock_timestamp: Timestamp { seconds: -4, nanos: 17 },
        secret: "s".to_string(),
        latitude_bits: Some(u64::MAX),
        longitude_bits: None,
        location_accuracy: None,
    };
    assert_eq!(first.clone(), first);
    let error = StoreError::Custom("no".to_string());
    assert_eq!(error.clone(), error);
    assert_ne!(error, StoreError::Backend("no".to_string()));
    assert!(at(5).is_at_or_before(&at(5)));
    assert!(at(4).is_at_or_before(&at(5)));
    assert!(!at(6).is_at_or_before(&at(5)));
    assert!(Timestamp { seconds: 5, nanos: 1 }.is_at_or_before(&Timestamp { seconds: 5, nanos: 2 }));
    assert!(!Timestamp { seconds: 5, nanos: 3 }.is_at_or_before(&Timestamp { seconds: 5, nanos: 2 }));
}

#[test]
fn white_space_around_a_cell_is_dropped() {
    assert_eq!(trim_text("  a b  "), "a b");
    assert_eq!(trim_text("\t\n x\r\n"), "x");
    assert_eq!(trim_text("x"), "x");
    assert_eq!(trim_text(""), "");
    assert_eq!(trim_text(" \u{a0}\u{2003}é \u{3000}"), "é");
    assert_eq!(trim_text("\u{200b}x"), "\u{200b}x");
    for text in ["", " ", "a", " a", "a ", " a b ", "\n\n", "é ", " 日本 語 "] {
        assert_eq!(trim_text(text), text.trim());
    }
    assert_eq!(clean_cell("   "), None);
    assert_eq!(clean_cell(""), None);
    assert_eq!(clean_cell(" link "), Some("link".to_string()));
}

#[test]
fn links_of_a_row_are_cleaned() {
    let row = record("Fence", "08/17/2025 6:00 PM");
    assert_eq!(row.clean_maps_link(), Some("https://maps.example/fence".to_string()));
    assert_eq!(row.clean_more_info_link(), None);
}

#[test]
fn unlock_dates_are_read_by_the_twelve_hour_clock() {
    assert_eq!(record("a", "08/17/2025 6:00 PM").parse_unlock_timestamp(), Ok(at(1_755_453_600)));
    assert_eq!(record("a", "01/02/2025 12:30 AM").parse_unlock_timestamp(), Ok(at(1_735_777_800)));
    let bad = record("a", "2025-08-17 18:00").parse_unlock_timestamp().unwrap_err();
    assert!(bad.starts_with("Failed to parse date '2025-08-17 18:00': "), "{bad}");
    assert!(bad.len() > "Failed to parse date '2025-08-17 18:00': ".len());
    assert!(record("a", "13/01/2025 1:00 PM").parse_unlock_timestamp().is_err());
    assert!(record("a", "").parse_unlock_timestamp().is_err());
}

#[test]
fn a_row_becomes_a_challenge_worth_a_hundred_coins() {
    let made = record("Fence", "08/17/2025 6:00 PM").to_challenge(at(1_755_453_600));
    assert_eq!(
        made,
        Challenge {
            name: "Fence".to_string(),
            category: "Campus".to_string(),
            location: "The Fence".to_string(),
            scotty_coins: 100,
            maps_link: Some("https://maps.example/fence".to_string()),
            tagline: "Paint it".to_string(),
            description: "Find the fence".to_string(),
            more_info_link: None,
            unlock_timestamp: at(1_755_453_600),
            secret: "fence-secret".to_string(),
            latitude_bits: None,
            longitude_bits: None,
            location_accuracy: None,
        }
    );
}

#[test]
fn rows_that_do_not_parse_are_left_out_with_their_line() {
    let rows = vec![
        Ok(record("First", "08/17/2025 6:00 PM")),
        Ok(record("Bad", "soon")),
        Err("missing field".to_string()),
        Ok(record("Last", "01/02/2025 12:30 AM")),
    ];
    let plan = plan_challenges(&rows);
    let names: Vec<&str> = plan.challenges.iter().map(|c| c.name.as_str()).collect();
    assert_eq!(names, vec!["First", "Last"]);
    assert_eq!(plan.challenges[0].unlock_timestamp, at(1_755_453_600));
    assert_eq!(plan.challenges[1].unlock_timestamp, at(1_735_777_800));
    assert_eq!(plan.errors.len(), 2);
    assert!(plan.errors[0].starts_with("Line 3: Failed to parse date 'soon': "), "{}", plan.errors[0]);
    assert_eq!(plan.errors[1], "Line 4: Failed to parse CSV record: missing field");
    assert!(may_insert(plan.challenges.len(), plan.errors.len()));
}

#[test]
fn seeding_stops_when_no_row_is_left() {
    assert!(may_insert(0, 0));
    assert!(may_insert(3, 0));
    assert!(may_insert(3, 2));
    assert!(!may_insert(0, 2));
    assert_eq!(row_error(0, "broken"), "Line 2: broken");
    assert_eq!(row_error(41, "broken"), "Line 43: broken");
    assert_eq!(unread_row("eof"), "Failed to parse CSV record: eof");
    let none = plan_challenges(&vec![Err("x".to_string())]);
    assert!(none.challenges.is_empty());
    assert!(!may_insert(none.challenges.len(), none.errors.len()));
}

#[test]
fn reward_rows_become_rewards() {
    let rows = vec![
        Ok(RewardRecord { item: "Sticker".to_string(), cost: 5, trade_limit: 2, stock: 7 }),
        Err("bad number".to_string()),
        Ok(RewardRecord { item: "Mug".to_string(), cost: 50, trade_limit: -1, stock: -1 }),
    ];
    let plan = plan_rewards(&rows);
    assert_eq!(
        plan.rewards,
        vec![
            Reward { name: "Sticker".to_string(), cost: 5, stock: 7, trade_limit: 2 },
            Reward { name: "Mug".to_string(), cost: 50, stock: -1, trade_limit: -1 },
        ]
    );
    assert_eq!(plan.errors, vec!["Line 3: Failed to parse CSV record: bad number".to_string()]);
}

#[test]
fn stock_goes_down_and_not_below_zero() {
    let sticker = Reward { name: "Sticker".to_string(), cost: 5, stock: 4, trade_limit: 2 };
    assert_eq!(decrement_stock(&sticker, 3), Ok(StockChange::Become(1)));
    assert_eq!(decrement_stock(&sticker, 4), Ok(StockChange::Become(0)));
    assert_eq!(
        decrement_stock(&sticker, 5),
        Err(StoreError::Custom("Insufficient stock for transaction".to_string()))
    );
    let untracked = Reward { name: "Mug".to_string(), cost: 5, stock: -1, trade_limit: 2 };
    assert_eq!(decrement_stock(&untracked, 1000), Ok(StockChange::Keep));
    assert_eq!(increment_stock(&sticker, 3), StockChange::Become(7));
    assert_eq!(increment_stock(&untracked, 3), StockChange::Keep);
    assert_eq!(with_stock(sticker.clone(), StockChange::Become(9)).stock, 9);
    assert_eq!(with_stock(sticker.clone(), StockChange::Keep), sticker);
}

fn transaction(reward: &str, count: i32) -> Transaction {
    Transaction {
        id: "i".to_string(),
        user_id: "u".to_string(),
        reward_name: reward.to_string(),
        timestamp: at(0),
        status: "pending".to_string(),
        count,
    }
}

#[test]
fn purchases_are_added_up_for_each_reward() {
    let totals = get_user_total_counts(&vec![
        transaction("Sticker", 2),
        transaction("Mug", 1),
        transaction("Sticker", 3),
        transaction("Pin", i32::MAX),
        transaction("Pin", i32::MAX),
    ]);
    assert_eq!(totals.len(), 3);
    assert_eq!(totals.get("Sticker"), Some(5));
    assert_eq!(totals.get("Mug"), Some(1));
    assert_eq!(totals.get("Pin"), Some(2 * (i32::MAX as i128)));
    assert_eq!(totals.get("Nothing"), None);
    assert_eq!(get_user_total_counts(&Vec::new()).len(), 0);
    assert_eq!(total_coins(&vec![100, 50, -20]), 130);
    assert_eq!(total_coins(&vec![i32::MAX, i32::MAX]), 2 * (i32::MAX as i128));
    assert_eq!(total_coins(&Vec::new()), 0);
    assert_eq!(get_ccup_total_purchased(None), 0);
    assert_eq!(get_ccup_total_purchased(Some(17)), 17);
}

#[test]
fn a_new_purchase_is_pending() {
    assert_eq!(new_status(), "pending");
    let made = create_transaction("id-7".to_string(), "u1", "Sticker", 2, at(9));
    assert_eq!(
        made,
        Transaction {
            id: "id-7".to_string(),
            user_id: "u1".to_string(),
            reward_name: "Sticker".to_string(),
            timestamp: at(9),
            status: "pending".to_string(),
            count: 2,
        }
    );
    let fresh = new_transaction("u1", "Sticker", 2, at(9));
    assert_eq!(fresh.status, "pending");
    assert_eq!(fresh.count, 2);
    assert_eq!(check_transaction_id(&fresh.id), Ok(()));
    let other = new_transaction("u1", "Sticker", 2, at(9));
    assert_ne!(fresh.id, other.id);
    assert!(delete_transaction(1));
    assert!(!delete_transaction(0));
}

#[test]
fn only_the_text_of_a_uuid_is_an_id_of_a_purchase() {
    assert_eq!(check_transaction_id("550e8400-e29b-41d4-a716-446655440000"), Ok(()));
    assert_eq!(check_transaction_id("550e8400e29b41d4a716446655440000"), Ok(()));
    for bad in ["", "u1", "550e8400-e29b-41d4-a716-44665544000", "not-a-uuid-at-all-not-a-uuid-at-all-"] {
        assert_eq!(check_transaction_id(bad), Err(StoreError::Custom("Invalid UUID".to_string())));
    }
}

fn completion(name: &str, time: i64) -> Completion {
    Completion {
        user_id: "u1".to_string(),
        challenge_name: name.to_string(),
        timestamp: at(time),
        s3_link: None,
        note: None,
    }
}

fn challenge(name: &str) -> Challenge {
    record(name, "").to_challenge(at(0))
}

#[test]
fn completions_become_a_map_by_challenge() {
    let map = get_user_completion_map(&vec![completion("a", 1), completion("b", 2), completion("a", 3)]);
    assert_eq!(map.len(), 2);
    assert_eq!(map.get("a"), Some(at(3)));
    assert_eq!(map.get("b"), Some(at(2)));
    assert!(completion_exists(&Some(completion("a", 1))));
    assert!(!completion_exists(&None));
}

#[test]
fn completions_without_their_challenge_are_left_out() {
    let rows = vec![
        (completion("a", 1), Some(challenge("a"))),
        (completion("gone", 2), None),
        (completion("b", 3), Some(challenge("b"))),
    ];
    let records = get_user_completions_with_challenges(&rows);
    let names: Vec<&str> = records.iter().map(|r| r.challenge.name.as_str()).collect();
    assert_eq!(names, vec!["a", "b"]);
    assert_eq!(records[1].completion, completion("b", 3));
    assert_eq!(get_user_completion_with_challenge(None), None);
    assert_eq!(get_user_completion_with_challenge(Some((completion("gone", 2), None))), None);
    let found = get_user_completion_with_challenge(Some((completion("a", 1), Some(challenge("a")))));
    assert_eq!(found.unwrap().completion, completion("a", 1));
}

#[test]
fn a_completion_is_made_and_changed() {
    let made = create_completion("u1", "Fence", Some("s3://b/k".to_string()), None, at(4));
    assert_eq!(made.user_id, "u1");
    assert_eq!(made.challenge_name, "Fence");
    assert_eq!(made.timestamp, at(4));
    assert_eq!(made.s3_link, Some("s3://b/k".to_string()));
    let noted = update_completion_note(made.clone(), Some("fun".to_string()));
    assert_eq!(noted.note, Some("fun".to_string()));
    assert_eq!(noted.s3_link, made.s3_link);
    let bare = update_completion_photo(noted.clone(), None);
    assert_eq!(bare.s3_link, None);
    assert_eq!(bare.note, Some("fun".to_string()));
}

#[test]
fn photos_are_named_by_user_and_challenge() {
    assert_eq!(object_name("u1", "Fence", "f00d"), "completions/u1/Fence/f00d.jpg");
    assert_eq!(object_link("photos", "completions/u1/Fence/f00d.jpg"), "s3://photos/completions/u1/Fence/f00d.jpg");
    assert_eq!(
        upload_target("photos", "u1", "The Fence", "f00d"),
        (
            "completions/u1/The Fence/f00d.jpg".to_string(),
            "s3://photos/completions/u1/The Fence/f00d.jpg".to_string()
        )
    );
}

#[test]
fn links_are_read_into_bucket_and_key() {
    assert_eq!(
        read_link("s3://photos/completions/u1/Fence/f00d.jpg"),
        S3Link::Object {
            bucket: "photos".to_string(),
            key: "completions/u1/Fence/f00d.jpg".to_string()
        }
    );
    assert_eq!(read_link("s3://photos/"), S3Link::Object { bucket: "photos".to_string(), key: String::new() });
    assert_eq!(read_link("s3:///k"), S3Link::Object { bucket: String::new(), key: "k".to_string() });
    assert_eq!(read_link("s3://photos"), S3Link::Invalid);
    assert_eq!(read_link("s3://"), S3Link::Invalid);
    assert_eq!(read_link("https://photos/k"), S3Link::Other);
    assert_eq!(read_link("s3:/photos/k"), S3Link::Other);
    assert_eq!(read_link(""), S3Link::Other);
    assert_eq!(read_link("S3://photos/k"), S3Link::Other);
    assert_eq!(
        read_link("s3://büçket/ké/y"),
        S3Link::Object { bucket: "büçket".to_string(), key: "ké/y".to_string() }
    );
}

#[test]
fn links_for_viewing_last_a_day_or_two_hours() {
    assert_eq!(default_expiry(), 86_400);
    assert_eq!(journal_expiry(), 7_200);
    assert_eq!(expiry(None), 86_400);
    assert_eq!(expiry(Some(60)), 60);
}

#[test]
fn an_image_comes_as_base64_and_is_not_empty() {
    assert_eq!(decode_image("aGVsbG8="), Ok(b"hello".to_vec()));
    assert_eq!(decode_image("/9j/4A=="), Ok(vec![0xff, 0xd8, 0xff, 0xe0]));
    assert_eq!(decode_image(""), Err("Image data cannot be empty".to_string()));
    assert_eq!(decode_image("not base64!"), Err("Invalid base64 image data".to_string()));
    assert_eq!(decode_image("aGVsbG8"), Err("Invalid base64 image data".to_string()));
}

#[test]
fn challenges_are_exported_with_their_secrets() {
    let list = qr_challenges(&vec![challenge("Fence")]);
    assert_eq!(
        list,
        vec![QrChallenge {
            name: "Fence".to_string(),
            category: "Campus".to_string(),
            tagline: "Paint it".to_string(),
            secret: "fence-secret".to_string(),
        }]
    );
    assert_eq!(export_text("[{\"name\":\"A\"}]"), Some("W3sibmFtZSI6IkEifV0=".to_string()));
    assert_eq!(export_text("hello world~"), Some("aGVsbG8gd29ybGR+".to_string()));
    assert_eq!(export_text(""), Some(String::new()));
}

#[test]
fn white_space_is_what_the_standard_library_trims() {
    let mut seen = 0;
    for code in 0..=0x10FFFFu32 {
        if let Some(c) = char::from_u32(code) {
            assert_eq!(char_is_white_space(c), c.is_whitespace(), "U+{code:04X}");
            if c.is_whitespace() {
                seen += 1;
                let padded = format!("{c}a{c}b{c}");
                assert_eq!(trim_text(&padded), padded.trim());
            }
        }
    }
    assert_eq!(seen, 25);
}

#[test]
fn text_maps_with_the_same_content_are_equal() {
    let mut forth: TextMap<i32> = TextMap::new();
    let mut back: TextMap<i32> = TextMap::new();
    let names = ["Tartan", "campus", "Campus", "", "zebra", "a", "ab", "\u{e9}t\u{e9}"];
    for (i, name) in names.iter().enumerate() {
        forth.insert(name.to_string(), i as i32);
    }
    for (i, name) in names.iter().enumerate().rev() {
        back.insert(name.to_string(), 100);
        back.insert(name.to_string(), i as i32);
    }
    assert_eq!(forth, back);
    assert_eq!(forth.len(), names.len());
    let mut sorted = names.to_vec();
    sorted.sort();
    for (place, name) in sorted.iter().enumerate() {
        assert_eq!(forth.key_at(place), name);
        assert_eq!(back.key_at(place), name);
    }
    back.insert("a".to_string(), -1);
    assert_ne!(forth, back);
}
