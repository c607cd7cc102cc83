use backend::entities::StoreError;
use backend::handlers::leaderboard::{
    default_limit, get_user_leaderboard, is_in_top, leaderboard_response, page_size,
    surrounding_page, top_size, user_leaderboard, LeaderboardResponse,
};
use backend::services::leaderboard::{
    population_of, LeaderboardEntry, LeaderboardService, UserStats, UserSums,
};

fn user(id: &str, name: &str, earned: i64, spent: i64, completed: i64) -> UserStats {
    UserStats {
        user_id: id.to_string(),
        name: name.to_string(),
        dorm: None,
        coins_earned: earned,
        coins_spent: spent,
        challenges_completed: completed,
    }
}

fn row(rank: i64, id: &str, name: &str, earned: i64, spent: i64, completed: i64) -> LeaderboardEntry {
    LeaderboardEntry {
        rank,
        user_id: id.to_string(),
        name: name.to_string(),
        dorm: None,
        coins_earned: earned,
        coins_spent: spent,
        challenges_completed: completed,
    }
}

fn three_users() -> LeaderboardService {
    LeaderboardService::new(vec![
        user("a", "A", 100, 0, 1),
        user("b", "B", 100, 0, 2),
        user("c", "C", 50, 0, 5),
    ])
}

fn seven_users() -> LeaderboardService {
    LeaderboardService::new(vec![
        user("u1", "Uma", 10, 0, 1),
        user("u2", "Bo", 70, 10, 3),
        user("u3", "Al", 60, 0, 3),
        user("u4", "Zed", 300, 100, 9),
        user("u5", "Kim", 0, 0, 0),
        user("u6", "Ann", 60, 0, 3),
        user("u7", "Cy", 500, 499, 50),
    ])
}

fn ids(rows: &[LeaderboardEntry]) -> Vec<String> {
    rows.iter().map(|r| r.user_id.clone()).collect()
}

#[test]
fn three_users_rank_by_net_then_completions() {
    let service = three_users();
    let all = service.get_leaderboard_page(10, None).unwrap();
    assert_eq!(
        all,
        vec![
            row(1, "b", "B", 100, 0, 2),
            row(2, "a", "A", 100, 0, 1),
            row(3, "c", "C", 50, 0, 5),
        ]
    );
}

#[test]
fn first_page_of_two_has_a_next_page() {
    let service = three_users();
    let fetched = service.get_leaderboard_page(3, None).unwrap();
    let response = leaderboard_response(2, fetched);
    assert_eq!(
        response,
        LeaderboardResponse {
            entries: vec![row(1, "b", "B", 100, 0, 2), row(2, "a", "A", 100, 0, 1)],
            has_next: true,
            next_cursor: Some(2),
        }
    );
}

#[test]
fn second_page_after_rank_two_is_the_last() {
    let service = three_users();
    let fetched = service.get_leaderboard_page(3, Some(2)).unwrap();
    let response = leaderboard_response(2, fetched);
    assert_eq!(
        response,
        LeaderboardResponse {
            entries: vec![row(3, "c", "C", 50, 0, 5)],
            has_next: false,
            next_cursor: None,
        }
    );
}

#[test]
fn positions_match_the_page_ranks() {
    let service = three_users();
    assert_eq!(service.get_user_leaderboard_position("b"), Ok(1));
    assert_eq!(service.get_user_leaderboard_position("a"), Ok(2));
    assert_eq!(service.get_user_leaderboard_position("c"), Ok(3));
}

#[test]
fn position_of_an_unknown_user_fails_as_not_found() {
    let service = three_users();
    assert_eq!(
        service.get_user_leaderboard_position("nobody"),
        Err(StoreError::RecordNotFound("User not found".to_string()))
    );
}

#[test]
fn position_in_an_empty_population_fails_as_not_found() {
    let service = LeaderboardService::new(Vec::new());
    assert_eq!(service.population_len(), 0);
    assert_eq!(service.get_leaderboard_page(5, None), Ok(Vec::new()));
    assert!(matches!(
        service.get_user_leaderboard_position("a"),
        Err(StoreError::RecordNotFound(_))
    ));
}

#[test]
fn net_coins_decide_before_earned_coins() {
    let service = seven_users();
    let all = service.get_leaderboard_page(100, None).unwrap();
    // net: u4 200, u2 60, u3 60, u6 60, u1 10, u7 1, u5 0
    assert_eq!(ids(&all), vec!["u4", "u3", "u6", "u2", "u1", "u7", "u5"]);
    let ranks: Vec<i64> = all.iter().map(|r| r.rank).collect();
    assert_eq!(ranks, vec![1, 2, 3, 4, 5, 6, 7]);
}

#[test]
fn equal_net_and_completions_rank_by_name_ascending() {
    let service = LeaderboardService::new(vec![
        user("1", "bob", 10, 0, 1),
        user("2", "Bob", 10, 0, 1),
        user("3", "alice", 10, 0, 1),
        user("4", "Zoe", 10, 0, 1),
    ]);
    let all = service.get_leaderboard_page(10, None).unwrap();
    // case-sensitive: capitals come before small letters
    assert_eq!(ids(&all), vec!["2", "4", "3", "1"]);
}

#[test]
fn a_name_comes_before_the_names_that_it_starts() {
    let service = LeaderboardService::new(vec![
        user("1", "Anna", 0, 0, 0),
        user("2", "Ann", 0, 0, 0),
        user("3", "", 0, 0, 0),
    ]);
    let all = service.get_leaderboard_page(10, None).unwrap();
    assert_eq!(ids(&all), vec!["3", "2", "1"]);
}

#[test]
fn users_equal_in_all_keys_keep_the_order_of_the_snapshot() {
    let service = LeaderboardService::new(vec![
        user("x", "Same", 5, 0, 1),
        user("y", "Same", 5, 0, 1),
        user("z", "Same", 5, 0, 1),
    ]);
    let all = service.get_leaderboard_page(10, None).unwrap();
    assert_eq!(ids(&all), vec!["x", "y", "z"]);
    assert_eq!(service.get_user_leaderboard_position("x"), Ok(1));
    assert_eq!(service.get_user_leaderboard_position("y"), Ok(2));
    assert_eq!(service.get_user_leaderboard_position("z"), Ok(3));
}

#[test]
fn a_user_without_activity_is_ranked_last_among_equals() {
    let service = LeaderboardService::new(vec![
        user("idle", "Idle", 0, 0, 0),
        user("busy", "Busy", 20, 20, 2),
        user("rich", "Rich", 1, 0, 1),
    ]);
    let all = service.get_leaderboard_page(10, None).unwrap();
    assert_eq!(ids(&all), vec!["rich", "busy", "idle"]);
    assert_eq!(all[2], row(3, "idle", "Idle", 0, 0, 0));
}

#[test]
fn negative_net_coins_rank_below_zero() {
    let service = LeaderboardService::new(vec![
        user("debt", "Debt", 0, 10, 9),
        user("zero", "Zero", 0, 0, 0),
    ]);
    let all = service.get_leaderboard_page(10, None).unwrap();
    assert_eq!(ids(&all), vec!["zero", "debt"]);
}

#[test]
fn extreme_coin_values_do_not_overflow() {
    let service = LeaderboardService::new(vec![
        user("low", "Low", i64::MIN, i64::MAX, 0),
        user("high", "High", i64::MAX, i64::MIN, 0),
        user("mid", "Mid", 0, 0, 0),
    ]);
    let all = service.get_leaderboard_page(10, None).unwrap();
    assert_eq!(ids(&all), vec!["high", "mid", "low"]);
}

#[test]
fn the_same_query_gives_the_same_rows() {
    let service = seven_users();
    let first = service.get_leaderboard_page(4, Some(2)).unwrap();
    let second = service.get_leaderboard_page(4, Some(2)).unwrap();
    assert_eq!(first, second);
    assert_eq!(ids(&first), vec!["u6", "u2", "u1", "u7"]);
    assert_eq!(first[0].rank, 3);
}

#[test]
fn no_two_users_share_a_rank() {
    let service = seven_users();
    let mut ranks = Vec::new();
    for id in ["u1", "u2", "u3", "u4", "u5", "u6", "u7"] {
        ranks.push(service.get_user_leaderboard_position(id).unwrap());
    }
    ranks.sort();
    assert_eq!(ranks, vec![1, 2, 3, 4, 5, 6, 7]);
}

#[test]
fn successive_pages_list_every_user_once() {
    let service = seven_users();
    let limit = 3;
    let mut seen = Vec::new();
    let mut cursor = None;
    loop {
        let page = service.get_leaderboard_page(limit, cursor).unwrap();
        let short = (page.len() as u64) < limit;
        if let Some(last) = page.last() {
            cursor = Some(last.rank);
        }
        seen.extend(page);
        if short {
            break;
        }
    }
    assert_eq!(seen, service.get_leaderboard_page(100, None).unwrap());
    assert_eq!(ids(&seen), vec!["u4", "u3", "u6", "u2", "u1", "u7", "u5"]);
}

#[test]
fn successive_pages_end_with_an_empty_page_when_the_limit_divides() {
    let service = three_users();
    let first = service.get_leaderboard_page(3, None).unwrap();
    assert_eq!(first.len(), 3);
    let second = service.get_leaderboard_page(3, Some(first[2].rank)).unwrap();
    assert_eq!(second, Vec::new());
}

#[test]
fn a_cursor_of_zero_or_less_starts_at_rank_one() {
    let service = three_users();
    let from_start = service.get_leaderboard_page(2, None).unwrap();
    assert_eq!(service.get_leaderboard_page(2, Some(0)).unwrap(), from_start);
    assert_eq!(service.get_leaderboard_page(2, Some(-7)).unwrap(), from_start);
    assert_eq!(service.get_leaderboard_page(2, Some(i64::MIN)).unwrap(), from_start);
}

#[test]
fn a_cursor_at_or_past_the_last_rank_gives_no_rows() {
    let service = three_users();
    assert_eq!(service.get_leaderboard_page(2, Some(3)).unwrap(), Vec::new());
    assert_eq!(service.get_leaderboard_page(2, Some(i64::MAX)).unwrap(), Vec::new());
}

#[test]
fn a_limit_of_zero_gives_no_rows() {
    let service = three_users();
    assert_eq!(service.get_leaderboard_page(0, None).unwrap(), Vec::new());
    assert_eq!(service.get_leaderboard_page(u64::MAX, None).unwrap().len(), 3);
}

#[test]
fn rows_carry_the_dorm_of_the_user() {
    let mut with_dorm = user("d", "Dee", 1, 0, 1);
    with_dorm.dorm = Some("Mudge".to_string());
    let service = LeaderboardService::new(vec![with_dorm]);
    let all = service.get_leaderboard_page(1, None).unwrap();
    assert_eq!(all[0].dorm, Some("Mudge".to_string()));
}

#[test]
fn a_large_population_is_ranked_in_order() {
    let mut population = Vec::new();
    for i in 0..2000i64 {
        population.push(user(&format!("u{i}"), &format!("n{}", i % 7), (i * 37) % 1000, 0, i % 5));
    }
    let service = LeaderboardService::new(population);
    let all = service.get_leaderboard_page(5000, None).unwrap();
    assert_eq!(all.len(), 2000);
    for (k, pair) in all.windows(2).enumerate() {
        let (a, b) = (&pair[0], &pair[1]);
        assert_eq!(a.rank, k as i64 + 1);
        let key_a = (-(a.coins_earned - a.coins_spent), -a.challenges_completed, a.name.clone());
        let key_b = (-(b.coins_earned - b.coins_spent), -b.challenges_completed, b.name.clone());
        assert!(key_a <= key_b);
    }
    let position = service.get_user_leaderboard_position(&all[1234].user_id).unwrap();
    assert_eq!(position, 1235);
}

#[test]
fn page_size_is_capped_at_one_hundred() {
    assert_eq!(default_limit(), 20);
    assert_eq!(page_size(0), 0);
    assert_eq!(page_size(20), 20);
    assert_eq!(page_size(100), 100);
    assert_eq!(page_size(101), 100);
    assert_eq!(page_size(u64::MAX), 100);
}

#[test]
fn a_page_of_limit_zero_has_a_next_page_and_no_cursor() {
    let service = three_users();
    let fetched = service.get_leaderboard_page(1, None).unwrap();
    let response = leaderboard_response(0, fetched);
    assert_eq!(
        response,
        LeaderboardResponse { entries: Vec::new(), has_next: true, next_cursor: None }
    );
}

#[test]
fn a_page_of_exactly_the_limit_has_no_next_page() {
    let service = three_users();
    let fetched = service.get_leaderboard_page(4, None).unwrap();
    let response = leaderboard_response(3, fetched);
    assert_eq!(response.entries.len(), 3);
    assert!(!response.has_next);
    assert_eq!(response.next_cursor, None);
}

#[test]
fn the_view_of_a_user_in_the_top_is_the_top() {
    assert_eq!(top_size(), 10);
    assert!(is_in_top(9));
    assert!(!is_in_top(10));
    assert_eq!(surrounding_page(10), (3, Some(9)));
    assert_eq!(surrounding_page(57), (3, Some(56)));
}

#[test]
fn the_view_of_a_user_below_the_top_ends_with_their_row() {
    let top = vec![row(1, "a", "A", 9, 0, 1), row(2, "b", "B", 8, 0, 1)];
    let surrounding = vec![
        row(12, "me", "Me", 1, 0, 1),
        row(13, "x", "X", 0, 0, 1),
        row(14, "y", "Y", 0, 0, 0),
    ];
    let view = get_user_leaderboard(top.clone(), &surrounding, "me");
    assert_eq!(ids(&view), vec!["a", "b", "me"]);
    assert_eq!(view[2].rank, 12);
    let unchanged = get_user_leaderboard(top.clone(), &surrounding, "nobody");
    assert_eq!(unchanged, top);
}

#[test]
fn the_view_does_not_repeat_a_user_at_the_edge_of_the_top() {
    let top = vec![row(9, "a", "A", 9, 0, 1), row(10, "me", "Me", 8, 0, 1)];
    let surrounding = vec![row(10, "me", "Me", 8, 0, 1), row(11, "x", "X", 0, 0, 1)];
    let view = get_user_leaderboard(top, &surrounding, "me");
    assert_eq!(ids(&view), vec!["a", "me"]);
}

#[test]
fn the_view_puts_the_row_of_the_user_in_by_rank() {
    let top = vec![row(1, "a", "A", 9, 0, 1), row(5, "b", "B", 8, 0, 1), row(5, "c", "C", 8, 0, 1)];
    let surrounding = vec![row(3, "me", "Me", 8, 0, 1)];
    let view = get_user_leaderboard(top, &surrounding, "me");
    assert_eq!(ids(&view), vec!["a", "me", "b", "c"]);
}

#[test]
fn a_user_for_whom_nothing_was_added_up_takes_part_with_zeros() {
    let population = population_of(vec![
        UserSums {
            user_id: "new".to_string(),
            name: "New".to_string(),
            dorm: Some("Donner".to_string()),
            total_earned: None,
            total_spent: None,
            challenge_count: None,
        },
        UserSums {
            user_id: "old".to_string(),
            name: "Old".to_string(),
            dorm: None,
            total_earned: Some(300),
            total_spent: Some(120),
            challenge_count: Some(3),
        },
        UserSums {
            user_id: "half".to_string(),
            name: "Half".to_string(),
            dorm: None,
            total_earned: Some(100),
            total_spent: None,
            challenge_count: Some(1),
        },
    ]);
    let mut expected_new = user("new", "New", 0, 0, 0);
    expected_new.dorm = Some("Donner".to_string());
    assert_eq!(
        population,
        vec![expected_new, user("old", "Old", 300, 120, 3), user("half", "Half", 100, 0, 1)]
    );
    let service = LeaderboardService::try_new(population).unwrap();
    assert_eq!(service.population_len(), 3);
    let all = service.get_leaderboard_page(10, None).unwrap();
    assert_eq!(ids(&all), vec!["old", "half", "new"]);
    assert_eq!(all[2].rank, 3);
    assert_eq!(all[2].dorm, Some("Donner".to_string()));
}

fn fifteen_users() -> LeaderboardService {
    let mut users = Vec::new();
    for i in 1..=15i64 {
        users.push(user(&format!("u{i}"), &format!("U{i:02}"), 1000 - 10 * i, 0, 1));
    }
    LeaderboardService::new(users)
}

#[test]
fn a_user_in_the_top_sees_the_top() {
    let mut service = fifteen_users();
    let view = user_leaderboard(&mut service, "u3").unwrap();
    assert_eq!(view.len(), 10);
    assert_eq!(view.iter().map(|e| e.rank).collect::<Vec<_>>(), (1..=10).collect::<Vec<_>>());
    assert_eq!(view[2].user_id, "u3");
    let ninth = user_leaderboard(&mut service, "u9").unwrap();
    assert_eq!(ninth, view);
}

#[test]
fn a_user_below_the_top_sees_the_top_and_their_own_row() {
    let mut service = fifteen_users();
    let view = user_leaderboard(&mut service, "u12").unwrap();
    assert_eq!(view.len(), 11);
    assert_eq!(
        view.iter().map(|e| e.rank).collect::<Vec<_>>(),
        vec![1, 2, 3, 4, 5, 6, 7, 8, 9, 10, 12]
    );
    assert_eq!(view[10], row(12, "u12", "U12", 880, 0, 1));
    let tenth = user_leaderboard(&mut service, "u10").unwrap();
    assert_eq!(tenth.len(), 10);
    assert_eq!(tenth[9].user_id, "u10");
}

#[test]
fn the_view_of_an_unknown_user_is_the_failure_of_the_position() {
    let mut service = fifteen_users();
    assert_eq!(
        user_leaderboard(&mut service, "nobody"),
        Err(StoreError::RecordNotFound("User not found".to_string()))
    );
}
