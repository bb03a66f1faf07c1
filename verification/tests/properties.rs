use trade_approval::date::Date;
use trade_approval::error::TradeError;
use trade_approval::history::{HistoryId, Timestamp};
use trade_approval::registry::TradeRegistry;
use trade_approval::trade::{
    Direction, NotionalCurrency, Trade, TradeDetails, TradeId, TradeState, TradeVersion,
};
use trade_approval::user::UserId;

fn day(year: i32, month: u32, day: u32) -> Date {
    Date::from_ymd_opt(year, month, day).unwrap()
}

fn details() -> TradeDetails {
    TradeDetails::new(
        "EntityA".to_string(),
        "CounterpartyB".to_string(),
        Direction::Buy,
        "Forward".to_string(),
        NotionalCurrency::GBP,
        1_000_000,
        "GBPUSD".to_string(),
        day(2025, 1, 1),
        day(2025, 6, 1),
        day(2025, 12, 1),
    )
}

fn requester() -> UserId {
    UserId::new(1)
}

fn approver() -> UserId {
    UserId::new(2)
}

#[test]
fn dates_follow_the_calendar() {
    assert!(Date::from_ymd_opt(2023, 2, 29).is_none());
    assert!(Date::from_ymd_opt(2024, 2, 29).is_some());
    assert!(Date::from_ymd_opt(2025, 13, 1).is_none());
    assert!(Date::from_ymd_opt(2025, 4, 31).is_none());
    assert!(Date::from_ymd_opt(1900, 2, 29).is_none());
    assert!(Date::from_ymd_opt(2000, 2, 29).is_some());
    assert!(Date::from_ymd_opt(262142, 12, 31).is_some());
    assert!(Date::from_ymd_opt(262143, 1, 1).is_none());
    assert!(Date::from_ymd_opt(-262143, 1, 1).is_some());
    assert!(Date::from_ymd_opt(-262144, 12, 31).is_none());
    let d = day(2025, 3, 14);
    assert_eq!((d.year(), d.month(), d.day()), (2025, 3, 14));
}

#[test]
fn dates_are_ordered_by_year_then_month_then_day() {
    assert!(day(2024, 12, 31).on_or_before(&day(2025, 1, 1)));
    assert!(day(2025, 1, 1).on_or_before(&day(2025, 1, 1)));
    assert!(!day(2025, 2, 1).on_or_before(&day(2025, 1, 31)));
    assert!(day(2025, 1, 1).same_day(&day(2025, 1, 1)));
}

#[test]
fn dates_are_shown_as_chrono_shows_them() {
    assert_eq!(day(2025, 1, 1).to_string(), "2025-01-01");
    assert_eq!(day(12345, 6, 7).to_string(), "+12345-06-07");
    assert_eq!(day(-5, 3, 1).to_string(), "-0005-03-01");
    assert_eq!(day(987, 11, 30).to_string(), "0987-11-30");
}

#[test]
fn validation_looks_for_the_currency_code_as_written() {
    let mut d = details();
    d.underlying = "gbpusd".to_string();
    assert_eq!(d.validate(), Err(TradeError::NotValid));
    d.underlying = "USDGBP".to_string();
    assert!(d.validate().is_ok());
    d.notional_currency = NotionalCurrency::EUR;
    assert_eq!(d.validate(), Err(TradeError::NotValid));
}

#[test]
fn timestamps_count_from_the_unix_epoch() {
    let after = Timestamp::from_epoch_offset(true, 5, 250);
    assert_eq!((after.seconds, after.nanoseconds), (5, 250));
    let before = Timestamp::from_epoch_offset(false, 5, 250);
    assert_eq!((before.seconds, before.nanoseconds), (-6, 999_999_750));
    let whole = Timestamp::from_epoch_offset(false, 5, 0);
    assert_eq!((whole.seconds, whole.nanoseconds), (-5, 0));
    let now = Timestamp::now();
    assert!(now.seconds > 1_600_000_000);
    assert!(now.nanoseconds < 1_000_000_000);
}

#[test]
fn history_entries_are_stamped_with_the_clock() {
    let mut r = TradeRegistry::new();
    let id = r.create_trade(requester(), details()).unwrap();
    let start = Timestamp::now();
    r.submit(id, requester(), String::new()).unwrap();
    let stamp = r.get_history(id).unwrap()[0].timestamp;
    assert!((stamp.seconds, stamp.nanoseconds) >= (start.seconds, start.nanoseconds));
}

#[test]
fn validation_accepts_equal_dates() {
    let mut d = details();
    d.value_date = day(2025, 1, 1);
    d.delivery_date = day(2025, 1, 1);
    assert!(d.validate().is_ok());
    d.delivery_date = day(2024, 12, 31);
    assert_eq!(d.validate(), Err(TradeError::NotValid));
}

#[test]
fn texts_of_identifiers_and_states() {
    assert_eq!(TradeId::new(42).to_string(), "Trade(42)");
    assert_eq!(UserId::new(0).to_string(), "User(0)");
    assert_eq!(TradeState::SendToCounterparty.to_string(), "SentToCounterparty");
    assert_eq!(TradeState::PendingApproval.to_string(), "PendingApproval");
    assert_eq!(Direction::Sell.to_string(), "Sell");
    assert_eq!(NotionalCurrency::USD.to_string(), "USD");
    assert_eq!(TradeVersion::new(3).raw(), 3);
}

#[test]
fn created_trades_get_consecutive_numbers_and_version_one() {
    let mut r = TradeRegistry::new();
    let first = r.create_trade(requester(), details()).unwrap();
    let second = r.create_trade(approver(), details()).unwrap();
    assert_eq!(first, TradeId::new(1));
    assert_eq!(second, TradeId::new(2));
    let trade = r.get_trade(second).unwrap();
    assert_eq!(trade.id, second);
    assert_eq!(trade.requester_id, approver());
    assert_eq!(trade.state, TradeState::Draft);
    assert_eq!(trade.details.version, TradeVersion::new(1));
    assert!(trade.history.is_empty());
    assert_eq!(r.next_trade_id(), TradeId::new(3));
}

#[test]
fn invalid_details_are_not_filed_and_use_no_number() {
    let mut r = TradeRegistry::new();
    let mut bad = details();
    bad.counterparty = String::new();
    assert_eq!(r.create_trade(requester(), bad), Err(TradeError::NotValid));
    assert_eq!(r.create_trade(requester(), details()), Ok(TradeId::new(1)));
}

#[test]
fn every_operation_on_an_unknown_trade_is_not_found() {
    let mut r = TradeRegistry::new();
    let id = TradeId::new(5);
    let none = String::new;
    assert_eq!(r.submit(id, requester(), none()), Err(TradeError::NotFound));
    assert_eq!(r.accept(id, approver(), none(), None), Err(TradeError::NotFound));
    assert_eq!(r.approve(id, requester(), none()), Err(TradeError::NotFound));
    assert_eq!(r.cancel(id, requester(), none()), Err(TradeError::NotFound));
    assert_eq!(r.send_to_execute(id, requester(), none()), Err(TradeError::NotFound));
    assert_eq!(r.book(id, requester(), none(), none()), Err(TradeError::NotFound));
    assert_eq!(r.get_history(id), Err(TradeError::NotFound));
    assert_eq!(r.get_history_at(id, HistoryId::new(1)), Err(TradeError::NotFound));
    assert_eq!(
        r.diff_version(id, TradeVersion::new(1), TradeVersion::new(1)),
        Err(TradeError::NotFound)
    );
}

#[test]
fn executed_and_cancelled_trades_refuse_every_change() {
    let mut r = TradeRegistry::new();
    let executed = r.create_trade(requester(), details()).unwrap();
    r.submit(executed, requester(), String::new()).unwrap();
    r.accept(executed, approver(), String::new(), None).unwrap();
    r.send_to_execute(executed, approver(), String::new()).unwrap();
    r.book(executed, requester(), String::new(), "1.25".to_string()).unwrap();
    let cancelled = r.create_trade(requester(), details()).unwrap();
    r.cancel(cancelled, requester(), String::new()).unwrap();
    for id in [executed, cancelled] {
        let before = r.get_history(id).unwrap().len();
        assert_eq!(r.submit(id, requester(), String::new()), Err(TradeError::NotValid));
        assert_eq!(r.accept(id, approver(), String::new(), None), Err(TradeError::NotValid));
        assert_eq!(r.accept(id, requester(), String::new(), None), Err(TradeError::NotAuthorized));
        assert_eq!(r.approve(id, requester(), String::new()), Err(TradeError::NotValid));
        assert_eq!(r.cancel(id, requester(), String::new()), Err(TradeError::NotValid));
        assert_eq!(r.send_to_execute(id, approver(), String::new()), Err(TradeError::NotValid));
        assert_eq!(
            r.book(id, requester(), String::new(), "2".to_string()),
            Err(TradeError::NotValid)
        );
        assert_eq!(r.get_history(id).unwrap().len(), before);
    }
}

#[test]
fn the_longest_path_records_five_transitions() {
    let mut r = TradeRegistry::new();
    let id = r.create_trade(requester(), details()).unwrap();
    r.submit(id, requester(), "a".to_string()).unwrap();
    let mut changed = details();
    changed.notional_amount = 2_000_000;
    r.accept(id, approver(), "b".to_string(), Some(changed)).unwrap();
    r.approve(id, requester(), "c".to_string()).unwrap();
    r.send_to_execute(id, approver(), "d".to_string()).unwrap();
    r.book(id, approver(), "e".to_string(), "1.1".to_string()).unwrap();
    let history = r.get_history(id).unwrap();
    assert_eq!(history.len(), 5);
    let states = [
        TradeState::Draft,
        TradeState::PendingApproval,
        TradeState::NeedsReapproval,
        TradeState::Approved,
        TradeState::SendToCounterparty,
        TradeState::Executed,
    ];
    for (i, entry) in history.iter().enumerate() {
        assert_eq!(entry.id, HistoryId::new(i as u64 + 1));
        assert_eq!(entry.state_before, states[i]);
        assert_eq!(entry.state_after, states[i + 1]);
    }
    assert_eq!(history[1].user_id, approver());
    assert_eq!(history[2].user_id, requester());
    assert_eq!(history[0].notes, "a");
}

#[test]
fn accept_with_changes_moves_to_the_next_version_and_keeps_the_old_one() {
    let mut r = TradeRegistry::new();
    let id = r.create_trade(requester(), details()).unwrap();
    r.submit(id, requester(), String::new()).unwrap();
    let mut changed = details();
    changed.notional_amount = 1_200_000;
    changed.version = TradeVersion::new(77);
    r.accept(id, approver(), String::new(), Some(changed)).unwrap();
    let trade = r.get_trade(id).unwrap();
    assert_eq!(trade.details.version, TradeVersion::new(2));
    assert_eq!(trade.details.notional_amount, 1_200_000);
    let entry = r.get_history_at(id, HistoryId::new(2)).unwrap();
    assert_eq!(entry.details_before.version, TradeVersion::new(1));
    assert_eq!(entry.details_before.notional_amount, 1_000_000);
    assert_eq!(entry.state_after, TradeState::NeedsReapproval);

    let (one, two) = r
        .diff_version(id, TradeVersion::new(1), TradeVersion::new(2))
        .unwrap();
    assert_eq!(one.notional_amount, 1_000_000);
    assert_eq!(two.notional_amount, 1_200_000);
    let diff = one.diff(two);
    assert_eq!(diff.notional_amount, Some((1_000_000, 1_200_000)));
    assert!(diff.counterparty.is_none());
    assert_eq!(
        r.diff_version(id, TradeVersion::new(1), TradeVersion::new(3)),
        Err(TradeError::NotFound)
    );
}

#[test]
fn rejected_changes_leave_the_trade_as_it_was() {
    let mut r = TradeRegistry::new();
    let id = r.create_trade(requester(), details()).unwrap();
    r.submit(id, requester(), String::new()).unwrap();
    let mut bad = details();
    bad.underlying = "USDJPY".to_string();
    assert_eq!(r.accept(id, approver(), String::new(), Some(bad)), Err(TradeError::NotValid));
    let trade = r.get_trade(id).unwrap();
    assert_eq!(trade.state, TradeState::PendingApproval);
    assert_eq!(trade.details.version, TradeVersion::new(1));
    assert_eq!(trade.history.len(), 1);
}

#[test]
fn versions_list_each_distinct_details_once() {
    let mut t = Trade::new(TradeId::new(1), requester(), details());
    assert_eq!(t.versions().len(), 1);
    t.submit(requester(), String::new()).unwrap();
    t.accept(approver(), String::new(), None).unwrap();
    let versions = t.versions();
    assert_eq!(versions.len(), 1);
    assert_eq!(*versions[0], details());
    t.send_to_execute(approver(), String::new()).unwrap();
    t.book(approver(), String::new(), "1.5".to_string()).unwrap();
    let versions = t.versions();
    assert_eq!(versions.len(), 2);
    assert_eq!(versions[0].strike, None);
    assert_eq!(versions[1].strike, Some("1.5".to_string()));
}

#[test]
fn history_numbers_are_handed_out_in_order() {
    let mut t = Trade::new(TradeId::new(9), requester(), details());
    assert_eq!(t.next_history_id(), HistoryId::new(1));
    assert_eq!(t.next_history_id(), HistoryId::new(2));
}

#[test]
fn difference_text_lists_changed_fields_in_order() {
    let before = details();
    let mut after = details();
    after.direction = Direction::Sell;
    after.trade_date = day(2024, 12, 1);
    after.strike = Some("1.3".to_string());
    let diff = before.diff(&after);
    assert!(!diff.is_empty());
    assert_eq!(
        diff.to_string(),
        "  direction:           Buy -> Sell\n  trade_date:          2025-01-01 -> 2024-12-01\n  strike:              None -> 1.3\n"
    );
}

#[test]
fn difference_ignores_the_version() {
    let before = details();
    let mut after = details();
    after.version = TradeVersion::new(5);
    assert!(before.diff(&after).is_empty());
}
