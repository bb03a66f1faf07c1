use vstd::prelude::*;

use crate::date::on_or_before;
use crate::error::TradeError;
use crate::date::date_text;
use crate::registry::{
    created, describes, field_line, first_with_version, follows, same_terms, RegistryView,
    TradeDifference,
};
use crate::text::{decimal, digit_char};
use crate::trade::{
    accept_outcome, accept_target, advanced, approve_outcome, book_outcome, cancel_outcome,
    details_valid, distinct_in_order, send_outcome, snapshots, submit_outcome, terminal,
    state_text, versions_of, DetailsView, Direction, NotionalCurrency, TradeId, TradeState, TradeView,
};
use crate::user::UserId;

verus! {

/// An executed or cancelled trade is final: submitting, accepting (with or without
/// new details), approving, cancelling, sending and booking it are all refused.
pub proof fn terminal_trades_refuse_every_change(
    t: TradeView,
    user: UserId,
    details: Option<DetailsView>,
)
    requires
        terminal(t.state),
    ensures
        submit_outcome(t) is Err,
        accept_outcome(t, user, details) is Err,
        approve_outcome(t, user) is Err,
        cancel_outcome(t) is Err,
        send_outcome(t) is Err,
        book_outcome(t) is Err,
{
}

/// Every transition moves a trade to a later state, so a well-formed trade has at
/// most five history entries: no more than the longest path through the workflow.
pub proof fn history_is_bounded(t: TradeView)
    requires
        t.well_formed(),
    ensures
        t.history.len() <= 5,
        t.history_counter <= 6,
{
}

/// Segregation of duties in a well-formed trade: the approval of a pending trade,
/// with or without changes, was never made by its requester, and the re-approval of
/// changed details always was.
pub proof fn approvals_respect_roles(t: TradeView, i: int)
    requires
        t.well_formed(),
        0 <= i < t.history.len(),
    ensures
        t.history[i].state_before == TradeState::PendingApproval && (t.history[i].state_after
            == TradeState::Approved || t.history[i].state_after == TradeState::NeedsReapproval)
            ==> t.history[i].user_id != t.requester_id,
        t.history[i].state_before == TradeState::NeedsReapproval && t.history[i].state_after
            == TradeState::Approved ==> t.history[i].user_id == t.requester_id,
{
    assert(crate::trade::respects_roles(t.history[i], t.requester_id));
}

/// The history of a well-formed trade replays its life: it starts from `Draft`, each
/// entry starts where the previous one ended, the last ends in the current state, and
/// the entries are numbered 1, 2, ... in order.
pub proof fn history_replays_the_state(t: TradeView, i: int)
    requires
        t.well_formed(),
        0 <= i < t.history.len(),
    ensures
        i == 0 ==> t.history[i].state_before == TradeState::Draft,
        i + 1 < t.history.len() ==> t.history[i].state_after == t.history[i + 1].state_before,
        i + 1 == t.history.len() ==> t.history[i].state_after == t.state,
        t.history[i].id.0 == i + 1,
        crate::trade::allowed_step(t.history[i].state_before, t.history[i].state_after),
{
    if i + 1 < t.history.len() {
        assert(t.history[i].state_after == t.history[i + 1].state_before);
    }
    assert(t.history[i].id.0 == i + 1);
    assert(crate::trade::allowed_step(t.history[i].state_before, t.history[i].state_after));
}

/// A difference is empty exactly when the two details agree in every field but the
/// version; in particular the difference of details with themselves is empty, and
/// its text is then `(no changes)`.
pub proof fn empty_difference_means_same_terms(d: TradeDifference, a: DetailsView, b: DetailsView)
    requires
        describes(d, a, b),
    ensures
        d.no_changes() <==> same_terms(a, b),
        a == b ==> d.no_changes(),
        d.no_changes() ==> d.text() == "(no changes)"@,
{
    if d.no_changes() {
        assert(a =~= (DetailsView { version: a.version, ..b }));
    }
}

proof fn lemma_distinct_in_order(s: Seq<DetailsView>)
    ensures
        forall|x: DetailsView| distinct_in_order(s).contains(x) <==> s.contains(x),
        distinct_in_order(s).no_duplicates(),
    decreases s.len(),
{
    if s.len() > 0 {
        let earlier = s.drop_last();
        lemma_distinct_in_order(earlier);
        assert forall|x: DetailsView| s.contains(x) <==> earlier.contains(x) || x == s.last() by {
            if s.contains(x) {
                let i = choose|i: int| 0 <= i < s.len() && s[i] == x;
                if i < s.len() - 1 {
                    assert(earlier[i] == x);
                }
            }
            if earlier.contains(x) {
                let i = choose|i: int| 0 <= i < earlier.len() && earlier[i] == x;
                assert(s[i] == x);
            }
            if x == s.last() {
                assert(s[s.len() - 1] == x);
            }
        }
        let p = distinct_in_order(earlier);
        if !earlier.contains(s.last()) {
            let q = p.push(s.last());
            assert forall|x: DetailsView| q.contains(x) <==> p.contains(x) || x == s.last() by {
                if q.contains(x) {
                    let i = choose|i: int| 0 <= i < q.len() && q[i] == x;
                    if i < p.len() {
                        assert(p[i] == x);
                    }
                }
                if p.contains(x) {
                    let i = choose|i: int| 0 <= i < p.len() && p[i] == x;
                    assert(q[i] == x);
                }
                if x == s.last() {
                    assert(q[q.len() - 1] == x);
                }
            }
            assert forall|i: int, j: int|
                0 <= i < q.len() && 0 <= j < q.len() && i != j implies q[i] != q[j] by {
                if i < p.len() && j < p.len() {
                    assert(p[i] != p[j]);
                } else if i < p.len() {
                    assert(p.contains(q[i]));
                } else {
                    assert(p.contains(q[j]));
                }
            }
        }
    }
}

/// The versions of a trade list each distinct details once: its current details and
/// every details recorded in its history, and nothing else.
pub proof fn versions_are_distinct_and_complete(t: TradeView)
    ensures
        versions_of(t).no_duplicates(),
        versions_of(t).contains(t.details@),
        forall|i: int|
            0 <= i < t.history.len() ==> versions_of(t).contains(
                #[trigger] t.history[i].details_before@,
            ),
        forall|x: DetailsView|
            #[trigger] versions_of(t).contains(x) ==> x == t.details@ || snapshots(
                t.history,
            ).contains(x),
{
    let recorded = snapshots(t.history);
    lemma_distinct_in_order(recorded);
    let p = distinct_in_order(recorded);
    assert forall|i: int| 0 <= i < t.history.len() implies versions_of(t).contains(
        #[trigger] t.history[i].details_before@,
    ) by {
        assert(recorded[i] == t.history[i].details_before@);
        assert(recorded.contains(recorded[i]));
        assert(p.contains(recorded[i]));
        if !recorded.contains(t.details@) {
            let j = choose|j: int| 0 <= j < p.len() && p[j] == recorded[i];
            assert(p.push(t.details@)[j] == recorded[i]);
        }
    }
    if !recorded.contains(t.details@) {
        let q = p.push(t.details@);
        assert(q[q.len() - 1] == t.details@);
        assert forall|x: DetailsView| #[trigger] q.contains(x) implies x == t.details@
            || recorded.contains(x) by {
            let i = choose|i: int| 0 <= i < q.len() && q[i] == x;
            if i < p.len() {
                assert(p[i] == x);
            }
        }
        assert forall|i: int, j: int|
            0 <= i < q.len() && 0 <= j < q.len() && i != j implies q[i] != q[j] by {
            if i < p.len() && j < p.len() {
                assert(p[i] != p[j]);
            } else if i < p.len() {
                assert(p.contains(q[i]));
            } else {
                assert(p.contains(q[j]));
            }
        }
    }
}

/// What a read gives back of a write: after `create_trade` filed a trade under `id`,
/// looking `id` up finds that trade, a draft at version 1 with no history, and every
/// other lookup answers as before.
pub proof fn lookup_finds_created_trade(
    old: RegistryView,
    new: RegistryView,
    id: TradeId,
    requester: UserId,
    details: DetailsView,
    other: TradeId,
)
    requires
        new.trades == old.trades.insert(id.0, new.trades[id.0]),
        created(new.trades[id.0], id, requester, details),
        other != id,
    ensures
        new.lookup(id) matches Some(t) && t.state == TradeState::Draft && t.history.len() == 0
            && t.requester_id == requester && t.details@.version == 1,
        new.lookup(other) == old.lookup(other),
{
}

/// The number of `true`s in `s`.
pub open spec fn count_true(s: Seq<bool>) -> nat
    decreases s.len(),
{
    if s.len() == 0 {
        0
    } else {
        count_true(s.drop_last()) + if s.last() {
            1nat
        } else {
            0nat
        }
    }
}

/// Over any run of registry operations, each of which either records a transition on
/// the trade filed under `k` or leaves it alone (as every operation of the registry
/// ensures with `follows`), the trade's history grows by exactly one entry per recorded
/// transition and its earlier entries are never rewritten. In a consistent registry
/// the resulting history is numbered 1, 2, ..., starts from `Draft` and ends in the
/// trade's state; for a trade created with no history, its length is the number of
/// transitions that succeeded on it.
pub proof fn history_counts_recorded_transitions(
    runs: Seq<RegistryView>,
    recorded: Seq<bool>,
    k: u64,
)
    requires
        runs.len() == recorded.len() + 1,
        runs[0].trades.contains_key(k),
        forall|i: int|
            #![trigger recorded[i]]
            0 <= i < recorded.len() ==> follows(runs[i], runs[i + 1], k, recorded[i]),
    ensures
        runs.last().trades.contains_key(k),
        runs.last().trades[k].history.len() == runs[0].trades[k].history.len() + count_true(
            recorded,
        ),
        runs.last().trades[k].history.take(runs[0].trades[k].history.len() as int)
            == runs[0].trades[k].history,
        runs.last().consistent() ==> runs.last().trades[k].well_formed(),
    decreases recorded.len(),
{
    if recorded.len() > 0 {
        let n = recorded.len() - 1;
        let earlier = runs.drop_last();
        history_counts_recorded_transitions(earlier, recorded.drop_last(), k);
        assert(recorded[n] == recorded.last());
        assert(follows(runs[n], runs[n + 1], k, recorded[n]));
        let before = runs[n].trades[k].history;
        let after = runs.last().trades[k].history;
        let start = runs[0].trades[k].history;
        assert(earlier.last() == runs[n]);
        assert(before.take(start.len() as int) == start);
        if recorded[n] {
            assert(after.take(before.len() as int) == before);
            assert(after.take(start.len() as int) =~= before.take(start.len() as int));
        }
    }
    if runs.last().consistent() {
        assert(runs.last().trades.contains_key(k));
    }
}

/// The letters of each currency's code.
pub open spec fn code_letters(c: NotionalCurrency) -> Seq<char> {
    match c {
        NotionalCurrency::GBP => "GBP"@,
        NotionalCurrency::USD => "USD"@,
        NotionalCurrency::EUR => "EUR"@,
    }
}

/// The rules that trade details must meet, written out: the trade date is on or
/// before the value date, which is on or before the delivery date; the trading entity
/// and the counterparty are named; the notional is positive; and the three-letter
/// code of the notional currency occurs, as written, somewhere in the underlying.
pub open spec fn meets_the_rules(d: DetailsView) -> bool {
    let code = code_letters(d.notional_currency);
    &&& on_or_before(d.trade_date, d.value_date)
    &&& on_or_before(d.value_date, d.delivery_date)
    &&& d.trading_entity.len() > 0
    &&& d.counterparty.len() > 0
    &&& d.notional_amount > 0
    &&& exists|i: int|
        0 <= i && i + code.len() <= d.underlying.len() && #[trigger] d.underlying.subrange(
            i,
            i + code.len(),
        ) == code
}

/// Dates are ordered by year, then month, then day.
pub proof fn dates_are_ordered_by_year_month_day(a: (i32, u32, u32), b: (i32, u32, u32))
    ensures
        on_or_before(a, b) <==> (a.0 < b.0 || (a.0 == b.0 && a.1 < b.1) || (a.0 == b.0 && a.1
            == b.1 && a.2 <= b.2)),
        on_or_before(a, a),
        on_or_before(a, b) && on_or_before(b, a) ==> a == b,
{
}

/// `validate` accepts exactly the details that meet every rule.
pub proof fn validation_checks_every_rule(d: DetailsView)
    ensures
        details_valid(d) <==> meets_the_rules(d),
{
    let code = crate::trade::currency_code(d.notional_currency);
    let spelled = code_letters(d.notional_currency);
    assert(code == spelled);
    if crate::text::contains_text(d.underlying, code) {
        let i = choose|i: int|
            0 <= i && i + code.len() <= d.underlying.len() && #[trigger] d.underlying.subrange(
                i,
                i + code.len(),
            ) == code;
        assert(d.underlying.subrange(i, i + spelled.len()) == spelled);
    }
    if exists|i: int|
        0 <= i && i + spelled.len() <= d.underlying.len() && #[trigger] d.underlying.subrange(
            i,
            i + spelled.len(),
        ) == spelled {
        let i = choose|i: int|
            0 <= i && i + spelled.len() <= d.underlying.len() && #[trigger] d.underlying.subrange(
                i,
                i + spelled.len(),
            ) == spelled;
        assert(d.underlying.subrange(i, i + code.len()) == code);
    }
}

/// What `accept` answers: the requester may never accept; anyone else may accept a
/// pending trade as it is, or with new details that meet every rule; every other
/// answer is `NotValid`. Accepting as it is approves the trade; accepting with new
/// details sends it back for re-approval.
pub proof fn accept_answers_by_rules(t: TradeView, user: UserId, details: Option<DetailsView>)
    ensures
        accept_outcome(t, user, details) is Ok <==> {
            &&& t.requester_id != user
            &&& t.state == TradeState::PendingApproval
            &&& details matches Some(d) ==> meets_the_rules(d)
        },
        t.requester_id == user ==> accept_outcome(t, user, details) == Err::<(), TradeError>(
            TradeError::NotAuthorized,
        ),
        t.requester_id != user && accept_outcome(t, user, details) is Err ==> accept_outcome(
            t,
            user,
            details,
        ) == Err::<(), TradeError>(TradeError::NotValid),
        details is None ==> accept_target(details) == TradeState::Approved,
        details is Some ==> accept_target(details) == TradeState::NeedsReapproval,
{
    if let Some(d) = details {
        validation_checks_every_rule(d);
    }
}

/// What the other transitions answer, by the trade's state and the caller: submit
/// from `Draft`; approve from `NeedsReapproval` by the requester only; cancel from any
/// state but `Executed` and `Cancelled`; send from `Approved`; book from
/// `SendToCounterparty`. Every refusal is `NotValid`, but an approval by someone other
/// than the requester, which is `NotAuthorized`.
pub proof fn transitions_answer_by_state_and_user(t: TradeView, user: UserId)
    ensures
        submit_outcome(t) is Ok <==> t.state == TradeState::Draft,
        submit_outcome(t) is Err ==> submit_outcome(t) == Err::<(), TradeError>(
            TradeError::NotValid,
        ),
        approve_outcome(t, user) is Ok <==> t.state == TradeState::NeedsReapproval
            && t.requester_id == user,
        t.state != TradeState::NeedsReapproval ==> approve_outcome(t, user) == Err::<
            (),
            TradeError,
        >(TradeError::NotValid),
        t.state == TradeState::NeedsReapproval && t.requester_id != user ==> approve_outcome(
            t,
            user,
        ) == Err::<(), TradeError>(TradeError::NotAuthorized),
        cancel_outcome(t) is Ok <==> t.state != TradeState::Executed && t.state
            != TradeState::Cancelled,
        cancel_outcome(t) is Err ==> cancel_outcome(t) == Err::<(), TradeError>(
            TradeError::NotValid,
        ),
        send_outcome(t) is Ok <==> t.state == TradeState::Approved,
        send_outcome(t) is Err ==> send_outcome(t) == Err::<(), TradeError>(TradeError::NotValid),
        book_outcome(t) is Ok <==> t.state == TradeState::SendToCounterparty,
        book_outcome(t) is Err ==> book_outcome(t) == Err::<(), TradeError>(TradeError::NotValid),
        terminal(t.state) <==> t.state == TradeState::Executed || t.state == TradeState::Cancelled,
{
}

/// A recorded transition moves the trade to `after`, keeps its identity, requester and
/// earlier history, and appends one entry that holds the next history number, the
/// user, the state before and after, the details in effect before, and the notes.
pub proof fn a_transition_appends_its_record(
    old: TradeView,
    new: TradeView,
    user: UserId,
    after: TradeState,
    notes: Seq<char>,
)
    requires
        advanced(old, new, user, after, notes),
    ensures
        new.id == old.id,
        new.requester_id == old.requester_id,
        new.state == after,
        new.history.len() == old.history.len() + 1,
        forall|i: int| 0 <= i < old.history.len() ==> new.history[i] == old.history[i],
        new.history[old.history.len() as int].id.0 == old.history_counter,
        new.history[old.history.len() as int].user_id == user,
        new.history[old.history.len() as int].state_before == old.state,
        new.history[old.history.len() as int].state_after == after,
        new.history[old.history.len() as int].details_before@ == old.details@,
        new.history[old.history.len() as int].notes@ == notes,
        new.history_counter == old.history_counter + 1,
{
    assert forall|i: int| 0 <= i < old.history.len() implies new.history[i] == old.history[i] by {
        assert(new.history.take(old.history.len() as int)[i] == new.history[i]);
    }
}

/// Each field of a difference is `None` exactly where the two details agree, and
/// otherwise holds the value in the first details (the receiver of `diff`) and then
/// the value in the second.
pub proof fn difference_pairs_before_with_after(d: TradeDifference, a: DetailsView, b: DetailsView)
    requires
        describes(d, a, b),
    ensures
        d.trading_entity is None <==> a.trading_entity == b.trading_entity,
        d.trading_entity matches Some(p) ==> p.0@ == a.trading_entity && p.1@ == b.trading_entity,
        d.counterparty is None <==> a.counterparty == b.counterparty,
        d.counterparty matches Some(p) ==> p.0@ == a.counterparty && p.1@ == b.counterparty,
        d.direction is None <==> a.direction == b.direction,
        d.direction matches Some(p) ==> p.0 == a.direction && p.1 == b.direction,
        d.style is None <==> a.style == b.style,
        d.style matches Some(p) ==> p.0@ == a.style && p.1@ == b.style,
        d.notional_currency is None <==> a.notional_currency == b.notional_currency,
        d.notional_currency matches Some(p) ==> p.0 == a.notional_currency && p.1
            == b.notional_currency,
        d.notional_amount is None <==> a.notional_amount == b.notional_amount,
        d.notional_amount matches Some(p) ==> p.0 == a.notional_amount && p.1 == b.notional_amount,
        d.underlying is None <==> a.underlying == b.underlying,
        d.underlying matches Some(p) ==> p.0@ == a.underlying && p.1@ == b.underlying,
        d.trade_date is None <==> a.trade_date == b.trade_date,
        d.trade_date matches Some(p) ==> p.0@ == a.trade_date && p.1@ == b.trade_date,
        d.value_date is None <==> a.value_date == b.value_date,
        d.value_date matches Some(p) ==> p.0@ == a.value_date && p.1@ == b.value_date,
        d.delivery_date is None <==> a.delivery_date == b.delivery_date,
        d.delivery_date matches Some(p) ==> p.0@ == a.delivery_date && p.1@ == b.delivery_date,
        d.strike is None <==> a.strike == b.strike,
        d.strike matches Some(p) ==> crate::trade::optional_text(p.0) == a.strike
            && crate::trade::optional_text(p.1) == b.strike,
{
}

/// `create_trade` files the given details as they are, every field but the version,
/// which becomes 1, in a draft of the requester under the given number, with no
/// history.
pub proof fn created_trades_keep_the_given_details(
    t: TradeView,
    id: TradeId,
    requester: UserId,
    details: DetailsView,
)
    requires
        created(t, id, requester, details),
    ensures
        t.id == id,
        t.requester_id == requester,
        t.state == TradeState::Draft,
        t.history.len() == 0,
        t.details@.version == 1,
        t.details@.trading_entity == details.trading_entity,
        t.details@.counterparty == details.counterparty,
        t.details@.direction == details.direction,
        t.details@.style == details.style,
        t.details@.notional_currency == details.notional_currency,
        t.details@.notional_amount == details.notional_amount,
        t.details@.underlying == details.underlying,
        t.details@.trade_date == details.trade_date,
        t.details@.value_date == details.value_date,
        t.details@.delivery_date == details.delivery_date,
        t.details@.strike == details.strike,
{
}

/// The lookup by version finds the first details with that version number, and none
/// only where no details have it.
pub proof fn lookup_by_version_finds_the_first(versions: Seq<DetailsView>, v: u64)
    ensures
        first_with_version(versions, v) is None <==> (forall|i: int|
            0 <= i < versions.len() ==> #[trigger] versions[i].version != v),
        first_with_version(versions, v) matches Some(x) ==> exists|i: int|
            0 <= i < versions.len() && #[trigger] versions[i] == x && x.version == v && (forall|
                j: int,
            |
                0 <= j < i ==> versions[j].version != v),
    decreases versions.len(),
{
    if versions.len() > 0 {
        let rest = versions.drop_first();
        lookup_by_version_finds_the_first(rest, v);
        if versions[0].version != v {
            assert forall|i: int| 0 <= i < rest.len() implies rest[i] == versions[i + 1] by {}
            if first_with_version(rest, v) is None {
                assert forall|i: int| 0 <= i < versions.len() implies #[trigger] versions[i].version
                    != v by {
                    if i > 0 {
                        assert(rest[i - 1] == versions[i]);
                    }
                }
            } else {
                let x = first_with_version(rest, v)->Some_0;
                let i = choose|i: int|
                    0 <= i < rest.len() && #[trigger] rest[i] == x && x.version == v && (forall|
                        j: int,
                    |
                        0 <= j < i ==> rest[j].version != v);
                assert(versions[i + 1] == x);
                assert forall|j: int| 0 <= j < i + 1 implies versions[j].version != v by {
                    if j > 0 {
                        assert(rest[j - 1] == versions[j]);
                    }
                }
                assert(versions[0].version != v);
                if (forall|i: int| 0 <= i < versions.len() ==> #[trigger] versions[i].version != v) {
                    assert(versions[i + 1].version != v);
                }
            }
        } else {
            assert(versions[0] == versions[0]);
        }
    }
}

/// A changed field is shown as one line: two spaces, the field's name padded with
/// spaces to 20 characters, a space, the value before, ` -> `, the value after and a
/// line break; an unchanged field is not shown.
pub proof fn a_changed_field_is_one_line(name: Seq<char>, before: Seq<char>, after: Seq<char>)
    requires
        name.len() <= 20,
    ensures
        field_line(name, Some((before, after))) == "  "@ + name + Seq::new(
            (20 - name.len()) as nat,
            |i: int| ' ',
        ) + " "@ + before + " -> "@ + after + "\n"@,
        field_line(name, None) == Seq::<char>::empty(),
{
    if name.len() == 20 {
        assert(name + Seq::new(0, |i: int| ' ') =~= name);
    }
}

/// The text of a difference with changes lists the changed fields in the order
/// trading entity, counterparty, direction, style, notional currency, notional amount,
/// underlying, trade date, value date, delivery date, strike; strings as they are,
/// directions and currencies by name, amounts in decimal, dates as chrono shows them,
/// and a missing strike as `None`.
pub proof fn difference_text_lists_changes_in_field_order(d: TradeDifference)
    ensures
        !d.no_changes() ==> d.text() == field_line(
            "trading_entity:"@,
            match d.trading_entity {
                Some(p) => Some((p.0@, p.1@)),
                None => None,
            },
        ) + field_line(
            "counterparty:"@,
            match d.counterparty {
                Some(p) => Some((p.0@, p.1@)),
                None => None,
            },
        ) + field_line(
            "direction:"@,
            match d.direction {
                Some(p) => Some((direction_name(p.0), direction_name(p.1))),
                None => None,
            },
        ) + field_line(
            "style:"@,
            match d.style {
                Some(p) => Some((p.0@, p.1@)),
                None => None,
            },
        ) + field_line(
            "notional_currency:"@,
            match d.notional_currency {
                Some(p) => Some((code_letters(p.0), code_letters(p.1))),
                None => None,
            },
        ) + field_line(
            "notional_amount:"@,
            match d.notional_amount {
                Some(p) => Some((decimal(p.0 as nat), decimal(p.1 as nat))),
                None => None,
            },
        ) + field_line(
            "underlying:"@,
            match d.underlying {
                Some(p) => Some((p.0@, p.1@)),
                None => None,
            },
        ) + field_line(
            "trade_date:"@,
            match d.trade_date {
                Some(p) => Some((date_text(p.0@), date_text(p.1@))),
                None => None,
            },
        ) + field_line(
            "value_date:"@,
            match d.value_date {
                Some(p) => Some((date_text(p.0@), date_text(p.1@))),
                None => None,
            },
        ) + field_line(
            "delivery_date:"@,
            match d.delivery_date {
                Some(p) => Some((date_text(p.0@), date_text(p.1@))),
                None => None,
            },
        ) + field_line(
            "strike:"@,
            match d.strike {
                Some(p) => Some((strike_shown(p.0), strike_shown(p.1))),
                None => None,
            },
        ),
{
    if let Some(p) = d.direction {
        match p.0 {
            Direction::Buy => {},
            Direction::Sell => {},
        }
        match p.1 {
            Direction::Buy => {},
            Direction::Sell => {},
        }
    }
    if let Some(p) = d.notional_currency {
        match p.0 {
            NotionalCurrency::GBP => {},
            NotionalCurrency::USD => {},
            NotionalCurrency::EUR => {},
        }
        match p.1 {
            NotionalCurrency::GBP => {},
            NotionalCurrency::USD => {},
            NotionalCurrency::EUR => {},
        }
    }
}

/// The name by which a direction is shown.
pub open spec fn direction_name(d: Direction) -> Seq<char> {
    match d {
        Direction::Buy => "Buy"@,
        Direction::Sell => "Sell"@,
    }
}

/// How an optional strike is shown.
pub open spec fn strike_shown(s: Option<String>) -> Seq<char> {
    match s {
        Some(text) => text@,
        None => "None"@,
    }
}

/// The number that a string of decimal digits stands for.
pub open spec fn digits_value(s: Seq<char>) -> int
    decreases s.len(),
{
    if s.len() == 0 {
        0
    } else {
        digits_value(s.drop_last()) * 10 + (s.last() as int - '0' as int)
    }
}

/// The decimal numeral of `n` is made of the digits `0` to `9`, has no leading zero
/// but for `0` itself, and stands for `n`.
pub proof fn decimal_numerals_stand_for_their_number(n: nat)
    ensures
        decimal(n).len() >= 1,
        forall|i: int| 0 <= i < decimal(n).len() ==> '0' <= #[trigger] decimal(n)[i] <= '9',
        n > 0 ==> decimal(n)[0] != '0',
        digits_value(decimal(n)) == n,
    decreases n,
{
    let d = (n % 10) as nat;
    assert(digit_char(d) as int - '0' as int == d);
    assert('0' <= digit_char(d) <= '9');
    if n < 10 {
        assert(decimal(n) =~= seq![digit_char(n)]);
        assert(decimal(n).drop_last() =~= Seq::<char>::empty());
        assert(digits_value(Seq::<char>::empty()) == 0);
        assert(n == d);
        assert(digits_value(decimal(n)) == digits_value(decimal(n).drop_last()) * 10 + (
        decimal(n).last() as int - '0' as int));
    } else {
        let q = (n / 10) as nat;
        decimal_numerals_stand_for_their_number(q);
        let s = decimal(n);
        assert(s == decimal(q).push(digit_char(d)));
        assert(s.drop_last() =~= decimal(q));
        assert forall|i: int| 0 <= i < s.len() implies '0' <= #[trigger] s[i] <= '9' by {
            if i < decimal(q).len() {
                assert(s[i] == decimal(q)[i]);
            }
        }
        assert(s[0] == decimal(q)[0]);
        assert(s.last() == digit_char(d));
        assert(digits_value(s) == digits_value(decimal(q)) * 10 + (s.last() as int - '0' as int));
        assert(n == q * 10 + d);
    }
}

proof fn lemma_distinct_in_order_starts_with_first(s: Seq<DetailsView>)
    requires
        s.len() > 0,
    ensures
        distinct_in_order(s).len() > 0,
        distinct_in_order(s)[0] == s[0],
    decreases s.len(),
{
    let earlier = s.drop_last();
    if earlier.len() > 0 {
        lemma_distinct_in_order_starts_with_first(earlier);
        if !earlier.contains(s.last()) {
            assert(distinct_in_order(earlier).push(s.last())[0] == distinct_in_order(earlier)[0]);
        }
    } else {
        assert(!earlier.contains(s.last()));
        assert(distinct_in_order(earlier) =~= Seq::<DetailsView>::empty());
    }
}

/// The versions of a trade start with the details its first history entry recorded,
/// and end with its current details where the history never recorded them.
pub proof fn versions_run_from_first_recorded_to_current(t: TradeView)
    ensures
        t.history.len() > 0 ==> versions_of(t)[0] == t.history[0].details_before@,
        !snapshots(t.history).contains(t.details@) ==> versions_of(t).last() == t.details@,
{
    let recorded = snapshots(t.history);
    if t.history.len() > 0 {
        lemma_distinct_in_order_starts_with_first(recorded);
        if !recorded.contains(t.details@) {
            assert(distinct_in_order(recorded).push(t.details@)[0] == distinct_in_order(
                recorded,
            )[0]);
        }
    }
}

/// The names by which states are shown; a trade sent to the counterparty shows as
/// `SentToCounterparty`.
pub proof fn states_are_shown_by_name(s: TradeState)
    ensures
        state_text(s) == match s {
            TradeState::Draft => "Draft"@,
            TradeState::PendingApproval => "PendingApproval"@,
            TradeState::NeedsReapproval => "NeedsReapproval"@,
            TradeState::Approved => "Approved"@,
            TradeState::SendToCounterparty => "SentToCounterparty"@,
            TradeState::Executed => "Executed"@,
            TradeState::Cancelled => "Cancelled"@,
        },
{
}

} // verus!
