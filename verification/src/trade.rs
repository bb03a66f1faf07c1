use vstd::prelude::*;

use crate::date::{on_or_before, Date};
use crate::error::TradeError;
use crate::history::{History, HistoryId};
use crate::registry::{date_change, describes, text_change, TradeDifference};
use crate::text::{contains, contains_text, decimal, push_decimal};
use crate::user::UserId;

verus! {

/// Identifies a trade in a registry.
#[derive(Hash, Eq, PartialEq, Structural, Clone, Copy, Debug)]
pub struct TradeId(pub u64);

impl TradeId {
    pub fn new(id: u64) -> (trade_id: TradeId)
        ensures
            trade_id.0 == id,
    {
        TradeId(id)
    }

    /// The text `Trade(<id>)` by which the trade is shown.
    pub fn to_string(&self) -> (text: String)
        ensures
            text@ == "Trade("@ + decimal(self.0 as nat) + ")"@,
    {
        let mut text = String::from_str("Trade(");
        push_decimal(&mut text, self.0);
        text.append(")");
        text
    }
}

/// The revision number of a trade's details.
#[derive(Clone, PartialEq, Eq, Structural, Debug, Hash)]
pub struct TradeVersion(pub u64);

impl TradeVersion {
    pub fn new(version: u64) -> (v: TradeVersion)
        ensures
            v.0 == version,
    {
        TradeVersion(version)
    }

    pub fn raw(&self) -> (version: u64)
        ensures
            version == self.0,
    {
        self.0
    }
}

/// The states of the approval workflow.
#[derive(Eq, PartialEq, Structural, Debug, Clone, Copy)]
pub enum TradeState {
    Draft,
    PendingApproval,
    NeedsReapproval,
    Approved,
    SendToCounterparty,
    Executed,
    Cancelled,
}

/// Whether the trade buys or sells.
#[derive(Clone, Copy, Eq, PartialEq, Structural, Debug, Hash)]
pub enum Direction {
    Buy,
    Sell,
}

/// The currency in which the notional amount is given.
#[derive(Clone, Copy, PartialEq, Eq, Structural, Debug, Hash)]
pub enum NotionalCurrency {
    GBP,
    USD,
    EUR,
}

/// The text by which a state is shown.
pub open spec fn state_text(s: TradeState) -> Seq<char> {
    match s {
        TradeState::Draft => "Draft"@,
        TradeState::PendingApproval => "PendingApproval"@,
        TradeState::NeedsReapproval => "NeedsReapproval"@,
        TradeState::Approved => "Approved"@,
        TradeState::SendToCounterparty => "SentToCounterparty"@,
        TradeState::Executed => "Executed"@,
        TradeState::Cancelled => "Cancelled"@,
    }
}

/// The text by which a direction is shown.
pub open spec fn direction_text(d: Direction) -> Seq<char> {
    match d {
        Direction::Buy => "Buy"@,
        Direction::Sell => "Sell"@,
    }
}

/// The three-letter code of a currency.
pub open spec fn currency_code(c: NotionalCurrency) -> Seq<char> {
    match c {
        NotionalCurrency::GBP => "GBP"@,
        NotionalCurrency::USD => "USD"@,
        NotionalCurrency::EUR => "EUR"@,
    }
}

impl TradeState {
    pub fn to_string(&self) -> (text: String)
        ensures
            text@ == state_text(*self),
    {
        match self {
            TradeState::Draft => String::from_str("Draft"),
            TradeState::PendingApproval => String::from_str("PendingApproval"),
            TradeState::NeedsReapproval => String::from_str("NeedsReapproval"),
            TradeState::Approved => String::from_str("Approved"),
            TradeState::SendToCounterparty => String::from_str("SentToCounterparty"),
            TradeState::Executed => String::from_str("Executed"),
            TradeState::Cancelled => String::from_str("Cancelled"),
        }
    }
}

impl Direction {
    pub fn to_string(&self) -> (text: String)
        ensures
            text@ == direction_text(*self),
    {
        match self {
            Direction::Buy => String::from_str("Buy"),
            Direction::Sell => String::from_str("Sell"),
        }
    }
}

impl NotionalCurrency {
    pub fn to_string(&self) -> (text: String)
        ensures
            text@ == currency_code(*self),
    {
        match self {
            NotionalCurrency::GBP => String::from_str("GBP"),
            NotionalCurrency::USD => String::from_str("USD"),
            NotionalCurrency::EUR => String::from_str("EUR"),
        }
    }
}

/// The contents of `TradeDetails`, with each string taken by its characters.
#[verifier::ext_equal]
pub struct DetailsView {
    pub version: u64,
    pub trading_entity: Seq<char>,
    pub counterparty: Seq<char>,
    pub direction: Direction,
    pub style: Seq<char>,
    pub notional_currency: NotionalCurrency,
    pub notional_amount: u64,
    pub underlying: Seq<char>,
    pub trade_date: (i32, u32, u32),
    pub value_date: (i32, u32, u32),
    pub delivery_date: (i32, u32, u32),
    pub strike: Option<Seq<char>>,
}

/// The characters of an optional string.
pub open spec fn optional_text(o: Option<String>) -> Option<Seq<char>> {
    match o {
        Some(s) => Some(s@),
        None => None,
    }
}

/// The terms of a forward contract.
#[derive(Clone, PartialEq, Eq, Debug, Hash)]
pub struct TradeDetails {
    pub version: TradeVersion,
    pub trading_entity: String,
    pub counterparty: String,
    pub direction: Direction,
    pub style: String,
    pub notional_currency: NotionalCurrency,
    pub notional_amount: u64,
    pub underlying: String,
    pub trade_date: Date,
    pub value_date: Date,
    pub delivery_date: Date,
    pub strike: Option<String>,
}

impl View for TradeDetails {
    type V = DetailsView;

    open spec fn view(&self) -> DetailsView {
        DetailsView {
            version: self.version.0,
            trading_entity: self.trading_entity@,
            counterparty: self.counterparty@,
            direction: self.direction,
            style: self.style@,
            notional_currency: self.notional_currency,
            notional_amount: self.notional_amount,
            underlying: self.underlying@,
            trade_date: self.trade_date@,
            value_date: self.value_date@,
            delivery_date: self.delivery_date@,
            strike: optional_text(self.strike),
        }
    }
}

/// The validation rules: the dates are in order, both parties are named, the notional
/// is positive and the currency's code occurs in the underlying.
pub open spec fn details_valid(d: DetailsView) -> bool {
    &&& on_or_before(d.trade_date, d.value_date)
    &&& on_or_before(d.value_date, d.delivery_date)
    &&& d.trading_entity.len() > 0
    &&& d.counterparty.len() > 0
    &&& d.notional_amount > 0
    &&& contains_text(d.underlying, currency_code(d.notional_currency))
}

fn copy_text(s: &String) -> (c: String)
    ensures
        c@ == s@,
{
    s.clone()
}

fn copy_optional_text(o: &Option<String>) -> (c: Option<String>)
    ensures
        optional_text(c) == optional_text(*o),
{
    match o {
        Some(s) => Some(s.clone()),
        None => None,
    }
}

fn changed_text(a: &String, b: &String) -> (change: Option<(String, String)>)
    ensures
        text_change(change, a@, b@),
{
    if !String::eq(a, b) {
        Some((a.clone(), b.clone()))
    } else {
        None
    }
}

fn changed_date(a: &Date, b: &Date) -> (change: Option<(Date, Date)>)
    ensures
        date_change(change, a@, b@),
{
    if !a.same_day(b) {
        Some((*a, *b))
    } else {
        None
    }
}

fn same_optional_text(a: &Option<String>, b: &Option<String>) -> (same: bool)
    ensures
        same == (optional_text(*a) == optional_text(*b)),
{
    match (a, b) {
        (Some(x), Some(y)) => String::eq(x, y),
        (None, None) => true,
        _ => false,
    }
}

impl TradeDetails {
    /// New details at version 0 with no strike.
    pub fn new(
        trading_entity: String,
        counterparty: String,
        direction: Direction,
        style: String,
        notional_currency: NotionalCurrency,
        notional_amount: u64,
        underlying: String,
        trade_date: Date,
        value_date: Date,
        delivery_date: Date,
    ) -> (details: TradeDetails)
        ensures
            details.version.0 == 0,
            details.trading_entity == trading_entity,
            details.counterparty == counterparty,
            details.direction == direction,
            details.style == style,
            details.notional_currency == notional_currency,
            details.notional_amount == notional_amount,
            details.underlying == underlying,
            details.trade_date == trade_date,
            details.value_date == value_date,
            details.delivery_date == delivery_date,
            details.strike is None,
    {
        TradeDetails {
            version: TradeVersion(0),
            trading_entity,
            counterparty,
            direction,
            style,
            notional_currency,
            notional_amount,
            underlying,
            trade_date,
            value_date,
            delivery_date,
            strike: None,
        }
    }

    /// A copy of these details, field for field.
    fn snapshot(&self) -> (copy: TradeDetails)
        ensures
            copy@ == self@,
    {
        TradeDetails {
            version: TradeVersion(self.version.0),
            trading_entity: copy_text(&self.trading_entity),
            counterparty: copy_text(&self.counterparty),
            direction: self.direction,
            style: copy_text(&self.style),
            notional_currency: self.notional_currency,
            notional_amount: self.notional_amount,
            underlying: copy_text(&self.underlying),
            trade_date: self.trade_date,
            value_date: self.value_date,
            delivery_date: self.delivery_date,
            strike: copy_optional_text(&self.strike),
        }
    }

    /// Whether these details equal `other` in every field, the version included.
    fn same_as(&self, other: &TradeDetails) -> (same: bool)
        ensures
            same == (self@ == other@),
    {
        let same = self.version.0 == other.version.0 && self.trading_entity == other.trading_entity
            && self.counterparty == other.counterparty && self.direction == other.direction
            && self.style == other.style && self.notional_currency == other.notional_currency
            && self.notional_amount == other.notional_amount && self.underlying
            == other.underlying && self.trade_date.same_day(&other.trade_date)
            && self.value_date.same_day(&other.value_date) && self.delivery_date.same_day(
            &other.delivery_date,
        ) && same_optional_text(&self.strike, &other.strike);
        proof {
            if same {
                assert(self@ =~= other@);
            }
        }
        same
    }

    /// The fields, the version aside, in which `other` differs from these details,
    /// each with its value here and its value in `other`.
    pub fn diff(&self, other: &TradeDetails) -> (difference: TradeDifference)
        ensures
            describes(difference, self@, other@),
    {
        TradeDifference {
            trading_entity: changed_text(&self.trading_entity, &other.trading_entity),
            counterparty: changed_text(&self.counterparty, &other.counterparty),
            direction: if self.direction != other.direction {
                Some((self.direction, other.direction))
            } else {
                None
            },
            style: changed_text(&self.style, &other.style),
            notional_currency: if self.notional_currency != other.notional_currency {
                Some((self.notional_currency, other.notional_currency))
            } else {
                None
            },
            notional_amount: if self.notional_amount != other.notional_amount {
                Some((self.notional_amount, other.notional_amount))
            } else {
                None
            },
            underlying: changed_text(&self.underlying, &other.underlying),
            trade_date: changed_date(&self.trade_date, &other.trade_date),
            value_date: changed_date(&self.value_date, &other.value_date),
            delivery_date: changed_date(&self.delivery_date, &other.delivery_date),
            strike: if !same_optional_text(&self.strike, &other.strike) {
                Some((copy_optional_text(&self.strike), copy_optional_text(&other.strike)))
            } else {
                None
            },
        }
    }

    /// Checks the validation rules; `NotValid` when one of them fails.
    pub fn validate(&self) -> (result: Result<(), TradeError>)
        ensures
            result is Ok <==> details_valid(self@),
            result is Err ==> result == Err::<(), TradeError>(TradeError::NotValid),
    {
        if !(self.trade_date.on_or_before(&self.value_date) && self.value_date.on_or_before(
            &self.delivery_date,
        )) {
            return Err(TradeError::NotValid);
        }
        if self.trading_entity.as_str().is_empty() || self.counterparty.as_str().is_empty() {
            return Err(TradeError::NotValid);
        }
        if self.notional_amount == 0 {
            return Err(TradeError::NotValid);
        }
        let currency_str = self.notional_currency.to_string();
        if !contains(self.underlying.as_str(), currency_str.as_str()) {
            return Err(TradeError::NotValid);
        }
        Ok(())
    }
}

/// The order of the workflow's states: every transition leads to a later state.
pub open spec fn rank(s: TradeState) -> nat {
    match s {
        TradeState::Draft => 0,
        TradeState::PendingApproval => 1,
        TradeState::NeedsReapproval => 2,
        TradeState::Approved => 3,
        TradeState::SendToCounterparty => 4,
        TradeState::Executed => 5,
        TradeState::Cancelled => 5,
    }
}

/// The states from which a trade can still be cancelled.
pub open spec fn cancellable(s: TradeState) -> bool {
    match s {
        TradeState::Draft => true,
        TradeState::PendingApproval => true,
        TradeState::NeedsReapproval => true,
        TradeState::Approved => true,
        TradeState::SendToCounterparty => true,
        _ => false,
    }
}

/// The states in which no operation changes a trade any more.
pub open spec fn terminal(s: TradeState) -> bool {
    s == TradeState::Executed || s == TradeState::Cancelled
}

/// The transitions of the workflow.
pub open spec fn allowed_step(before: TradeState, after: TradeState) -> bool {
    ||| before == TradeState::Draft && after == TradeState::PendingApproval
    ||| before == TradeState::PendingApproval && after == TradeState::NeedsReapproval
    ||| before == TradeState::PendingApproval && after == TradeState::Approved
    ||| before == TradeState::NeedsReapproval && after == TradeState::Approved
    ||| before == TradeState::Approved && after == TradeState::SendToCounterparty
    ||| before == TradeState::SendToCounterparty && after == TradeState::Executed
    ||| cancellable(before) && after == TradeState::Cancelled
}

/// Who may make a transition: the approval out of `PendingApproval` is never the
/// requester's, the re-approval out of `NeedsReapproval` always is.
pub open spec fn respects_roles(e: History, requester: UserId) -> bool {
    &&& (e.state_before == TradeState::PendingApproval && (e.state_after == TradeState::Approved
        || e.state_after == TradeState::NeedsReapproval)) ==> e.user_id != requester
    &&& (e.state_before == TradeState::NeedsReapproval && e.state_after == TradeState::Approved)
        ==> e.user_id == requester
}

/// A history that is a path through the workflow from `Draft` to `state`, numbered
/// from 1, with every transition made by a user allowed to make it.
pub open spec fn history_consistent(h: Seq<History>, state: TradeState, requester: UserId) -> bool {
    &&& h.len() <= rank(state)
    &&& h.len() == 0 ==> state == TradeState::Draft
    &&& h.len() > 0 ==> h[0].state_before == TradeState::Draft && h.last().state_after == state
    &&& forall|i: int, j: int|
        0 <= i && j == i + 1 && j < h.len() ==> #[trigger] h[i].state_after
            == #[trigger] h[j].state_before
    &&& forall|i: int|
        0 <= i < h.len() ==> allowed_step(#[trigger] h[i].state_before, h[i].state_after)
    &&& forall|i: int| 0 <= i < h.len() ==> (#[trigger] h[i]).id.0 == i + 1
    &&& forall|i: int| 0 <= i < h.len() ==> respects_roles(#[trigger] h[i], requester)
}

/// A trade in the approval workflow, with its audit trail.
#[derive(Debug, Eq, PartialEq)]
pub struct Trade {
    pub id: TradeId,
    pub requester_id: UserId,
    pub state: TradeState,
    pub details: TradeDetails,
    pub history: Vec<History>,
    /// The number that the next history entry will get.
    pub next_history_id: u64,
}

/// The contents of a `Trade`, its history counter included.
pub struct TradeView {
    pub id: TradeId,
    pub requester_id: UserId,
    pub state: TradeState,
    pub details: TradeDetails,
    pub history: Seq<History>,
    pub history_counter: u64,
}

impl View for Trade {
    type V = TradeView;

    open spec fn view(&self) -> TradeView {
        TradeView {
            id: self.id,
            requester_id: self.requester_id,
            state: self.state,
            details: self.details,
            history: self.history@,
            history_counter: self.next_history_id,
        }
    }
}

/// `e` records the given transition.
pub open spec fn records(
    e: History,
    id: u64,
    user: UserId,
    before: TradeState,
    after: TradeState,
    details: DetailsView,
    notes: Seq<char>,
) -> bool {
    &&& e.id.0 == id
    &&& e.user_id == user
    &&& e.state_before == before
    &&& e.state_after == after
    &&& e.details_before@ == details
    &&& e.notes@ == notes
}

/// `new` is `old` moved to `after` by `user`, with one history entry appended that
/// records the move, numbered by the history counter.
pub open spec fn advanced(
    old: TradeView,
    new: TradeView,
    user: UserId,
    after: TradeState,
    notes: Seq<char>,
) -> bool {
    &&& new.id == old.id
    &&& new.requester_id == old.requester_id
    &&& new.state == after
    &&& new.history.len() == old.history.len() + 1
    &&& new.history.take(old.history.len() as int) == old.history
    &&& records(
        new.history.last(),
        old.history_counter,
        user,
        old.state,
        after,
        old.details@,
        notes,
    )
    &&& new.history_counter == old.history_counter + 1
}

/// What `submit` answers.
pub open spec fn submit_outcome(t: TradeView) -> Result<(), TradeError> {
    if t.state == TradeState::Draft {
        Ok(())
    } else {
        Err(TradeError::NotValid)
    }
}

/// What `accept` answers, given the views of the proposed details, if any.
pub open spec fn accept_outcome(t: TradeView, user: UserId, details: Option<DetailsView>) -> Result<
    (),
    TradeError,
> {
    if t.requester_id == user {
        Err(TradeError::NotAuthorized)
    } else if details matches Some(d) && !details_valid(d) {
        Err(TradeError::NotValid)
    } else if t.state != TradeState::PendingApproval {
        Err(TradeError::NotValid)
    } else {
        Ok(())
    }
}

/// The views of proposed details.
pub open spec fn proposed(details: Option<TradeDetails>) -> Option<DetailsView> {
    match details {
        Some(d) => Some(d@),
        None => None,
    }
}

/// The state to which a successful `accept` moves a trade.
pub open spec fn accept_target(details: Option<DetailsView>) -> TradeState {
    match details {
        Some(_) => TradeState::NeedsReapproval,
        None => TradeState::Approved,
    }
}

/// What `approve` answers.
pub open spec fn approve_outcome(t: TradeView, user: UserId) -> Result<(), TradeError> {
    if t.state != TradeState::NeedsReapproval {
        Err(TradeError::NotValid)
    } else if t.requester_id != user {
        Err(TradeError::NotAuthorized)
    } else {
        Ok(())
    }
}

/// What `cancel` answers.
pub open spec fn cancel_outcome(t: TradeView) -> Result<(), TradeError> {
    if cancellable(t.state) {
        Ok(())
    } else {
        Err(TradeError::NotValid)
    }
}

/// What `send_to_execute` answers.
pub open spec fn send_outcome(t: TradeView) -> Result<(), TradeError> {
    if t.state == TradeState::Approved {
        Ok(())
    } else {
        Err(TradeError::NotValid)
    }
}

/// What `book` answers.
pub open spec fn book_outcome(t: TradeView) -> Result<(), TradeError> {
    if t.state == TradeState::SendToCounterparty {
        Ok(())
    } else {
        Err(TradeError::NotValid)
    }
}

/// The views of the details that a trade's history entries record, in order.
pub open spec fn snapshots(h: Seq<History>) -> Seq<DetailsView> {
    h.map_values(|e: History| e.details_before@)
}

/// The elements of `s` in the order of their first occurrence, each once.
pub open spec fn distinct_in_order(s: Seq<DetailsView>) -> Seq<DetailsView>
    decreases s.len(),
{
    if s.len() == 0 {
        Seq::empty()
    } else {
        let earlier = s.drop_last();
        if earlier.contains(s.last()) {
            distinct_in_order(earlier)
        } else {
            distinct_in_order(earlier).push(s.last())
        }
    }
}

/// The distinct details that a trade has had: those recorded in its history, then its
/// current details where the history does not hold them.
pub open spec fn versions_of(t: TradeView) -> Seq<DetailsView> {
    let recorded = snapshots(t.history);
    if recorded.contains(t.details@) {
        distinct_in_order(recorded)
    } else {
        distinct_in_order(recorded).push(t.details@)
    }
}

impl TradeView {
    /// The trade's history is consistent with its state and the counter is one past
    /// the last history entry.
    pub open spec fn well_formed(self) -> bool {
        &&& self.history_counter == self.history.len() + 1
        &&& history_consistent(self.history, self.state, self.requester_id)
    }
}

/// The views of a sequence of details.
pub open spec fn detail_views(s: Seq<&TradeDetails>) -> Seq<DetailsView> {
    s.map_values(|d: &TradeDetails| d@)
}

/// Whether one of the first `upto` entries of `history` recorded details equal to `d`.
fn recorded_among(history: &Vec<History>, upto: usize, d: &TradeDetails) -> (found: bool)
    requires
        upto <= history@.len(),
    ensures
        found == snapshots(history@).take(upto as int).contains(d@),
{
    let mut i: usize = 0;
    while i < upto
        invariant
            i <= upto <= history@.len(),
            forall|j: int| 0 <= j < i ==> history@[j].details_before@ != d@,
        decreases upto - i,
    {
        if history[i].details_before.same_as(d) {
            proof {
                assert(snapshots(history@).take(upto as int)[i as int] == d@);
            }
            return true;
        }
        i = i + 1;
    }
    proof {
        if snapshots(history@).take(upto as int).contains(d@) {
            let j = choose|j: int|
                0 <= j < upto && snapshots(history@).take(upto as int)[j] == d@;
            assert(history@[j].details_before@ == d@);
        }
    }
    false
}

impl Trade {
    /// A draft trade with no history.
    pub fn new(id: TradeId, requester_id: UserId, details: TradeDetails) -> (trade: Trade)
        ensures
            trade@.id == id,
            trade@.requester_id == requester_id,
            trade@.details == details,
            trade@.state == TradeState::Draft,
            trade@.history.len() == 0,
            trade@.history_counter == 1,
            trade@.well_formed(),
    {
        Trade {
            next_history_id: 1,
            id: id,
            requester_id,
            details,
            state: TradeState::Draft,
            history: Vec::new(),
        }
    }

    /// Hands out the next history number and advances the counter.
    pub fn next_history_id(&mut self) -> (history_id: HistoryId)
        requires
            old(self)@.history_counter < u64::MAX,
        ensures
            history_id.0 == old(self)@.history_counter,
            final(self)@ == (TradeView {
                history_counter: (old(self)@.history_counter + 1) as u64,
                ..old(self)@
            }),
    {
        let id: u64 = self.next_history_id;
        self.next_history_id = self.next_history_id + 1;
        HistoryId::new(id)
    }

    /// The version of the trade's details.
    pub(crate) fn details_version(&self) -> (version: u64)
        ensures
            version == self@.details.version.0,
    {
        self.details.version.0
    }

    /// The trade's history entries.
    pub(crate) fn history_entries(&self) -> (history: &Vec<History>)
        ensures
            history@ == self@.history,
    {
        &self.history
    }

    fn push_history(
        &mut self,
        user_id: UserId,
        state_before: TradeState,
        state_after: TradeState,
        notes: String,
    )
        requires
            old(self)@.history_counter < u64::MAX,
        ensures
            final(self)@.id == old(self)@.id,
            final(self)@.requester_id == old(self)@.requester_id,
            final(self)@.state == old(self)@.state,
            final(self)@.details == old(self)@.details,
            final(self)@.history == old(self)@.history.push(final(self)@.history.last()),
            final(self)@.history.take(old(self)@.history.len() as int) == old(self)@.history,
            records(
                final(self)@.history.last(),
                old(self)@.history_counter,
                user_id,
                state_before,
                state_after,
                old(self)@.details@,
                notes@,
            ),
            final(self)@.history_counter == old(self)@.history_counter + 1,
    {
        let id = self.next_history_id();
        let snapshot = self.details.snapshot();
        self.history.push(History::new(id, user_id, state_before, state_after, snapshot, notes));
        proof {
            assert(self@.history =~= old(self)@.history.push(self@.history.last()));
            assert(self@.history.take(old(self)@.history.len() as int) =~= old(self)@.history);
        }
    }

    /// Moves a draft to `PendingApproval`.
    pub fn submit(&mut self, user_id: UserId, notes: String) -> (result: Result<(), TradeError>)
        requires
            submit_outcome(old(self)@) is Ok ==> old(self)@.history_counter < u64::MAX,
        ensures
            result == submit_outcome(old(self)@),
            result is Ok ==> advanced(
                old(self)@,
                final(self)@,
                user_id,
                TradeState::PendingApproval,
                notes@,
            ) && final(self)@.details == old(self)@.details,
            result is Err ==> final(self)@ == old(self)@,
            old(self)@.well_formed() ==> final(self)@.well_formed(),
    {
        match self.state {
            TradeState::Draft => {
                self.push_history(
                    user_id,
                    TradeState::Draft,
                    TradeState::PendingApproval,
                    notes,
                );
                self.state = TradeState::PendingApproval;
                proof {
                    lemma_step_keeps_well_formed(old(self)@, self@);
                }
                Ok(())
            },
            _ => Err(TradeError::NotValid),
        }
    }

    /// The approver's answer to a pending trade: `None` approves it as it is, `Some`
    /// replaces its details and sends it back to the requester for re-approval.
    pub fn accept(
        &mut self,
        user_id: UserId,
        notes: String,
        details: Option<TradeDetails>,
    ) -> (result: Result<(), TradeError>)
        requires
            accept_outcome(old(self)@, user_id, proposed(details)) is Ok
                ==> old(self)@.history_counter < u64::MAX,
        ensures
            result == accept_outcome(old(self)@, user_id, proposed(details)),
            result is Ok ==> advanced(
                old(self)@,
                final(self)@,
                user_id,
                accept_target(proposed(details)),
                notes@,
            ) && final(self)@.details == (match details {
                Some(d) => d,
                None => old(self)@.details,
            }),
            result is Err ==> final(self)@ == old(self)@,
            old(self)@.well_formed() ==> final(self)@.well_formed(),
    {
        if self.requester_id == user_id {
            return Err(TradeError::NotAuthorized);
        }
        match details {
            Some(details) => match details.validate() {
                Ok(_) => match self.state {
                    TradeState::PendingApproval => {
                        self.push_history(
                            user_id,
                            TradeState::PendingApproval,
                            TradeState::NeedsReapproval,
                            notes,
                        );
                        self.state = TradeState::NeedsReapproval;
                        self.details = details;
                        proof {
                            lemma_step_keeps_well_formed(old(self)@, self@);
                        }
                        Ok(())
                    },
                    _ => Err(TradeError::NotValid),
                },
                Err(e) => Err(e),
            },
            None => match self.state {
                TradeState::PendingApproval => {
                    self.push_history(
                        user_id,
                        TradeState::PendingApproval,
                        TradeState::Approved,
                        notes,
                    );
                    self.state = TradeState::Approved;
                    proof {
                        lemma_step_keeps_well_formed(old(self)@, self@);
                    }
                    Ok(())
                },
                _ => Err(TradeError::NotValid),
            },
        }
    }

    /// The requester's re-approval of details that the approver changed.
    pub fn approve(&mut self, user_id: UserId, notes: String) -> (result: Result<(), TradeError>)
        requires
            approve_outcome(old(self)@, user_id) is Ok ==> old(self)@.history_counter < u64::MAX,
        ensures
            result == approve_outcome(old(self)@, user_id),
            result is Ok ==> advanced(
                old(self)@,
                final(self)@,
                user_id,
                TradeState::Approved,
                notes@,
            ) && final(self)@.details == old(self)@.details,
            result is Err ==> final(self)@ == old(self)@,
            old(self)@.well_formed() ==> final(self)@.well_formed(),
    {
        match self.state {
            TradeState::NeedsReapproval => {
                if self.requester_id != user_id {
                    return Err(TradeError::NotAuthorized);
                }
                self.push_history(
                    user_id,
                    TradeState::NeedsReapproval,
                    TradeState::Approved,
                    notes,
                );
                self.state = TradeState::Approved;
                proof {
                    lemma_step_keeps_well_formed(old(self)@, self@);
                }
                Ok(())
            },
            _ => Err(TradeError::NotValid),
        }
    }

    /// Cancels a trade that is neither executed nor cancelled.
    pub fn cancel(&mut self, user_id: UserId, notes: String) -> (result: Result<(), TradeError>)
        requires
            cancel_outcome(old(self)@) is Ok ==> old(self)@.history_counter < u64::MAX,
        ensures
            result == cancel_outcome(old(self)@),
            result is Ok ==> advanced(
                old(self)@,
                final(self)@,
                user_id,
                TradeState::Cancelled,
                notes@,
            ) && final(self)@.details == old(self)@.details,
            result is Err ==> final(self)@ == old(self)@,
            old(self)@.well_formed() ==> final(self)@.well_formed(),
    {
        let cancellable = match self.state {
            TradeState::Draft => true,
            TradeState::NeedsReapproval => true,
            TradeState::PendingApproval => true,
            TradeState::Approved => true,
            TradeState::SendToCounterparty => true,
            _ => false,
        };
        if !cancellable {
            return Err(TradeError::NotValid);
        }
        let state = self.state;
        self.state = TradeState::Cancelled;
        self.push_history(user_id, state, TradeState::Cancelled, notes);
        proof {
            lemma_step_keeps_well_formed(old(self)@, self@);
        }
        Ok(())
    }

    /// Sends an approved trade to the counterparty.
    pub fn send_to_execute(&mut self, user_id: UserId, notes: String) -> (result: Result<
        (),
        TradeError,
    >)
        requires
            send_outcome(old(self)@) is Ok ==> old(self)@.history_counter < u64::MAX,
        ensures
            result == send_outcome(old(self)@),
            result is Ok ==> advanced(
                old(self)@,
                final(self)@,
                user_id,
                TradeState::SendToCounterparty,
                notes@,
            ) && final(self)@.details == old(self)@.details,
            result is Err ==> final(self)@ == old(self)@,
            old(self)@.well_formed() ==> final(self)@.well_formed(),
    {
        match self.state {
            TradeState::Approved => {
                self.push_history(
                    user_id,
                    TradeState::Approved,
                    TradeState::SendToCounterparty,
                    notes,
                );
                self.state = TradeState::SendToCounterparty;
                proof {
                    lemma_step_keeps_well_formed(old(self)@, self@);
                }
                Ok(())
            },
            _ => Err(TradeError::NotValid),
        }
    }

    /// Books a trade that the counterparty executed, recording the agreed strike.
    pub fn book(&mut self, user_id: UserId, notes: String, strike: String) -> (result: Result<
        (),
        TradeError,
    >)
        requires
            book_outcome(old(self)@) is Ok ==> old(self)@.history_counter < u64::MAX,
        ensures
            result == book_outcome(old(self)@),
            result is Ok ==> advanced(
                old(self)@,
                final(self)@,
                user_id,
                TradeState::Executed,
                notes@,
            ) && final(self)@.details@ == (DetailsView {
                strike: Some(strike@),
                ..old(self)@.details@
            }),
            result is Err ==> final(self)@ == old(self)@,
            old(self)@.well_formed() ==> final(self)@.well_formed(),
    {
        match self.state {
            TradeState::SendToCounterparty => {
                self.push_history(
                    user_id,
                    TradeState::SendToCounterparty,
                    TradeState::Executed,
                    notes,
                );
                self.state = TradeState::Executed;
                self.details.strike = Some(strike);
                proof {
                    lemma_step_keeps_well_formed(old(self)@, self@);
                    assert(self@.details@ =~= (DetailsView {
                        strike: Some(strike@),
                        ..old(self)@.details@
                    }));
                }
                Ok(())
            },
            _ => Err(TradeError::NotValid),
        }
    }

    /// The distinct details this trade has had, in the order in which they first
    /// appear: those recorded in its history, then its current details where the
    /// history does not already hold them.
    pub fn versions(&self) -> (versions: Vec<&TradeDetails>)
        ensures
            detail_views(versions@) == versions_of(self@),
    {
        let mut versions: Vec<&TradeDetails> = Vec::new();
        let n: usize = self.history.len();
        let ghost recorded = snapshots(self@.history);
        for i in 0..n
            invariant
                n == self@.history.len(),
                recorded == snapshots(self@.history),
                detail_views(versions@) == distinct_in_order(recorded.take(i as int)),
        {
            let details = &self.history[i].details_before;
            let seen = recorded_among(&self.history, i, details);
            proof {
                let prefix = recorded.take(i + 1);
                assert(prefix.drop_last() =~= recorded.take(i as int));
                assert(prefix.last() == details@);
            }
            if !seen {
                versions.push(details);
                proof {
                    assert(detail_views(versions@) =~= distinct_in_order(recorded.take(i as int)).push(details@));
                }
            }
        }
        proof {
            assert(recorded.take(n as int) =~= recorded);
        }
        if !recorded_among(&self.history, n, &self.details) {
            versions.push(&self.details);
            proof {
                assert(detail_views(versions@) =~= distinct_in_order(recorded).push(self@.details@));
            }
        }
        versions
    }
}

/// A trade that moves along an allowed step by a user allowed to make it, recording
/// the move, stays well formed.
proof fn lemma_step_keeps_well_formed(old: TradeView, new: TradeView)
    requires
        new.history.len() == old.history.len() + 1,
        new.history == old.history.push(new.history.last()),
        new.history.last().state_before == old.state,
        new.history.last().state_after == new.state,
        new.history.last().id.0 == old.history_counter,
        new.history_counter == old.history_counter + 1,
        new.requester_id == old.requester_id,
        allowed_step(old.state, new.state),
        respects_roles(new.history.last(), new.requester_id),
    ensures
        old.well_formed() ==> new.well_formed(),
{
    if old.well_formed() {
        let h = new.history;
        let n: int = old.history.len() as int;
        assert forall|i: int| 0 <= i < n implies h[i] == old.history[i] by {}
        assert forall|i: int, j: int|
            0 <= i && j == i + 1 && j < h.len() implies #[trigger] h[i].state_after
            == #[trigger] h[j].state_before by {
            if j < n {
                assert(old.history[i].state_after == old.history[j].state_before);
            }
        }
        assert forall|i: int| 0 <= i < h.len() implies (#[trigger] h[i]).id.0 == i + 1 by {
            if i < n {
                assert(old.history[i].id.0 == i + 1);
            }
        }
        assert forall|i: int| 0 <= i < h.len() implies allowed_step(
            #[trigger] h[i].state_before,
            h[i].state_after,
        ) by {
            if i < n {
                assert(allowed_step(old.history[i].state_before, old.history[i].state_after));
            }
        }
        assert forall|i: int| 0 <= i < h.len() implies respects_roles(
            #[trigger] h[i],
            new.requester_id,
        ) by {
            if i < n {
                assert(respects_roles(old.history[i], old.requester_id));
            }
        }
    }
}

} // verus!
