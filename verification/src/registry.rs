use vstd::prelude::*;

use std::collections::HashMap;

use crate::date::{date_text, Date};
use crate::error::TradeError;
use crate::history::{History, HistoryId};
use crate::text::{decimal, push_decimal};
use crate::trade::{
    accept_outcome, accept_target, advanced, approve_outcome, book_outcome, cancel_outcome,
    currency_code, details_valid, direction_text, optional_text, proposed, send_outcome,
    submit_outcome,
    versions_of, DetailsView, Direction, NotionalCurrency, Trade, TradeDetails, TradeId,
    TradeState, TradeVersion, TradeView,
};
use crate::user::UserId;

verus! {

/// A field-level comparison of two sets of details: each field is `None` where the two
/// agree and `Some((before, after))` where they differ.
#[derive(Debug, PartialEq, Eq)]
pub struct TradeDifference {
    pub trading_entity: Option<(String, String)>,
    pub counterparty: Option<(String, String)>,
    pub direction: Option<(Direction, Direction)>,
    pub style: Option<(String, String)>,
    pub notional_currency: Option<(NotionalCurrency, NotionalCurrency)>,
    pub notional_amount: Option<(u64, u64)>,
    pub underlying: Option<(String, String)>,
    pub trade_date: Option<(Date, Date)>,
    pub value_date: Option<(Date, Date)>,
    pub delivery_date: Option<(Date, Date)>,
    pub strike: Option<(Option<String>, Option<String>)>,
}

/// `change` compares the strings `a` and `b`.
pub open spec fn text_change(change: Option<(String, String)>, a: Seq<char>, b: Seq<char>) -> bool {
    match change {
        None => a == b,
        Some(pair) => a != b && pair.0@ == a && pair.1@ == b,
    }
}

/// `change` compares the plain values `a` and `b`.
pub open spec fn value_change<T>(change: Option<(T, T)>, a: T, b: T) -> bool {
    match change {
        None => a == b,
        Some(pair) => a != b && pair.0 == a && pair.1 == b,
    }
}

/// `change` compares the dates `a` and `b`.
pub open spec fn date_change(change: Option<(Date, Date)>, a: (i32, u32, u32), b: (i32, u32, u32)) -> bool {
    match change {
        None => a == b,
        Some(pair) => a != b && pair.0@ == a && pair.1@ == b,
    }
}

/// `change` compares the optional strikes `a` and `b`.
pub open spec fn strike_change(
    change: Option<(Option<String>, Option<String>)>,
    a: Option<Seq<char>>,
    b: Option<Seq<char>>,
) -> bool {
    match change {
        None => a == b,
        Some(pair) => a != b && optional_text(pair.0) == a && optional_text(pair.1) == b,
    }
}

/// `d` compares the details `a` and `b` field by field, the version aside.
pub open spec fn describes(d: TradeDifference, a: DetailsView, b: DetailsView) -> bool {
    &&& text_change(d.trading_entity, a.trading_entity, b.trading_entity)
    &&& text_change(d.counterparty, a.counterparty, b.counterparty)
    &&& value_change(d.direction, a.direction, b.direction)
    &&& text_change(d.style, a.style, b.style)
    &&& value_change(d.notional_currency, a.notional_currency, b.notional_currency)
    &&& value_change(d.notional_amount, a.notional_amount, b.notional_amount)
    &&& text_change(d.underlying, a.underlying, b.underlying)
    &&& date_change(d.trade_date, a.trade_date, b.trade_date)
    &&& date_change(d.value_date, a.value_date, b.value_date)
    &&& date_change(d.delivery_date, a.delivery_date, b.delivery_date)
    &&& strike_change(d.strike, a.strike, b.strike)
}

/// `a` and `b` agree in every field but, perhaps, the version.
pub open spec fn same_terms(a: DetailsView, b: DetailsView) -> bool {
    a == DetailsView { version: a.version, ..b }
}

/// `s` padded with spaces on the right to at least `width` characters.
pub open spec fn padded(s: Seq<char>, width: nat) -> Seq<char> {
    if s.len() >= width {
        s
    } else {
        s + Seq::new((width - s.len()) as nat, |i: int| ' ')
    }
}

/// The line that shows a field changing from `before` to `after`.
pub open spec fn change_line(name: Seq<char>, before: Seq<char>, after: Seq<char>) -> Seq<char> {
    "  "@ + padded(name, 20) + " "@ + before + " -> "@ + after + "\n"@
}

/// The line for a field, empty where the field did not change.
pub open spec fn field_line(name: Seq<char>, change: Option<(Seq<char>, Seq<char>)>) -> Seq<char> {
    match change {
        Some(pair) => change_line(name, pair.0, pair.1),
        None => Seq::empty(),
    }
}

/// The texts of a change of strings.
pub open spec fn text_texts(change: Option<(String, String)>) -> Option<(Seq<char>, Seq<char>)> {
    match change {
        Some(pair) => Some((pair.0@, pair.1@)),
        None => None,
    }
}

/// The texts of a change of direction.
pub open spec fn direction_texts(change: Option<(Direction, Direction)>) -> Option<
    (Seq<char>, Seq<char>),
> {
    match change {
        Some(pair) => Some((direction_text(pair.0), direction_text(pair.1))),
        None => None,
    }
}

/// The texts of a change of currency.
pub open spec fn currency_texts(change: Option<(NotionalCurrency, NotionalCurrency)>) -> Option<
    (Seq<char>, Seq<char>),
> {
    match change {
        Some(pair) => Some((currency_code(pair.0), currency_code(pair.1))),
        None => None,
    }
}

/// The texts of a change of amount.
pub open spec fn amount_texts(change: Option<(u64, u64)>) -> Option<(Seq<char>, Seq<char>)> {
    match change {
        Some(pair) => Some((decimal(pair.0 as nat), decimal(pair.1 as nat))),
        None => None,
    }
}

/// The texts of a change of date.
pub open spec fn date_texts(change: Option<(Date, Date)>) -> Option<(Seq<char>, Seq<char>)> {
    match change {
        Some(pair) => Some((date_text(pair.0@), date_text(pair.1@))),
        None => None,
    }
}

/// The text of an optional strike: the strike, or `None`.
pub open spec fn strike_text(strike: Option<String>) -> Seq<char> {
    match strike {
        Some(s) => s@,
        None => "None"@,
    }
}

/// The texts of a change of strike.
pub open spec fn strike_texts(change: Option<(Option<String>, Option<String>)>) -> Option<
    (Seq<char>, Seq<char>),
> {
    match change {
        Some(pair) => Some((strike_text(pair.0), strike_text(pair.1))),
        None => None,
    }
}

impl TradeDifference {
    /// No field changed.
    pub open spec fn no_changes(self) -> bool {
        &&& self.trading_entity is None
        &&& self.counterparty is None
        &&& self.direction is None
        &&& self.style is None
        &&& self.notional_currency is None
        &&& self.notional_amount is None
        &&& self.underlying is None
        &&& self.trade_date is None
        &&& self.value_date is None
        &&& self.delivery_date is None
        &&& self.strike is None
    }

    /// The text of the difference: `(no changes)` where no field changed, else one line
    /// per changed field, in the order of the fields.
    pub open spec fn text(self) -> Seq<char> {
        if self.no_changes() {
            "(no changes)"@
        } else {
            field_line("trading_entity:"@, text_texts(self.trading_entity)) + field_line(
                "counterparty:"@,
                text_texts(self.counterparty),
            ) + field_line("direction:"@, direction_texts(self.direction)) + field_line(
                "style:"@,
                text_texts(self.style),
            ) + field_line("notional_currency:"@, currency_texts(self.notional_currency))
                + field_line("notional_amount:"@, amount_texts(self.notional_amount))
                + field_line("underlying:"@, text_texts(self.underlying)) + field_line(
                "trade_date:"@,
                date_texts(self.trade_date),
            ) + field_line("value_date:"@, date_texts(self.value_date)) + field_line(
                "delivery_date:"@,
                date_texts(self.delivery_date),
            ) + field_line("strike:"@, strike_texts(self.strike))
        }
    }

    pub fn is_empty(&self) -> (empty: bool)
        ensures
            empty == self.no_changes(),
    {
        self.trading_entity.is_none() && self.counterparty.is_none() && self.direction.is_none()
            && self.style.is_none() && self.notional_currency.is_none()
            && self.notional_amount.is_none() && self.underlying.is_none()
            && self.trade_date.is_none() && self.value_date.is_none()
            && self.delivery_date.is_none() && self.strike.is_none()
    }

    /// The difference as text, one line `  <field padded to 20> <before> -> <after>`
    /// per changed field.
    pub fn to_string(&self) -> (text: String)
        ensures
            text@ == self.text(),
    {
        if self.is_empty() {
            return String::from_str("(no changes)");
        }
        let mut out = String::new();
        push_text_field(&mut out, "trading_entity:", &self.trading_entity);
        push_text_field(&mut out, "counterparty:", &self.counterparty);
        if let Some((before, after)) = &self.direction {
            let b = before.to_string();
            let a = after.to_string();
            push_line(&mut out, "direction:", b.as_str(), a.as_str());
        }
        push_text_field(&mut out, "style:", &self.style);
        if let Some((before, after)) = &self.notional_currency {
            let b = before.to_string();
            let a = after.to_string();
            push_line(&mut out, "notional_currency:", b.as_str(), a.as_str());
        }
        if let Some((before, after)) = &self.notional_amount {
            let mut b = String::new();
            push_decimal(&mut b, *before);
            let mut a = String::new();
            push_decimal(&mut a, *after);
            push_line(&mut out, "notional_amount:", b.as_str(), a.as_str());
        }
        push_text_field(&mut out, "underlying:", &self.underlying);
        push_date_field(&mut out, "trade_date:", &self.trade_date);
        push_date_field(&mut out, "value_date:", &self.value_date);
        push_date_field(&mut out, "delivery_date:", &self.delivery_date);
        if let Some((before, after)) = &self.strike {
            let b = strike_str(before);
            let a = strike_str(after);
            push_line(&mut out, "strike:", b, a);
        }
        proof {
            assert(out@ =~= self.text());
        }
        out
    }
}

/// Appends the line for a field of strings.
fn push_text_field(out: &mut String, name: &str, change: &Option<(String, String)>)
    ensures
        final(out)@ == old(out)@ + field_line(name@, text_texts(*change)),
{
    if let Some((before, after)) = change {
        push_line(out, name, before.as_str(), after.as_str());
    } else {
        assert(old(out)@ + field_line(name@, text_texts(*change)) =~= old(out)@);
    }
}

/// Appends the line for a field of dates.
fn push_date_field(out: &mut String, name: &str, change: &Option<(Date, Date)>)
    ensures
        final(out)@ == old(out)@ + field_line(name@, date_texts(*change)),
{
    if let Some((before, after)) = change {
        let b = before.to_string();
        let a = after.to_string();
        push_line(out, name, b.as_str(), a.as_str());
    } else {
        assert(old(out)@ + field_line(name@, date_texts(*change)) =~= old(out)@);
    }
}

fn strike_str(strike: &Option<String>) -> (text: &str)
    ensures
        text@ == strike_text(*strike),
{
    match strike {
        Some(s) => s.as_str(),
        None => "None",
    }
}

/// Appends `change_line(name, before, after)` to `out`.
fn push_line(out: &mut String, name: &str, before: &str, after: &str)
    ensures
        final(out)@ == old(out)@ + change_line(name@, before@, after@),
{
    out.append("  ");
    out.append(name);
    let ghost prefix = out@;
    let width: usize = name.unicode_len();
    let mut written: usize = width;
    while written < 20
        invariant
            width == name@.len(),
            width <= written,
            written <= 20 || written == width,
            out@ == prefix + Seq::new((written - width) as nat, |i: int| ' '),
        decreases 20 - written,
    {
        let ghost before_space = out@;
        out.append(" ");
        written = written + 1;
        proof {
            reveal_strlit(" ");
            assert(" "@ =~= seq![' ']);
            assert(out@ =~= prefix + Seq::new((written - width) as nat, |i: int| ' '));
        }
    }
    proof {
        assert(padded(name@, 20) =~= name@ + Seq::new((written - width) as nat, |i: int| ' '));
    }
    out.append(" ");
    out.append(before);
    out.append(" -> ");
    out.append(after);
    out.append("\n");
    proof {
        assert(out@ =~= old(out)@ + change_line(name@, before@, after@));
    }
}

/// How many history entries sent the trade back for re-approval, that is, how many
/// times the approver revised its details.
pub open spec fn revisions(h: Seq<History>) -> nat
    decreases h.len(),
{
    if h.len() == 0 {
        0
    } else {
        revisions(h.drop_last()) + if h.last().state_after == TradeState::NeedsReapproval {
            1nat
        } else {
            0nat
        }
    }
}

proof fn lemma_revisions_push(h: Seq<History>, e: History)
    ensures
        revisions(h.push(e)) == revisions(h) + if e.state_after == TradeState::NeedsReapproval {
            1nat
        } else {
            0nat
        },
{
    assert(h.push(e).drop_last() =~= h);
}

proof fn lemma_revisions_bounded(h: Seq<History>)
    ensures
        revisions(h) <= h.len(),
    decreases h.len(),
{
    if h.len() > 0 {
        lemma_revisions_bounded(h.drop_last());
    }
}

/// A move recorded by `advanced` adds one revision exactly when it sends the trade
/// back for re-approval.
proof fn lemma_advanced_revisions(
    old: TradeView,
    new: TradeView,
    user: UserId,
    after: TradeState,
    notes: Seq<char>,
)
    requires
        advanced(old, new, user, after, notes),
    ensures
        revisions(new.history) == revisions(old.history) + if after
            == TradeState::NeedsReapproval {
            1nat
        } else {
            0nat
        },
{
    assert(new.history =~= old.history.push(new.history.last()));
    lemma_revisions_push(old.history, new.history.last());
}

/// Filing a well-formed trade again under its own number, with the version still one
/// more than its revisions, keeps a registry consistent.
proof fn lemma_refile(old: RegistryView, k: u64, t: TradeView)
    requires
        old.consistent(),
        old.trades.contains_key(k),
        t.id == old.trades[k].id,
        t.well_formed(),
        t.details.version.0 == 1 + revisions(t.history),
    ensures
        (RegistryView { trades: old.trades.insert(k, t), ..old }).consistent(),
{
}

/// The contents of a registry: its trades by number, and the number that the next
/// trade will get.
pub struct RegistryView {
    pub trades: Map<u64, TradeView>,
    pub next_trade_id: u64,
}

impl RegistryView {
    /// Every trade is filed under its own number, below the next number; its history
    /// is consistent with its state; and its details' version is one more than the
    /// number of times the approver revised them.
    pub open spec fn consistent(self) -> bool {
        &&& self.next_trade_id >= 1
        &&& forall|k: u64| #[trigger]
            self.trades.contains_key(k) ==> {
                &&& 1 <= k < self.next_trade_id
                &&& self.trades[k].id.0 == k
                &&& self.trades[k].well_formed()
                &&& self.trades[k].details.version.0 == 1 + revisions(self.trades[k].history)
            }
    }

    /// The trade filed under `id`, if any.
    pub open spec fn lookup(self, id: TradeId) -> Option<TradeView> {
        if self.trades.contains_key(id.0) {
            Some(self.trades[id.0])
        } else {
            None
        }
    }
}

/// `new` differs from `old` at most in the trade filed under `k`, which both hold.
pub open spec fn changed_only(old: RegistryView, new: RegistryView, k: u64) -> bool {
    &&& new.next_trade_id == old.next_trade_id
    &&& old.trades.contains_key(k)
    &&& new.trades == old.trades.insert(k, new.trades[k])
}

/// How the trade filed under `k` in `old` stands in `new`: where `recorded`, with the
/// same history and one more entry after it; otherwise unchanged.
pub open spec fn follows(old: RegistryView, new: RegistryView, k: u64, recorded: bool) -> bool {
    old.trades.contains_key(k) ==> {
        &&& new.trades.contains_key(k)
        &&& if recorded {
            &&& new.trades[k].history.len() == old.trades[k].history.len() + 1
            &&& new.trades[k].history.take(old.trades[k].history.len() as int)
                == old.trades[k].history
        } else {
            new.trades[k] == old.trades[k]
        }
    }
}

/// `t` is the trade that `create_trade` files: a draft with no history, whose details
/// are `details` at version 1.
pub open spec fn created(t: TradeView, id: TradeId, requester: UserId, details: DetailsView) -> bool {
    &&& t.id == id
    &&& t.requester_id == requester
    &&& t.state == TradeState::Draft
    &&& t.history.len() == 0
    &&& t.history_counter == 1
    &&& t.details@ == (DetailsView { version: 1, ..details })
}

/// The proposed details of `accept`, taken by their views, at the version `version`.
pub open spec fn revised(details: Option<TradeDetails>, version: u64) -> Option<DetailsView> {
    match details {
        Some(d) => Some(DetailsView { version, ..d@ }),
        None => None,
    }
}

/// The first of `versions` whose version number is `v`.
pub open spec fn first_with_version(versions: Seq<DetailsView>, v: u64) -> Option<DetailsView>
    decreases versions.len(),
{
    if versions.len() == 0 {
        None
    } else if versions[0].version == v {
        Some(versions[0])
    } else {
        first_with_version(versions.drop_first(), v)
    }
}

/// All trades, by identifier.
pub struct TradeRegistry {
    trades: HashMap<u64, Trade>,
    next_trade_id: u64,
}

impl View for TradeRegistry {
    type V = RegistryView;

    closed spec fn view(&self) -> RegistryView {
        RegistryView {
            trades: self.trades@.map_values(|t: Trade| t@),
            next_trade_id: self.next_trade_id,
        }
    }
}

impl TradeRegistry {
    #[verifier::type_invariant]
    closed spec fn consistent(self) -> bool {
        self@.consistent()
    }

    /// An empty registry whose first trade will get number 1.
    pub fn new() -> (registry: TradeRegistry)
        ensures
            registry@.trades == Map::<u64, TradeView>::empty(),
            registry@.next_trade_id == 1,
            registry@.consistent(),
    {
        let registry = TradeRegistry { trades: HashMap::new(), next_trade_id: 1 };
        proof {
            assert(registry@.trades =~= Map::<u64, TradeView>::empty());
        }
        registry
    }

    /// Hands out the next trade number.
    pub fn next_trade_id(&mut self) -> (id: TradeId)
        requires
            old(self)@.next_trade_id < u64::MAX,
        ensures
            id.0 == old(self)@.next_trade_id,
            final(self)@.next_trade_id == old(self)@.next_trade_id + 1,
            final(self)@.trades == old(self)@.trades,
            forall|j: u64| #[trigger] follows(old(self)@, final(self)@, j, false),
            final(self)@.consistent(),
    {
        proof {
            use_type_invariant(&*self);
        }
        let id = TradeId::new(self.next_trade_id);
        self.next_trade_id = self.next_trade_id + 1;
        proof {
            use_type_invariant(&*self);
        }
        id
    }

    /// Validates `details` and files them as a new draft trade of `requester_id`, at
    /// version 1, under the next trade number.
    pub fn create_trade(&mut self, requester_id: UserId, details: TradeDetails) -> (result: Result<
        TradeId,
        TradeError,
    >)
        requires
            details_valid(details@) ==> old(self)@.next_trade_id < u64::MAX,
        ensures
            result is Ok <==> details_valid(details@),
            result matches Ok(id) ==> {
                &&& id.0 == old(self)@.next_trade_id
                &&& !old(self)@.trades.contains_key(id.0)
                &&& final(self)@.next_trade_id == old(self)@.next_trade_id + 1
                &&& final(self)@.trades == old(self)@.trades.insert(id.0, final(self)@.trades[id.0])
                &&& created(final(self)@.trades[id.0], id, requester_id, details@)
            },
            result is Err ==> result == Err::<TradeId, TradeError>(TradeError::NotValid)
                && final(self)@ == old(self)@,
            forall|j: u64| #[trigger] follows(old(self)@, final(self)@, j, false),
            final(self)@.consistent(),
    {
        broadcast use vstd::std_specs::hash::group_hash_axioms;

        proof {
            use_type_invariant(&*self);
        }
        let mut details = details;
        match details.validate() {
            Ok(_) => {
                let id = self.next_trade_id();
                details.version = TradeVersion::new(1);
                let trade = Trade::new(id, requester_id, details);
                let ghost before = self@;
                let mut trades = HashMap::new();
                std::mem::swap(&mut trades, &mut self.trades);
                trades.insert(id.0, trade);
                proof {
                    assert(trades@.map_values(|t: Trade| t@) =~= before.trades.insert(id.0, trade@));
                    assert(trade@.details@ =~= (DetailsView { version: 1, ..details@ }));
                }
                self.trades = trades;
                proof {
                    use_type_invariant(&*self);
                }
                Ok(id)
            },
            Err(_) => Err(TradeError::NotValid),
        }
    }

    /// The trade filed under `trade_id`.
    pub fn get_trade(&self, trade_id: TradeId) -> (result: Result<&Trade, TradeError>)
        ensures
            match result {
                Ok(trade) => self@.lookup(trade_id) == Some(trade@),
                Err(e) => self@.lookup(trade_id) is None && e == TradeError::NotFound,
            },
            self@.consistent(),
    {
        broadcast use vstd::std_specs::hash::group_hash_axioms;

        proof {
            use_type_invariant(self);
        }
        match self.trades.get(&trade_id.0) {
            Some(trade) => Ok(trade),
            None => Err(TradeError::NotFound),
        }
    }

    /// The audit trail of the trade filed under `trade_id`.
    pub fn get_history(&self, trade_id: TradeId) -> (result: Result<&Vec<History>, TradeError>)
        ensures
            match result {
                Ok(history) => self@.lookup(trade_id) matches Some(t) && history@ == t.history,
                Err(e) => self@.lookup(trade_id) is None && e == TradeError::NotFound,
            },
    {
        match self.get_trade(trade_id) {
            Ok(trade) => Ok(trade.history_entries()),
            Err(e) => Err(e),
        }
    }

    /// The entry numbered `history_id` in the audit trail of the trade filed under
    /// `trade_id`.
    pub fn get_history_at(&self, trade_id: TradeId, history_id: HistoryId) -> (result: Result<
        &History,
        TradeError,
    >)
        ensures
            match result {
                Ok(entry) => self@.lookup(trade_id) matches Some(t) && 1 <= history_id.0
                    <= t.history.len() && *entry == t.history[history_id.0 - 1],
                Err(e) => e == TradeError::NotFound && (self@.lookup(trade_id) matches Some(t)
                    ==> !(1 <= history_id.0 <= t.history.len())),
            },
    {
        proof {
            use_type_invariant(self);
        }
        let history = match self.get_history(trade_id) {
            Ok(history) => history,
            Err(e) => return Err(e),
        };
        let ghost t = self@.lookup(trade_id)->Some_0;
        assert(self@.trades.contains_key(trade_id.0));
        assert(t.well_formed());
        let mut i: usize = 0;
        while i < history.len()
            invariant
                history@ == t.history,
                self@.lookup(trade_id) == Some(t),
                t.well_formed(),
                i <= history@.len(),
                forall|j: int| 0 <= j < i ==> history@[j].id != history_id,
            decreases history@.len() - i,
        {
            if history[i].id == history_id {
                assert(history@[i as int].id.0 == i + 1);
                return Ok(&history[i]);
            }
            i = i + 1;
        }
        proof {
            if 1 <= history_id.0 <= t.history.len() {
                assert(history@[history_id.0 - 1].id.0 == history_id.0);
            }
        }
        Err(TradeError::NotFound)
    }

    /// The details of the trade filed under `trade_id` at the versions `version_one`
    /// and `version_two`, each the first of the trade's distinct details with that
    /// version.
    pub fn diff_version(
        &self,
        trade_id: TradeId,
        version_one: TradeVersion,
        version_two: TradeVersion,
    ) -> (result: Result<(&TradeDetails, &TradeDetails), TradeError>)
        ensures
            result is Ok <==> (self@.lookup(trade_id) matches Some(t) && first_with_version(
                versions_of(t),
                version_one.0,
            ) is Some && first_with_version(versions_of(t), version_two.0) is Some),
            result matches Ok((one, two)) ==> self@.lookup(trade_id) matches Some(t)
                && first_with_version(versions_of(t), version_one.0) == Some(one@)
                && first_with_version(versions_of(t), version_two.0) == Some(two@),
            result is Err ==> result == Err::<(&TradeDetails, &TradeDetails), TradeError>(
                TradeError::NotFound,
            ),
    {
        let trade = match self.get_trade(trade_id) {
            Ok(trade) => trade,
            Err(e) => return Err(e),
        };
        let versions = trade.versions();
        let one = match find_version(&versions, &version_one) {
            Some(one) => one,
            None => return Err(TradeError::NotFound),
        };
        let two = match find_version(&versions, &version_two) {
            Some(two) => two,
            None => return Err(TradeError::NotFound),
        };
        Ok((one, two))
    }

    /// Takes the trade filed under `k` out, with the other trades beside it, leaving
    /// the registry empty; `None`, with nothing changed, where no trade has that number.
    fn check_out(&mut self, k: u64) -> (out: Option<(HashMap<u64, Trade>, Trade)>)
        ensures
            old(self)@.consistent(),
            match out {
                None => !old(self)@.trades.contains_key(k) && final(self)@ == old(self)@,
                Some((rest, trade)) => {
                    &&& old(self)@.trades.contains_key(k)
                    &&& trade@ == old(self)@.trades[k]
                    &&& rest@.map_values(|t: Trade| t@) == old(self)@.trades.remove(k)
                    &&& final(self)@.trades == Map::<u64, TradeView>::empty()
                    &&& final(self)@.next_trade_id == old(self)@.next_trade_id
                },
            },
    {
        broadcast use vstd::std_specs::hash::group_hash_axioms;

        proof {
            use_type_invariant(&*self);
        }
        if !self.trades.contains_key(&k) {
            return None;
        }
        let mut trades = HashMap::new();
        std::mem::swap(&mut trades, &mut self.trades);
        proof {
            assert(self@.trades =~= Map::<u64, TradeView>::empty());
        }
        match trades.remove(&k) {
            Some(trade) => {
                proof {
                    assert(trades@.map_values(|t: Trade| t@) =~= old(self)@.trades.remove(k));
                }
                Some((trades, trade))
            },
            None => {
                proof {
                    assert(false);
                }
                None
            },
        }
    }

    /// Files `trade` under `k` beside `rest`.
    fn check_in(&mut self, rest: HashMap<u64, Trade>, k: u64, trade: Trade)
        requires
            (RegistryView {
                trades: rest@.map_values(|t: Trade| t@).insert(k, trade@),
                next_trade_id: old(self)@.next_trade_id,
            }).consistent(),
        ensures
            final(self)@ == (RegistryView {
                trades: rest@.map_values(|t: Trade| t@).insert(k, trade@),
                next_trade_id: old(self)@.next_trade_id,
            }),
    {
        broadcast use vstd::std_specs::hash::group_hash_axioms;

        let mut rest = rest;
        let ghost before = rest@;
        rest.insert(k, trade);
        proof {
            assert(rest@.map_values(|t: Trade| t@) =~= before.map_values(|t: Trade| t@).insert(
                k,
                trade@,
            ));
        }
        self.trades = rest;
    }

    /// Submits the draft filed under `trade_id` for approval.
    pub fn submit(&mut self, trade_id: TradeId, user_id: UserId, notes: String) -> (result: Result<
        (),
        TradeError,
    >)
        ensures
            result == (match old(self)@.lookup(trade_id) {
                Some(t) => submit_outcome(t),
                None => Err(TradeError::NotFound),
            }),
            result is Ok ==> changed_only(old(self)@, final(self)@, trade_id.0) && advanced(
                old(self)@.trades[trade_id.0],
                final(self)@.trades[trade_id.0],
                user_id,
                TradeState::PendingApproval,
                notes@,
            ) && final(self)@.trades[trade_id.0].details == old(self)@.trades[trade_id.0].details,
            result is Err ==> final(self)@ == old(self)@,
            follows(old(self)@, final(self)@, trade_id.0, result is Ok),
            forall|j: u64| j != trade_id.0 ==> #[trigger] follows(old(self)@, final(self)@, j, false),
            final(self)@.consistent(),
    {
        let k: u64 = trade_id.0;
        let (rest, mut trade) = match self.check_out(k) {
            Some(taken) => taken,
            None => return Err(TradeError::NotFound),
        };
        let result = trade.submit(user_id, notes);
        proof {
            if result is Ok {
                lemma_advanced_revisions(
                    old(self)@.trades[k],
                    trade@,
                    user_id,
                    TradeState::PendingApproval,
                    notes@,
                );
            }
            lemma_refile(old(self)@, k, trade@);
            assert(rest@.map_values(|t: Trade| t@).insert(k, trade@) =~= old(self)@.trades.insert(
                k,
                trade@,
            ));
        }
        self.check_in(rest, k, trade);
        proof {
            if result is Err {
                assert(self@.trades =~= old(self)@.trades);
            }
        }
        result
    }

    /// The requester's re-approval of the trade filed under `trade_id`, after the approver
    /// revised its details.
    pub fn approve(&mut self, trade_id: TradeId, user_id: UserId, notes: String) -> (result: Result<
        (),
        TradeError,
    >)
        ensures
            result == (match old(self)@.lookup(trade_id) {
                Some(t) => approve_outcome(t, user_id),
                None => Err(TradeError::NotFound),
            }),
            result is Ok ==> changed_only(old(self)@, final(self)@, trade_id.0) && advanced(
                old(self)@.trades[trade_id.0],
                final(self)@.trades[trade_id.0],
                user_id,
                TradeState::Approved,
                notes@,
            ) && final(self)@.trades[trade_id.0].details == old(self)@.trades[trade_id.0].details,
            result is Err ==> final(self)@ == old(self)@,
            follows(old(self)@, final(self)@, trade_id.0, result is Ok),
            forall|j: u64| j != trade_id.0 ==> #[trigger] follows(old(self)@, final(self)@, j, false),
            final(self)@.consistent(),
    {
        let k: u64 = trade_id.0;
        let (rest, mut trade) = match self.check_out(k) {
            Some(taken) => taken,
            None => return Err(TradeError::NotFound),
        };
        let result = trade.approve(user_id, notes);
        proof {
            if result is Ok {
                lemma_advanced_revisions(
                    old(self)@.trades[k],
                    trade@,
                    user_id,
                    TradeState::Approved,
                    notes@,
                );
            }
            lemma_refile(old(self)@, k, trade@);
            assert(rest@.map_values(|t: Trade| t@).insert(k, trade@) =~= old(self)@.trades.insert(
                k,
                trade@,
            ));
        }
        self.check_in(rest, k, trade);
        proof {
            if result is Err {
                assert(self@.trades =~= old(self)@.trades);
            }
        }
        result
    }

    /// Cancels the trade filed under `trade_id` unless it is executed or cancelled.
    pub fn cancel(&mut self, trade_id: TradeId, user_id: UserId, notes: String) -> (result: Result<
        (),
        TradeError,
    >)
        ensures
            result == (match old(self)@.lookup(trade_id) {
                Some(t) => cancel_outcome(t),
                None => Err(TradeError::NotFound),
            }),
            result is Ok ==> changed_only(old(self)@, final(self)@, trade_id.0) && advanced(
                old(self)@.trades[trade_id.0],
                final(self)@.trades[trade_id.0],
                user_id,
                TradeState::Cancelled,
                notes@,
            ) && final(self)@.trades[trade_id.0].details == old(self)@.trades[trade_id.0].details,
            result is Err ==> final(self)@ == old(self)@,
            follows(old(self)@, final(self)@, trade_id.0, result is Ok),
            forall|j: u64| j != trade_id.0 ==> #[trigger] follows(old(self)@, final(self)@, j, false),
            final(self)@.consistent(),
    {
        let k: u64 = trade_id.0;
        let (rest, mut trade) = match self.check_out(k) {
            Some(taken) => taken,
            None => return Err(TradeError::NotFound),
        };
        let result = trade.cancel(user_id, notes);
        proof {
            if result is Ok {
                lemma_advanced_revisions(
                    old(self)@.trades[k],
                    trade@,
                    user_id,
                    TradeState::Cancelled,
                    notes@,
                );
            }
            lemma_refile(old(self)@, k, trade@);
            assert(rest@.map_values(|t: Trade| t@).insert(k, trade@) =~= old(self)@.trades.insert(
                k,
                trade@,
            ));
        }
        self.check_in(rest, k, trade);
        proof {
            if result is Err {
                assert(self@.trades =~= old(self)@.trades);
            }
        }
        result
    }

    /// Sends the approved trade filed under `trade_id` to the counterparty.
    pub fn send_to_execute(&mut self, trade_id: TradeId, user_id: UserId, notes: String) -> (result: Result<
        (),
        TradeError,
    >)
        ensures
            result == (match old(self)@.lookup(trade_id) {
                Some(t) => send_outcome(t),
                None => Err(TradeError::NotFound),
            }),
            result is Ok ==> changed_only(old(self)@, final(self)@, trade_id.0) && advanced(
                old(self)@.trades[trade_id.0],
                final(self)@.trades[trade_id.0],
                user_id,
                TradeState::SendToCounterparty,
                notes@,
            ) && final(self)@.trades[trade_id.0].details == old(self)@.trades[trade_id.0].details,
            result is Err ==> final(self)@ == old(self)@,
            follows(old(self)@, final(self)@, trade_id.0, result is Ok),
            forall|j: u64| j != trade_id.0 ==> #[trigger] follows(old(self)@, final(self)@, j, false),
            final(self)@.consistent(),
    {
        let k: u64 = trade_id.0;
        let (rest, mut trade) = match self.check_out(k) {
            Some(taken) => taken,
            None => return Err(TradeError::NotFound),
        };
        let result = trade.send_to_execute(user_id, notes);
        proof {
            if result is Ok {
                lemma_advanced_revisions(
                    old(self)@.trades[k],
                    trade@,
                    user_id,
                    TradeState::SendToCounterparty,
                    notes@,
                );
            }
            lemma_refile(old(self)@, k, trade@);
            assert(rest@.map_values(|t: Trade| t@).insert(k, trade@) =~= old(self)@.trades.insert(
                k,
                trade@,
            ));
        }
        self.check_in(rest, k, trade);
        proof {
            if result is Err {
                assert(self@.trades =~= old(self)@.trades);
            }
        }
        result
    }

    /// Books the trade filed under `trade_id`, sent to the counterparty, at the agreed
    /// strike.
    pub fn book(&mut self, trade_id: TradeId, user_id: UserId, notes: String, strike: String) -> (result: Result<
        (),
        TradeError,
    >)
        ensures
            result == (match old(self)@.lookup(trade_id) {
                Some(t) => book_outcome(t),
                None => Err(TradeError::NotFound),
            }),
            result is Ok ==> changed_only(old(self)@, final(self)@, trade_id.0) && advanced(
                old(self)@.trades[trade_id.0],
                final(self)@.trades[trade_id.0],
                user_id,
                TradeState::Executed,
                notes@,
            ) && final(self)@.trades[trade_id.0].details@ == (DetailsView {
                strike: Some(strike@),
                ..old(self)@.trades[trade_id.0].details@
            }),
            result is Err ==> final(self)@ == old(self)@,
            follows(old(self)@, final(self)@, trade_id.0, result is Ok),
            forall|j: u64| j != trade_id.0 ==> #[trigger] follows(old(self)@, final(self)@, j, false),
            final(self)@.consistent(),
    {
        let k: u64 = trade_id.0;
        let (rest, mut trade) = match self.check_out(k) {
            Some(taken) => taken,
            None => return Err(TradeError::NotFound),
        };
        let result = trade.book(user_id, notes, strike);
        proof {
            if result is Ok {
                lemma_advanced_revisions(
                    old(self)@.trades[k],
                    trade@,
                    user_id,
                    TradeState::Executed,
                    notes@,
                );
            }
            lemma_refile(old(self)@, k, trade@);
            assert(rest@.map_values(|t: Trade| t@).insert(k, trade@) =~= old(self)@.trades.insert(
                k,
                trade@,
            ));
        }
        self.check_in(rest, k, trade);
        proof {
            if result is Err {
                assert(self@.trades =~= old(self)@.trades);
            }
        }
        result
    }

    /// The approver's answer to the pending trade filed under `trade_id`: `None`
    /// approves it, `Some` replaces its details, at the next version, and sends it back
    /// to the requester.
    pub fn accept(
        &mut self,
        trade_id: TradeId,
        user_id: UserId,
        notes: String,
        details: Option<TradeDetails>,
    ) -> (result: Result<(), TradeError>)
        ensures
            result == (match old(self)@.lookup(trade_id) {
                Some(t) => accept_outcome(
                    t,
                    user_id,
                    revised(details, (t.details.version.0 + 1) as u64),
                ),
                None => Err(TradeError::NotFound),
            }),
            result is Ok ==> changed_only(old(self)@, final(self)@, trade_id.0) && advanced(
                old(self)@.trades[trade_id.0],
                final(self)@.trades[trade_id.0],
                user_id,
                accept_target(proposed(details)),
                notes@,
            ) && final(self)@.trades[trade_id.0].details@ == (match details {
                Some(d) => DetailsView {
                    version: (old(self)@.trades[trade_id.0].details.version.0 + 1) as u64,
                    ..d@
                },
                None => old(self)@.trades[trade_id.0].details@,
            }),
            result is Err ==> final(self)@ == old(self)@,
            follows(old(self)@, final(self)@, trade_id.0, result is Ok),
            forall|j: u64| j != trade_id.0 ==> #[trigger] follows(old(self)@, final(self)@, j, false),
            final(self)@.consistent(),
    {
        let k: u64 = trade_id.0;
        let (rest, mut trade) = match self.check_out(k) {
            Some(taken) => taken,
            None => return Err(TradeError::NotFound),
        };
        proof {
            lemma_revisions_bounded(trade@.history);
        }
        let details = match details {
            Some(d) => {
                let mut d = d;
                let version: u64 = trade.details_version();
                d.version = TradeVersion::new(version + 1);
                Some(d)
            },
            None => None,
        };
        let ghost target = accept_target(proposed(details));
        let result = trade.accept(user_id, notes, details);
        proof {
            if result is Ok {
                lemma_advanced_revisions(old(self)@.trades[k], trade@, user_id, target, notes@);
            }
            lemma_refile(old(self)@, k, trade@);
            assert(rest@.map_values(|t: Trade| t@).insert(k, trade@) =~= old(self)@.trades.insert(
                k,
                trade@,
            ));
        }
        self.check_in(rest, k, trade);
        proof {
            if result is Err {
                assert(self@.trades =~= old(self)@.trades);
            }
        }
        result
    }
}

/// The first of `versions` whose version is `version`.
fn find_version<'a>(versions: &Vec<&'a TradeDetails>, version: &TradeVersion) -> (found: Option<
    &'a TradeDetails,
>)
    ensures
        match found {
            Some(d) => first_with_version(crate::trade::detail_views(versions@), version.0) == Some(d@),
            None => first_with_version(crate::trade::detail_views(versions@), version.0) is None,
        },
{
    let ghost all = crate::trade::detail_views(versions@);
    assert(all.skip(0) =~= all);
    let mut i: usize = 0;
    while i < versions.len()
        invariant
            all == crate::trade::detail_views(versions@),
            i <= versions@.len(),
            first_with_version(all, version.0) == first_with_version(all.skip(i as int), version.0),
        decreases versions@.len() - i,
    {
        proof {
            assert(all.skip(i as int).drop_first() =~= all.skip(i + 1));
        }
        if versions[i].version == *version {
            return Some(versions[i]);
        }
        i = i + 1;
    }
    None
}

} // verus!
