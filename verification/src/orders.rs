use vstd::prelude::*;
use vstd::string::StringExecFns;
use crate::DecodeError;
use crate::decimal::Decimal;
use crate::decimal::dec_text;
use crate::json::JsonData;
use crate::json::JsonValue;
use crate::json::fields_view;
use crate::json::json_view;
use crate::json::lemma_fields_view_push;
use crate::json::lemma_fields_view;
use crate::json::str_eq;
use crate::json::spec_lookup;
use crate::json::lemma_lookup_concat;
use crate::json::spec_get_str;
use crate::json::spec_get_opt_str;
use crate::json::spec_get_decimal;
use crate::json::spec_get_opt_decimal;
use crate::json::spec_get_bool;
use crate::json::get_str;
use crate::json::get_opt_str;
use crate::json::get_decimal;
use crate::json::get_opt_decimal;
use crate::json::get_bool;

verus! {

broadcast use
    vstd::seq::axiom_seq_index_decreases,
    vstd::std_specs::vec::axiom_vec_index_decreases,
    vstd::std_specs::vec::axiom_vec_decreases_to_view;

/// Which way an order trades.
#[derive(Clone, Copy, Debug, PartialEq, Eq, Structural)]
pub enum Side {
    Buy,
    Sell,
}

/// How an order prices itself.
#[derive(Clone, Copy, Debug, PartialEq, Eq, Structural)]
pub enum OrderType {
    Market,
    Limit,
    Stop,
    StopLimit,
}

/// How long an order remains eligible for execution before automatic
/// expiry or cancellation.
#[derive(Clone, Copy, Debug, PartialEq, Eq, Structural)]
pub enum TimeInForce {
    /// Eligible only on the day it is live.
    Day,
    /// Good until canceled.
    Gtc,
    /// Eligible only in the market opening auction.
    Opg,
    /// Eligible only in the market closing auction.
    Cls,
    /// Immediate or cancel: any unfilled portion is canceled at once.
    Ioc,
    /// Fill or kill: executed only if the whole quantity can be filled.
    Fok,
}

/// The lifecycle state of an order, as the venue reports it. The model
/// only represents these states; it drives no transitions of its own.
#[derive(Clone, Copy, Debug, PartialEq, Eq, Structural)]
pub enum OrderStatus {
    /// Received and routed for execution: the usual initial state.
    New,
    PartiallyFilled,
    /// Terminal: completely filled.
    Filled,
    DoneForDay,
    /// Terminal: canceled by request or by time-in-force.
    Canceled,
    /// Terminal: expired.
    Expired,
    /// Terminal: replaced by another order.
    Replaced,
    PendingCancel,
    PendingReplace,
    /// Received but not yet routed; rare.
    Accepted,
    /// Routed but not yet accepted for execution; rare.
    PendingNew,
    /// Received by exchanges and evaluated for pricing; rare.
    AcceptedForBidding,
    /// A trade is guaranteed but has not yet occurred; rare.
    Stopped,
    /// Terminal: rejected by the venue.
    Rejected,
    /// Not eligible for trading; rare.
    Suspended,
    /// Done for the day with settlement calculations pending; rare.
    Calculated,
}

/// The multi-leg strategy an order belongs to.
#[derive(Clone, Copy, Debug, PartialEq, Eq, Structural)]
pub enum OrderClass {
    Simple,
    Bracket,
    Oco,
    Oto,
}

/// The lowercase wire tag of a side.
pub open spec fn spec_side_tag(v: Side) -> Seq<char> {
    match v {
        Side::Buy => "buy"@,
        Side::Sell => "sell"@,
    }
}

/// The side a wire tag denotes.
pub open spec fn spec_side_from_tag(t: Seq<char>) -> Result<Side, DecodeError> {
    if t == "buy"@ {
        Ok(Side::Buy)
    } else if t == "sell"@ {
        Ok(Side::Sell)
    } else {
        Err(DecodeError::UnrecognizedEnumTag)
    }
}

impl Side {
    /// The wire tag of this side.
    pub fn to_tag(&self) -> (r: &'static str)
        ensures
            r@ == spec_side_tag(*self),
    {
        match self {
            Side::Buy => "buy",
            Side::Sell => "sell",
        }
    }

    /// Parses a side's wire tag.
    pub fn from_tag(t: &str) -> (r: Result<Side, DecodeError>)
        ensures
            r == spec_side_from_tag(t@),
    {
        if str_eq(t, "buy") {
            Ok(Side::Buy)
        } else if str_eq(t, "sell") {
            Ok(Side::Sell)
        } else {
            Err(DecodeError::UnrecognizedEnumTag)
        }
    }
}

/// Round trip: every side decodes back from its own tag; a string outside
/// the tag set is rejected as an unrecognized tag.
pub proof fn lemma_side_tag_round_trip(v: Side, other: Seq<char>)
    requires
        other != "buy"@,
        other != "sell"@,
    ensures
        spec_side_from_tag(spec_side_tag(v)) == Ok::<Side, DecodeError>(v),
        spec_side_from_tag(other) == Err::<Side, DecodeError>(DecodeError::UnrecognizedEnumTag),
{
    reveal_strlit("buy");
    reveal_strlit("sell");
    assert("buy"@.len() == 3);
    assert("sell"@.len() == 4);
}

/// The lowercase wire tag of an order type.
pub open spec fn spec_order_type_tag(v: OrderType) -> Seq<char> {
    match v {
        OrderType::Market => "market"@,
        OrderType::Limit => "limit"@,
        OrderType::Stop => "stop"@,
        OrderType::StopLimit => "stop_limit"@,
    }
}

/// The order type a wire tag denotes.
pub open spec fn spec_order_type_from_tag(t: Seq<char>) -> Result<OrderType, DecodeError> {
    if t == "market"@ {
        Ok(OrderType::Market)
    } else if t == "limit"@ {
        Ok(OrderType::Limit)
    } else if t == "stop"@ {
        Ok(OrderType::Stop)
    } else if t == "stop_limit"@ {
        Ok(OrderType::StopLimit)
    } else {
        Err(DecodeError::UnrecognizedEnumTag)
    }
}

impl OrderType {
    /// The wire tag of this order type.
    pub fn to_tag(&self) -> (r: &'static str)
        ensures
            r@ == spec_order_type_tag(*self),
    {
        match self {
            OrderType::Market => "market",
            OrderType::Limit => "limit",
            OrderType::Stop => "stop",
            OrderType::StopLimit => "stop_limit",
        }
    }

    /// Parses an order type's wire tag.
    pub fn from_tag(t: &str) -> (r: Result<OrderType, DecodeError>)
        ensures
            r == spec_order_type_from_tag(t@),
    {
        if str_eq(t, "market") {
            Ok(OrderType::Market)
        } else if str_eq(t, "limit") {
            Ok(OrderType::Limit)
        } else if str_eq(t, "stop") {
            Ok(OrderType::Stop)
        } else if str_eq(t, "stop_limit") {
            Ok(OrderType::StopLimit)
        } else {
            Err(DecodeError::UnrecognizedEnumTag)
        }
    }
}

/// Round trip: every order type decodes back from its own tag; a string
/// outside the tag set is rejected as an unrecognized tag.
pub proof fn lemma_order_type_tag_round_trip(v: OrderType, other: Seq<char>)
    requires
        other != "market"@,
        other != "limit"@,
        other != "stop"@,
        other != "stop_limit"@,
    ensures
        spec_order_type_from_tag(spec_order_type_tag(v)) == Ok::<OrderType, DecodeError>(v),
        spec_order_type_from_tag(other) == Err::<OrderType, DecodeError>(
            DecodeError::UnrecognizedEnumTag,
        ),
{
    reveal_strlit("market");
    reveal_strlit("limit");
    reveal_strlit("stop");
    reveal_strlit("stop_limit");
    assert("market"@.len() == 6);
    assert("limit"@.len() == 5);
    assert("stop"@.len() == 4);
    assert("stop_limit"@.len() == 10);
}

/// The lowercase wire tag of a time-in-force.
pub open spec fn spec_time_in_force_tag(v: TimeInForce) -> Seq<char> {
    match v {
        TimeInForce::Day => "day"@,
        TimeInForce::Gtc => "gtc"@,
        TimeInForce::Opg => "opg"@,
        TimeInForce::Cls => "cls"@,
        TimeInForce::Ioc => "ioc"@,
        TimeInForce::Fok => "fok"@,
    }
}

/// The time-in-force a wire tag denotes.
pub open spec fn spec_time_in_force_from_tag(t: Seq<char>) -> Result<TimeInForce, DecodeError> {
    if t == "day"@ {
        Ok(TimeInForce::Day)
    } else if t == "gtc"@ {
        Ok(TimeInForce::Gtc)
    } else if t == "opg"@ {
        Ok(TimeInForce::Opg)
    } else if t == "cls"@ {
        Ok(TimeInForce::Cls)
    } else if t == "ioc"@ {
        Ok(TimeInForce::Ioc)
    } else if t == "fok"@ {
        Ok(TimeInForce::Fok)
    } else {
        Err(DecodeError::UnrecognizedEnumTag)
    }
}

impl TimeInForce {
    /// The wire tag of this time-in-force.
    pub fn to_tag(&self) -> (r: &'static str)
        ensures
            r@ == spec_time_in_force_tag(*self),
    {
        match self {
            TimeInForce::Day => "day",
            TimeInForce::Gtc => "gtc",
            TimeInForce::Opg => "opg",
            TimeInForce::Cls => "cls",
            TimeInForce::Ioc => "ioc",
            TimeInForce::Fok => "fok",
        }
    }

    /// Parses a time-in-force's wire tag.
    pub fn from_tag(t: &str) -> (r: Result<TimeInForce, DecodeError>)
        ensures
            r == spec_time_in_force_from_tag(t@),
    {
        if str_eq(t, "day") {
            Ok(TimeInForce::Day)
        } else if str_eq(t, "gtc") {
            Ok(TimeInForce::Gtc)
        } else if str_eq(t, "opg") {
            Ok(TimeInForce::Opg)
        } else if str_eq(t, "cls") {
            Ok(TimeInForce::Cls)
        } else if str_eq(t, "ioc") {
            Ok(TimeInForce::Ioc)
        } else if str_eq(t, "fok") {
            Ok(TimeInForce::Fok)
        } else {
            Err(DecodeError::UnrecognizedEnumTag)
        }
    }
}

/// Round trip: every time-in-force decodes back from its own tag; a string
/// outside the tag set is rejected as an unrecognized tag.
pub proof fn lemma_time_in_force_tag_round_trip(v: TimeInForce, other: Seq<char>)
    requires
        other != "day"@,
        other != "gtc"@,
        other != "opg"@,
        other != "cls"@,
        other != "ioc"@,
        other != "fok"@,
    ensures
        spec_time_in_force_from_tag(spec_time_in_force_tag(v)) == Ok::<TimeInForce, DecodeError>(v),
        spec_time_in_force_from_tag(other) == Err::<TimeInForce, DecodeError>(
            DecodeError::UnrecognizedEnumTag,
        ),
{
    reveal_strlit("day");
    reveal_strlit("gtc");
    reveal_strlit("opg");
    reveal_strlit("cls");
    reveal_strlit("ioc");
    reveal_strlit("fok");
    assert("day"@[0] == 'd');
    assert("gtc"@[0] == 'g');
    assert("opg"@[0] == 'o');
    assert("cls"@[0] == 'c');
    assert("ioc"@[0] == 'i');
    assert("fok"@[0] == 'f');
}

/// The snake-case wire tag of an order status.
pub open spec fn spec_order_status_tag(v: OrderStatus) -> Seq<char> {
    match v {
        OrderStatus::New => "new"@,
        OrderStatus::PartiallyFilled => "partially_filled"@,
        OrderStatus::Filled => "filled"@,
        OrderStatus::DoneForDay => "done_for_day"@,
        OrderStatus::Canceled => "canceled"@,
        OrderStatus::Expired => "expired"@,
        OrderStatus::Replaced => "replaced"@,
        OrderStatus::PendingCancel => "pending_cancel"@,
        OrderStatus::PendingReplace => "pending_replace"@,
        OrderStatus::Accepted => "accepted"@,
        OrderStatus::PendingNew => "pending_new"@,
        OrderStatus::AcceptedForBidding => "accepted_for_bidding"@,
        OrderStatus::Stopped => "stopped"@,
        OrderStatus::Rejected => "rejected"@,
        OrderStatus::Suspended => "suspended"@,
        OrderStatus::Calculated => "calculated"@,
    }
}

/// The order status a wire tag denotes.
pub open spec fn spec_order_status_from_tag(t: Seq<char>) -> Result<OrderStatus, DecodeError> {
    if t == "new"@ {
        Ok(OrderStatus::New)
    } else if t == "partially_filled"@ {
        Ok(OrderStatus::PartiallyFilled)
    } else if t == "filled"@ {
        Ok(OrderStatus::Filled)
    } else if t == "done_for_day"@ {
        Ok(OrderStatus::DoneForDay)
    } else if t == "canceled"@ {
        Ok(OrderStatus::Canceled)
    } else if t == "expired"@ {
        Ok(OrderStatus::Expired)
    } else if t == "replaced"@ {
        Ok(OrderStatus::Replaced)
    } else if t == "pending_cancel"@ {
        Ok(OrderStatus::PendingCancel)
    } else if t == "pending_replace"@ {
        Ok(OrderStatus::PendingReplace)
    } else if t == "accepted"@ {
        Ok(OrderStatus::Accepted)
    } else if t == "pending_new"@ {
        Ok(OrderStatus::PendingNew)
    } else if t == "accepted_for_bidding"@ {
        Ok(OrderStatus::AcceptedForBidding)
    } else if t == "stopped"@ {
        Ok(OrderStatus::Stopped)
    } else if t == "rejected"@ {
        Ok(OrderStatus::Rejected)
    } else if t == "suspended"@ {
        Ok(OrderStatus::Suspended)
    } else if t == "calculated"@ {
        Ok(OrderStatus::Calculated)
    } else {
        Err(DecodeError::UnrecognizedEnumTag)
    }
}

impl OrderStatus {
    /// The wire tag of this order status.
    pub fn to_tag(&self) -> (r: &'static str)
        ensures
            r@ == spec_order_status_tag(*self),
    {
        match self {
            OrderStatus::New => "new",
            OrderStatus::PartiallyFilled => "partially_filled",
            OrderStatus::Filled => "filled",
            OrderStatus::DoneForDay => "done_for_day",
            OrderStatus::Canceled => "canceled",
            OrderStatus::Expired => "expired",
            OrderStatus::Replaced => "replaced",
            OrderStatus::PendingCancel => "pending_cancel",
            OrderStatus::PendingReplace => "pending_replace",
            OrderStatus::Accepted => "accepted",
            OrderStatus::PendingNew => "pending_new",
            OrderStatus::AcceptedForBidding => "accepted_for_bidding",
            OrderStatus::Stopped => "stopped",
            OrderStatus::Rejected => "rejected",
            OrderStatus::Suspended => "suspended",
            OrderStatus::Calculated => "calculated",
        }
    }

    /// Parses an order status's wire tag.
    pub fn from_tag(t: &str) -> (r: Result<OrderStatus, DecodeError>)
        ensures
            r == spec_order_status_from_tag(t@),
    {
        if str_eq(t, "new") {
            Ok(OrderStatus::New)
        } else if str_eq(t, "partially_filled") {
            Ok(OrderStatus::PartiallyFilled)
        } else if str_eq(t, "filled") {
            Ok(OrderStatus::Filled)
        } else if str_eq(t, "done_for_day") {
            Ok(OrderStatus::DoneForDay)
        } else if str_eq(t, "canceled") {
            Ok(OrderStatus::Canceled)
        } else if str_eq(t, "expired") {
            Ok(OrderStatus::Expired)
        } else if str_eq(t, "replaced") {
            Ok(OrderStatus::Replaced)
        } else if str_eq(t, "pending_cancel") {
            Ok(OrderStatus::PendingCancel)
        } else if str_eq(t, "pending_replace") {
            Ok(OrderStatus::PendingReplace)
        } else if str_eq(t, "accepted") {
            Ok(OrderStatus::Accepted)
        } else if str_eq(t, "pending_new") {
            Ok(OrderStatus::PendingNew)
        } else if str_eq(t, "accepted_for_bidding") {
            Ok(OrderStatus::AcceptedForBidding)
        } else if str_eq(t, "stopped") {
            Ok(OrderStatus::Stopped)
        } else if str_eq(t, "rejected") {
            Ok(OrderStatus::Rejected)
        } else if str_eq(t, "suspended") {
            Ok(OrderStatus::Suspended)
        } else if str_eq(t, "calculated") {
            Ok(OrderStatus::Calculated)
        } else {
            Err(DecodeError::UnrecognizedEnumTag)
        }
    }
}

/// Round trip: every order status decodes back from its own tag; a string
/// outside the tag set is rejected as an unrecognized tag.
pub proof fn lemma_order_status_tag_round_trip(v: OrderStatus, other: Seq<char>)
    requires
        other != "new"@,
        other != "partially_filled"@,
        other != "filled"@,
        other != "done_for_day"@,
        other != "canceled"@,
        other != "expired"@,
        other != "replaced"@,
        other != "pending_cancel"@,
        other != "pending_replace"@,
        other != "accepted"@,
        other != "pending_new"@,
        other != "accepted_for_bidding"@,
        other != "stopped"@,
        other != "rejected"@,
        other != "suspended"@,
        other != "calculated"@,
    ensures
        spec_order_status_from_tag(spec_order_status_tag(v)) == Ok::<OrderStatus, DecodeError>(v),
        spec_order_status_from_tag(other) == Err::<OrderStatus, DecodeError>(
            DecodeError::UnrecognizedEnumTag,
        ),
{
    reveal_strlit("new");
    reveal_strlit("partially_filled");
    reveal_strlit("filled");
    reveal_strlit("done_for_day");
    reveal_strlit("canceled");
    reveal_strlit("expired");
    reveal_strlit("replaced");
    reveal_strlit("pending_cancel");
    reveal_strlit("pending_replace");
    reveal_strlit("accepted");
    reveal_strlit("pending_new");
    reveal_strlit("accepted_for_bidding");
    reveal_strlit("stopped");
    reveal_strlit("rejected");
    reveal_strlit("suspended");
    reveal_strlit("calculated");
    assert("new"@.len() == 3);
    assert("partially_filled"@.len() == 16);
    assert("filled"@.len() == 6);
    assert("done_for_day"@.len() == 12);
    assert("canceled"@.len() == 8);
    assert("expired"@.len() == 7);
    assert("replaced"@.len() == 8);
    assert("pending_cancel"@.len() == 14);
    assert("pending_replace"@.len() == 15);
    assert("accepted"@.len() == 8);
    assert("pending_new"@.len() == 11);
    assert("accepted_for_bidding"@.len() == 20);
    assert("stopped"@.len() == 7);
    assert("rejected"@.len() == 8);
    assert("suspended"@.len() == 9);
    assert("calculated"@.len() == 10);
    assert("canceled"@[0] == 'c');
    assert("replaced"@[0] == 'r');
    assert("accepted"@[0] == 'a');
    assert("rejected"@[0] == 'r');
    assert("replaced"@[2] == 'p');
    assert("rejected"@[2] == 'j');
    assert("expired"@[0] == 'e');
    assert("stopped"@[0] == 's');
}

/// The lowercase wire tag of an order class.
pub open spec fn spec_order_class_tag(v: OrderClass) -> Seq<char> {
    match v {
        OrderClass::Simple => "simple"@,
        OrderClass::Bracket => "bracket"@,
        OrderClass::Oco => "oco"@,
        OrderClass::Oto => "oto"@,
    }
}

/// The order class a wire tag denotes.
pub open spec fn spec_order_class_from_tag(t: Seq<char>) -> Result<OrderClass, DecodeError> {
    if t == "simple"@ {
        Ok(OrderClass::Simple)
    } else if t == "bracket"@ {
        Ok(OrderClass::Bracket)
    } else if t == "oco"@ {
        Ok(OrderClass::Oco)
    } else if t == "oto"@ {
        Ok(OrderClass::Oto)
    } else {
        Err(DecodeError::UnrecognizedEnumTag)
    }
}

impl OrderClass {
    /// The wire tag of this order class.
    pub fn to_tag(&self) -> (r: &'static str)
        ensures
            r@ == spec_order_class_tag(*self),
    {
        match self {
            OrderClass::Simple => "simple",
            OrderClass::Bracket => "bracket",
            OrderClass::Oco => "oco",
            OrderClass::Oto => "oto",
        }
    }

    /// Parses an order class's wire tag.
    pub fn from_tag(t: &str) -> (r: Result<OrderClass, DecodeError>)
        ensures
            r == spec_order_class_from_tag(t@),
    {
        if str_eq(t, "simple") {
            Ok(OrderClass::Simple)
        } else if str_eq(t, "bracket") {
            Ok(OrderClass::Bracket)
        } else if str_eq(t, "oco") {
            Ok(OrderClass::Oco)
        } else if str_eq(t, "oto") {
            Ok(OrderClass::Oto)
        } else {
            Err(DecodeError::UnrecognizedEnumTag)
        }
    }
}

/// Round trip: every order class decodes back from its own tag; a string
/// outside the tag set is rejected as an unrecognized tag.
pub proof fn lemma_order_class_tag_round_trip(v: OrderClass, other: Seq<char>)
    requires
        other != "simple"@,
        other != "bracket"@,
        other != "oco"@,
        other != "oto"@,
    ensures
        spec_order_class_from_tag(spec_order_class_tag(v)) == Ok::<OrderClass, DecodeError>(v),
        spec_order_class_from_tag(other) == Err::<OrderClass, DecodeError>(
            DecodeError::UnrecognizedEnumTag,
        ),
{
    reveal_strlit("simple");
    reveal_strlit("bracket");
    reveal_strlit("oco");
    reveal_strlit("oto");
    assert("simple"@.len() == 6);
    assert("bracket"@.len() == 7);
    assert("oco"@.len() == 3);
    assert("oto"@.len() == 3);
    assert("oco"@[1] == 'c');
    assert("oto"@[1] == 't');
}

/// The nested take-profit half of a bracket order.
#[derive(Clone, Copy, Debug, PartialEq, Eq, Structural)]
pub struct OrderTakeProfit {
    /// The limit price the profit leg asks.
    pub limit_price: Decimal,
}

/// The nested stop-loss half of a bracket order.
#[derive(Clone, Copy, Debug, PartialEq, Eq, Structural)]
pub struct OrderStopLoss {
    /// The stop price the loss leg triggers at.
    pub stop_price: Decimal,
    /// An optional limit price turning the loss leg into a stop-limit.
    pub limit_price: Option<Decimal>,
}

/// An outbound new-order payload, assembled by the builder methods and
/// serialized with every unset optional field omitted from the wire.
#[derive(Clone, Debug)]
pub struct OrderRequest {
    /// Symbol of the asset to trade.
    pub symbol: String,
    /// The number of shares to trade.
    pub qty: Decimal,
    pub side: Side,
    pub order_type: OrderType,
    pub time_in_force: TimeInForce,
    /// Required by the venue when the type is `Limit` or `StopLimit`.
    pub limit_price: Option<Decimal>,
    /// Required by the venue when the type is `Stop` or `StopLimit`.
    pub stop_price: Option<Decimal>,
    pub extended_hours: Option<bool>,
    pub client_order_id: Option<String>,
    pub order_class: Option<OrderClass>,
    pub take_profit: Option<OrderTakeProfit>,
    pub stop_loss: Option<OrderStopLoss>,
}

/// An outbound sparse order-replacement payload: only the fields the
/// caller sets travel; an absent field keeps its prior value server-side.
#[derive(Clone, Debug)]
pub struct OrderReplace {
    pub qty: Option<Decimal>,
    pub time_in_force: Option<TimeInForce>,
    pub limit_price: Option<Decimal>,
    pub stop_price: Option<Decimal>,
    pub client_order_id: Option<String>,
}

/// Whether an optional decimal, if present, is canonical.
pub open spec fn opt_dec_wf(v: Option<Decimal>) -> bool {
    match v {
        Some(d) => d.wf(),
        None => true,
    }
}

/// Appends one optional field: present values append one field, absent
/// ones append nothing.
fn push_opt_field(fields: &mut Vec<(String, JsonValue)>, name: &str, v: Option<JsonValue>)
    ensures
        fields_view(final(fields)@) == fields_view(old(fields)@) + (match v {
            Some(x) => seq![(name@, json_view(x))],
            None => Seq::<(Seq<char>, JsonData)>::empty(),
        }),
{
    match v {
        Some(x) => {
            let ghost gx = x;
            push_field(fields, name, x);
            proof {
                assert(fields_view(old(fields)@).push((name@, json_view(gx))) =~= fields_view(
                    old(fields)@,
                ) + seq![(name@, json_view(gx))]);
            }
        },
        None => {
            proof {
                assert(fields_view(fields@) =~= fields_view(fields@) + Seq::<(
                    Seq<char>,
                    JsonData,
                )>::empty());
            }
        },
    }
}

impl OrderTakeProfit {
    /// All decimals canonical.
    pub open spec fn wf(self) -> bool {
        self.limit_price.wf()
    }
}

impl OrderStopLoss {
    /// All decimals canonical.
    pub open spec fn wf(self) -> bool {
        self.stop_price.wf() && opt_dec_wf(self.limit_price)
    }
}

impl OrderRequest {
    /// All decimals canonical.
    pub open spec fn wf(self) -> bool {
        &&& self.qty.wf()
        &&& opt_dec_wf(self.limit_price)
        &&& opt_dec_wf(self.stop_price)
        &&& (self.take_profit matches Some(tp) ==> tp.wf())
        &&& (self.stop_loss matches Some(sl) ==> sl.wf())
    }

    /// Whether every decimal of this payload is canonical, decided at
    /// run time.
    pub fn check(&self) -> (r: bool)
        ensures
            r == self.wf(),
    {
        self.qty.check() && (match &self.limit_price {
            Some(d) => d.check(),
            None => true,
        }) && (match &self.stop_price {
            Some(d) => d.check(),
            None => true,
        }) && (match &self.take_profit {
            Some(t) => t.limit_price.check(),
            None => true,
        }) && (match &self.stop_loss {
            Some(t) => t.stop_price.check() && (match &t.limit_price {
                Some(d) => d.check(),
                None => true,
            }),
            None => true,
        })
    }

    /// The documented starting point: a market buy of zero shares, day
    /// time-in-force, an empty symbol, every optional field unset.
    fn default() -> (r: OrderRequest)
        ensures
            r.symbol@ == Seq::<char>::empty(),
            r.qty == (Decimal { mantissa: 0, scale: 0 }),
            r.side == Side::Buy,
            r.order_type == OrderType::Market,
            r.time_in_force == TimeInForce::Day,
            r.limit_price is None,
            r.stop_price is None,
            r.extended_hours is None,
            r.client_order_id is None,
            r.order_class is None,
            r.take_profit is None,
            r.stop_loss is None,
            r.wf(),
    {
        OrderRequest {
            symbol: String::new(),
            qty: Decimal { mantissa: 0, scale: 0 },
            side: Side::Buy,
            order_type: OrderType::Market,
            time_in_force: TimeInForce::Day,
            limit_price: None,
            stop_price: None,
            extended_hours: None,
            client_order_id: None,
            order_class: None,
            take_profit: None,
            stop_loss: None,
        }
    }

    /// A buy order for the given symbol and quantity, from the default.
    pub fn buy(symbol: &str, qty: Decimal) -> (r: OrderRequest)
        ensures
            r.symbol@ == symbol@,
            r.qty == qty,
            r.side == Side::Buy,
            r.order_type == OrderType::Market,
            r.time_in_force == TimeInForce::Day,
            r.limit_price is None,
            r.stop_price is None,
            r.extended_hours is None,
            r.client_order_id is None,
            r.order_class is None,
            r.take_profit is None,
            r.stop_loss is None,
            qty.wf() ==> r.wf(),
    {
        Self::default().side(Side::Buy).symbol(symbol).qty(qty)
    }

    /// A sell order for the given symbol and quantity, from the default.
    pub fn sell(symbol: &str, qty: Decimal) -> (r: OrderRequest)
        ensures
            r.symbol@ == symbol@,
            r.qty == qty,
            r.side == Side::Sell,
            r.order_type == OrderType::Market,
            r.time_in_force == TimeInForce::Day,
            r.limit_price is None,
            r.stop_price is None,
            r.extended_hours is None,
            r.client_order_id is None,
            r.order_class is None,
            r.take_profit is None,
            r.stop_loss is None,
            qty.wf() ==> r.wf(),
    {
        Self::default().side(Side::Sell).symbol(symbol).qty(qty)
    }

    /// Sets the symbol.
    pub fn symbol(self, symbol: &str) -> (r: Self)
        ensures
            r == (OrderRequest { symbol: r.symbol, ..self }),
            r.symbol@ == symbol@,
    {
        OrderRequest { symbol: String::from_str(symbol), ..self }
    }

    /// Sets the quantity.
    pub fn qty(self, qty: Decimal) -> (r: Self)
        ensures
            r == (OrderRequest { qty, ..self }),
    {
        OrderRequest { qty, ..self }
    }

    /// Sets the side.
    pub fn side(self, side: Side) -> (r: Self)
        ensures
            r == (OrderRequest { side, ..self }),
    {
        OrderRequest { side, ..self }
    }

    /// Sets the order type.
    pub fn order_type(self, order_type: OrderType) -> (r: Self)
        ensures
            r == (OrderRequest { order_type, ..self }),
    {
        OrderRequest { order_type, ..self }
    }

    /// Sets the time-in-force.
    pub fn time_in_force(self, time_in_force: TimeInForce) -> (r: Self)
        ensures
            r == (OrderRequest { time_in_force, ..self }),
    {
        OrderRequest { time_in_force, ..self }
    }

    /// Sets the limit price.
    pub fn limit_price(self, limit_price: Decimal) -> (r: Self)
        ensures
            r == (OrderRequest { limit_price: Some(limit_price), ..self }),
    {
        OrderRequest { limit_price: Some(limit_price), ..self }
    }

    /// Sets the stop price.
    pub fn stop_price(self, stop_price: Decimal) -> (r: Self)
        ensures
            r == (OrderRequest { stop_price: Some(stop_price), ..self }),
    {
        OrderRequest { stop_price: Some(stop_price), ..self }
    }

    /// Sets the extended-hours flag.
    pub fn extended_hours(self, extended_hours: bool) -> (r: Self)
        ensures
            r == (OrderRequest { extended_hours: Some(extended_hours), ..self }),
    {
        OrderRequest { extended_hours: Some(extended_hours), ..self }
    }

    /// Sets the caller-chosen client order id.
    pub fn client_order_id(self, client_order_id: String) -> (r: Self)
        ensures
            r == (OrderRequest { client_order_id: Some(client_order_id), ..self }),
    {
        OrderRequest { client_order_id: Some(client_order_id), ..self }
    }

    /// Sets the order class.
    pub fn order_class(self, order_class: OrderClass) -> (r: Self)
        ensures
            r == (OrderRequest { order_class: Some(order_class), ..self }),
    {
        OrderRequest { order_class: Some(order_class), ..self }
    }

    /// Attaches a take-profit leg.
    pub fn take_profit(self, limit_price: Decimal) -> (r: Self)
        ensures
            r == (OrderRequest {
                take_profit: Some(OrderTakeProfit { limit_price }),
                ..self
            }),
    {
        OrderRequest { take_profit: Some(OrderTakeProfit { limit_price }), ..self }
    }

    /// Attaches a stop-loss leg.
    pub fn stop_loss(self, stop_price: Decimal, limit_price: Option<Decimal>) -> (r: Self)
        ensures
            r == (OrderRequest {
                stop_loss: Some(OrderStopLoss { stop_price, limit_price }),
                ..self
            }),
    {
        OrderRequest { stop_loss: Some(OrderStopLoss { stop_price, limit_price }), ..self }
    }
}

impl OrderReplace {
    /// All decimals canonical.
    pub open spec fn wf(self) -> bool {
        opt_dec_wf(self.qty) && opt_dec_wf(self.limit_price) && opt_dec_wf(self.stop_price)
    }

    /// Whether every decimal of this payload is canonical, decided at
    /// run time.
    pub fn check(&self) -> (r: bool)
        ensures
            r == self.wf(),
    {
        (match &self.qty {
            Some(d) => d.check(),
            None => true,
        }) && (match &self.limit_price {
            Some(d) => d.check(),
            None => true,
        }) && (match &self.stop_price {
            Some(d) => d.check(),
            None => true,
        })
    }

    /// A replacement that changes nothing: every field unset.
    pub fn new() -> (r: OrderReplace)
        ensures
            r.qty is None,
            r.time_in_force is None,
            r.limit_price is None,
            r.stop_price is None,
            r.client_order_id is None,
            r.wf(),
    {
        OrderReplace {
            qty: None,
            time_in_force: None,
            limit_price: None,
            stop_price: None,
            client_order_id: None,
        }
    }

    /// Sets the new quantity.
    pub fn qty(self, qty: Decimal) -> (r: Self)
        ensures
            r == (OrderReplace { qty: Some(qty), ..self }),
    {
        OrderReplace { qty: Some(qty), ..self }
    }

    /// Sets the new time-in-force.
    pub fn time_in_force(self, time_in_force: TimeInForce) -> (r: Self)
        ensures
            r == (OrderReplace { time_in_force: Some(time_in_force), ..self }),
    {
        OrderReplace { time_in_force: Some(time_in_force), ..self }
    }

    /// Sets the new limit price.
    pub fn limit_price(self, limit_price: Decimal) -> (r: Self)
        ensures
            r == (OrderReplace { limit_price: Some(limit_price), ..self }),
    {
        OrderReplace { limit_price: Some(limit_price), ..self }
    }

    /// Sets the new stop price.
    pub fn stop_price(self, stop_price: Decimal) -> (r: Self)
        ensures
            r == (OrderReplace { stop_price: Some(stop_price), ..self }),
    {
        OrderReplace { stop_price: Some(stop_price), ..self }
    }

    /// Sets the new client order id.
    pub fn client_order_id(self, client_order_id: String) -> (r: Self)
        ensures
            r == (OrderReplace { client_order_id: Some(client_order_id), ..self }),
    {
        OrderReplace { client_order_id: Some(client_order_id), ..self }
    }
}

/// The field a present decimal contributes, or nothing.
pub open spec fn opt_dec_field(name: Seq<char>, v: Option<Decimal>) -> Seq<(Seq<char>, JsonData)> {
    match v {
        Some(d) => seq![(name, JsonData::Str(dec_text(d)))],
        None => Seq::empty(),
    }
}

/// The wire object of a take-profit leg.
pub open spec fn spec_take_profit_json(t: OrderTakeProfit) -> JsonData {
    JsonData::Obj(seq![("limit_price"@, JsonData::Str(dec_text(t.limit_price)))])
}

/// The wire object of a stop-loss leg; its limit price is omitted when
/// unset.
pub open spec fn spec_stop_loss_json(t: OrderStopLoss) -> JsonData {
    JsonData::Obj(
        seq![("stop_price"@, JsonData::Str(dec_text(t.stop_price)))] + opt_dec_field(
            "limit_price"@,
            t.limit_price,
        ),
    )
}

/// The wire fields of a new-order payload, in declaration order; every
/// unset optional field is omitted, never sent as null.
pub open spec fn spec_request_fields(r: OrderRequest) -> Seq<(Seq<char>, JsonData)> {
    seq![
        ("symbol"@, JsonData::Str(r.symbol@)),
        ("qty"@, JsonData::Str(dec_text(r.qty))),
        ("side"@, JsonData::Str(spec_side_tag(r.side))),
        ("type"@, JsonData::Str(spec_order_type_tag(r.order_type))),
        ("time_in_force"@, JsonData::Str(spec_time_in_force_tag(r.time_in_force))),
    ] + opt_dec_field("limit_price"@, r.limit_price) + opt_dec_field("stop_price"@, r.stop_price)
        + (match r.extended_hours {
        Some(b) => seq![("extended_hours"@, JsonData::Bool(b))],
        None => Seq::empty(),
    }) + (match r.client_order_id {
        Some(cid) => seq![("client_order_id"@, JsonData::Str(cid@))],
        None => Seq::empty(),
    }) + (match r.order_class {
        Some(c) => seq![("order_class"@, JsonData::Str(spec_order_class_tag(c)))],
        None => Seq::empty(),
    }) + (match r.take_profit {
        Some(tp) => seq![("take_profit"@, spec_take_profit_json(tp))],
        None => Seq::empty(),
    }) + (match r.stop_loss {
        Some(sl) => seq![("stop_loss"@, spec_stop_loss_json(sl))],
        None => Seq::empty(),
    })
}

/// The wire object of a new-order payload.
pub open spec fn spec_request_json(r: OrderRequest) -> JsonData {
    JsonData::Obj(spec_request_fields(r))
}

/// The wire fields of a replacement payload: only what is set travels.
pub open spec fn spec_replace_fields(r: OrderReplace) -> Seq<(Seq<char>, JsonData)> {
    opt_dec_field("qty"@, r.qty) + (match r.time_in_force {
        Some(t) => seq![("time_in_force"@, JsonData::Str(spec_time_in_force_tag(t)))],
        None => Seq::empty(),
    }) + opt_dec_field("limit_price"@, r.limit_price) + opt_dec_field("stop_price"@, r.stop_price)
        + (match r.client_order_id {
        Some(cid) => seq![("client_order_id"@, JsonData::Str(cid@))],
        None => Seq::empty(),
    })
}

/// The wire object of a replacement payload.
pub open spec fn spec_replace_json(r: OrderReplace) -> JsonData {
    JsonData::Obj(spec_replace_fields(r))
}

/// Appends one field to a wire object under construction.
fn push_field(fields: &mut Vec<(String, JsonValue)>, name: &str, value: JsonValue)
    ensures
        fields_view(final(fields)@) == fields_view(old(fields)@).push((name@, json_view(value))),
{
    let key = String::from_str(name);
    let ghost prev = fields@;
    let ghost entry = (key, value);
    fields.push((key, value));
    proof {
        lemma_fields_view_push(prev, entry);
    }
}

impl OrderTakeProfit {
    /// The wire object of this leg.
    pub fn to_json(&self) -> (j: JsonValue)
        requires
            self.wf(),
        ensures
            j@ == spec_take_profit_json(*self),
    {
        let mut fields: Vec<(String, JsonValue)> = Vec::new();
        push_field(&mut fields, "limit_price", JsonValue::Str(self.limit_price.encode()));
        let j = JsonValue::Obj(fields);
        proof {
            assert(fields_view(Seq::<(String, JsonValue)>::empty()) =~= Seq::<(
                Seq<char>,
                JsonData,
            )>::empty());
            assert(fields_view(fields@) =~= seq![
                ("limit_price"@, JsonData::Str(dec_text(self.limit_price))),
            ]);
        }
        j
    }
}

impl OrderStopLoss {
    /// The wire object of this leg.
    pub fn to_json(&self) -> (j: JsonValue)
        requires
            self.wf(),
        ensures
            j@ == spec_stop_loss_json(*self),
    {
        let mut fields: Vec<(String, JsonValue)> = Vec::new();
        proof {
            assert(fields_view(fields@) =~= Seq::<(Seq<char>, JsonData)>::empty());
        }
        push_field(&mut fields, "stop_price", JsonValue::Str(self.stop_price.encode()));
        if let Some(lp) = &self.limit_price {
            push_field(&mut fields, "limit_price", JsonValue::Str(lp.encode()));
        }
        let j = JsonValue::Obj(fields);
        proof {
            assert(fields_view(fields@) =~= seq![
                ("stop_price"@, JsonData::Str(dec_text(self.stop_price))),
            ] + opt_dec_field("limit_price"@, self.limit_price));
        }
        j
    }
}

impl OrderRequest {
    /// The wire object of this payload: the five required fields, then
    /// each set optional field; an unset one does not appear at all.
    #[verifier::rlimit(50)]
    pub fn to_json(&self) -> (j: JsonValue)
        requires
            self.wf(),
        ensures
            j@ == spec_request_json(*self),
    {
        let mut fields: Vec<(String, JsonValue)> = Vec::new();
        proof {
            assert(fields_view(fields@) =~= Seq::<(Seq<char>, JsonData)>::empty());
        }
        push_field(&mut fields, "symbol", JsonValue::Str(self.symbol.clone()));
        push_field(&mut fields, "qty", JsonValue::Str(self.qty.encode()));
        push_field(&mut fields, "side", JsonValue::Str(String::from_str(self.side.to_tag())));
        push_field(&mut fields, "type", JsonValue::Str(String::from_str(self.order_type.to_tag())));
        push_field(
            &mut fields,
            "time_in_force",
            JsonValue::Str(String::from_str(self.time_in_force.to_tag())),
        );
        let ghost base: Seq<(Seq<char>, JsonData)> = seq![
            ("symbol"@, JsonData::Str(self.symbol@)),
            ("qty"@, JsonData::Str(dec_text(self.qty))),
            ("side"@, JsonData::Str(spec_side_tag(self.side))),
            ("type"@, JsonData::Str(spec_order_type_tag(self.order_type))),
            ("time_in_force"@, JsonData::Str(spec_time_in_force_tag(self.time_in_force))),
        ];
        proof {
            assert(fields_view(fields@) =~= base);
        }
        let lp = match &self.limit_price {
            Some(d) => Some(JsonValue::Str(d.encode())),
            None => None,
        };
        push_opt_field(&mut fields, "limit_price", lp);
        let ghost g1 = base + opt_dec_field("limit_price"@, self.limit_price);
        proof {
            assert(fields_view(fields@) == g1);
        }
        let sp = match &self.stop_price {
            Some(d) => Some(JsonValue::Str(d.encode())),
            None => None,
        };
        push_opt_field(&mut fields, "stop_price", sp);
        let ghost g2 = g1 + opt_dec_field("stop_price"@, self.stop_price);
        proof {
            assert(fields_view(fields@) == g2);
        }
        let eh = match self.extended_hours {
            Some(b) => Some(JsonValue::Bool(b)),
            None => None,
        };
        push_opt_field(&mut fields, "extended_hours", eh);
        let ghost g3 = g2 + (match self.extended_hours {
            Some(b) => seq![("extended_hours"@, JsonData::Bool(b))],
            None => Seq::<(Seq<char>, JsonData)>::empty(),
        });
        proof {
            assert(fields_view(fields@) == g3);
        }
        let cid = match &self.client_order_id {
            Some(c) => Some(JsonValue::Str(c.clone())),
            None => None,
        };
        push_opt_field(&mut fields, "client_order_id", cid);
        let ghost g4 = g3 + (match &self.client_order_id {
            Some(c) => seq![("client_order_id"@, JsonData::Str(c@))],
            None => Seq::<(Seq<char>, JsonData)>::empty(),
        });
        proof {
            assert(fields_view(fields@) == g4);
        }
        let oc = match self.order_class {
            Some(c) => Some(JsonValue::Str(String::from_str(c.to_tag()))),
            None => None,
        };
        push_opt_field(&mut fields, "order_class", oc);
        let ghost g5 = g4 + (match self.order_class {
            Some(c) => seq![("order_class"@, JsonData::Str(spec_order_class_tag(c)))],
            None => Seq::<(Seq<char>, JsonData)>::empty(),
        });
        proof {
            assert(fields_view(fields@) == g5);
        }
        let tp = match &self.take_profit {
            Some(t) => Some(t.to_json()),
            None => None,
        };
        push_opt_field(&mut fields, "take_profit", tp);
        let ghost g6 = g5 + (match self.take_profit {
            Some(t) => seq![("take_profit"@, spec_take_profit_json(t))],
            None => Seq::<(Seq<char>, JsonData)>::empty(),
        });
        proof {
            assert(fields_view(fields@) == g6);
        }
        let sl = match &self.stop_loss {
            Some(t) => Some(t.to_json()),
            None => None,
        };
        push_opt_field(&mut fields, "stop_loss", sl);
        let ghost g7 = g6 + (match self.stop_loss {
            Some(t) => seq![("stop_loss"@, spec_stop_loss_json(t))],
            None => Seq::<(Seq<char>, JsonData)>::empty(),
        });
        proof {
            assert(fields_view(fields@) == g7);
            assert(g7 == spec_request_fields(*self));
        }
        let j = JsonValue::Obj(fields);
        j
    }
}

impl OrderReplace {
    /// The wire object of this payload: exactly the set fields, in
    /// declaration order; an unset field does not appear at all.
    pub fn to_json(&self) -> (j: JsonValue)
        requires
            self.wf(),
        ensures
            j@ == spec_replace_json(*self),
    {
        let mut fields: Vec<(String, JsonValue)> = Vec::new();
        proof {
            assert(fields_view(fields@) =~= Seq::<(Seq<char>, JsonData)>::empty());
        }
        if let Some(d) = &self.qty {
            push_field(&mut fields, "qty", JsonValue::Str(d.encode()));
        }
        if let Some(t) = self.time_in_force {
            push_field(&mut fields, "time_in_force", JsonValue::Str(String::from_str(t.to_tag())));
        }
        if let Some(d) = &self.limit_price {
            push_field(&mut fields, "limit_price", JsonValue::Str(d.encode()));
        }
        if let Some(d) = &self.stop_price {
            push_field(&mut fields, "stop_price", JsonValue::Str(d.encode()));
        }
        if let Some(cid) = &self.client_order_id {
            push_field(&mut fields, "client_order_id", JsonValue::Str(cid.clone()));
        }
        let j = JsonValue::Obj(fields);
        proof {
            assert(fields_view(fields@) =~= spec_replace_fields(*self));
        }
        j
    }
}

/// The first of two optional lookup results.
spec fn first_of(x: Option<JsonData>, y: Option<JsonData>) -> Option<JsonData> {
    match x {
        Some(v) => Some(v),
        None => y,
    }
}

/// A lookup in a list of at most one field compares that field's name.
proof fn lemma_lookup_small(part: Seq<(Seq<char>, JsonData)>, k: Seq<char>)
    requires
        part.len() <= 1,
    ensures
        spec_lookup(part, k) == (if part.len() == 1 && part[0].0 == k {
            Some(part[0].1)
        } else {
            Option::<JsonData>::None
        }),
{
    if part.len() == 1 {
        assert(part.skip(1) =~= Seq::<(Seq<char>, JsonData)>::empty());
        assert(spec_lookup(Seq::<(Seq<char>, JsonData)>::empty(), k) is None);
    }
}

/// Omission invariant: a replacement payload's object holds exactly the
/// set fields. A set field appears under its name with its wire value; an
/// unset field does not appear at all, not even as a null.
pub proof fn lemma_replace_omission(r: OrderReplace)
    ensures
        spec_replace_json(r) matches JsonData::Obj(fs) && {
            &&& (r.qty matches Some(d) ==> spec_lookup(fs, "qty"@) == Some(
                JsonData::Str(dec_text(d)),
            ))
            &&& (r.qty is None ==> spec_lookup(fs, "qty"@) is None)
            &&& (r.time_in_force matches Some(t) ==> spec_lookup(fs, "time_in_force"@) == Some(
                JsonData::Str(spec_time_in_force_tag(t)),
            ))
            &&& (r.time_in_force is None ==> spec_lookup(fs, "time_in_force"@) is None)
            &&& (r.limit_price matches Some(d) ==> spec_lookup(fs, "limit_price"@) == Some(
                JsonData::Str(dec_text(d)),
            ))
            &&& (r.limit_price is None ==> spec_lookup(fs, "limit_price"@) is None)
            &&& (r.stop_price matches Some(d) ==> spec_lookup(fs, "stop_price"@) == Some(
                JsonData::Str(dec_text(d)),
            ))
            &&& (r.stop_price is None ==> spec_lookup(fs, "stop_price"@) is None)
            &&& (r.client_order_id matches Some(cid) ==> spec_lookup(fs, "client_order_id"@)
                == Some(JsonData::Str(cid@)))
            &&& (r.client_order_id is None ==> spec_lookup(fs, "client_order_id"@) is None)
            &&& fs.len() == (if r.qty is Some { 1int } else { 0int }) + (if r.time_in_force
                is Some {
                1int
            } else {
                0int
            }) + (if r.limit_price is Some { 1int } else { 0int }) + (if r.stop_price is Some {
                1int
            } else {
                0int
            }) + (if r.client_order_id is Some { 1int } else { 0int })
        },
{
    reveal_strlit("qty");
    reveal_strlit("time_in_force");
    reveal_strlit("limit_price");
    reveal_strlit("stop_price");
    reveal_strlit("client_order_id");
    assert("qty"@.len() == 3);
    assert("time_in_force"@.len() == 13);
    assert("limit_price"@.len() == 11);
    assert("stop_price"@.len() == 10);
    assert("client_order_id"@.len() == 15);
    let a = opt_dec_field("qty"@, r.qty);
    let b = (match r.time_in_force {
        Some(t) => seq![("time_in_force"@, JsonData::Str(spec_time_in_force_tag(t)))],
        None => Seq::<(Seq<char>, JsonData)>::empty(),
    });
    let c = opt_dec_field("limit_price"@, r.limit_price);
    let d = opt_dec_field("stop_price"@, r.stop_price);
    let e = (match r.client_order_id {
        Some(cid) => seq![("client_order_id"@, JsonData::Str(cid@))],
        None => Seq::<(Seq<char>, JsonData)>::empty(),
    });
    let keys = seq!["qty"@, "time_in_force"@, "limit_price"@, "stop_price"@, "client_order_id"@];
    assert forall|ki: int| 0 <= ki < 5 implies spec_lookup(spec_replace_fields(r), keys[ki])
        == first_of(
        first_of(first_of(first_of(spec_lookup(a, keys[ki]), spec_lookup(b, keys[ki])),
        spec_lookup(c, keys[ki])), spec_lookup(d, keys[ki])),
        spec_lookup(e, keys[ki]),
    ) by {
        let k = keys[ki];
        lemma_lookup_concat(a + b + c + d, e, k);
        lemma_lookup_concat(a + b + c, d, k);
        lemma_lookup_concat(a + b, c, k);
        lemma_lookup_concat(a, b, k);
    }
    lemma_lookup_small(a, "qty"@);
    lemma_lookup_small(b, "qty"@);
    lemma_lookup_small(c, "qty"@);
    lemma_lookup_small(d, "qty"@);
    lemma_lookup_small(e, "qty"@);
    lemma_lookup_small(a, "time_in_force"@);
    lemma_lookup_small(b, "time_in_force"@);
    lemma_lookup_small(c, "time_in_force"@);
    lemma_lookup_small(d, "time_in_force"@);
    lemma_lookup_small(e, "time_in_force"@);
    lemma_lookup_small(a, "limit_price"@);
    lemma_lookup_small(b, "limit_price"@);
    lemma_lookup_small(c, "limit_price"@);
    lemma_lookup_small(d, "limit_price"@);
    lemma_lookup_small(e, "limit_price"@);
    lemma_lookup_small(a, "stop_price"@);
    lemma_lookup_small(b, "stop_price"@);
    lemma_lookup_small(c, "stop_price"@);
    lemma_lookup_small(d, "stop_price"@);
    lemma_lookup_small(e, "stop_price"@);
    lemma_lookup_small(a, "client_order_id"@);
    lemma_lookup_small(b, "client_order_id"@);
    lemma_lookup_small(c, "client_order_id"@);
    lemma_lookup_small(d, "client_order_id"@);
    lemma_lookup_small(e, "client_order_id"@);
}

/// Null-vs-omission, outbound half: a new-order payload with no limit
/// price omits the `limit_price` key entirely; with one set, the key
/// carries the price's wire text.
pub proof fn lemma_request_limit_price_omission(r: OrderRequest)
    ensures
        spec_request_json(r) matches JsonData::Obj(fs) && {
            &&& (r.limit_price is None ==> spec_lookup(fs, "limit_price"@) is None)
            &&& (r.limit_price matches Some(d) ==> spec_lookup(fs, "limit_price"@) == Some(
                JsonData::Str(dec_text(d)),
            ))
        },
{
    reveal_strlit("symbol");
    reveal_strlit("qty");
    reveal_strlit("side");
    reveal_strlit("type");
    reveal_strlit("time_in_force");
    reveal_strlit("limit_price");
    reveal_strlit("stop_price");
    reveal_strlit("extended_hours");
    reveal_strlit("client_order_id");
    reveal_strlit("order_class");
    reveal_strlit("take_profit");
    reveal_strlit("stop_loss");
    assert("symbol"@.len() == 6);
    assert("qty"@.len() == 3);
    assert("side"@.len() == 4);
    assert("type"@.len() == 4);
    assert("time_in_force"@.len() == 13);
    assert("limit_price"@.len() == 11);
    assert("stop_price"@.len() == 10);
    assert("extended_hours"@.len() == 14);
    assert("client_order_id"@.len() == 15);
    assert("order_class"@.len() == 11);
    assert("take_profit"@.len() == 11);
    assert("stop_loss"@.len() == 9);
    assert("order_class"@[0] == 'o');
    assert("take_profit"@[0] == 't');
    assert("limit_price"@[0] == 'l');
    let k = "limit_price"@;
    let base: Seq<(Seq<char>, JsonData)> = seq![
        ("symbol"@, JsonData::Str(r.symbol@)),
        ("qty"@, JsonData::Str(dec_text(r.qty))),
        ("side"@, JsonData::Str(spec_side_tag(r.side))),
        ("type"@, JsonData::Str(spec_order_type_tag(r.order_type))),
        ("time_in_force"@, JsonData::Str(spec_time_in_force_tag(r.time_in_force))),
    ];
    let lp = opt_dec_field("limit_price"@, r.limit_price);
    let sp = opt_dec_field("stop_price"@, r.stop_price);
    let eh = (match r.extended_hours {
        Some(b) => seq![("extended_hours"@, JsonData::Bool(b))],
        None => Seq::<(Seq<char>, JsonData)>::empty(),
    });
    let cid = (match r.client_order_id {
        Some(c) => seq![("client_order_id"@, JsonData::Str(c@))],
        None => Seq::<(Seq<char>, JsonData)>::empty(),
    });
    let oc = (match r.order_class {
        Some(c) => seq![("order_class"@, JsonData::Str(spec_order_class_tag(c)))],
        None => Seq::<(Seq<char>, JsonData)>::empty(),
    });
    let tp = (match r.take_profit {
        Some(t) => seq![("take_profit"@, spec_take_profit_json(t))],
        None => Seq::<(Seq<char>, JsonData)>::empty(),
    });
    let sl = (match r.stop_loss {
        Some(t) => seq![("stop_loss"@, spec_stop_loss_json(t))],
        None => Seq::<(Seq<char>, JsonData)>::empty(),
    });
    lemma_lookup_concat(base + lp + sp + eh + cid + oc + tp, sl, k);
    lemma_lookup_concat(base + lp + sp + eh + cid + oc, tp, k);
    lemma_lookup_concat(base + lp + sp + eh + cid, oc, k);
    lemma_lookup_concat(base + lp + sp + eh, cid, k);
    lemma_lookup_concat(base + lp + sp, eh, k);
    lemma_lookup_concat(base + lp, sp, k);
    lemma_lookup_concat(base, lp, k);
    assert(base.skip(1) =~= base.subrange(1, 5));
    assert(base.subrange(1, 5).skip(1) =~= base.subrange(2, 5));
    assert(base.subrange(2, 5).skip(1) =~= base.subrange(3, 5));
    assert(base.subrange(3, 5).skip(1) =~= base.subrange(4, 5));
    assert(base.subrange(4, 5).skip(1) =~= Seq::<(Seq<char>, JsonData)>::empty());
    assert(spec_lookup(Seq::<(Seq<char>, JsonData)>::empty(), k) is None);
    assert(base.subrange(4, 5)[0] == base[4]);
    assert(base.subrange(3, 5)[0] == base[3]);
    assert(base.subrange(2, 5)[0] == base[2]);
    assert(base.subrange(1, 5)[0] == base[1]);
    assert(spec_lookup(base.subrange(4, 5), k) is None);
    assert(spec_lookup(base.subrange(3, 5), k) is None);
    assert(spec_lookup(base.subrange(2, 5), k) is None);
    assert(spec_lookup(base.subrange(1, 5), k) is None);
    assert(spec_lookup(base, k) is None);
    lemma_lookup_small(lp, k);
    lemma_lookup_small(sp, k);
    lemma_lookup_small(eh, k);
    lemma_lookup_small(cid, k);
    lemma_lookup_small(oc, k);
    lemma_lookup_small(tp, k);
    lemma_lookup_small(sl, k);
}

/// A live order as the venue reports it: identity, lifecycle timestamps,
/// quantities, pricing, status, and the child orders of a multi-leg
/// strategy. The client only represents this state; the venue mutates it.
#[derive(Debug)]
pub struct Order {
    /// Order id, a canonical hyphenated UUID string.
    pub id: String,
    /// Caller-supplied client order id.
    pub client_order_id: String,
    /// ISO-8601 creation timestamp.
    pub created_at: String,
    pub updated_at: Option<String>,
    pub submitted_at: Option<String>,
    pub filled_at: Option<String>,
    pub expired_at: Option<String>,
    pub canceled_at: Option<String>,
    pub failed_at: Option<String>,
    /// Asset id, a canonical hyphenated UUID string.
    pub asset_id: String,
    /// Asset symbol.
    pub symbol: String,
    /// Asset class.
    pub asset_class: String,
    pub qty: Decimal,
    pub filled_qty: Decimal,
    pub order_type: OrderType,
    pub side: Side,
    pub time_in_force: TimeInForce,
    pub limit_price: Option<Decimal>,
    pub stop_price: Option<Decimal>,
    pub filled_avg_price: Option<Decimal>,
    pub status: OrderStatus,
    pub extended_hours: bool,
    /// Child orders of a bracket or one-cancels/triggers-other strategy.
    pub legs: Option<Vec<Order>>,
}

/// The mathematical model of an order.
pub struct OrderData {
    pub id: Seq<char>,
    pub client_order_id: Seq<char>,
    pub created_at: Seq<char>,
    pub updated_at: Option<Seq<char>>,
    pub submitted_at: Option<Seq<char>>,
    pub filled_at: Option<Seq<char>>,
    pub expired_at: Option<Seq<char>>,
    pub canceled_at: Option<Seq<char>>,
    pub failed_at: Option<Seq<char>>,
    pub asset_id: Seq<char>,
    pub symbol: Seq<char>,
    pub asset_class: Seq<char>,
    pub qty: Decimal,
    pub filled_qty: Decimal,
    pub order_type: OrderType,
    pub side: Side,
    pub time_in_force: TimeInForce,
    pub limit_price: Option<Decimal>,
    pub stop_price: Option<Decimal>,
    pub filled_avg_price: Option<Decimal>,
    pub status: OrderStatus,
    pub extended_hours: bool,
    pub legs: Option<Seq<OrderData>>,
}

/// The model of an option of strings.
pub open spec fn opt_str_view(v: Option<String>) -> Option<Seq<char>> {
    match v {
        Some(x) => Some(x@),
        None => None,
    }
}

/// The model of one executable order.
pub open spec fn order_view(o: Order) -> OrderData
    decreases o,
{
    OrderData {
        id: o.id@,
        client_order_id: o.client_order_id@,
        created_at: o.created_at@,
        updated_at: opt_str_view(o.updated_at),
        submitted_at: opt_str_view(o.submitted_at),
        filled_at: opt_str_view(o.filled_at),
        expired_at: opt_str_view(o.expired_at),
        canceled_at: opt_str_view(o.canceled_at),
        failed_at: opt_str_view(o.failed_at),
        asset_id: o.asset_id@,
        symbol: o.symbol@,
        asset_class: o.asset_class@,
        qty: o.qty,
        filled_qty: o.filled_qty,
        order_type: o.order_type,
        side: o.side,
        time_in_force: o.time_in_force,
        limit_price: o.limit_price,
        stop_price: o.stop_price,
        filled_avg_price: o.filled_avg_price,
        status: o.status,
        extended_hours: o.extended_hours,
        legs: match o.legs {
            Some(v) => Some(orders_view(v@)),
            None => None,
        },
    }
}

/// The model of an executable order list.
pub open spec fn orders_view(s: Seq<Order>) -> Seq<OrderData>
    decreases s,
{
    if s.len() == 0 {
        Seq::empty()
    } else {
        seq![order_view(s[0])] + orders_view(s.skip(1))
    }
}

impl View for Order {
    type V = OrderData;

    open spec fn view(&self) -> OrderData {
        order_view(*self)
    }
}

/// How the model of an order list reads order by order.
pub proof fn lemma_orders_view(s: Seq<Order>)
    ensures
        orders_view(s).len() == s.len(),
        forall|i: int| 0 <= i < s.len() ==> orders_view(s)[i] == order_view(#[trigger] s[i]),
    decreases s,
{
    if s.len() > 0 {
        lemma_orders_view(s.skip(1));
        assert forall|i: int| 0 <= i < s.len() implies orders_view(s)[i] == order_view(
            #[trigger] s[i],
        ) by {
            if i > 0 {
                assert(orders_view(s)[i] == orders_view(s.skip(1))[i - 1]);
                assert(s.skip(1)[i - 1] == s[i]);
            }
        }
    }
}

impl OrderData {
    /// All decimals canonical, recursively through the legs.
    pub open spec fn wf(self) -> bool
        decreases self,
    {
        &&& self.qty.wf()
        &&& self.filled_qty.wf()
        &&& opt_dec_wf(self.limit_price)
        &&& opt_dec_wf(self.stop_price)
        &&& opt_dec_wf(self.filled_avg_price)
        &&& match self.legs {
            Some(ls) => orders_data_wf(ls),
            None => true,
        }
    }
}

/// All decimals of every order of the list canonical.
pub open spec fn orders_data_wf(s: Seq<OrderData>) -> bool
    decreases s,
{
    s.len() == 0 || (s[0].wf() && orders_data_wf(s.skip(1)))
}

/// List well-formedness is element well-formedness.
pub proof fn lemma_orders_data_wf(s: Seq<OrderData>)
    ensures
        orders_data_wf(s) <==> (forall|i: int| 0 <= i < s.len() ==> (#[trigger] s[i]).wf()),
    decreases s,
{
    if s.len() > 0 {
        lemma_orders_data_wf(s.skip(1));
        assert(forall|i: int| 0 < i < s.len() ==> s[i] == s.skip(1)[i - 1]);
        if forall|i: int| 0 <= i < s.len() ==> (#[trigger] s[i]).wf() {
            assert forall|i: int| 0 <= i < s.skip(1).len() implies (#[trigger] s.skip(1)[i]).wf() by {
                assert(s.skip(1)[i] == s[i + 1]);
            }
        }
    }
}

/// The wire value of a nullable string field: null when absent.
pub open spec fn opt_str_json(v: Option<Seq<char>>) -> JsonData {
    match v {
        Some(x) => JsonData::Str(x),
        None => JsonData::Null,
    }
}

/// The wire value of a nullable decimal field: null when absent.
pub open spec fn opt_dec_json(v: Option<Decimal>) -> JsonData {
    match v {
        Some(d) => JsonData::Str(dec_text(d)),
        None => JsonData::Null,
    }
}

/// The wire fields of an order, in declaration order. Every field is
/// present: an absent optional travels as an explicit null, never by
/// omission.
pub open spec fn spec_order_fields(o: OrderData) -> Seq<(Seq<char>, JsonData)>
    decreases o, 0int,
{
    seq![
        ("id"@, JsonData::Str(o.id)),
        ("client_order_id"@, JsonData::Str(o.client_order_id)),
        ("created_at"@, JsonData::Str(o.created_at)),
        ("updated_at"@, opt_str_json(o.updated_at)),
        ("submitted_at"@, opt_str_json(o.submitted_at)),
        ("filled_at"@, opt_str_json(o.filled_at)),
        ("expired_at"@, opt_str_json(o.expired_at)),
        ("canceled_at"@, opt_str_json(o.canceled_at)),
        ("failed_at"@, opt_str_json(o.failed_at)),
        ("asset_id"@, JsonData::Str(o.asset_id)),
        ("symbol"@, JsonData::Str(o.symbol)),
        ("asset_class"@, JsonData::Str(o.asset_class)),
        ("qty"@, JsonData::Str(dec_text(o.qty))),
        ("filled_qty"@, JsonData::Str(dec_text(o.filled_qty))),
        ("type"@, JsonData::Str(spec_order_type_tag(o.order_type))),
        ("side"@, JsonData::Str(spec_side_tag(o.side))),
        ("time_in_force"@, JsonData::Str(spec_time_in_force_tag(o.time_in_force))),
        ("limit_price"@, opt_dec_json(o.limit_price)),
        ("stop_price"@, opt_dec_json(o.stop_price)),
        ("filled_avg_price"@, opt_dec_json(o.filled_avg_price)),
        ("status"@, JsonData::Str(spec_order_status_tag(o.status))),
        ("extended_hours"@, JsonData::Bool(o.extended_hours)),
        (
            "legs"@,
            match o.legs {
                Some(ls) => JsonData::Arr(spec_orders_json(ls)),
                None => JsonData::Null,
            },
        ),
    ]
}

/// The wire object of an order.
pub open spec fn spec_order_json(o: OrderData) -> JsonData
    decreases o, 1int,
{
    JsonData::Obj(spec_order_fields(o))
}

/// The wire array elements of an order list.
pub open spec fn spec_orders_json(s: Seq<OrderData>) -> Seq<JsonData>
    decreases s, 2int,
{
    if s.len() == 0 {
        Seq::empty()
    } else {
        seq![spec_order_json(s[0])] + spec_orders_json(s.skip(1))
    }
}

/// How the wire array of an order list reads element by element.
pub proof fn lemma_spec_orders_json(s: Seq<OrderData>)
    ensures
        spec_orders_json(s).len() == s.len(),
        forall|i: int| 0 <= i < s.len() ==> spec_orders_json(s)[i] == spec_order_json(
            #[trigger] s[i],
        ),
    decreases s,
{
    if s.len() > 0 {
        lemma_spec_orders_json(s.skip(1));
        assert forall|i: int| 0 <= i < s.len() implies spec_orders_json(s)[i] == spec_order_json(
            #[trigger] s[i],
        ) by {
            if i > 0 {
                assert(spec_orders_json(s)[i] == spec_orders_json(s.skip(1))[i - 1]);
                assert(s.skip(1)[i - 1] == s[i]);
            }
        }
    }
}

impl Order {
    /// The wire value of a nullable string field.
    fn opt_str_value(v: &Option<String>) -> (r: JsonValue)
        ensures
            json_view(r) == opt_str_json(opt_str_view(*v)),
    {
        match v {
            Some(x) => JsonValue::Str(x.clone()),
            None => JsonValue::Null,
        }
    }

    /// The wire value of a nullable decimal field.
    fn opt_dec_value(v: &Option<Decimal>) -> (r: JsonValue)
        requires
            opt_dec_wf(*v),
        ensures
            json_view(r) == opt_dec_json(*v),
    {
        match v {
            Some(d) => JsonValue::Str(d.encode()),
            None => JsonValue::Null,
        }
    }

    /// The wire array of a list of child orders.
    fn legs_to_json(v: &Vec<Order>) -> (r: JsonValue)
        requires
            orders_data_wf(orders_view(v@)),
        ensures
            json_view(r) == JsonData::Arr(spec_orders_json(orders_view(v@))),
        decreases *v, 0int,
    {
        let ghost ls = orders_view(v@);
        proof {
            lemma_orders_view(v@);
            lemma_orders_data_wf(ls);
            lemma_spec_orders_json(ls);
        }
        let mut arr: Vec<JsonValue> = Vec::new();
        let mut k: usize = 0;
        while k < v.len()
            invariant
                0 <= k <= v.len(),
                ls == orders_view(v@),
                ls.len() == v@.len(),
                orders_data_wf(orders_view(v@)),
                forall|i: int| 0 <= i < v@.len() ==> orders_view(v@)[i] == order_view(
                    #[trigger] v@[i],
                ),
                forall|i: int| 0 <= i < ls.len() ==> (#[trigger] ls[i]).wf(),
                arr@.len() == k,
                forall|i: int| 0 <= i < k ==> json_view(#[trigger] arr@[i]) == spec_order_json(
                    ls[i],
                ),
            decreases v.len() - k,
        {
            let e = v[k].to_json();
            arr.push(e);
            k = k + 1;
        }
        proof {
            crate::json::lemma_items_view(arr@);
            lemma_spec_orders_json(ls);
            assert forall|i: int| 0 <= i < arr@.len() implies crate::json::items_view(arr@)[i]
                == spec_orders_json(ls)[i] by {
                assert(crate::json::items_view(arr@)[i] == json_view(arr@[i]));
                assert(json_view(arr@[i]) == spec_order_json(ls[i]));
                assert(spec_orders_json(ls)[i] == spec_order_json(ls[i]));
            }
            assert(crate::json::items_view(arr@) =~= spec_orders_json(ls));
        }
        JsonValue::Arr(arr)
    }

    /// The wire object of this order, every field present and an absent
    /// optional sent as an explicit null.
    #[verifier::rlimit(100)]
    pub fn to_json(&self) -> (j: JsonValue)
        requires
            self@.wf(),
        ensures
            j@ == spec_order_json(self@),
        decreases *self, 1int,
    {
        let mut fields: Vec<(String, JsonValue)> = Vec::new();
        proof {
            assert(fields_view(fields@) =~= Seq::<(Seq<char>, JsonData)>::empty());
        }
        push_field(&mut fields, "id", JsonValue::Str(self.id.clone()));
        push_field(&mut fields, "client_order_id", JsonValue::Str(self.client_order_id.clone()));
        push_field(&mut fields, "created_at", JsonValue::Str(self.created_at.clone()));
        let ghost g1: Seq<(Seq<char>, JsonData)> = seq![
            ("id"@, JsonData::Str(self@.id)),
            ("client_order_id"@, JsonData::Str(self@.client_order_id)),
            ("created_at"@, JsonData::Str(self@.created_at)),
        ];
        proof {
            assert(fields_view(fields@) =~= g1);
        }
        push_field(&mut fields, "updated_at", Self::opt_str_value(&self.updated_at));
        push_field(&mut fields, "submitted_at", Self::opt_str_value(&self.submitted_at));
        push_field(&mut fields, "filled_at", Self::opt_str_value(&self.filled_at));
        push_field(&mut fields, "expired_at", Self::opt_str_value(&self.expired_at));
        push_field(&mut fields, "canceled_at", Self::opt_str_value(&self.canceled_at));
        push_field(&mut fields, "failed_at", Self::opt_str_value(&self.failed_at));
        let ghost g2: Seq<(Seq<char>, JsonData)> = g1 + seq![
            ("updated_at"@, opt_str_json(self@.updated_at)),
            ("submitted_at"@, opt_str_json(self@.submitted_at)),
            ("filled_at"@, opt_str_json(self@.filled_at)),
            ("expired_at"@, opt_str_json(self@.expired_at)),
            ("canceled_at"@, opt_str_json(self@.canceled_at)),
            ("failed_at"@, opt_str_json(self@.failed_at)),
        ];
        proof {
            assert(fields_view(fields@) =~= g2);
        }
        push_field(&mut fields, "asset_id", JsonValue::Str(self.asset_id.clone()));
        push_field(&mut fields, "symbol", JsonValue::Str(self.symbol.clone()));
        push_field(&mut fields, "asset_class", JsonValue::Str(self.asset_class.clone()));
        push_field(&mut fields, "qty", JsonValue::Str(self.qty.encode()));
        push_field(&mut fields, "filled_qty", JsonValue::Str(self.filled_qty.encode()));
        let ghost g3: Seq<(Seq<char>, JsonData)> = g2 + seq![
            ("asset_id"@, JsonData::Str(self@.asset_id)),
            ("symbol"@, JsonData::Str(self@.symbol)),
            ("asset_class"@, JsonData::Str(self@.asset_class)),
            ("qty"@, JsonData::Str(dec_text(self@.qty))),
            ("filled_qty"@, JsonData::Str(dec_text(self@.filled_qty))),
        ];
        proof {
            assert(fields_view(fields@) =~= g3);
        }
        push_field(&mut fields, "type", JsonValue::Str(String::from_str(self.order_type.to_tag())));
        push_field(&mut fields, "side", JsonValue::Str(String::from_str(self.side.to_tag())));
        push_field(
            &mut fields,
            "time_in_force",
            JsonValue::Str(String::from_str(self.time_in_force.to_tag())),
        );
        let ghost g4: Seq<(Seq<char>, JsonData)> = g3 + seq![
            ("type"@, JsonData::Str(spec_order_type_tag(self@.order_type))),
            ("side"@, JsonData::Str(spec_side_tag(self@.side))),
            ("time_in_force"@, JsonData::Str(spec_time_in_force_tag(self@.time_in_force))),
        ];
        proof {
            assert(fields_view(fields@) =~= g4);
        }
        push_field(&mut fields, "limit_price", Self::opt_dec_value(&self.limit_price));
        push_field(&mut fields, "stop_price", Self::opt_dec_value(&self.stop_price));
        push_field(&mut fields, "filled_avg_price", Self::opt_dec_value(&self.filled_avg_price));
        push_field(&mut fields, "status", JsonValue::Str(String::from_str(self.status.to_tag())));
        push_field(&mut fields, "extended_hours", JsonValue::Bool(self.extended_hours));
        let ghost g5: Seq<(Seq<char>, JsonData)> = g4 + seq![
            ("limit_price"@, opt_dec_json(self@.limit_price)),
            ("stop_price"@, opt_dec_json(self@.stop_price)),
            ("filled_avg_price"@, opt_dec_json(self@.filled_avg_price)),
            ("status"@, JsonData::Str(spec_order_status_tag(self@.status))),
            ("extended_hours"@, JsonData::Bool(self@.extended_hours)),
        ];
        proof {
            assert(fields_view(fields@) =~= g5);
        }
        let legs_value = match &self.legs {
            None => JsonValue::Null,
            Some(v) => Self::legs_to_json(v),
        };
        push_field(&mut fields, "legs", legs_value);
        let ghost g6: Seq<(Seq<char>, JsonData)> = g5 + seq![
            (
                "legs"@,
                match self@.legs {
                    Some(ls) => JsonData::Arr(spec_orders_json(ls)),
                    None => JsonData::Null,
                },
            ),
        ];
        proof {
            assert(fields_view(fields@) =~= g6);
            assert(g6 =~= spec_order_fields(self@));
        }
        let j = JsonValue::Obj(fields);
        j
    }
}

/// Null-vs-omission, inbound half: an order's wire object always carries
/// the `limit_price` key; with no limit price it holds an explicit null,
/// with one it holds the price's wire text.
#[verifier::rlimit(60)]
pub proof fn lemma_order_limit_price_null(o: OrderData)
    ensures
        spec_order_json(o) matches JsonData::Obj(fs) && spec_lookup(fs, "limit_price"@) == Some(
            opt_dec_json(o.limit_price),
        ),
        o.limit_price is None ==> spec_lookup(spec_order_fields(o), "limit_price"@) == Some(
            JsonData::Null,
        ),
        o.limit_price matches Some(d) ==> spec_lookup(spec_order_fields(o), "limit_price"@)
            == Some(JsonData::Str(dec_text(d))),
{
    let fs = spec_order_fields(o);
    let k = "limit_price"@;
    reveal_strlit("id");
    reveal_strlit("client_order_id");
    reveal_strlit("created_at");
    reveal_strlit("updated_at");
    reveal_strlit("submitted_at");
    reveal_strlit("filled_at");
    reveal_strlit("expired_at");
    reveal_strlit("canceled_at");
    reveal_strlit("failed_at");
    reveal_strlit("asset_id");
    reveal_strlit("symbol");
    reveal_strlit("asset_class");
    reveal_strlit("qty");
    reveal_strlit("filled_qty");
    reveal_strlit("type");
    reveal_strlit("side");
    reveal_strlit("time_in_force");
    reveal_strlit("limit_price");
    reveal_strlit("stop_price");
    reveal_strlit("filled_avg_price");
    reveal_strlit("status");
    reveal_strlit("extended_hours");
    reveal_strlit("legs");
    assert("id"@.len() == 2);
    assert("client_order_id"@.len() == 15);
    assert("created_at"@.len() == 10);
    assert("updated_at"@.len() == 10);
    assert("submitted_at"@.len() == 12);
    assert("filled_at"@.len() == 9);
    assert("expired_at"@.len() == 10);
    assert("canceled_at"@.len() == 11);
    assert("failed_at"@.len() == 9);
    assert("asset_id"@.len() == 8);
    assert("symbol"@.len() == 6);
    assert("asset_class"@.len() == 11);
    assert("qty"@.len() == 3);
    assert("filled_qty"@.len() == 10);
    assert("type"@.len() == 4);
    assert("side"@.len() == 4);
    assert("time_in_force"@.len() == 13);
    assert("limit_price"@.len() == 11);
    assert("stop_price"@.len() == 10);
    assert("filled_avg_price"@.len() == 16);
    assert("status"@.len() == 6);
    assert("extended_hours"@.len() == 14);
    assert("legs"@.len() == 4);
    assert("canceled_at"@[0] == 'c');
    assert("asset_class"@[0] == 'a');
    assert("limit_price"@[0] == 'l');
    assert(fs.subrange(0, 23).skip(1) =~= fs.subrange(1, 23));
    assert(fs.subrange(0, 23)[0] == fs[0]);
    assert(fs.subrange(1, 23).skip(1) =~= fs.subrange(2, 23));
    assert(fs.subrange(1, 23)[0] == fs[1]);
    assert(fs.subrange(2, 23).skip(1) =~= fs.subrange(3, 23));
    assert(fs.subrange(2, 23)[0] == fs[2]);
    assert(fs.subrange(3, 23).skip(1) =~= fs.subrange(4, 23));
    assert(fs.subrange(3, 23)[0] == fs[3]);
    assert(fs.subrange(4, 23).skip(1) =~= fs.subrange(5, 23));
    assert(fs.subrange(4, 23)[0] == fs[4]);
    assert(fs.subrange(5, 23).skip(1) =~= fs.subrange(6, 23));
    assert(fs.subrange(5, 23)[0] == fs[5]);
    assert(fs.subrange(6, 23).skip(1) =~= fs.subrange(7, 23));
    assert(fs.subrange(6, 23)[0] == fs[6]);
    assert(fs.subrange(7, 23).skip(1) =~= fs.subrange(8, 23));
    assert(fs.subrange(7, 23)[0] == fs[7]);
    assert(fs.subrange(8, 23).skip(1) =~= fs.subrange(9, 23));
    assert(fs.subrange(8, 23)[0] == fs[8]);
    assert(fs.subrange(9, 23).skip(1) =~= fs.subrange(10, 23));
    assert(fs.subrange(9, 23)[0] == fs[9]);
    assert(fs.subrange(10, 23).skip(1) =~= fs.subrange(11, 23));
    assert(fs.subrange(10, 23)[0] == fs[10]);
    assert(fs.subrange(11, 23).skip(1) =~= fs.subrange(12, 23));
    assert(fs.subrange(11, 23)[0] == fs[11]);
    assert(fs.subrange(12, 23).skip(1) =~= fs.subrange(13, 23));
    assert(fs.subrange(12, 23)[0] == fs[12]);
    assert(fs.subrange(13, 23).skip(1) =~= fs.subrange(14, 23));
    assert(fs.subrange(13, 23)[0] == fs[13]);
    assert(fs.subrange(14, 23).skip(1) =~= fs.subrange(15, 23));
    assert(fs.subrange(14, 23)[0] == fs[14]);
    assert(fs.subrange(15, 23).skip(1) =~= fs.subrange(16, 23));
    assert(fs.subrange(15, 23)[0] == fs[15]);
    assert(fs.subrange(16, 23).skip(1) =~= fs.subrange(17, 23));
    assert(fs.subrange(16, 23)[0] == fs[16]);
    assert(fs.subrange(17, 23).skip(1) =~= fs.subrange(18, 23));
    assert(fs.subrange(17, 23)[0] == fs[17]);
    assert(spec_lookup(fs.subrange(17, 23), k) == Some(opt_dec_json(o.limit_price)));
    assert(spec_lookup(fs.subrange(16, 23), k) == Some(opt_dec_json(o.limit_price)));
    assert(spec_lookup(fs.subrange(15, 23), k) == Some(opt_dec_json(o.limit_price)));
    assert(spec_lookup(fs.subrange(14, 23), k) == Some(opt_dec_json(o.limit_price)));
    assert(spec_lookup(fs.subrange(13, 23), k) == Some(opt_dec_json(o.limit_price)));
    assert(spec_lookup(fs.subrange(12, 23), k) == Some(opt_dec_json(o.limit_price)));
    assert(spec_lookup(fs.subrange(11, 23), k) == Some(opt_dec_json(o.limit_price)));
    assert(spec_lookup(fs.subrange(10, 23), k) == Some(opt_dec_json(o.limit_price)));
    assert(spec_lookup(fs.subrange(9, 23), k) == Some(opt_dec_json(o.limit_price)));
    assert(spec_lookup(fs.subrange(8, 23), k) == Some(opt_dec_json(o.limit_price)));
    assert(spec_lookup(fs.subrange(7, 23), k) == Some(opt_dec_json(o.limit_price)));
    assert(spec_lookup(fs.subrange(6, 23), k) == Some(opt_dec_json(o.limit_price)));
    assert(spec_lookup(fs.subrange(5, 23), k) == Some(opt_dec_json(o.limit_price)));
    assert(spec_lookup(fs.subrange(4, 23), k) == Some(opt_dec_json(o.limit_price)));
    assert(spec_lookup(fs.subrange(3, 23), k) == Some(opt_dec_json(o.limit_price)));
    assert(spec_lookup(fs.subrange(2, 23), k) == Some(opt_dec_json(o.limit_price)));
    assert(spec_lookup(fs.subrange(1, 23), k) == Some(opt_dec_json(o.limit_price)));
    assert(spec_lookup(fs.subrange(0, 23), k) == Some(opt_dec_json(o.limit_price)));
    assert(fs.subrange(0, 23) =~= fs);
}

/// What the `legs` field of an order's wire object holds: an explicit
/// null for a simple order, or the array of child orders, each decoded in
/// turn. A missing or otherwise-shaped field is a malformed body.
pub open spec fn spec_order_legs(fs: Seq<(Seq<char>, JsonData)>) -> Result<
    Option<Seq<OrderData>>,
    DecodeError,
>
    decreases fs, 1int,
{
    if fs.len() == 0 {
        Err(DecodeError::MalformedBody)
    } else if fs[0].0 == "legs"@ {
        match fs[0].1 {
            JsonData::Null => Ok(None),
            JsonData::Arr(items) => match spec_decode_orders(items) {
                Ok(ls) => Ok(Some(ls)),
                Err(e) => Err(e),
            },
            _ => Err(DecodeError::MalformedBody),
        }
    } else {
        spec_order_legs(fs.skip(1))
    }
}

/// Decodes a wire array of orders element by element, surfacing the first
/// failure.
pub open spec fn spec_decode_orders(items: Seq<JsonData>) -> Result<Seq<OrderData>, DecodeError>
    decreases items, 0int,
{
    if items.len() == 0 {
        Ok(Seq::empty())
    } else {
        match spec_decode_order(items[0]) {
            Ok(o) => match spec_decode_orders(items.skip(1)) {
                Ok(r) => Ok(seq![o] + r),
                Err(e) => Err(e),
            },
            Err(e) => Err(e),
        }
    }
}

/// The first failure an order's wire object holds, in field order, or
/// `None` where every field decodes.
pub open spec fn spec_order_err(fs: Seq<(Seq<char>, JsonData)>) -> Option<DecodeError>
    decreases fs, 2int,
{
    if spec_get_str(fs, "id"@) is Err {
        Some(spec_get_str(fs, "id"@)->Err_0)
    } else if spec_get_str(fs, "client_order_id"@) is Err {
        Some(spec_get_str(fs, "client_order_id"@)->Err_0)
    } else if spec_get_str(fs, "created_at"@) is Err {
        Some(spec_get_str(fs, "created_at"@)->Err_0)
    } else if spec_get_opt_str(fs, "updated_at"@) is Err {
        Some(spec_get_opt_str(fs, "updated_at"@)->Err_0)
    } else if spec_get_opt_str(fs, "submitted_at"@) is Err {
        Some(spec_get_opt_str(fs, "submitted_at"@)->Err_0)
    } else if spec_get_opt_str(fs, "filled_at"@) is Err {
        Some(spec_get_opt_str(fs, "filled_at"@)->Err_0)
    } else if spec_get_opt_str(fs, "expired_at"@) is Err {
        Some(spec_get_opt_str(fs, "expired_at"@)->Err_0)
    } else if spec_get_opt_str(fs, "canceled_at"@) is Err {
        Some(spec_get_opt_str(fs, "canceled_at"@)->Err_0)
    } else if spec_get_opt_str(fs, "failed_at"@) is Err {
        Some(spec_get_opt_str(fs, "failed_at"@)->Err_0)
    } else if spec_get_str(fs, "asset_id"@) is Err {
        Some(spec_get_str(fs, "asset_id"@)->Err_0)
    } else if spec_get_str(fs, "symbol"@) is Err {
        Some(spec_get_str(fs, "symbol"@)->Err_0)
    } else if spec_get_str(fs, "asset_class"@) is Err {
        Some(spec_get_str(fs, "asset_class"@)->Err_0)
    } else if spec_get_decimal(fs, "qty"@) is Err {
        Some(spec_get_decimal(fs, "qty"@)->Err_0)
    } else if spec_get_decimal(fs, "filled_qty"@) is Err {
        Some(spec_get_decimal(fs, "filled_qty"@)->Err_0)
    } else if spec_get_str(fs, "type"@) is Err {
        Some(spec_get_str(fs, "type"@)->Err_0)
    } else if spec_order_type_from_tag(spec_get_str(fs, "type"@)->Ok_0) is Err {
        Some(spec_order_type_from_tag(spec_get_str(fs, "type"@)->Ok_0)->Err_0)
    } else if spec_get_str(fs, "side"@) is Err {
        Some(spec_get_str(fs, "side"@)->Err_0)
    } else if spec_side_from_tag(spec_get_str(fs, "side"@)->Ok_0) is Err {
        Some(spec_side_from_tag(spec_get_str(fs, "side"@)->Ok_0)->Err_0)
    } else if spec_get_str(fs, "time_in_force"@) is Err {
        Some(spec_get_str(fs, "time_in_force"@)->Err_0)
    } else if spec_time_in_force_from_tag(spec_get_str(fs, "time_in_force"@)->Ok_0) is Err {
        Some(spec_time_in_force_from_tag(spec_get_str(fs, "time_in_force"@)->Ok_0)->Err_0)
    } else if spec_get_opt_decimal(fs, "limit_price"@) is Err {
        Some(spec_get_opt_decimal(fs, "limit_price"@)->Err_0)
    } else if spec_get_opt_decimal(fs, "stop_price"@) is Err {
        Some(spec_get_opt_decimal(fs, "stop_price"@)->Err_0)
    } else if spec_get_opt_decimal(fs, "filled_avg_price"@) is Err {
        Some(spec_get_opt_decimal(fs, "filled_avg_price"@)->Err_0)
    } else if spec_get_str(fs, "status"@) is Err {
        Some(spec_get_str(fs, "status"@)->Err_0)
    } else if spec_order_status_from_tag(spec_get_str(fs, "status"@)->Ok_0) is Err {
        Some(spec_order_status_from_tag(spec_get_str(fs, "status"@)->Ok_0)->Err_0)
    } else if spec_get_bool(fs, "extended_hours"@) is Err {
        Some(spec_get_bool(fs, "extended_hours"@)->Err_0)
    } else if spec_order_legs(fs) is Err {
        Some(spec_order_legs(fs)->Err_0)
    } else {
        None
    }
}

/// The order a wire body denotes, or the first failure it holds. The body
/// must be an object carrying every field of the schema.
pub open spec fn spec_decode_order(j: JsonData) -> Result<OrderData, DecodeError>
    decreases j, 3int,
{
    match j {
        JsonData::Obj(fs) => match spec_order_err(fs) {
            Some(e) => Err(e),
            None => Ok(
                OrderData {
                    id: spec_get_str(fs, "id"@)->Ok_0,
                    client_order_id: spec_get_str(fs, "client_order_id"@)->Ok_0,
                    created_at: spec_get_str(fs, "created_at"@)->Ok_0,
                    updated_at: spec_get_opt_str(fs, "updated_at"@)->Ok_0,
                    submitted_at: spec_get_opt_str(fs, "submitted_at"@)->Ok_0,
                    filled_at: spec_get_opt_str(fs, "filled_at"@)->Ok_0,
                    expired_at: spec_get_opt_str(fs, "expired_at"@)->Ok_0,
                    canceled_at: spec_get_opt_str(fs, "canceled_at"@)->Ok_0,
                    failed_at: spec_get_opt_str(fs, "failed_at"@)->Ok_0,
                    asset_id: spec_get_str(fs, "asset_id"@)->Ok_0,
                    symbol: spec_get_str(fs, "symbol"@)->Ok_0,
                    asset_class: spec_get_str(fs, "asset_class"@)->Ok_0,
                    qty: spec_get_decimal(fs, "qty"@)->Ok_0,
                    filled_qty: spec_get_decimal(fs, "filled_qty"@)->Ok_0,
                    order_type: spec_order_type_from_tag(spec_get_str(fs, "type"@)->Ok_0)->Ok_0,
                    side: spec_side_from_tag(spec_get_str(fs, "side"@)->Ok_0)->Ok_0,
                    time_in_force: spec_time_in_force_from_tag(
                        spec_get_str(fs, "time_in_force"@)->Ok_0,
                    )->Ok_0,
                    limit_price: spec_get_opt_decimal(fs, "limit_price"@)->Ok_0,
                    stop_price: spec_get_opt_decimal(fs, "stop_price"@)->Ok_0,
                    filled_avg_price: spec_get_opt_decimal(fs, "filled_avg_price"@)->Ok_0,
                    status: spec_order_status_from_tag(spec_get_str(fs, "status"@)->Ok_0)->Ok_0,
                    extended_hours: spec_get_bool(fs, "extended_hours"@)->Ok_0,
                    legs: spec_order_legs(fs)->Ok_0,
                },
            ),
        },
        _ => Err(DecodeError::MalformedBody),
    }
}

/// Element-wise success decodes a whole order array.
proof fn lemma_decode_orders_ok(items: Seq<JsonData>, ods: Seq<OrderData>)
    requires
        items.len() == ods.len(),
        forall|i: int| 0 <= i < items.len() ==> spec_decode_order(#[trigger] items[i]) == Ok::<
            OrderData,
            DecodeError,
        >(ods[i]),
    ensures
        spec_decode_orders(items) == Ok::<Seq<OrderData>, DecodeError>(ods),
    decreases items.len(),
{
    if items.len() == 0 {
        assert(ods =~= Seq::<OrderData>::empty());
    } else {
        assert forall|i: int| 0 <= i < items.skip(1).len() implies spec_decode_order(
            #[trigger] items.skip(1)[i],
        ) == Ok::<OrderData, DecodeError>(ods.skip(1)[i]) by {
            assert(items.skip(1)[i] == items[i + 1]);
            assert(ods.skip(1)[i] == ods[i + 1]);
        }
        lemma_decode_orders_ok(items.skip(1), ods.skip(1));
        assert(seq![ods[0]] + ods.skip(1) =~= ods);
    }
}

/// The first failing element fails the whole order array with its error.
proof fn lemma_decode_orders_err(items: Seq<JsonData>, k: int, e: DecodeError)
    requires
        0 <= k < items.len(),
        forall|m: int| 0 <= m < k ==> spec_decode_order(#[trigger] items[m]) is Ok,
        spec_decode_order(items[k]) == Err::<OrderData, DecodeError>(e),
    ensures
        spec_decode_orders(items) == Err::<Seq<OrderData>, DecodeError>(e),
    decreases items.len(),
{
    if k > 0 {
        assert forall|m: int| 0 <= m < k - 1 implies spec_decode_order(
            #[trigger] items.skip(1)[m],
        ) is Ok by {
            assert(items.skip(1)[m] == items[m + 1]);
        }
        assert(items.skip(1)[k - 1] == items[k]);
        lemma_decode_orders_err(items.skip(1), k - 1, e);
    }
}

impl Order {
    /// Reads the `legs` field out of an order's field list: an explicit
    /// null, or an array of child orders decoded in turn.
    fn legs_from_json(fields: &Vec<(String, JsonValue)>) -> (r: Result<
        Option<Vec<Order>>,
        DecodeError,
    >)
        ensures
            match spec_order_legs(fields_view(fields@)) {
                Ok(lsd) => r matches Ok(lo) && (match lo {
                    Some(v) => lsd matches Some(ls) && orders_view(v@) == ls && orders_data_wf(ls),
                    None => lsd is None,
                }),
                Err(e) => r matches Err(e2) && e2 == e,
            },
        decreases *fields, 0int,
    {
        let ghost fv = fields_view(fields@);
        proof {
            lemma_fields_view(fields@);
            assert(fv.skip(0) =~= fv);
        }
        let mut i: usize = 0;
        while i < fields.len()
            invariant
                0 <= i <= fields.len(),
                fv == fields_view(fields@),
                fv.len() == fields@.len(),
                forall|m: int| 0 <= m < fields@.len() ==> fv[m] == ((#[trigger] fields@[m]).0@,
                    json_view(fields@[m].1)),
                spec_order_legs(fv) == spec_order_legs(fv.skip(i as int)),
            decreases fields.len() - i,
        {
            proof {
                assert(fv.skip(i as int)[0] == fv[i as int]);
            }
            if str_eq(fields[i].0.as_str(), "legs") {
                match &fields[i].1 {
                    JsonValue::Null => {
                        return Ok(None);
                    },
                    JsonValue::Arr(items) => {
                        let ghost iv = crate::json::items_view(items@);
                        proof {
                            crate::json::lemma_items_view(items@);
                            assert(fv.skip(i as int)[0] == fv[i as int]);
                            assert(fv[i as int].1 == json_view(fields@[i as int].1));
                            assert(json_view(fields@[i as int].1) == JsonData::Arr(iv));
                            assert(spec_order_legs(fields_view(fields@)) == (
                            match spec_decode_orders(iv) {
                                Ok(ls) => Ok::<Option<Seq<OrderData>>, DecodeError>(Some(ls)),
                                Err(e2) => Err::<Option<Seq<OrderData>>, DecodeError>(e2),
                            }));
                        }
                        let mut out: Vec<Order> = Vec::new();
                        let mut k: usize = 0;
                        while k < items.len()
                            invariant
                                0 <= k <= items.len(),
                                0 <= i < fields@.len(),
                                fields@[i as int].1 == JsonValue::Arr(*items),
                                iv == crate::json::items_view(items@),
                                spec_order_legs(fields_view(fields@)) == (
                                match spec_decode_orders(iv) {
                                    Ok(ls) => Ok::<Option<Seq<OrderData>>, DecodeError>(Some(ls)),
                                    Err(e2) => Err::<Option<Seq<OrderData>>, DecodeError>(e2),
                                }),
                                iv.len() == items@.len(),
                                forall|m: int| 0 <= m < items@.len() ==> iv[m] == json_view(
                                    #[trigger] items@[m],
                                ),
                                out@.len() == k,
                                forall|m: int| 0 <= m < k ==> spec_decode_order(iv[m]) == Ok::<
                                    OrderData,
                                    DecodeError,
                                >(order_view(#[trigger] out@[m])),
                                forall|m: int| 0 <= m < k ==> order_view(
                                    #[trigger] out@[m],
                                ).wf(),
                            decreases items.len() - k,
                        {
                            proof {
                                assert(decreases_to!(*fields => fields@[i as int]));
                                assert(decreases_to!(fields@[i as int] => fields@[i as int].1));
                                assert(decreases_to!(fields@[i as int].1 => fields@[i as int].1->Arr_0));
                                assert(fields@[i as int].1->Arr_0 == *items);
                                assert(decreases_to!(fields@[i as int].1 => *items));
                                assert(decreases_to!(*items => items@[k as int]));
                                assert(decreases_to!(*fields => items@[k as int]));
                            }
                            match Self::from_json(&items[k]) {
                                Ok(o) => {
                                    out.push(o);
                                },
                                Err(e) => {
                                    proof {
                                        assert forall|m: int| 0 <= m < k implies spec_decode_order(
                                            #[trigger] iv[m],
                                        ) is Ok by {
                                            assert(spec_decode_order(iv[m]) == Ok::<
                                                OrderData,
                                                DecodeError,
                                            >(order_view(out@[m])));
                                        }
                                        lemma_decode_orders_err(iv, k as int, e);
                                    }
                                    return Err(e);
                                },
                            }
                            k = k + 1;
                        }
                        proof {
                            lemma_orders_view(out@);
                            assert forall|m: int| 0 <= m < iv.len() implies spec_decode_order(
                                #[trigger] iv[m],
                            ) == Ok::<OrderData, DecodeError>(orders_view(out@)[m]) by {
                                assert(orders_view(out@)[m] == order_view(out@[m]));
                            }
                            lemma_decode_orders_ok(iv, orders_view(out@));
                            lemma_orders_data_wf(orders_view(out@));
                            assert forall|m: int| 0 <= m < orders_view(out@).len() implies (
                            #[trigger] orders_view(out@)[m]).wf() by {
                                assert(orders_view(out@)[m] == order_view(out@[m]));
                            }
                        }
                        return Ok(Some(out));
                    },
                    _ => {
                        return Err(DecodeError::MalformedBody);
                    },
                }
            }
            proof {
                assert(fv.skip(i as int).skip(1) =~= fv.skip(i + 1));
            }
            i = i + 1;
        }
        proof {
            assert(fv.skip(fields.len() as int) =~= Seq::<(Seq<char>, JsonData)>::empty());
        }
        Err(DecodeError::MalformedBody)
    }

    /// The order a wire body denotes; the first malformed field's failure
    /// otherwise.
    #[verifier::rlimit(100)]
    pub fn from_json(j: &JsonValue) -> (r: Result<Order, DecodeError>)
        ensures
            match spec_decode_order(j@) {
                Ok(od) => r matches Ok(o) && o@ == od && od.wf(),
                Err(e) => r matches Err(e2) && e2 == e,
            },
        decreases *j, 1int,
    {
        match j {
            JsonValue::Obj(fields) => {
                let id = match get_str(fields, "id") {
                    Ok(v) => v,
                    Err(e) => {
                        return Err(e);
                    },
                };
                let client_order_id = match get_str(fields, "client_order_id") {
                    Ok(v) => v,
                    Err(e) => {
                        return Err(e);
                    },
                };
                let created_at = match get_str(fields, "created_at") {
                    Ok(v) => v,
                    Err(e) => {
                        return Err(e);
                    },
                };
                let updated_at = match get_opt_str(fields, "updated_at") {
                    Ok(v) => v,
                    Err(e) => {
                        return Err(e);
                    },
                };
                let submitted_at = match get_opt_str(fields, "submitted_at") {
                    Ok(v) => v,
                    Err(e) => {
                        return Err(e);
                    },
                };
                let filled_at = match get_opt_str(fields, "filled_at") {
                    Ok(v) => v,
                    Err(e) => {
                        return Err(e);
                    },
                };
                let expired_at = match get_opt_str(fields, "expired_at") {
                    Ok(v) => v,
                    Err(e) => {
                        return Err(e);
                    },
                };
                let canceled_at = match get_opt_str(fields, "canceled_at") {
                    Ok(v) => v,
                    Err(e) => {
                        return Err(e);
                    },
                };
                let failed_at = match get_opt_str(fields, "failed_at") {
                    Ok(v) => v,
                    Err(e) => {
                        return Err(e);
                    },
                };
                let asset_id = match get_str(fields, "asset_id") {
                    Ok(v) => v,
                    Err(e) => {
                        return Err(e);
                    },
                };
                let symbol = match get_str(fields, "symbol") {
                    Ok(v) => v,
                    Err(e) => {
                        return Err(e);
                    },
                };
                let asset_class = match get_str(fields, "asset_class") {
                    Ok(v) => v,
                    Err(e) => {
                        return Err(e);
                    },
                };
                let qty = match get_decimal(fields, "qty") {
                    Ok(v) => v,
                    Err(e) => {
                        return Err(e);
                    },
                };
                let filled_qty = match get_decimal(fields, "filled_qty") {
                    Ok(v) => v,
                    Err(e) => {
                        return Err(e);
                    },
                };
                let order_type = match get_str(fields, "type") {
                    Ok(t) => match OrderType::from_tag(t.as_str()) {
                        Ok(v) => v,
                        Err(e) => {
                            return Err(e);
                        },
                    },
                    Err(e) => {
                        return Err(e);
                    },
                };
                let side = match get_str(fields, "side") {
                    Ok(t) => match Side::from_tag(t.as_str()) {
                        Ok(v) => v,
                        Err(e) => {
                            return Err(e);
                        },
                    },
                    Err(e) => {
                        return Err(e);
                    },
                };
                let time_in_force = match get_str(fields, "time_in_force") {
                    Ok(t) => match TimeInForce::from_tag(t.as_str()) {
                        Ok(v) => v,
                        Err(e) => {
                            return Err(e);
                        },
                    },
                    Err(e) => {
                        return Err(e);
                    },
                };
                let limit_price = match get_opt_decimal(fields, "limit_price") {
                    Ok(v) => v,
                    Err(e) => {
                        return Err(e);
                    },
                };
                let stop_price = match get_opt_decimal(fields, "stop_price") {
                    Ok(v) => v,
                    Err(e) => {
                        return Err(e);
                    },
                };
                let filled_avg_price = match get_opt_decimal(fields, "filled_avg_price") {
                    Ok(v) => v,
                    Err(e) => {
                        return Err(e);
                    },
                };
                let status = match get_str(fields, "status") {
                    Ok(t) => match OrderStatus::from_tag(t.as_str()) {
                        Ok(v) => v,
                        Err(e) => {
                            return Err(e);
                        },
                    },
                    Err(e) => {
                        return Err(e);
                    },
                };
                let extended_hours = match get_bool(fields, "extended_hours") {
                    Ok(v) => v,
                    Err(e) => {
                        return Err(e);
                    },
                };
                let legs = match Self::legs_from_json(fields) {
                    Ok(v) => v,
                    Err(e) => {
                        return Err(e);
                    },
                };
                let o = Order {
                    id,
                    client_order_id,
                    created_at,
                    updated_at,
                    submitted_at,
                    filled_at,
                    expired_at,
                    canceled_at,
                    failed_at,
                    asset_id,
                    symbol,
                    asset_class,
                    qty,
                    filled_qty,
                    order_type,
                    side,
                    time_in_force,
                    limit_price,
                    stop_price,
                    filled_avg_price,
                    status,
                    extended_hours,
                    legs,
                };
                Ok(o)
            },
            _ => Err(DecodeError::MalformedBody),
        }
    }
}

/// The order list a wire body denotes: a JSON array of order objects.
pub open spec fn spec_decode_order_list(j: JsonData) -> Result<Seq<OrderData>, DecodeError> {
    match j {
        JsonData::Arr(items) => spec_decode_orders(items),
        _ => Err(DecodeError::MalformedBody),
    }
}

/// Decodes a wire array of orders; the first malformed element's failure
/// otherwise.
pub fn orders_from_json(j: &JsonValue) -> (r: Result<Vec<Order>, DecodeError>)
    ensures
        match spec_decode_order_list(j@) {
            Ok(ods) => r matches Ok(v) && orders_view(v@) == ods && orders_data_wf(ods),
            Err(e) => r matches Err(e2) && e2 == e,
        },
{
    match j {
        JsonValue::Arr(items) => {
            let ghost iv = crate::json::items_view(items@);
            proof {
                crate::json::lemma_items_view(items@);
            }
            let mut out: Vec<Order> = Vec::new();
            let mut k: usize = 0;
            while k < items.len()
                invariant
                    0 <= k <= items.len(),
                    iv == crate::json::items_view(items@),
                    iv.len() == items@.len(),
                    json_view(*j) == JsonData::Arr(iv),
                    forall|m: int| 0 <= m < items@.len() ==> iv[m] == json_view(
                        #[trigger] items@[m],
                    ),
                    out@.len() == k,
                    forall|m: int| 0 <= m < k ==> spec_decode_order(iv[m]) == Ok::<
                        OrderData,
                        DecodeError,
                    >(order_view(#[trigger] out@[m])),
                    forall|m: int| 0 <= m < k ==> order_view(#[trigger] out@[m]).wf(),
                decreases items.len() - k,
            {
                match Order::from_json(&items[k]) {
                    Ok(o) => {
                        out.push(o);
                    },
                    Err(e) => {
                        proof {
                            assert forall|m: int| 0 <= m < k implies spec_decode_order(
                                #[trigger] iv[m],
                            ) is Ok by {
                                assert(spec_decode_order(iv[m]) == Ok::<OrderData, DecodeError>(
                                    order_view(out@[m]),
                                ));
                            }
                            lemma_decode_orders_err(iv, k as int, e);
                        }
                        return Err(e);
                    },
                }
                k = k + 1;
            }
            proof {
                lemma_orders_view(out@);
                assert forall|m: int| 0 <= m < iv.len() implies spec_decode_order(
                    #[trigger] iv[m],
                ) == Ok::<OrderData, DecodeError>(orders_view(out@)[m]) by {
                    assert(orders_view(out@)[m] == order_view(out@[m]));
                }
                lemma_decode_orders_ok(iv, orders_view(out@));
                lemma_orders_data_wf(orders_view(out@));
                assert forall|m: int| 0 <= m < orders_view(out@).len() implies (
                #[trigger] orders_view(out@)[m]).wf() by {
                    assert(orders_view(out@)[m] == order_view(out@[m]));
                }
            }
            Ok(out)
        },
        _ => Err(DecodeError::MalformedBody),
    }
}

} // verus!
