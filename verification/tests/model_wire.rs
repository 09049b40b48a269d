use alpaca_client::DecodeError;
use alpaca_client::account::Account;
use alpaca_client::account::AccountStatus;
use alpaca_client::decimal::Decimal;
use alpaca_client::error::Error;
use alpaca_client::json::JsonValue;
use alpaca_client::orders::Order;
use alpaca_client::orders::OrderClass;
use alpaca_client::orders::OrderRequest;
use alpaca_client::orders::OrderReplace;
use alpaca_client::orders::OrderStatus;
use alpaca_client::orders::OrderType;
use alpaca_client::orders::Side;
use alpaca_client::orders::TimeInForce;
use alpaca_client::response;
use alpaca_client::response::ApiError;

fn obj_fields(j: &JsonValue) -> &Vec<(String, JsonValue)> {
    match j {
        JsonValue::Obj(fields) => fields,
        _ => panic!("expected a JSON object"),
    }
}

fn field<'a>(j: &'a JsonValue, name: &str) -> &'a JsonValue {
    for (k, v) in obj_fields(j) {
        if k == name {
            return v;
        }
    }
    panic!("missing field {name}");
}

fn has_field(j: &JsonValue, name: &str) -> bool {
    obj_fields(j).iter().any(|(k, _)| k == name)
}

fn str_value(j: &JsonValue) -> &str {
    match j {
        JsonValue::Str(s) => s,
        _ => panic!("expected a JSON string"),
    }
}

#[test]
fn enum_tags_round_trip() {
    for v in [Side::Buy, Side::Sell] {
        assert_eq!(Side::from_tag(v.to_tag()), Ok(v));
    }
    for v in [OrderType::Market, OrderType::Limit, OrderType::Stop, OrderType::StopLimit] {
        assert_eq!(OrderType::from_tag(v.to_tag()), Ok(v));
    }
    for v in [
        TimeInForce::Day,
        TimeInForce::Gtc,
        TimeInForce::Opg,
        TimeInForce::Cls,
        TimeInForce::Ioc,
        TimeInForce::Fok,
    ] {
        assert_eq!(TimeInForce::from_tag(v.to_tag()), Ok(v));
    }
    for v in [
        OrderStatus::New,
        OrderStatus::PartiallyFilled,
        OrderStatus::Filled,
        OrderStatus::DoneForDay,
        OrderStatus::Canceled,
        OrderStatus::Expired,
        OrderStatus::Replaced,
        OrderStatus::PendingCancel,
        OrderStatus::PendingReplace,
        OrderStatus::Accepted,
        OrderStatus::PendingNew,
        OrderStatus::AcceptedForBidding,
        OrderStatus::Stopped,
        OrderStatus::Rejected,
        OrderStatus::Suspended,
        OrderStatus::Calculated,
    ] {
        assert_eq!(OrderStatus::from_tag(v.to_tag()), Ok(v));
    }
    for v in [OrderClass::Simple, OrderClass::Bracket, OrderClass::Oco, OrderClass::Oto] {
        assert_eq!(OrderClass::from_tag(v.to_tag()), Ok(v));
    }
    for v in [
        AccountStatus::OnBoarding,
        AccountStatus::SubmissionFailed,
        AccountStatus::Submitted,
        AccountStatus::AccountUpdated,
        AccountStatus::ApprovalPending,
        AccountStatus::Active,
        AccountStatus::Rejected,
    ] {
        assert_eq!(AccountStatus::from_tag(v.to_tag()), Ok(v));
    }
}

#[test]
fn unknown_tags_are_rejected() {
    assert_eq!(OrderType::from_tag("iceberg"), Err(DecodeError::UnrecognizedEnumTag));
    assert_eq!(Side::from_tag("hold"), Err(DecodeError::UnrecognizedEnumTag));
    assert_eq!(TimeInForce::from_tag("DAY"), Err(DecodeError::UnrecognizedEnumTag));
    assert_eq!(OrderStatus::from_tag(""), Err(DecodeError::UnrecognizedEnumTag));
    assert_eq!(AccountStatus::from_tag("active"), Err(DecodeError::UnrecognizedEnumTag));
}

#[test]
fn replace_with_only_qty_serializes_one_field() {
    let r = OrderReplace::new().qty(Decimal::from_int(2));
    let j = r.to_json();
    let fields = obj_fields(&j);
    assert_eq!(fields.len(), 1);
    assert_eq!(fields[0].0, "qty");
    assert_eq!(str_value(&fields[0].1), "2");
}

#[test]
fn replace_empty_serializes_no_fields() {
    let j = OrderReplace::new().to_json();
    assert_eq!(obj_fields(&j).len(), 0);
}

#[test]
fn request_omits_unset_limit_price() {
    let r = OrderRequest::buy("IBM", Decimal::from_int(2));
    let j = r.to_json();
    assert!(!has_field(&j, "limit_price"));
    assert!(!has_field(&j, "stop_price"));
    assert!(!has_field(&j, "extended_hours"));
    assert!(!has_field(&j, "client_order_id"));
    assert!(!has_field(&j, "order_class"));
    assert!(!has_field(&j, "take_profit"));
    assert!(!has_field(&j, "stop_loss"));
    assert_eq!(str_value(field(&j, "symbol")), "IBM");
    assert_eq!(str_value(field(&j, "qty")), "2");
    assert_eq!(str_value(field(&j, "side")), "buy");
    assert_eq!(str_value(field(&j, "type")), "market");
    assert_eq!(str_value(field(&j, "time_in_force")), "day");
}

fn sample_order() -> Order {
    Order {
        id: "904837e3-3b76-47ec-b432-046db621571b".to_string(),
        client_order_id: "my-order".to_string(),
        created_at: "2021-03-16T18:38:01.942282Z".to_string(),
        updated_at: None,
        submitted_at: Some("2021-03-16T18:38:01.937734Z".to_string()),
        filled_at: None,
        expired_at: None,
        canceled_at: None,
        failed_at: None,
        asset_id: "8ccae427-5dd0-45b3-b5fe-7ba5e422c766".to_string(),
        symbol: "AAPL".to_string(),
        asset_class: "us_equity".to_string(),
        qty: Decimal::from_int(15),
        filled_qty: Decimal::from_int(0),
        order_type: OrderType::Market,
        side: Side::Buy,
        time_in_force: TimeInForce::Day,
        limit_price: None,
        stop_price: None,
        filled_avg_price: None,
        status: OrderStatus::New,
        extended_hours: false,
        legs: None,
    }
}

#[test]
fn order_sends_null_for_unset_limit_price() {
    let o = sample_order();
    let j = o.to_json();
    assert!(matches!(field(&j, "limit_price"), JsonValue::Null));
    assert!(matches!(field(&j, "updated_at"), JsonValue::Null));
    assert!(matches!(field(&j, "legs"), JsonValue::Null));
    assert_eq!(str_value(field(&j, "submitted_at")), "2021-03-16T18:38:01.937734Z");
    assert_eq!(str_value(field(&j, "status")), "new");
    assert_eq!(str_value(field(&j, "qty")), "15");
}

#[test]
fn order_round_trips_through_its_wire_object() {
    let mut o = sample_order();
    o.limit_price = Some(Decimal::decode("125.50").unwrap());
    let inner = sample_order();
    o.legs = Some(vec![inner]);
    let j = o.to_json();
    let back = Order::from_json(&j).unwrap();
    assert_eq!(back.id, o.id);
    assert_eq!(back.limit_price, Some(Decimal { mantissa: 1255, scale: 1 }));
    assert_eq!(back.status, OrderStatus::New);
    let legs = back.legs.as_ref().unwrap();
    assert_eq!(legs.len(), 1);
    assert_eq!(legs[0].symbol, "AAPL");
    assert!(legs[0].legs.is_none());
}

#[test]
fn order_with_bad_tag_fails_to_decode() {
    let o = sample_order();
    let mut j = o.to_json();
    if let JsonValue::Obj(fields) = &mut j {
        for f in fields.iter_mut() {
            if f.0 == "side" {
                f.1 = JsonValue::Str("hold".to_string());
            }
        }
    }
    assert!(matches!(Order::from_json(&j), Err(DecodeError::UnrecognizedEnumTag)));
}

#[test]
fn order_with_bad_decimal_fails_to_decode() {
    let o = sample_order();
    let mut j = o.to_json();
    if let JsonValue::Obj(fields) = &mut j {
        for f in fields.iter_mut() {
            if f.0 == "qty" {
                f.1 = JsonValue::Str("12.34.56".to_string());
            }
        }
    }
    assert!(matches!(Order::from_json(&j), Err(DecodeError::MalformedNumber)));
    assert!(matches!(Order::from_json(&JsonValue::Null), Err(DecodeError::MalformedBody)));
}

#[test]
fn builder_composition() {
    let r = OrderRequest::buy("IBM", Decimal::from_int(2))
        .order_type(OrderType::Limit)
        .limit_price(Decimal::from_int(1));
    assert_eq!(r.side, Side::Buy);
    assert_eq!(r.symbol, "IBM");
    assert_eq!(r.qty, Decimal::from_int(2));
    assert_eq!(r.order_type, OrderType::Limit);
    assert_eq!(r.limit_price, Some(Decimal::from_int(1)));
    assert_eq!(r.stop_price, None);
    assert!(r.extended_hours.is_none());
    assert!(r.client_order_id.is_none());
    assert!(r.order_class.is_none());
    assert!(r.take_profit.is_none());
    assert!(r.stop_loss.is_none());
    assert_eq!(r.time_in_force, TimeInForce::Day);
    assert!(r.check());
}

#[test]
fn sell_builder_and_legs_of_a_bracket() {
    let r = OrderRequest::sell("MSFT", Decimal::from_int(5))
        .order_class(OrderClass::Bracket)
        .take_profit(Decimal::decode("310.0").unwrap())
        .stop_loss(Decimal::from_int(290), Some(Decimal::from_int(289)));
    assert_eq!(r.side, Side::Sell);
    let j = r.to_json();
    let tp = field(&j, "take_profit");
    assert_eq!(str_value(field(tp, "limit_price")), "310");
    let sl = field(&j, "stop_loss");
    assert_eq!(str_value(field(sl, "stop_price")), "290");
    assert_eq!(str_value(field(sl, "limit_price")), "289");
}

#[test]
fn error_decodes_and_renders() {
    let j = JsonValue::Obj(vec![
        ("code".to_string(), JsonValue::Int(40310000)),
        (
            "message".to_string(),
            JsonValue::Str("access key verification failed".to_string()),
        ),
    ]);
    let e = Error::from_json(&j).unwrap();
    assert_eq!(e.render(), "(40310000) access key verification failed");
}

#[test]
fn error_with_wrong_shape_is_malformed() {
    let j = JsonValue::Obj(vec![("code".to_string(), JsonValue::Str("x".to_string()))]);
    assert!(matches!(Error::from_json(&j), Err(DecodeError::MalformedBody)));
    assert!(matches!(
        Error::from_json(&JsonValue::Str("oops".to_string())),
        Err(DecodeError::MalformedBody)
    ));
}

fn sample_account_json() -> JsonValue {
    let s = |v: &str| JsonValue::Str(v.to_string());
    JsonValue::Obj(vec![
        ("id".to_string(), s("e6f6d7c8-9f3d-4d16-8f2c-ae2c5f5c9b2f")),
        ("account_number".to_string(), s("PA24FNO24N5C")),
        ("status".to_string(), s("ACTIVE")),
        ("currency".to_string(), s("USD")),
        ("cash".to_string(), s("4000.32")),
        ("pattern_day_trader".to_string(), JsonValue::Bool(false)),
        ("trade_suspended_by_user".to_string(), JsonValue::Bool(false)),
        ("trading_blocked".to_string(), JsonValue::Bool(false)),
        ("transfers_blocked".to_string(), JsonValue::Bool(false)),
        ("account_blocked".to_string(), JsonValue::Bool(false)),
        ("created_at".to_string(), s("2020-10-31T23:40:50.376107Z")),
        ("shorting_enabled".to_string(), JsonValue::Bool(true)),
        ("long_market_value".to_string(), s("29000.93")),
        ("short_market_value".to_string(), s("0")),
        ("equity".to_string(), s("33001.25")),
        ("last_equity".to_string(), s("33000")),
        ("multiplier".to_string(), s("2")),
        ("buying_power".to_string(), s("66002.50")),
        ("initial_margin".to_string(), s("16500.62")),
        ("maintenance_margin".to_string(), s("8700.28")),
        ("sma".to_string(), s("0")),
        ("daytrade_count".to_string(), JsonValue::Int(1)),
        ("last_maintenance_margin".to_string(), s("8700")),
        ("daytrading_buying_power".to_string(), s("132005")),
        ("regt_buying_power".to_string(), s("66002.50")),
    ])
}

#[test]
fn account_decodes_from_its_wire_object() {
    let a = Account::from_json(&sample_account_json()).unwrap();
    assert_eq!(a.status, AccountStatus::Active);
    assert_eq!(a.currency, "USD");
    assert_eq!(a.cash, Decimal { mantissa: 400032, scale: 2 });
    assert_eq!(a.multiplier, Decimal::from_int(2));
    assert_eq!(a.daytrade_count, 1);
    assert!(a.shorting_enabled);
    // The buying power with a redundant trailing zero decodes to the
    // canonical value.
    assert_eq!(a.buying_power, Decimal { mantissa: 660025, scale: 1 });
}

#[test]
fn account_with_missing_field_is_malformed() {
    let mut j = sample_account_json();
    if let JsonValue::Obj(fields) = &mut j {
        fields.retain(|f| f.0 != "cash");
    }
    assert!(matches!(Account::from_json(&j), Err(DecodeError::MalformedBody)));
}

#[test]
fn responses_follow_the_success_dichotomy() {
    let ok = response::order_response(true, &sample_order().to_json());
    assert_eq!(ok.unwrap().symbol, "AAPL");

    let err_body = JsonValue::Obj(vec![
        ("code".to_string(), JsonValue::Int(40010001)),
        ("message".to_string(), JsonValue::Str("insufficient funds".to_string())),
    ]);
    match response::order_response(false, &err_body) {
        Err(ApiError::Remote(e)) => assert_eq!(e.render(), "(40010001) insufficient funds"),
        other => panic!("unexpected outcome {other:?}"),
    }

    match response::order_response(false, &JsonValue::Str("bad gateway".to_string())) {
        Err(ApiError::MalformedErrorBody) => {},
        other => panic!("unexpected outcome {other:?}"),
    }

    let list = JsonValue::Arr(vec![sample_order().to_json(), sample_order().to_json()]);
    let orders = response::orders_response(true, &list).unwrap();
    assert_eq!(orders.len(), 2);

    assert!(response::cancel_response(true, &JsonValue::Null).is_ok());
    let account = response::account_response(true, &sample_account_json()).unwrap();
    assert_eq!(account.account_number, "PA24FNO24N5C");
}

#[test]
fn wire_text_through_a_json_library() {
    // The tree the library builds renders to the sparse wire text the
    // service expects: exactly one key, no null members.
    fn to_serde(v: &JsonValue) -> serde_json::Value {
        match v {
            JsonValue::Null => serde_json::Value::Null,
            JsonValue::Bool(b) => serde_json::Value::Bool(*b),
            JsonValue::Int(i) => serde_json::Value::Number(serde_json::Number::from(*i)),
            JsonValue::Str(s) => serde_json::Value::String(s.clone()),
            JsonValue::Arr(items) => serde_json::Value::Array(items.iter().map(to_serde).collect()),
            JsonValue::Obj(fields) => serde_json::Value::Object(
                fields.iter().map(|(k, v)| (k.clone(), to_serde(v))).collect(),
            ),
        }
    }
    let r = OrderReplace::new().qty(Decimal::from_int(2));
    assert_eq!(to_serde(&r.to_json()).to_string(), "{\"qty\":\"2\"}");
}
