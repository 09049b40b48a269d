use vstd::prelude::*;
use crate::DecodeError;
use crate::decimal::Decimal;
use crate::json::JsonData;
use crate::json::JsonValue;
use crate::json::get_bool;
use crate::json::get_decimal;
use crate::json::get_int;
use crate::json::get_str;
use crate::json::spec_get_bool;
use crate::json::spec_get_decimal;
use crate::json::spec_get_int;
use crate::json::spec_get_str;
use crate::json::str_eq;

verus! {

/// The lifecycle state of a brokerage account, as the service reports it.
/// Most of the time an account is simply `Active`.
#[derive(Clone, Copy, Debug, PartialEq, Eq, Structural)]
pub enum AccountStatus {
    /// The account is onboarding.
    OnBoarding,
    /// The account application submission failed.
    SubmissionFailed,
    /// The account application has been submitted for review.
    Submitted,
    /// The account information is being updated.
    AccountUpdated,
    /// The final account approval is pending.
    ApprovalPending,
    /// The account is active for trading.
    Active,
    /// The account application has been rejected.
    Rejected,
}

/// The screaming-snake-case wire tag of an account status.
pub open spec fn spec_account_status_tag(v: AccountStatus) -> Seq<char> {
    match v {
        AccountStatus::OnBoarding => "ON_BOARDING"@,
        AccountStatus::SubmissionFailed => "SUBMISSION_FAILED"@,
        AccountStatus::Submitted => "SUBMITTED"@,
        AccountStatus::AccountUpdated => "ACCOUNT_UPDATED"@,
        AccountStatus::ApprovalPending => "APPROVAL_PENDING"@,
        AccountStatus::Active => "ACTIVE"@,
        AccountStatus::Rejected => "REJECTED"@,
    }
}

/// The account status a wire tag denotes.
pub open spec fn spec_account_status_from_tag(t: Seq<char>) -> Result<AccountStatus, DecodeError> {
    if t == "ON_BOARDING"@ {
        Ok(AccountStatus::OnBoarding)
    } else if t == "SUBMISSION_FAILED"@ {
        Ok(AccountStatus::SubmissionFailed)
    } else if t == "SUBMITTED"@ {
        Ok(AccountStatus::Submitted)
    } else if t == "ACCOUNT_UPDATED"@ {
        Ok(AccountStatus::AccountUpdated)
    } else if t == "APPROVAL_PENDING"@ {
        Ok(AccountStatus::ApprovalPending)
    } else if t == "ACTIVE"@ {
        Ok(AccountStatus::Active)
    } else if t == "REJECTED"@ {
        Ok(AccountStatus::Rejected)
    } else {
        Err(DecodeError::UnrecognizedEnumTag)
    }
}

impl AccountStatus {
    /// The wire tag of this account status.
    pub fn to_tag(&self) -> (r: &'static str)
        ensures
            r@ == spec_account_status_tag(*self),
    {
        match self {
            AccountStatus::OnBoarding => "ON_BOARDING",
            AccountStatus::SubmissionFailed => "SUBMISSION_FAILED",
            AccountStatus::Submitted => "SUBMITTED",
            AccountStatus::AccountUpdated => "ACCOUNT_UPDATED",
            AccountStatus::ApprovalPending => "APPROVAL_PENDING",
            AccountStatus::Active => "ACTIVE",
            AccountStatus::Rejected => "REJECTED",
        }
    }

    /// Parses an account status's wire tag.
    pub fn from_tag(t: &str) -> (r: Result<AccountStatus, DecodeError>)
        ensures
            r == spec_account_status_from_tag(t@),
    {
        if str_eq(t, "ON_BOARDING") {
            Ok(AccountStatus::OnBoarding)
        } else if str_eq(t, "SUBMISSION_FAILED") {
            Ok(AccountStatus::SubmissionFailed)
        } else if str_eq(t, "SUBMITTED") {
            Ok(AccountStatus::Submitted)
        } else if str_eq(t, "ACCOUNT_UPDATED") {
            Ok(AccountStatus::AccountUpdated)
        } else if str_eq(t, "APPROVAL_PENDING") {
            Ok(AccountStatus::ApprovalPending)
        } else if str_eq(t, "ACTIVE") {
            Ok(AccountStatus::Active)
        } else if str_eq(t, "REJECTED") {
            Ok(AccountStatus::Rejected)
        } else {
            Err(DecodeError::UnrecognizedEnumTag)
        }
    }
}

/// Round trip: every account status decodes back from its own tag; a
/// string outside the tag set is rejected as an unrecognized tag.
pub proof fn lemma_account_status_tag_round_trip(v: AccountStatus, other: Seq<char>)
    requires
        other != "ON_BOARDING"@,
        other != "SUBMISSION_FAILED"@,
        other != "SUBMITTED"@,
        other != "ACCOUNT_UPDATED"@,
        other != "APPROVAL_PENDING"@,
        other != "ACTIVE"@,
        other != "REJECTED"@,
    ensures
        spec_account_status_from_tag(spec_account_status_tag(v)) == Ok::<
            AccountStatus,
            DecodeError,
        >(v),
        spec_account_status_from_tag(other) == Err::<AccountStatus, DecodeError>(
            DecodeError::UnrecognizedEnumTag,
        ),
{
    reveal_strlit("ON_BOARDING");
    reveal_strlit("SUBMISSION_FAILED");
    reveal_strlit("SUBMITTED");
    reveal_strlit("ACCOUNT_UPDATED");
    reveal_strlit("APPROVAL_PENDING");
    reveal_strlit("ACTIVE");
    reveal_strlit("REJECTED");
    assert("ON_BOARDING"@.len() == 11);
    assert("SUBMISSION_FAILED"@.len() == 17);
    assert("SUBMITTED"@.len() == 9);
    assert("ACCOUNT_UPDATED"@.len() == 15);
    assert("APPROVAL_PENDING"@.len() == 16);
    assert("ACTIVE"@.len() == 6);
    assert("REJECTED"@.len() == 8);
}

/// An immutable snapshot of a brokerage account: identity, status,
/// restriction flags, and its monetary metrics. The client never patches
/// a field; each fetch replaces the whole snapshot.
#[derive(Clone, Debug)]
pub struct Account {
    pub id: String,
    pub account_number: String,
    pub status: AccountStatus,
    pub currency: String,
    pub cash: Decimal,
    pub pattern_day_trader: bool,
    pub trade_suspended_by_user: bool,
    pub trading_blocked: bool,
    pub transfers_blocked: bool,
    pub account_blocked: bool,
    pub created_at: String,
    pub shorting_enabled: bool,
    pub long_market_value: Decimal,
    pub short_market_value: Decimal,
    pub equity: Decimal,
    pub last_equity: Decimal,
    pub multiplier: Decimal,
    pub buying_power: Decimal,
    pub initial_margin: Decimal,
    pub maintenance_margin: Decimal,
    pub sma: Decimal,
    pub daytrade_count: i64,
    pub last_maintenance_margin: Decimal,
    pub daytrading_buying_power: Decimal,
    pub regt_buying_power: Decimal,
}

/// The mathematical model of an account snapshot.
pub struct AccountData {
    pub id: Seq<char>,
    pub account_number: Seq<char>,
    pub status: AccountStatus,
    pub currency: Seq<char>,
    pub cash: Decimal,
    pub pattern_day_trader: bool,
    pub trade_suspended_by_user: bool,
    pub trading_blocked: bool,
    pub transfers_blocked: bool,
    pub account_blocked: bool,
    pub created_at: Seq<char>,
    pub shorting_enabled: bool,
    pub long_market_value: Decimal,
    pub short_market_value: Decimal,
    pub equity: Decimal,
    pub last_equity: Decimal,
    pub multiplier: Decimal,
    pub buying_power: Decimal,
    pub initial_margin: Decimal,
    pub maintenance_margin: Decimal,
    pub sma: Decimal,
    pub daytrade_count: int,
    pub last_maintenance_margin: Decimal,
    pub daytrading_buying_power: Decimal,
    pub regt_buying_power: Decimal,
}

/// The model of one executable account snapshot.
pub open spec fn account_view(a: Account) -> AccountData {
    AccountData {
        id: a.id@,
        account_number: a.account_number@,
        status: a.status,
        currency: a.currency@,
        cash: a.cash,
        pattern_day_trader: a.pattern_day_trader,
        trade_suspended_by_user: a.trade_suspended_by_user,
        trading_blocked: a.trading_blocked,
        transfers_blocked: a.transfers_blocked,
        account_blocked: a.account_blocked,
        created_at: a.created_at@,
        shorting_enabled: a.shorting_enabled,
        long_market_value: a.long_market_value,
        short_market_value: a.short_market_value,
        equity: a.equity,
        last_equity: a.last_equity,
        multiplier: a.multiplier,
        buying_power: a.buying_power,
        initial_margin: a.initial_margin,
        maintenance_margin: a.maintenance_margin,
        sma: a.sma,
        daytrade_count: a.daytrade_count as int,
        last_maintenance_margin: a.last_maintenance_margin,
        daytrading_buying_power: a.daytrading_buying_power,
        regt_buying_power: a.regt_buying_power,
    }
}

impl View for Account {
    type V = AccountData;

    open spec fn view(&self) -> AccountData {
        account_view(*self)
    }
}

impl AccountData {
    /// All decimals canonical.
    pub open spec fn wf(self) -> bool {
        self.cash.wf() &&
        self.long_market_value.wf() &&
        self.short_market_value.wf() &&
        self.equity.wf() &&
        self.last_equity.wf() &&
        self.multiplier.wf() &&
        self.buying_power.wf() &&
        self.initial_margin.wf() &&
        self.maintenance_margin.wf() &&
        self.sma.wf() &&
        self.last_maintenance_margin.wf() &&
        self.daytrading_buying_power.wf() &&
        self.regt_buying_power.wf()
    }
}

/// The first failure an account's wire object holds, in field order, or
/// `None` where every field decodes.
pub open spec fn spec_account_err(fs: Seq<(Seq<char>, JsonData)>) -> Option<DecodeError> {
    if spec_get_str(fs, "id"@) is Err {
        Some(spec_get_str(fs, "id"@)->Err_0)
    } else if spec_get_str(fs, "account_number"@) is Err {
        Some(spec_get_str(fs, "account_number"@)->Err_0)
    } else if spec_get_str(fs, "status"@) is Err {
        Some(spec_get_str(fs, "status"@)->Err_0)
    } else if spec_account_status_from_tag(spec_get_str(fs, "status"@)->Ok_0) is Err {
        Some(spec_account_status_from_tag(spec_get_str(fs, "status"@)->Ok_0)->Err_0)
    } else if spec_get_str(fs, "currency"@) is Err {
        Some(spec_get_str(fs, "currency"@)->Err_0)
    } else if spec_get_decimal(fs, "cash"@) is Err {
        Some(spec_get_decimal(fs, "cash"@)->Err_0)
    } else if spec_get_bool(fs, "pattern_day_trader"@) is Err {
        Some(spec_get_bool(fs, "pattern_day_trader"@)->Err_0)
    } else if spec_get_bool(fs, "trade_suspended_by_user"@) is Err {
        Some(spec_get_bool(fs, "trade_suspended_by_user"@)->Err_0)
    } else if spec_get_bool(fs, "trading_blocked"@) is Err {
        Some(spec_get_bool(fs, "trading_blocked"@)->Err_0)
    } else if spec_get_bool(fs, "transfers_blocked"@) is Err {
        Some(spec_get_bool(fs, "transfers_blocked"@)->Err_0)
    } else if spec_get_bool(fs, "account_blocked"@) is Err {
        Some(spec_get_bool(fs, "account_blocked"@)->Err_0)
    } else if spec_get_str(fs, "created_at"@) is Err {
        Some(spec_get_str(fs, "created_at"@)->Err_0)
    } else if spec_get_bool(fs, "shorting_enabled"@) is Err {
        Some(spec_get_bool(fs, "shorting_enabled"@)->Err_0)
    } else if spec_get_decimal(fs, "long_market_value"@) is Err {
        Some(spec_get_decimal(fs, "long_market_value"@)->Err_0)
    } else if spec_get_decimal(fs, "short_market_value"@) is Err {
        Some(spec_get_decimal(fs, "short_market_value"@)->Err_0)
    } else if spec_get_decimal(fs, "equity"@) is Err {
        Some(spec_get_decimal(fs, "equity"@)->Err_0)
    } else if spec_get_decimal(fs, "last_equity"@) is Err {
        Some(spec_get_decimal(fs, "last_equity"@)->Err_0)
    } else if spec_get_decimal(fs, "multiplier"@) is Err {
        Some(spec_get_decimal(fs, "multiplier"@)->Err_0)
    } else if spec_get_decimal(fs, "buying_power"@) is Err {
        Some(spec_get_decimal(fs, "buying_power"@)->Err_0)
    } else if spec_get_decimal(fs, "initial_margin"@) is Err {
        Some(spec_get_decimal(fs, "initial_margin"@)->Err_0)
    } else if spec_get_decimal(fs, "maintenance_margin"@) is Err {
        Some(spec_get_decimal(fs, "maintenance_margin"@)->Err_0)
    } else if spec_get_decimal(fs, "sma"@) is Err {
        Some(spec_get_decimal(fs, "sma"@)->Err_0)
    } else if spec_get_int(fs, "daytrade_count"@) is Err {
        Some(spec_get_int(fs, "daytrade_count"@)->Err_0)
    } else if spec_get_decimal(fs, "last_maintenance_margin"@) is Err {
        Some(spec_get_decimal(fs, "last_maintenance_margin"@)->Err_0)
    } else if spec_get_decimal(fs, "daytrading_buying_power"@) is Err {
        Some(spec_get_decimal(fs, "daytrading_buying_power"@)->Err_0)
    } else if spec_get_decimal(fs, "regt_buying_power"@) is Err {
        Some(spec_get_decimal(fs, "regt_buying_power"@)->Err_0)
    } else {
        None
    }
}

/// The account snapshot a wire body denotes, or the first failure it
/// holds. The body must be an object carrying every field of the schema.
pub open spec fn spec_decode_account(j: JsonData) -> Result<AccountData, DecodeError> {
    match j {
        JsonData::Obj(fs) => match spec_account_err(fs) {
            Some(e) => Err(e),
            None => Ok(
                AccountData {
                    id: spec_get_str(fs, "id"@)->Ok_0,
                    account_number: spec_get_str(fs, "account_number"@)->Ok_0,
                    status: spec_account_status_from_tag(spec_get_str(fs, "status"@)->Ok_0)->Ok_0,
                    currency: spec_get_str(fs, "currency"@)->Ok_0,
                    cash: spec_get_decimal(fs, "cash"@)->Ok_0,
                    pattern_day_trader: spec_get_bool(fs, "pattern_day_trader"@)->Ok_0,
                    trade_suspended_by_user: spec_get_bool(fs, "trade_suspended_by_user"@)->Ok_0,
                    trading_blocked: spec_get_bool(fs, "trading_blocked"@)->Ok_0,
                    transfers_blocked: spec_get_bool(fs, "transfers_blocked"@)->Ok_0,
                    account_blocked: spec_get_bool(fs, "account_blocked"@)->Ok_0,
                    created_at: spec_get_str(fs, "created_at"@)->Ok_0,
                    shorting_enabled: spec_get_bool(fs, "shorting_enabled"@)->Ok_0,
                    long_market_value: spec_get_decimal(fs, "long_market_value"@)->Ok_0,
                    short_market_value: spec_get_decimal(fs, "short_market_value"@)->Ok_0,
                    equity: spec_get_decimal(fs, "equity"@)->Ok_0,
                    last_equity: spec_get_decimal(fs, "last_equity"@)->Ok_0,
                    multiplier: spec_get_decimal(fs, "multiplier"@)->Ok_0,
                    buying_power: spec_get_decimal(fs, "buying_power"@)->Ok_0,
                    initial_margin: spec_get_decimal(fs, "initial_margin"@)->Ok_0,
                    maintenance_margin: spec_get_decimal(fs, "maintenance_margin"@)->Ok_0,
                    sma: spec_get_decimal(fs, "sma"@)->Ok_0,
                    daytrade_count: spec_get_int(fs, "daytrade_count"@)->Ok_0,
                    last_maintenance_margin: spec_get_decimal(fs, "last_maintenance_margin"@)->Ok_0,
                    daytrading_buying_power: spec_get_decimal(fs, "daytrading_buying_power"@)->Ok_0,
                    regt_buying_power: spec_get_decimal(fs, "regt_buying_power"@)->Ok_0,
                },
            ),
        },
        _ => Err(DecodeError::MalformedBody),
    }
}

impl Account {
    /// The account snapshot a wire body denotes; the first malformed
    /// field's failure otherwise.
    #[verifier::rlimit(100)]
    pub fn from_json(j: &JsonValue) -> (r: Result<Account, DecodeError>)
        ensures
            match spec_decode_account(j@) {
                Ok(ad) => r matches Ok(a) && a@ == ad && ad.wf(),
                Err(e) => r matches Err(e2) && e2 == e,
            },
    {
        match j {
            JsonValue::Obj(fields) => {
                let id = match get_str(fields, "id") {
                    Ok(v) => v,
                    Err(e) => {
                        return Err(e);
                    },
                };
                let account_number = match get_str(fields, "account_number") {
                    Ok(v) => v,
                    Err(e) => {
                        return Err(e);
                    },
                };
                let status = match get_str(fields, "status") {
                    Ok(t) => match AccountStatus::from_tag(t.as_str()) {
                        Ok(v) => v,
                        Err(e) => {
                            return Err(e);
                        },
                    },
                    Err(e) => {
                        return Err(e);
                    },
                };
                let currency = match get_str(fields, "currency") {
                    Ok(v) => v,
                    Err(e) => {
                        return Err(e);
                    },
                };
                let cash = match get_decimal(fields, "cash") {
                    Ok(v) => v,
                    Err(e) => {
                        return Err(e);
                    },
                };
                let pattern_day_trader = match get_bool(fields, "pattern_day_trader") {
                    Ok(v) => v,
                    Err(e) => {
                        return Err(e);
                    },
                };
                let trade_suspended_by_user = match get_bool(fields, "trade_suspended_by_user") {
                    Ok(v) => v,
                    Err(e) => {
                        return Err(e);
                    },
                };
                let trading_blocked = match get_bool(fields, "trading_blocked") {
                    Ok(v) => v,
                    Err(e) => {
                        return Err(e);
                    },
                };
                let transfers_blocked = match get_bool(fields, "transfers_blocked") {
                    Ok(v) => v,
                    Err(e) => {
                        return Err(e);
                    },
                };
                let account_blocked = match get_bool(fields, "account_blocked") {
                    Ok(v) => v,
                    Err(e) => {
                        return Err(e);
                    },
                };
                let created_at = match get_str(fields, "created_at") {
                    Ok(v) => v,
                    Err(e) => {
                        return Err(e);
                    },
                };
                let shorting_enabled = match get_bool(fields, "shorting_enabled") {
                    Ok(v) => v,
                    Err(e) => {
                        return Err(e);
                    },
                };
                let long_market_value = match get_decimal(fields, "long_market_value") {
                    Ok(v) => v,
                    Err(e) => {
                        return Err(e);
                    },
                };
                let short_market_value = match get_decimal(fields, "short_market_value") {
                    Ok(v) => v,
                    Err(e) => {
                        return Err(e);
                    },
                };
                let equity = match get_decimal(fields, "equity") {
                    Ok(v) => v,
                    Err(e) => {
                        return Err(e);
                    },
                };
                let last_equity = match get_decimal(fields, "last_equity") {
                    Ok(v) => v,
                    Err(e) => {
                        return Err(e);
                    },
                };
                let multiplier = match get_decimal(fields, "multiplier") {
                    Ok(v) => v,
                    Err(e) => {
                        return Err(e);
                    },
                };
                let buying_power = match get_decimal(fields, "buying_power") {
                    Ok(v) => v,
                    Err(e) => {
                        return Err(e);
                    },
                };
                let initial_margin = match get_decimal(fields, "initial_margin") {
                    Ok(v) => v,
                    Err(e) => {
                        return Err(e);
                    },
                };
                let maintenance_margin = match get_decimal(fields, "maintenance_margin") {
                    Ok(v) => v,
                    Err(e) => {
                        return Err(e);
                    },
                };
                let sma = match get_decimal(fields, "sma") {
                    Ok(v) => v,
                    Err(e) => {
                        return Err(e);
                    },
                };
                let daytrade_count = match get_int(fields, "daytrade_count") {
                    Ok(v) => v,
                    Err(e) => {
                        return Err(e);
                    },
                };
                let last_maintenance_margin = match get_decimal(fields, "last_maintenance_margin") {
                    Ok(v) => v,
                    Err(e) => {
                        return Err(e);
                    },
                };
                let daytrading_buying_power = match get_decimal(fields, "daytrading_buying_power") {
                    Ok(v) => v,
                    Err(e) => {
                        return Err(e);
                    },
                };
                let regt_buying_power = match get_decimal(fields, "regt_buying_power") {
                    Ok(v) => v,
                    Err(e) => {
                        return Err(e);
                    },
                };
                let a = Account {
                    id,
                    account_number,
                    status,
                    currency,
                    cash,
                    pattern_day_trader,
                    trade_suspended_by_user,
                    trading_blocked,
                    transfers_blocked,
                    account_blocked,
                    created_at,
                    shorting_enabled,
                    long_market_value,
                    short_market_value,
                    equity,
                    last_equity,
                    multiplier,
                    buying_power,
                    initial_margin,
                    maintenance_margin,
                    sma,
                    daytrade_count,
                    last_maintenance_margin,
                    daytrading_buying_power,
                    regt_buying_power,
                };
                Ok(a)
            },
            _ => Err(DecodeError::MalformedBody),
        }
    }
}

} // verus!
