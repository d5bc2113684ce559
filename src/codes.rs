//! Closed sets of codes carried by transactions.
use crate::numeric::text_eq;
use vstd::prelude::*;

verus! {

/// How a transaction was paid, by its numeric code 0 to 10.
#[derive(Clone, Copy, Debug, PartialEq, Eq, Structural)]
pub enum PayMode {
    Unspecified,
    CreditCard,
    Cheque,
    Cash,
    BankTransfer,
    DebitCard,
    StandingOrder,
    ElectronicPayment,
    Deposit,
    FIFee,
    DirectDebit,
}

/// The numeric code of a payment method.
pub open spec fn pay_mode_code(p: PayMode) -> nat {
    match p {
        PayMode::Unspecified => 0,
        PayMode::CreditCard => 1,
        PayMode::Cheque => 2,
        PayMode::Cash => 3,
        PayMode::BankTransfer => 4,
        PayMode::DebitCard => 5,
        PayMode::StandingOrder => 6,
        PayMode::ElectronicPayment => 7,
        PayMode::Deposit => 8,
        PayMode::FIFee => 9,
        PayMode::DirectDebit => 10,
    }
}

/// The symbolic name of a payment method.
pub open spec fn pay_mode_name(p: PayMode) -> Seq<char> {
    match p {
        PayMode::Unspecified => "None"@,
        PayMode::CreditCard => "CreditCard"@,
        PayMode::Cheque => "Cheque"@,
        PayMode::Cash => "Cash"@,
        PayMode::BankTransfer => "BankTransfer"@,
        PayMode::DebitCard => "DebitCard"@,
        PayMode::StandingOrder => "StandingOrder"@,
        PayMode::ElectronicPayment => "ElectronicPayment"@,
        PayMode::Deposit => "Deposit"@,
        PayMode::FIFee => "FIFee"@,
        PayMode::DirectDebit => "DirectDebit"@,
    }
}

impl PayMode {
    /// The payment method called `s`, if any is.
    pub fn from_name(s: &str) -> (r: Option<PayMode>)
        ensures
            r is Some ==> pay_mode_name(r->0) == s@,
            r is None ==> forall|p: PayMode| pay_mode_name(p) != s@,
    {
        if text_eq(s, "None") {
            Some(PayMode::Unspecified)
        } else if text_eq(s, "CreditCard") {
            Some(PayMode::CreditCard)
        } else if text_eq(s, "Cheque") {
            Some(PayMode::Cheque)
        } else if text_eq(s, "Cash") {
            Some(PayMode::Cash)
        } else if text_eq(s, "BankTransfer") {
            Some(PayMode::BankTransfer)
        } else if text_eq(s, "DebitCard") {
            Some(PayMode::DebitCard)
        } else if text_eq(s, "StandingOrder") {
            Some(PayMode::StandingOrder)
        } else if text_eq(s, "ElectronicPayment") {
            Some(PayMode::ElectronicPayment)
        } else if text_eq(s, "Deposit") {
            Some(PayMode::Deposit)
        } else if text_eq(s, "FIFee") {
            Some(PayMode::FIFee)
        } else if text_eq(s, "DirectDebit") {
            Some(PayMode::DirectDebit)
        } else {
            None
        }
    }

    /// The symbolic name of this payment method.
    pub fn name(&self) -> (r: &'static str)
        ensures
            r@ == pay_mode_name(*self),
    {
        match self {
            PayMode::Unspecified => "None",
            PayMode::CreditCard => "CreditCard",
            PayMode::Cheque => "Cheque",
            PayMode::Cash => "Cash",
            PayMode::BankTransfer => "BankTransfer",
            PayMode::DebitCard => "DebitCard",
            PayMode::StandingOrder => "StandingOrder",
            PayMode::ElectronicPayment => "ElectronicPayment",
            PayMode::Deposit => "Deposit",
            PayMode::FIFee => "FIFee",
            PayMode::DirectDebit => "DirectDebit",
        }
    }

    /// The payment method with code `c`, if `c` is one of 0 to 10.
    pub fn from_code(c: usize) -> (r: Option<PayMode>)
        ensures
            r is Some <==> c <= 10,
            r is Some ==> pay_mode_code(r->0) == c,
    {
        match c {
            0 => Some(PayMode::Unspecified),
            1 => Some(PayMode::CreditCard),
            2 => Some(PayMode::Cheque),
            3 => Some(PayMode::Cash),
            4 => Some(PayMode::BankTransfer),
            5 => Some(PayMode::DebitCard),
            6 => Some(PayMode::StandingOrder),
            7 => Some(PayMode::ElectronicPayment),
            8 => Some(PayMode::Deposit),
            9 => Some(PayMode::FIFee),
            10 => Some(PayMode::DirectDebit),
            _ => None,
        }
    }

    /// The numeric code of this payment method.
    pub fn code(&self) -> (r: usize)
        ensures
            r == pay_mode_code(*self),
    {
        match self {
            PayMode::Unspecified => 0,
            PayMode::CreditCard => 1,
            PayMode::Cheque => 2,
            PayMode::Cash => 3,
            PayMode::BankTransfer => 4,
            PayMode::DebitCard => 5,
            PayMode::StandingOrder => 6,
            PayMode::ElectronicPayment => 7,
            PayMode::Deposit => 8,
            PayMode::FIFee => 9,
            PayMode::DirectDebit => 10,
        }
    }
}

/// Reconciliation state of a transaction, by its numeric code 0 to 4.
#[derive(Clone, Copy, Debug, PartialEq, Eq, Structural)]
pub enum TransactionStatus {
    Unspecified,
    Cleared,
    Reconciled,
    Remind,
    Void,
}

/// The numeric code of a transaction status.
pub open spec fn status_code(s: TransactionStatus) -> nat {
    match s {
        TransactionStatus::Unspecified => 0,
        TransactionStatus::Cleared => 1,
        TransactionStatus::Reconciled => 2,
        TransactionStatus::Remind => 3,
        TransactionStatus::Void => 4,
    }
}

/// The symbolic name of a transaction status.
pub open spec fn status_name(s: TransactionStatus) -> Seq<char> {
    match s {
        TransactionStatus::Unspecified => "None"@,
        TransactionStatus::Cleared => "Cleared"@,
        TransactionStatus::Reconciled => "Reconciled"@,
        TransactionStatus::Remind => "Remind"@,
        TransactionStatus::Void => "Void"@,
    }
}

impl TransactionStatus {
    /// The status called `s`, if any is.
    pub fn from_name(s: &str) -> (r: Option<TransactionStatus>)
        ensures
            r is Some ==> status_name(r->0) == s@,
            r is None ==> forall|t: TransactionStatus| status_name(t) != s@,
    {
        if text_eq(s, "None") {
            Some(TransactionStatus::Unspecified)
        } else if text_eq(s, "Cleared") {
            Some(TransactionStatus::Cleared)
        } else if text_eq(s, "Reconciled") {
            Some(TransactionStatus::Reconciled)
        } else if text_eq(s, "Remind") {
            Some(TransactionStatus::Remind)
        } else if text_eq(s, "Void") {
            Some(TransactionStatus::Void)
        } else {
            None
        }
    }

    /// The symbolic name of this status.
    pub fn name(&self) -> (r: &'static str)
        ensures
            r@ == status_name(*self),
    {
        match self {
            TransactionStatus::Unspecified => "None",
            TransactionStatus::Cleared => "Cleared",
            TransactionStatus::Reconciled => "Reconciled",
            TransactionStatus::Remind => "Remind",
            TransactionStatus::Void => "Void",
        }
    }

    /// The status with code `c`, if `c` is one of 0 to 4.
    pub fn from_code(c: usize) -> (r: Option<TransactionStatus>)
        ensures
            r is Some <==> c <= 4,
            r is Some ==> status_code(r->0) == c,
    {
        match c {
            0 => Some(TransactionStatus::Unspecified),
            1 => Some(TransactionStatus::Cleared),
            2 => Some(TransactionStatus::Reconciled),
            3 => Some(TransactionStatus::Remind),
            4 => Some(TransactionStatus::Void),
            _ => None,
        }
    }

    /// The numeric code of this status.
    pub fn code(&self) -> (r: usize)
        ensures
            r == status_code(*self),
    {
        match self {
            TransactionStatus::Unspecified => 0,
            TransactionStatus::Cleared => 1,
            TransactionStatus::Reconciled => 2,
            TransactionStatus::Remind => 3,
            TransactionStatus::Void => 4,
        }
    }
}

/// Direction of a transaction.
#[derive(Clone, Copy, Debug, PartialEq, Eq, Structural)]
pub enum TransactionType {
    Expense,
    Income,
    Transfer,
}

/// Whether a group of accounts is in use.
#[derive(Clone, Copy, Debug, PartialEq, Eq, Structural)]
pub enum GroupStatus {
    Active,
    Archived,
}

} // verus!
