use vstd::prelude::*;
use vstd::string::StringExecFns;

use crate::config::{TokenConfig, TokenConfigView};
use crate::principal::Principal;
use crate::table::TableItem;
use crate::util::{clone_pairs, dec_digits, pairs_view, u64_to_string};

verus! {

/// Where an invoice stands: `Paid` is terminal.
#[derive(Clone, Copy, PartialEq, Eq, Structural, Debug)]
pub enum InvoiceStatus {
    Created,
    Paid,
    Expired,
    Cancelled,
}

/// How a payment moved funds.
#[derive(Clone, Copy, PartialEq, Eq, Structural, Debug)]
pub enum PaymentMethod {
    Direct,
    TransferFrom,
    Subscription,
}

/// The outcome recorded on a transaction; one record never changes
/// status once stored.
#[derive(Debug)]
pub enum TransactionStatus {
    Pending,
    Completed,
    Failed(String),
    Refunded,
}

pub enum TransactionStatusView {
    Pending,
    Completed,
    Failed(Seq<char>),
    Refunded,
}

impl View for TransactionStatus {
    type V = TransactionStatusView;

    open spec fn view(&self) -> TransactionStatusView {
        match self {
            TransactionStatus::Pending => TransactionStatusView::Pending,
            TransactionStatus::Completed => TransactionStatusView::Completed,
            TransactionStatus::Failed(m) => TransactionStatusView::Failed(m@),
            TransactionStatus::Refunded => TransactionStatusView::Refunded,
        }
    }
}

/// An invoice: a demand for one amount of one token, open until paid,
/// expired or cancelled.
#[derive(Debug)]
pub struct PaymentInvoice {
    pub id: String,
    pub merchant: Principal,
    pub amount: u64,
    pub token: TokenConfig,
    pub description: String,
    pub metadata: Vec<(String, String)>,
    pub expires_at: Option<u64>,
    pub created_at: u64,
    pub status: InvoiceStatus,
}

pub struct PaymentInvoiceView {
    pub id: Seq<char>,
    pub merchant: Seq<char>,
    pub amount: u64,
    pub token: TokenConfigView,
    pub description: Seq<char>,
    pub metadata: Seq<(Seq<char>, Seq<char>)>,
    pub expires_at: Option<u64>,
    pub created_at: u64,
    pub status: InvoiceStatus,
}

impl View for PaymentInvoice {
    type V = PaymentInvoiceView;

    open spec fn view(&self) -> PaymentInvoiceView {
        PaymentInvoiceView {
            id: self.id@,
            merchant: self.merchant@,
            amount: self.amount,
            token: self.token@,
            description: self.description@,
            metadata: pairs_view(self.metadata@),
            expires_at: self.expires_at,
            created_at: self.created_at,
            status: self.status,
        }
    }
}

impl TableItem for PaymentInvoice {
    open spec fn view_key(v: PaymentInvoiceView) -> Seq<char> {
        v.id
    }

    fn key(&self) -> (k: &String) {
        &self.id
    }
}

impl Clone for PaymentInvoice {
    fn clone(&self) -> (r: Self)
        ensures
            r@ == self@,
    {
        PaymentInvoice {
            id: self.id.clone(),
            merchant: self.merchant.clone(),
            amount: self.amount,
            token: self.token.clone(),
            description: self.description.clone(),
            metadata: clone_pairs(&self.metadata),
            expires_at: self.expires_at,
            created_at: self.created_at,
            status: self.status,
        }
    }
}

/// One attempted settlement, successful or not; every attempt gets its
/// own record.
#[derive(Debug)]
pub struct PaymentTransaction {
    pub id: String,
    pub from: Principal,
    pub to: Principal,
    pub token: TokenConfig,
    pub amount: u64,
    pub fee: u64,
    pub merchant_fee: u64,
    pub timestamp: u64,
    pub status: TransactionStatus,
    pub metadata: Vec<(String, String)>,
    pub payment_method: PaymentMethod,
    pub block_index: Option<u64>,
}

pub struct PaymentTransactionView {
    pub id: Seq<char>,
    pub from: Seq<char>,
    pub to: Seq<char>,
    pub token: TokenConfigView,
    pub amount: u64,
    pub fee: u64,
    pub merchant_fee: u64,
    pub timestamp: u64,
    pub status: TransactionStatusView,
    pub metadata: Seq<(Seq<char>, Seq<char>)>,
    pub payment_method: PaymentMethod,
    pub block_index: Option<u64>,
}

impl View for PaymentTransaction {
    type V = PaymentTransactionView;

    open spec fn view(&self) -> PaymentTransactionView {
        PaymentTransactionView {
            id: self.id@,
            from: self.from@,
            to: self.to@,
            token: self.token@,
            amount: self.amount,
            fee: self.fee,
            merchant_fee: self.merchant_fee,
            timestamp: self.timestamp,
            status: self.status@,
            metadata: pairs_view(self.metadata@),
            payment_method: self.payment_method,
            block_index: self.block_index,
        }
    }
}

impl TableItem for PaymentTransaction {
    open spec fn view_key(v: PaymentTransactionView) -> Seq<char> {
        v.id
    }

    fn key(&self) -> (k: &String) {
        &self.id
    }
}

/// A payer's request to settle an invoice.
#[derive(Debug)]
pub struct PaymentRequest {
    pub invoice_id: String,
    pub amount: u64,
    pub token_symbol: String,
    pub coupon_code: Option<String>,
    pub metadata: Vec<(String, String)>,
}

pub struct PaymentRequestView {
    pub invoice_id: Seq<char>,
    pub amount: u64,
    pub token_symbol: Seq<char>,
    pub coupon_code: Option<Seq<char>>,
    pub metadata: Seq<(Seq<char>, Seq<char>)>,
}

impl View for PaymentRequest {
    type V = PaymentRequestView;

    open spec fn view(&self) -> PaymentRequestView {
        PaymentRequestView {
            invoice_id: self.invoice_id@,
            amount: self.amount,
            token_symbol: self.token_symbol@,
            coupon_code: match self.coupon_code {
                Option::Some(c) => Option::Some(c@),
                Option::None => Option::None,
            },
            metadata: pairs_view(self.metadata@),
        }
    }
}

/// What a payment call reports back, whatever the transfer's outcome.
#[derive(Debug)]
pub struct PaymentResult {
    pub transaction_id: String,
    pub amount_paid: u64,
    pub discount_applied: u64,
    pub final_amount: u64,
    pub block_index: Option<u64>,
    pub payment_method: PaymentMethod,
}

pub struct PaymentResultView {
    pub transaction_id: Seq<char>,
    pub amount_paid: u64,
    pub discount_applied: u64,
    pub final_amount: u64,
    pub block_index: Option<u64>,
    pub payment_method: PaymentMethod,
}

impl View for PaymentResult {
    type V = PaymentResultView;

    open spec fn view(&self) -> PaymentResultView {
        PaymentResultView {
            transaction_id: self.transaction_id@,
            amount_paid: self.amount_paid,
            discount_applied: self.discount_applied,
            final_amount: self.final_amount,
            block_index: self.block_index,
            payment_method: self.payment_method,
        }
    }
}

/// One party of a ledger transfer.
#[derive(Debug)]
pub struct Account {
    pub owner: Principal,
    pub subaccount: Option<[u8; 32]>,
}

/// Arguments of a plain ledger transfer.
#[derive(Debug)]
pub struct TransferArg {
    pub from_subaccount: Option<[u8; 32]>,
    pub to: Account,
    pub amount: u64,
    pub fee: Option<u64>,
    pub memo: Option<Vec<u8>>,
    pub created_at_time: Option<u64>,
}

/// Arguments of a transfer drawn from a prior approval.
#[derive(Debug)]
pub struct TransferFromArg {
    pub spender_subaccount: Option<[u8; 32]>,
    pub from: Account,
    pub to: Account,
    pub amount: u64,
    pub fee: Option<u64>,
    pub memo: Option<Vec<u8>>,
    pub created_at_time: Option<u64>,
}

/// Why the ledger refused a transfer.
#[derive(Debug)]
pub enum TransferError {
    BadFee { expected_fee: u64 },
    BadBurn { min_burn_amount: u64 },
    InsufficientFunds { balance: u64 },
    InsufficientAllowance { allowance: u64 },
    TooOld,
    CreatedInFuture { ledger_time: u64 },
    Duplicate { duplicate_of: u64 },
    TemporarilyUnavailable,
    GenericError { error_code: u64, message: String },
}

/// The message a refused transfer is reported with.
pub open spec fn transfer_error_text(e: &TransferError) -> Seq<char> {
    match e {
        TransferError::BadFee { expected_fee } => "Bad fee: expected "@ + dec_digits(
            *expected_fee as int,
        ),
        TransferError::InsufficientFunds { balance } => "Insufficient funds: balance "@
            + dec_digits(*balance as int),
        TransferError::InsufficientAllowance { allowance } => "Insufficient allowance: "@
            + dec_digits(*allowance as int),
        TransferError::TooOld => "Transaction too old"@,
        TransferError::CreatedInFuture { ledger_time } => "Transaction created in future: ledger time "@
            + dec_digits(*ledger_time as int),
        TransferError::Duplicate { duplicate_of } => "Duplicate transaction: "@ + dec_digits(
            *duplicate_of as int,
        ),
        TransferError::TemporarilyUnavailable => "Service temporarily unavailable"@,
        TransferError::GenericError { error_code, message } => "Generic error "@ + dec_digits(
            *error_code as int,
        ) + ": "@ + message@,
        TransferError::BadBurn { min_burn_amount: _ } => "Unknown transfer error"@,
    }
}

/// Renders a ledger refusal as [`transfer_error_text`] spells it.
pub fn describe_transfer_error(e: &TransferError) -> (r: String)
    ensures
        r@ == transfer_error_text(e),
{
    match e {
        TransferError::BadFee { expected_fee } => String::from_str("Bad fee: expected ").concat(
            u64_to_string(*expected_fee).as_str(),
        ),
        TransferError::InsufficientFunds { balance } => String::from_str(
            "Insufficient funds: balance ",
        ).concat(u64_to_string(*balance).as_str()),
        TransferError::InsufficientAllowance { allowance } => String::from_str(
            "Insufficient allowance: ",
        ).concat(u64_to_string(*allowance).as_str()),
        TransferError::TooOld => String::from_str("Transaction too old"),
        TransferError::CreatedInFuture { ledger_time } => String::from_str(
            "Transaction created in future: ledger time ",
        ).concat(u64_to_string(*ledger_time).as_str()),
        TransferError::Duplicate { duplicate_of } => String::from_str(
            "Duplicate transaction: ",
        ).concat(u64_to_string(*duplicate_of).as_str()),
        TransferError::TemporarilyUnavailable => String::from_str(
            "Service temporarily unavailable",
        ),
        TransferError::GenericError { error_code, message } => String::from_str(
            "Generic error ",
        ).concat(u64_to_string(*error_code).as_str()).concat(": ").concat(message.as_str()),
        TransferError::BadBurn { min_burn_amount: _ } => String::from_str(
            "Unknown transfer error",
        ),
    }
}

/// Builds the arguments of the ledger call that settles a payment:
/// draw `amount` from the payer toward the merchant, with the fee left
/// to the ledger.
pub fn build_transfer_from_arg(from: Principal, to: Principal, amount: u64, now: u64) -> (r:
    TransferFromArg)
    ensures
        r.from.owner@ == from@,
        r.from.subaccount is None,
        r.to.owner@ == to@,
        r.to.subaccount is None,
        r.spender_subaccount is None,
        r.amount == amount,
        r.fee is None,
        r.memo is None,
        r.created_at_time == Some(now),
{
    TransferFromArg {
        spender_subaccount: None,
        from: Account { owner: from, subaccount: None },
        to: Account { owner: to, subaccount: None },
        amount,
        fee: None,
        memo: None,
        created_at_time: Some(now),
    }
}

} // verus!
