//! The checkout notification of the Maya payment provider.
use vstd::prelude::*;

verus! {

/// The notification that the payment provider sends when a checkout changes state.
#[derive(Debug)]
pub struct MayaWebhookRequest {
    pub id: String,
    pub items: Vec<Item>,
    pub request_reference_number: String,
    pub receipt_number: String,
    pub created_at: String,
    pub updated_at: String,
    pub payment_scheme: String,
    pub express_checkout: bool,
    pub refunded_amount: String,
    pub can_pay_pal: bool,
    pub expired_at: String,
    pub status: String,
    pub payment_status: String,
    pub payment_details: PaymentDetails,
    pub buyer: Buyer,
    pub merchant: Merchant,
    pub total_amount: TotalAmount,
    pub redirect_url: RedirectUrl,
    pub transaction_reference_number: String,
}

/// Who paid.
#[derive(Debug)]
pub struct Buyer {
    pub contact: Contact,
    pub first_name: String,
    pub last_name: String,
    pub billing_address: IngAddress,
    pub shipping_address: IngAddress,
}

/// A billing or shipping address.
#[derive(Debug)]
pub struct IngAddress {
    pub line1: String,
    pub line2: String,
    pub city: String,
    pub state: String,
    pub zip_code: String,
    pub country_code: String,
}

/// How to reach the buyer.
#[derive(Debug)]
pub struct Contact {
    pub phone: String,
    pub email: String,
}

/// One line of the checkout.
#[derive(Debug)]
pub struct Item {
    pub name: String,
    pub code: String,
    pub description: String,
    pub quantity: String,
    pub amount: TotalAmountClass,
    pub total_amount: TotalAmountClass,
}

/// An amount in the smallest unit of the currency.
#[derive(Debug)]
pub struct TotalAmountClass {
    pub value: i64,
}

/// The merchant account that the checkout belongs to.
#[derive(Debug)]
pub struct Merchant {
    pub currency: String,
    pub email: String,
    pub locale: String,
    pub homepage_url: String,
    pub is_email_to_merchant_enabled: bool,
    pub is_email_to_buyer_enabled: bool,
    pub is_payment_facilitator: bool,
    pub is_page_customized: bool,
    pub supported_schemes: Vec<String>,
    pub can_pay_pal: bool,
    /// The value as JSON text.
    pub pay_pal_email: Option<String>,
    /// The value as JSON text.
    pub pay_pal_web_experience_id: Option<String>,
    pub express_checkout: bool,
    pub name: String,
}

/// How the payment went.
#[derive(Debug)]
pub struct PaymentDetails {
    pub responses: Responses,
    pub payment_at: String,
    pub the_3_ds: bool,
}

/// The replies of the payment rails.
#[derive(Debug)]
pub struct Responses {
    pub efs: Efs,
}

/// The reply of the card processor.
#[derive(Debug)]
pub struct Efs {
    pub payment_transaction_reference_no: String,
    pub status: String,
    pub receipt: Receipt,
    pub payer: Payer,
    pub amount: EfsAmount,
    pub created_at: String,
}

/// The amount that the card processor charged.
#[derive(Debug)]
pub struct EfsAmount {
    pub total: Total,
}

/// An amount with its currency.
#[derive(Debug)]
pub struct Total {
    pub currency: String,
    pub value: i64,
}

/// What the buyer paid with.
#[derive(Debug)]
pub struct Payer {
    pub funding_instrument: FundingInstrument,
}

/// The instrument that funded the payment.
#[derive(Debug)]
pub struct FundingInstrument {
    pub card: Card,
}

/// The card that funded the payment.
#[derive(Debug)]
pub struct Card {
    pub card_number: String,
    pub expiry_month: i64,
    pub expiry_year: String,
}

/// The receipt of the card processor.
#[derive(Debug)]
pub struct Receipt {
    pub transaction_id: String,
    pub receipt_no: String,
    pub receipt_approval_code: String,
    pub approval_code: String,
}

/// Where the buyer is sent after the checkout.
#[derive(Debug)]
pub struct RedirectUrl {
    pub success: String,
    pub failure: String,
    pub cancel: String,
}

/// The total of the checkout, as the provider words it.
#[derive(Debug)]
pub struct TotalAmount {
    pub value: String,
    pub currency: String,
    pub details: Details,
}

/// The parts of the total.
#[derive(Debug)]
pub struct Details {
    pub discount: String,
    pub service_charge: String,
    pub shipping_fee: String,
    pub tax: String,
    pub subtotal: String,
}

} // verus!
