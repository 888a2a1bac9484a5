//! What to do on a notification from a payment provider.
use vstd::prelude::*;
use crate::helpers::str_eq;
use crate::payments::application::PaymentService;
use crate::payments::constants::{PAYMENT_STATUS_PAID, WEBHOOK_STATUS_PAYMENT_SUCCESS};
use crate::payments::data_models::Payment;
use crate::payments::data_transfer_objects::maya_webhook::MayaWebhookRequest;
use crate::payments::errors::PaymentErrors;
use crate::payments::persistence::{payment_for_checkout, with_update};

verus! {

/// Whether the state of a checkout notification reports a successful
/// payment.
pub fn reports_payment_success(status: &str) -> (r: bool)
    ensures
        r == (status@ == WEBHOOK_STATUS_PAYMENT_SUCCESS@),
{
    str_eq(status, WEBHOOK_STATUS_PAYMENT_SUCCESS)
}

/// Handles a checkout notification. A notification of anything but a
/// successful payment is passed over. A successful payment marks the
/// payment of the checkout as paid.
pub fn handle_maya_checkout_webhook(webhook: MayaWebhookRequest,
    payment_service: &mut PaymentService) -> (r:
    Result<(), PaymentErrors>)
    ensures
        webhook.status@ != WEBHOOK_STATUS_PAYMENT_SUCCESS@ ==> r is Ok && final(
            payment_service).payments() == old(payment_service).payments(),
        webhook.status@ == WEBHOOK_STATUS_PAYMENT_SUCCESS@ ==> match payment_for_checkout(
            old(payment_service).payments(),
            webhook.id@,
        ) {
            None => r == Err::<(), PaymentErrors>(PaymentErrors::PaymentNotFound) && final(
                payment_service).payments() == old(payment_service).payments(),
            Some(payment) => if payment.id is None {
                r == Err::<(), PaymentErrors>(PaymentErrors::MissingId) && final(
                    payment_service).payments() == old(payment_service).payments()
            } else {
                r is Ok && exists|paid: Payment|
                    {
                        &&& paid.status@ == PAYMENT_STATUS_PAID@
                        &&& paid == (Payment {
                            status: paid.status,
                            concurrency_stamp: paid.concurrency_stamp,
                            ..payment
                        })
                        &&& final(payment_service).payments() == #[trigger] with_update(
                            old(payment_service).payments(),
                            paid,
                            payment.concurrency_stamp@,
                        )
                    }
            },
        },
{
    if !reports_payment_success(webhook.status.as_str()) {
        return Ok(());
    }
    payment_service.mark_payment_as_paid(webhook.id.as_str())
}

} // verus!
