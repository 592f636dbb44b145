//! What holds of the LNbits backend as a whole.

use vstd::prelude::*;

use crate::encoding::{hex_round_trip, hex_text, lemma_array_of};
use crate::lnbits::backend::{
    created_answer, hash_of_text, incoming_answer, instance_root, lookup_answer, magnitude,
    outgoing_answer, quote_answer, recovered_answer, reserved, state_of, status_answer, Payment,
    PaymentErrorView,
};
use crate::lnbits::error::Error;
use crate::payment::{
    Bolt11Invoice, CurrencyUnit, MakePaymentResponseView, MeltQuoteState, OutgoingPaymentOptions,
    PaymentIdentifier,
};
use crate::text::{
    has_suffix, is_space, lemma_trimmed_already, lemma_trimmed_ends, trim_end_char, trimmed,
};

verus! {

/// Only a settled payment is answered as spending anything, and only a settled
/// payment is answered with a proof.
pub proof fn only_settled_payments_spend(identifier: PaymentIdentifier, payment: Payment)
    ensures
        outgoing_answer(identifier, payment) matches Ok(answer) ==> {
            &&& answer.payment_lookup_id == identifier
            &&& answer.status == state_of(payment)
            &&& answer.total_spent.unit == CurrencyUnit::Sat
            &&& answer.spends_only_when_paid()
            &&& answer.status != MeltQuoteState::Paid ==> answer.payment_proof is None
        },
        state_of(payment) != MeltQuoteState::Paid ==> outgoing_answer(identifier, payment) is Ok,
{
}

/// What a settled payment is answered to have spent covers its amount and its
/// fee, by less than one satoshi more.
pub proof fn spent_amounts_cover_the_payment(
    identifier: PaymentIdentifier,
    payment: Payment,
    amount: u64,
    fee: u64,
)
    requires
        state_of(payment) == MeltQuoteState::Paid,
        magnitude(payment.details.amount) == Ok::<u64, Error<Seq<char>>>(amount),
        magnitude(payment.details.fee) == Ok::<u64, Error<Seq<char>>>(fee),
    ensures
        outgoing_answer(identifier, payment) matches Ok(answer) && amount + fee <= 1000
            * answer.total_spent.value < amount + fee + 1000,
{
}

/// A received payment is only ever reported with a positive amount.
pub proof fn received_amounts_are_positive(payment_hash: Seq<char>, payment: Payment)
    ensures
        incoming_answer(payment_hash, payment) matches Ok(Some(response))
            ==> response.payment_amount.value > 0 && response.payment_amount.unit
            == CurrencyUnit::Msat && response.payment_amount.value == payment.details.amount
            && state_of(payment) == MeltQuoteState::Paid,
{
}

/// A payment that is looked up by its hash is reported under that hash.
pub proof fn lookups_report_the_hash_they_ask_for(hash: [u8; 32], payment: Payment)
    ensures
        lookup_answer(PaymentIdentifier::PaymentHash(hash)) == Ok::<Seq<char>, PaymentErrorView>(
            hex_text(hash@),
        ),
        hash_of_text(hex_text(hash@)) == Some(hash),
        incoming_answer(hex_text(hash@), payment) matches Ok(Some(response))
            ==> response.payment_identifier == PaymentIdentifier::PaymentHash(hash),
{
    hex_round_trip(hash@);
    lemma_array_of(hash);
    assert(hash@.len() == 32);
}

/// An invoice is handed out only under its own hash: where LNbits reports
/// another one, the invoice is refused.
pub proof fn invoices_keep_their_hash(invoice: Bolt11Invoice, response_hash: Seq<char>)
    ensures
        created_answer(invoice, response_hash) matches Ok(answer) ==> {
            &&& answer.request_lookup_id == PaymentIdentifier::PaymentHash(invoice.payment_hash)
            &&& answer.request == invoice.text@
            &&& answer.expiry == invoice.expires_at
        },
        created_answer(invoice, hex_text(invoice.payment_hash@)) is Ok,
{
    hex_round_trip(invoice.payment_hash@);
    lemma_array_of(invoice.payment_hash);
    assert(invoice.payment_hash@.len() == 32);
}

/// A request to pay whose reply was lost does not hide the payment: as long as
/// LNbits does not say that the payment failed, it is answered as if its status
/// had been asked for, whatever the client reported.
pub proof fn lost_replies_do_not_hide_payments(
    payment_hash: [u8; 32],
    source: Seq<char>,
    payment: Payment,
)
    requires
        state_of(payment) != MeltQuoteState::Failed,
    ensures
        recovered_answer(payment_hash, source, Some(payment)) == status_answer(
            PaymentIdentifier::PaymentHash(payment_hash),
            "payment-status"@,
            Ok(payment),
        ),
{
}

/// A request to pay that failed is reported as an error where LNbits knows no
/// such payment or says that it failed.
pub proof fn failed_requests_stay_failed(
    payment_hash: [u8; 32],
    source: Seq<char>,
    found: Option<Payment>,
)
    requires
        found matches Some(payment) ==> state_of(payment) == MeltQuoteState::Failed,
    ensures
        recovered_answer(payment_hash, source, found) == Err::<
            MakePaymentResponseView,
            PaymentErrorView,
        >(PaymentErrorView::Backend(Error::Api { operation: "pay-invoice"@, source })),
{
}

/// A quote reserves the greater of the configured share and the configured
/// minimum, and its amount is never zero.
pub proof fn reserves_cover_share_and_minimum(
    unit: CurrencyUnit,
    options: OutgoingPaymentOptions,
    min_sat: u64,
    relative: u64,
)
    ensures
        quote_answer(unit, options, min_sat, relative) matches Ok(quote) ==> {
            &&& quote.state == MeltQuoteState::Unpaid
            &&& quote.amount.unit == CurrencyUnit::Sat
            &&& quote.amount.value > 0
            &&& quote.fee.unit == CurrencyUnit::Sat
            &&& quote.fee.value == reserved(relative, min_sat)
            &&& quote.fee.value >= relative
            &&& quote.fee.value >= min_sat
        },
{
}

/// The root of an instance is the same from its own URL and from that of its
/// API, with or without a slash at the end.
pub proof fn api_urls_name_their_instance(root: Seq<char>)
    requires
        trimmed(root) == root,
        root.len() > 0 ==> root.last() != '/',
        !has_suffix(root, "/api/v1"@),
    ensures
        instance_root(root) == root + "/"@,
        instance_root(root + "/"@) == root + "/"@,
        instance_root(root + "/api/v1"@) == root + "/"@,
        instance_root(root + "/api/v1"@ + "/"@) == root + "/"@,
{
    reveal_strlit("/");
    reveal_strlit("/api/v1");
    lemma_trimmed_ends(root);
    let slash = "/"@;
    let api = "/api/v1"@;
    assert(trim_end_char(root, '/') == root);
    let slashed = root + slash;
    assert(slashed.drop_last() =~= root);
    assert(trim_end_char(slashed, '/') == root);
    lemma_trimmed_already(slashed);
    let full = root + api;
    assert(full.last() == '1');
    assert(trim_end_char(full, '/') == full);
    assert(!is_space(full[0])) by {
        if root.len() == 0 {
            assert(full[0] == '/');
        }
    }
    lemma_trimmed_already(full);
    assert(full.subrange(full.len() - api.len(), full.len() as int) =~= api);
    assert(full.subrange(0, full.len() - api.len()) =~= root);
    let full_slashed = full + slash;
    assert(full_slashed.drop_last() =~= full);
    assert(trim_end_char(full_slashed, '/') == full);
    assert(full_slashed[0] == full[0]);
    lemma_trimmed_already(full_slashed);
}

} // verus!
