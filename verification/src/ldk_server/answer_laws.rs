//! What the answers of the LDK Server backend mean, in terms of what the node
//! says of a payment.

use vstd::prelude::*;

use crate::encoding::{array_of, hex_bytes, hex_text, is_hex};
use crate::ldk_server::backend::{
    accepted, accepts, check_incoming_payment_status, check_outgoing_payment,
    incoming_payment_fetched, incoming_payments_found, is_terminal, outgoing_payment_fetched,
    outgoing_payments_found, payment_found, payment_sent, received_answers,
    wait_for_payment_details, IncomingLookup, OutgoingLookup, PaymentConcluded, PaymentFilter,
    PaymentScan, PaymentSent, ScanStep, WaitStep,
};
use crate::ldk_server::correlator::{
    keys_of, map_outgoing_payment_event, normalize_payment_correlation_key,
    outgoing_payment_correlation_keys, OutgoingPaymentContext, OutgoingPaymentCorrelator,
    OutgoingPaymentOutcome,
};
use crate::ldk_server::error::Error;
use crate::ldk_server::payments::{
    hex_to_array, is_selected, make_payment_response_from_payment, msat_total_spent_for_unit,
    payment_direction, payment_kind, payment_status, received_answer, says_more,
    select_bolt11_payment, wait_payment_response_from_payment, Coded, Payment, PaymentDirection,
    PaymentError, PaymentErrorView, PaymentKind, PaymentStatus,
};
use crate::payment::{
    Amount, AmountError, CurrencyUnit, Event, MakePaymentResponse, MakePaymentResponseView,
    MeltQuoteState, PaymentIdentifier, WaitPaymentResponse,
};
use crate::payment_laws::{is_bitcoin, is_rounded_up};
use crate::text::{lower, trimmed};

verus! {

/// Whether two texts, where there are any, say the same.
pub open spec fn same_text(a: Option<String>, b: Option<String>) -> bool {
    match (a, b) {
        (Some(a), Some(b)) => a@ == b@,
        (None, None) => true,
        _ => false,
    }
}

/// Whether a text is the hexadecimal form of 32 bytes.
pub open spec fn is_id(text: Seq<char>) -> bool {
    is_hex(text) && text.len() == 64
}

/// Whether an error says why a text is not the hexadecimal form of 32 bytes.
pub open spec fn tells_no_id(error: Error, text: Seq<char>) -> bool {
    if is_hex(text) {
        error == Error::InvalidPaymentId && text.len() != 64
    } else {
        error == Error::Hex
    }
}

/// Whether a payment is of an invoice or of an offer.
pub open spec fn is_lightning(payment: Payment) -> bool {
    payment.kind matches Some(kind) && !(kind is Other)
}

/// The preimage of a payment, whatever it paid.
pub open spec fn preimage_of(payment: Payment) -> Option<String> {
    match payment.kind {
        Some(PaymentKind::Bolt11 { preimage, .. }) => preimage,
        Some(PaymentKind::Bolt12Offer { preimage, .. }) => preimage,
        _ => None,
    }
}

/// The millisatoshis that a payment took from the node: the amount and the fee.
pub open spec fn cost_msat(payment: Payment) -> int {
    payment.amount_msat->0 + (match payment.fee_paid_msat {
        Some(fee) => fee as int,
        None => 0,
    })
}

/// Whether what became of a payment can be told in a unit.
pub open spec fn can_be_told(unit: CurrencyUnit, payment: Payment) -> bool {
    &&& payment.status is Known
    &&& is_lightning(payment)
    &&& payment.status == Coded::Known(PaymentStatus::Succeeded) ==> {
        &&& payment.amount_msat is Some
        &&& cost_msat(payment) <= u64::MAX
        &&& is_bitcoin(unit)
    }
}

/// Whether an answer tells what became of a payment: how it stands, its
/// preimage, and what it cost once it is settled, the fee included.
pub open spec fn tells(answer: MakePaymentResponse, unit: CurrencyUnit, payment: Payment) -> bool {
    &&& same_text(answer.payment_proof, preimage_of(payment))
    &&& answer.total_spent.unit == unit
    &&& match payment.status {
        Coded::Known(PaymentStatus::Succeeded) => {
            &&& answer.status == MeltQuoteState::Paid
            &&& is_rounded_up(answer.total_spent, cost_msat(payment))
        },
        Coded::Known(PaymentStatus::Pending) => {
            &&& answer.status == MeltQuoteState::Pending
            &&& answer.total_spent.value == 0
        },
        Coded::Known(PaymentStatus::Failed) => {
            &&& answer.status == MeltQuoteState::Failed
            &&& answer.total_spent.value == 0
        },
        Coded::Unknown(_) => false,
    }
}

/// Whether an error says why what became of a payment cannot be told.
pub open spec fn tells_why_not(error: PaymentError, payment: Payment) -> bool {
    match (payment.status, payment.kind) {
        (Coded::Unknown(code), _) => error == PaymentError::Backend(
            Error::UnknownPaymentStatus(code),
        ),
        (_, None) => error == PaymentError::Backend(Error::MissingPaymentKind),
        (_, Some(PaymentKind::Other)) => error == PaymentError::Backend(
            Error::UnexpectedPaymentKind,
        ),
        _ => if payment.amount_msat is None {
            error == PaymentError::Backend(Error::CouldNotGetAmountSpent)
        } else if cost_msat(payment) > u64::MAX {
            error == PaymentError::Backend(Error::AmountOverflow)
        } else {
            error == PaymentError::Amount(AmountError::CannotConvertUnits)
        },
    }
}

/// Whether what became of a payment is answered, or why it is not.
pub open spec fn is_told(
    res: Result<MakePaymentResponse, PaymentError>,
    unit: CurrencyUnit,
    identifier: PaymentIdentifier,
    payment: Payment,
) -> bool {
    match res {
        Ok(answer) => {
            &&& can_be_told(unit, payment)
            &&& answer.payment_lookup_id == identifier
            &&& tells(answer, unit, payment)
        },
        Err(error) => !can_be_told(unit, payment) && tells_why_not(error, payment),
    }
}

/// The mint is told what became of a payment, of an invoice as of an offer: paid
/// exactly where the node settled it, with all that it cost.
pub proof fn answers_tell_what_became_of_payments(
    unit: CurrencyUnit,
    identifier: PaymentIdentifier,
    payment: Payment,
    res: Result<MakePaymentResponse, PaymentError>,
)
    requires
        call_ensures(make_payment_response_from_payment, (&unit, identifier, &payment), res),
    ensures
        is_told(res, unit, identifier, payment),
{
}

/// What was spent is told in full: exactly in millisatoshis, rounded up to the
/// next satoshi in satoshis, and in nothing else.
pub proof fn spent_amounts_are_told_in_full(
    total: u64,
    unit: CurrencyUnit,
    res: Result<Amount, PaymentError>,
)
    requires
        call_ensures(msat_total_spent_for_unit, (total, &unit), res),
    ensures
        match res {
            Ok(amount) => amount.unit == unit && is_rounded_up(amount, total as int),
            Err(error) => !is_bitcoin(unit) && error == PaymentError::Amount(
                AmountError::CannotConvertUnits,
            ),
        },
{
}

/// A payment's kind, direction and status are what the node says, and a number
/// without a meaning is handed back in the error.
pub proof fn payments_say_what_they_are(
    payment: Payment,
    kind: Result<&PaymentKind, Error>,
    direction: Result<PaymentDirection, Error>,
    status: Result<PaymentStatus, Error>,
)
    requires
        call_ensures(payment_kind, (&payment,), kind),
        call_ensures(payment_direction, (&payment,), direction),
        call_ensures(payment_status, (&payment,), status),
    ensures
        match kind {
            Ok(kind) => payment.kind == Some(*kind),
            Err(error) => payment.kind is None && error == Error::MissingPaymentKind,
        },
        match direction {
            Ok(direction) => payment.direction == Coded::Known(direction),
            Err(error) => payment.direction matches Coded::Unknown(code) && error
                == Error::UnknownPaymentDirection(code),
        },
        match status {
            Ok(status) => payment.status == Coded::Known(status),
            Err(error) => payment.status matches Coded::Unknown(code) && error
                == Error::UnknownPaymentStatus(code),
        },
{
}

/// An id is read from exactly 64 hexadecimal digits.
pub proof fn ids_are_sixty_four_digits(text: &str, res: Result<[u8; 32], Error>)
    requires
        call_ensures(hex_to_array, (text,), res),
    ensures
        match res {
            Ok(id) => is_id(text@) && id@ == hex_bytes(text@),
            Err(error) => tells_no_id(error, text@),
        },
{
}

/// Whether an event settles a quote as a report says.
pub open spec fn settles(
    event: Event,
    quote: Seq<char>,
    unit: CurrencyUnit,
    payment: Payment,
    outcome: OutgoingPaymentOutcome,
) -> bool {
    match outcome {
        OutgoingPaymentOutcome::Succeeded => event matches Event::PaymentSuccessful {
            quote_id,
            details,
        } && {
            &&& quote_id@ == quote
            &&& details.payment_lookup_id == PaymentIdentifier::PaymentId(
                array_of(hex_bytes(payment.id@)),
            )
            &&& tells(details, unit, payment)
        },
        OutgoingPaymentOutcome::Failed => event matches Event::PaymentFailed {
            quote_id,
            reason,
        } && {
            &&& quote_id@ == quote
            &&& reason@ == "LDK Server payment "@ + payment.id@ + " failed"@
        },
    }
}

/// Whether a report can settle a quote in some unit: a failure always, and a
/// success where it names the payment by its id and what became of it can be
/// told.
pub open spec fn can_settle(
    unit: CurrencyUnit,
    payment: Payment,
    outcome: OutgoingPaymentOutcome,
) -> bool {
    outcome == OutgoingPaymentOutcome::Failed || (is_id(payment.id@) && can_be_told(unit, payment))
}

/// A report of success settles its quote by a success, and a report of failure
/// by a failure, whatever was paid. The details of a success say that the quote
/// is paid exactly where the node says so of the payment.
pub proof fn events_settle_quotes_as_reported(
    context: OutgoingPaymentContext,
    payment: Payment,
    outcome: OutgoingPaymentOutcome,
    res: Result<Event, PaymentError>,
)
    requires
        call_ensures(map_outgoing_payment_event, (&context, &payment, outcome), res),
    ensures
        match res {
            Ok(event) => {
                &&& can_settle(context.unit, payment, outcome)
                &&& settles(event, context.quote_id@, context.unit, payment, outcome)
            },
            Err(error) => {
                &&& !can_settle(context.unit, payment, outcome)
                &&& if is_id(payment.id@) {
                    tells_why_not(error, payment)
                } else {
                    error matches PaymentError::Backend(error) && tells_no_id(error, payment.id@)
                }
            },
        },
        res matches Ok(event) ==> (event is PaymentSuccessful <==> outcome
            == OutgoingPaymentOutcome::Succeeded),
        res matches Ok(event) ==> (event is PaymentFailed <==> outcome
            == OutgoingPaymentOutcome::Failed),
        res matches Ok(Event::PaymentSuccessful { quote_id, details }) ==> (details.status
            == MeltQuoteState::Paid <==> payment.status == Coded::Known(
            PaymentStatus::Succeeded,
        )),
{
}

/// Whether a text is a key of a payment: its id or its hash, whatever it paid,
/// trimmed and in lower case.
pub open spec fn is_key(payment: Payment, key: Seq<char>) -> bool {
    key == lower(trimmed(payment.id@)) || (match payment.kind {
        Some(PaymentKind::Bolt11 { hash, .. }) => key == lower(trimmed(hash@)),
        Some(PaymentKind::Bolt12Offer { hash: Some(hash), .. }) => key == lower(trimmed(hash@)),
        _ => false,
    })
}

/// The keys of a payment are its id and its hash, each once.
pub proof fn payments_are_known_by_id_and_hash(payment: Payment, keys: Vec<String>)
    requires
        call_ensures(outgoing_payment_correlation_keys, (&payment,), keys),
    ensures
        forall|i: int| 0 <= i < keys@.len() ==> is_key(payment, #[trigger] keys@[i]@),
        forall|key: Seq<char>|
            is_key(payment, key) ==> exists|i: int|
                0 <= i < keys@.len() && #[trigger] keys@[i]@ == key,
        forall|i: int, j: int|
            0 <= i < j < keys@.len() ==> #[trigger] keys@[i]@ != #[trigger] keys@[j]@,
{
    let texts = keys.deep_view();
    assert(texts.len() == keys@.len());
    assert forall|i: int| 0 <= i < keys@.len() implies #[trigger] keys@[i]@ == texts[i] by {}
    assert forall|key: Seq<char>| is_key(payment, key) implies exists|i: int|
        0 <= i < keys@.len() && #[trigger] keys@[i]@ == key by {
        let i = if keys_of(payment)[0] == key {
            0int
        } else {
            1
        };
        assert(keys_of(payment)[i] == key);
        assert(keys@[i]@ == texts[i]);
    }
}

/// A key is a text without the space around it, in lower case.
pub proof fn keys_are_trimmed_and_lowered(text: &str, key: String)
    requires
        call_ensures(normalize_payment_correlation_key, (text,), key),
    ensures
        key@ == lower(trimmed(text@)),
{
}

/// Whether a payment is to be reported as received: it is settled, came in, has
/// an amount, and paid an offer or an invoice with a readable hash.
pub open spec fn is_received(payment: Payment) -> bool {
    &&& payment.direction == Coded::Known(PaymentDirection::Inbound)
    &&& payment.status == Coded::Known(PaymentStatus::Succeeded)
    &&& payment.amount_msat is Some
    &&& match payment.kind {
        Some(PaymentKind::Bolt11 { hash, .. }) => is_id(hash@),
        Some(PaymentKind::Bolt12Offer { .. }) => true,
        _ => false,
    }
}

/// Whether a payment is none that a mint is told of: it went out, it is not
/// settled, or it paid neither an invoice nor an offer.
pub open spec fn is_of_no_concern(payment: Payment) -> bool {
    match (payment.direction, payment.status) {
        (Coded::Known(PaymentDirection::Outbound), _) => true,
        (Coded::Known(PaymentDirection::Inbound), Coded::Known(PaymentStatus::Succeeded)) => {
            payment.amount_msat is Some && payment.kind == Some(PaymentKind::Other)
        },
        (Coded::Known(PaymentDirection::Inbound), Coded::Known(_)) => true,
        _ => false,
    }
}

/// Whether an answer reports a received payment: with exactly the millisatoshis
/// that came, under the request that was paid.
pub open spec fn reports(answer: WaitPaymentResponse, payment: Payment) -> bool {
    &&& Some(answer.payment_amount.value) == payment.amount_msat
    &&& answer.payment_amount.unit == CurrencyUnit::Msat
    &&& match payment.kind {
        Some(PaymentKind::Bolt11 { hash, .. }) => {
            &&& answer.payment_identifier == PaymentIdentifier::PaymentHash(
                array_of(hex_bytes(hash@)),
            )
            &&& answer.payment_id@ == hash@
        },
        Some(PaymentKind::Bolt12Offer { hash, offer_id, .. }) => {
            &&& answer.payment_identifier == PaymentIdentifier::OfferId(offer_id)
            &&& answer.payment_id@ == (match hash {
                Some(hash) => hash@,
                None => payment.id@,
            })
        },
        _ => false,
    }
}

/// Whether an error says why a payment that came in cannot be reported.
pub open spec fn tells_why_unreported(error: Error, payment: Payment) -> bool {
    match (payment.direction, payment.status, payment.kind) {
        (Coded::Unknown(code), _, _) => error == Error::UnknownPaymentDirection(code),
        (_, Coded::Unknown(code), _) => error == Error::UnknownPaymentStatus(code),
        (_, _, kind) => if payment.amount_msat is None {
            error == Error::CouldNotGetPaymentAmount
        } else {
            match kind {
                None => error == Error::MissingPaymentKind,
                Some(PaymentKind::Bolt11 { hash, .. }) => tells_no_id(error, hash@),
                _ => false,
            }
        },
    }
}

/// Whether a payment is reported as received, passed over, or why neither.
pub open spec fn is_reported(
    res: Result<Option<WaitPaymentResponse>, Error>,
    payment: Payment,
) -> bool {
    match res {
        Ok(Some(answer)) => is_received(payment) && reports(answer, payment),
        Ok(None) => is_of_no_concern(payment),
        Err(error) => {
            &&& !is_received(payment)
            &&& !is_of_no_concern(payment)
            &&& tells_why_unreported(error, payment)
        },
    }
}

/// Every settled payment that came in for an offer, or for an invoice with a
/// readable hash, is reported with exactly the millisatoshis that came.
pub proof fn received_payments_are_reported_in_full(
    payment: Payment,
    res: Result<Option<WaitPaymentResponse>, Error>,
)
    requires
        call_ensures(wait_payment_response_from_payment, (&payment,), res),
    ensures
        is_reported(res, payment),
        is_received(payment) ==> (res matches Ok(Some(answer)) && answer.payment_amount == (Amount {
            value: payment.amount_msat->0,
            unit: CurrencyUnit::Msat,
        })),
{
}

/// One payment that was asked for by its id is reported as any other is, and
/// there is nothing to report where the node knows none.
pub proof fn fetched_payments_are_reported_in_full(
    payment: Option<Payment>,
    res: Result<Option<WaitPaymentResponse>, PaymentError>,
)
    requires
        call_ensures(incoming_payment_fetched, (&payment,), res),
    ensures
        match (payment, res) {
            (None, res) => res == Ok::<Option<WaitPaymentResponse>, PaymentError>(None),
            (Some(payment), Ok(answer)) => is_reported(Ok(answer), payment),
            (Some(payment), Err(PaymentError::Backend(error))) => is_reported(Err(error), payment),
            _ => false,
        },
{
}

/// How many of the first payments of a list are to be reported as received.
pub open spec fn received_among(payments: Seq<Payment>, n: int) -> int
    decreases n,
{
    if n <= 0 {
        0
    } else {
        received_among(payments, n - 1) + (if is_received(payments[n - 1]) {
            1int
        } else {
            0
        })
    }
}

/// Exactly the received payments of a list are reported, each in full, in the
/// order of the list.
pub proof fn found_payments_are_reported_in_order(
    payments: Vec<Payment>,
    answers: Vec<WaitPaymentResponse>,
)
    requires
        call_ensures(incoming_payments_found, (&payments,), answers),
    ensures
        answers@.len() == received_among(payments@, payments@.len() as int),
        forall|i: int|
            0 <= i < payments@.len() && is_received(#[trigger] payments@[i]) ==> {
                let at = received_among(payments@, i);
                0 <= at < answers@.len() && reports(answers@[at], payments@[i])
            },
{
    let all = payments@;
    let said = answers.deep_view();
    assert(all.take(all.len() as int) =~= all);
    assert(forall|i: int|
        0 <= i < answers@.len() ==> said[i] == (#[trigger] answers@[i]).deep_view());
    lemma_received_in_order(all, all.len() as int);
    assert forall|i: int| 0 <= i < all.len() && is_received(#[trigger] all[i]) implies {
        let at = received_among(all, i);
        0 <= at < answers@.len() && reports(answers@[at], all[i])
    } by {
        let at = received_among(all, i);
        assert(received_answer(all[i]) == Ok::<_, Error>(Some(said[at])));
        assert(said[at] == answers@[at].deep_view());
    }
}

proof fn lemma_received_in_order(all: Seq<Payment>, n: int)
    requires
        0 <= n <= all.len(),
    ensures
        0 <= received_among(all, n) == received_answers(all.take(n)).len(),
        forall|i: int|
            0 <= i < n && is_received(#[trigger] all[i]) ==> {
                let at = received_among(all, i);
                &&& 0 <= at < received_among(all, n)
                &&& received_answer(all[i]) == Ok::<_, Error>(
                    Some(received_answers(all.take(n))[at]),
                )
            },
    decreases n,
{
    if n > 0 {
        lemma_received_in_order(all, n - 1);
        assert(all.take(n).drop_last() =~= all.take(n - 1));
        assert(all.take(n).last() == all[n - 1]);
    }
}

/// Whether a payment is one that is looked for: settled and received under an
/// offer or a hash, or sent under a hash. The case of a hash does not matter.
pub open spec fn is_wanted(filter: PaymentFilter, payment: Payment) -> bool {
    let came_in = payment.direction == Coded::Known(PaymentDirection::Inbound) && payment.status
        == Coded::Known(PaymentStatus::Succeeded);
    match (filter, payment.kind) {
        (
            PaymentFilter::IncomingOffer(wanted),
            Some(PaymentKind::Bolt12Offer { offer_id, .. }),
        ) => came_in && offer_id@ == wanted@,
        (PaymentFilter::IncomingHash(wanted), Some(PaymentKind::Bolt11 { hash, .. })) => {
            came_in && lower(hash@) == lower(wanted@)
        },
        (PaymentFilter::OutgoingHash(wanted), Some(PaymentKind::Bolt11 { hash, .. })) => {
            payment.direction == Coded::Known(PaymentDirection::Outbound) && lower(hash@) == lower(
                wanted@,
            )
        },
        _ => false,
    }
}

/// Exactly the payments that are looked for match.
pub proof fn filters_match_what_is_wanted(filter: PaymentFilter, payment: Payment, res: bool)
    requires
        call_ensures(PaymentFilter::matches_payment, (&filter, &payment), res),
    ensures
        res == is_wanted(filter, payment),
{
}

/// How many of the first payments of a page are looked for.
pub open spec fn wanted_among(page: Seq<Payment>, filter: PaymentFilter, n: int) -> int
    decreases n,
{
    if n <= 0 {
        0
    } else {
        wanted_among(page, filter, n - 1) + (if is_wanted(filter, page[n - 1]) {
            1int
        } else {
            0
        })
    }
}

/// A page adds exactly the payments that are looked for to those found before,
/// in its order. Reading goes on while there are pages, and to exceed the number
/// of pages that may be read is an error.
pub proof fn pages_add_what_is_wanted(page: Vec<Payment>, has_next: bool)
    ensures
        forall|scan: &mut PaymentScan, res: Result<ScanStep, Error>| #[trigger]
            call_ensures(PaymentScan::list_matching_payments, (scan, page, has_next), res) ==> {
                let before = (*scan).found();
                let after = (*final(scan)).found();
                let filter = (*scan).filter();
                &&& after.len() == before.len() + wanted_among(
                    page@,
                    filter,
                    page@.len() as int,
                )
                &&& forall|i: int| 0 <= i < before.len() ==> #[trigger] after[i] == before[i]
                &&& forall|i: int|
                    0 <= i < page@.len() && is_wanted(filter, #[trigger] page@[i]) ==> {
                        let at = before.len() + wanted_among(page@, filter, i);
                        before.len() <= at < after.len() && after[at] == page@[i]
                    }
                &&& (*final(scan)).filter() == filter
                &&& (*final(scan)).limit() == (*scan).limit()
                &&& (*final(scan)).pages_read() == (*scan).pages_read() + 1
                &&& match res {
                    Ok(ScanStep::Done) => !has_next,
                    Ok(ScanStep::NextPage) => has_next && (*final(scan)).pages_read()
                        < (*scan).limit(),
                    Err(error) => {
                        &&& has_next
                        &&& (*final(scan)).pages_read() >= (*scan).limit()
                        &&& error == Error::PaymentScanLimitExceeded { max_pages: (*scan).limit() }
                    },
                }
            },
{
    assert forall|scan: &mut PaymentScan, res: Result<ScanStep, Error>| #[trigger]
        call_ensures(PaymentScan::list_matching_payments, (scan, page, has_next), res) implies {
        let before = (*scan).found();
        let after = (*final(scan)).found();
        let filter = (*scan).filter();
        &&& after.len() == before.len() + wanted_among(page@, filter, page@.len() as int)
        &&& forall|i: int|
            0 <= i < page@.len() && is_wanted(filter, #[trigger] page@[i]) ==> {
                let at = before.len() + wanted_among(page@, filter, i);
                before.len() <= at < after.len() && after[at] == page@[i]
            }
    } by {
        let filter = (*scan).filter();
        assert(page@.take(page@.len() as int) =~= page@);
        lemma_wanted_in_order(page@, filter, page@.len() as int);
    }
}

proof fn lemma_wanted_in_order(page: Seq<Payment>, filter: PaymentFilter, n: int)
    requires
        0 <= n <= page.len(),
    ensures
        0 <= wanted_among(page, filter, n) == accepted(page.take(n), filter).len(),
        forall|i: int|
            0 <= i < n && is_wanted(filter, #[trigger] page[i]) ==> {
                let at = wanted_among(page, filter, i);
                &&& 0 <= at < wanted_among(page, filter, n)
                &&& accepted(page.take(n), filter)[at] == page[i]
            },
    decreases n,
{
    if n > 0 {
        lemma_wanted_in_order(page, filter, n - 1);
        assert(page.take(n).drop_last() =~= page.take(n - 1));
        assert(page.take(n).last() == page[n - 1]);
        assert(accepts(filter, page[n - 1]) == is_wanted(filter, page[n - 1]));
    }
}

/// A scan begins with nothing found, for what it was asked to look for, unless
/// no page may be read.
pub proof fn scans_begin_with_nothing(
    filter: PaymentFilter,
    max_pages: u16,
    res: Result<PaymentScan, Error>,
)
    requires
        call_ensures(PaymentScan::new, (filter, max_pages), res),
    ensures
        match res {
            Ok(scan) => {
                &&& max_pages > 0
                &&& scan.found() == Seq::<Payment>::empty()
                &&& scan.filter() == filter
                &&& scan.limit() == max_pages
                &&& scan.pages_read() == 0
            },
            Err(error) => max_pages == 0 && error == (Error::PaymentScanLimitExceeded {
                max_pages: 0,
            }),
        },
{
}

/// What a scan gives is what it found.
pub proof fn scans_give_what_they_found(scan: PaymentScan, payments: Vec<Payment>)
    requires
        call_ensures(PaymentScan::into_payments, (scan,), payments),
    ensures
        payments@ == scan.found(),
{
}

/// An incoming payment is looked up under its offer, its hash or its id, and
/// under nothing else.
pub proof fn incoming_payments_are_looked_up_by_what_names_them(
    identifier: PaymentIdentifier,
    res: Result<IncomingLookup, PaymentError>,
)
    requires
        call_ensures(check_incoming_payment_status, (&identifier,), res),
    ensures
        match (identifier, res) {
            (
                PaymentIdentifier::OfferId(offer),
                Ok(IncomingLookup::Scan(PaymentFilter::IncomingOffer(text))),
            ) => text@ == offer@,
            (
                PaymentIdentifier::PaymentHash(hash),
                Ok(IncomingLookup::Scan(PaymentFilter::IncomingHash(text))),
            ) => text@ == hex_text(hash@),
            (PaymentIdentifier::PaymentId(id), Ok(IncomingLookup::Fetch(text))) => text@
                == hex_text(id@),
            (_, Ok(_)) => false,
            (identifier, Err(error)) => {
                &&& !(identifier is OfferId || identifier is PaymentHash || identifier is PaymentId)
                &&& error == PaymentError::Backend(Error::UnsupportedPaymentIdentifierType)
            },
        },
{
}

/// An outgoing payment is looked up under its hash or its id, and nothing is
/// known of any other.
pub proof fn outgoing_payments_are_looked_up_by_what_names_them(
    identifier: PaymentIdentifier,
    lookup: OutgoingLookup,
)
    requires
        call_ensures(check_outgoing_payment, (&identifier,), lookup),
    ensures
        match (identifier, lookup) {
            (PaymentIdentifier::PaymentId(id), OutgoingLookup::Fetch(text)) => text@ == hex_text(
                id@,
            ),
            (
                PaymentIdentifier::PaymentHash(hash),
                OutgoingLookup::Scan(PaymentFilter::OutgoingHash(text)),
            ) => text@ == hex_text(hash@),
            (identifier, OutgoingLookup::Answer(answer)) => {
                &&& !(identifier is PaymentHash || identifier is PaymentId)
                &&& answer.payment_lookup_id == identifier
                &&& answer.payment_proof is None
                &&& answer.status == MeltQuoteState::Unknown
                &&& answer.total_spent == (Amount { value: 0, unit: CurrencyUnit::Msat })
            },
            _ => false,
        },
{
}

/// A payment that was asked for by its id is answered in millisatoshis, where it
/// went out.
pub proof fn fetched_payments_are_told(
    identifier: PaymentIdentifier,
    payment: Option<Payment>,
    res: Result<MakePaymentResponse, PaymentError>,
)
    requires
        call_ensures(outgoing_payment_fetched, (&identifier, &payment), res),
    ensures
        match payment {
            None => res matches Err(PaymentError::Backend(Error::PaymentNotFound)),
            Some(payment) => match payment.direction {
                Coded::Known(PaymentDirection::Outbound) => is_told(
                    res,
                    CurrencyUnit::Msat,
                    identifier,
                    payment,
                ),
                Coded::Known(PaymentDirection::Inbound) => res matches Err(
                    PaymentError::Backend(Error::InvalidPaymentDirection),
                ),
                Coded::Unknown(code) => res matches Err(PaymentError::Backend(error)) && error
                    == Error::UnknownPaymentDirection(code),
            },
        },
{
}

/// How little a payment says of an invoice: a settled one the least little, then
/// a pending one.
pub open spec fn uncertainty(payment: Payment) -> int {
    match payment.status {
        Coded::Known(PaymentStatus::Succeeded) => 0,
        Coded::Known(PaymentStatus::Pending) => 1,
        _ => 2,
    }
}

/// Whether no payment of an invoice says more than the one at a position, nor,
/// before it, as much: a settled one says more than a pending one, that more
/// than any other, and of two alike the later one.
pub open spec fn says_most(payments: Seq<Payment>, at: int) -> bool {
    &&& 0 <= at < payments.len()
    &&& forall|j: int|
        0 <= j < payments.len() ==> {
            let other = #[trigger] payments[j];
            let here = payments[at];
            ||| uncertainty(here) < uncertainty(other)
            ||| uncertainty(here) == uncertainty(other) && here.latest_update_timestamp
                > other.latest_update_timestamp
            ||| uncertainty(here) == uncertainty(other) && here.latest_update_timestamp
                == other.latest_update_timestamp && at <= j
        }
}

proof fn lemma_says_most(payments: Seq<Payment>, at: int)
    requires
        is_selected(payments, at),
    ensures
        says_most(payments, at),
{
    assert forall|j: int| 0 <= j < payments.len() implies {
        let other = #[trigger] payments[j];
        let here = payments[at];
        ||| uncertainty(here) < uncertainty(other)
        ||| uncertainty(here) == uncertainty(other) && here.latest_update_timestamp
            > other.latest_update_timestamp
        ||| uncertainty(here) == uncertainty(other) && here.latest_update_timestamp
            == other.latest_update_timestamp && at <= j
    } by {
        if j < at {
            assert(says_more(payments[at], payments[j]));
        } else if j > at {
            assert(!says_more(payments[j], payments[at]));
        }
    }
}

/// Of the payments of an invoice the one that says the most is picked.
pub proof fn the_payment_that_says_most_is_picked(payments: Vec<Payment>, res: Option<Payment>)
    requires
        call_ensures(select_bolt11_payment, (payments,), res),
    ensures
        match res {
            Some(payment) => exists|at: int| #[trigger]
                says_most(payments@, at) && payments@[at] == payment,
            None => payments@.len() == 0,
        },
{
    if res is Some {
        let at = choose|at: int| #[trigger]
            is_selected(payments@, at) && payments@[at] == res->0;
        lemma_says_most(payments@, at);
    }
}

/// The payments of an invoice are answered by the one that says the most, in
/// millisatoshis.
pub proof fn found_payments_are_told(
    identifier: PaymentIdentifier,
    payments: Vec<Payment>,
    res: Result<MakePaymentResponse, PaymentError>,
)
    requires
        call_ensures(outgoing_payments_found, (&identifier, payments), res),
    ensures
        payments@.len() == 0 ==> (res matches Err(PaymentError::Backend(Error::PaymentNotFound))),
        payments@.len() > 0 ==> exists|at: int| #[trigger]
            says_most(payments@, at) && is_told(
                res,
                CurrencyUnit::Msat,
                identifier,
                payments@[at],
            ),
{
    if payments@.len() > 0 {
        let at = choose|at: int| #[trigger]
            is_selected(payments@, at) && crate::payment::result_view(res)
                == crate::ldk_server::payments::payment_answer(
                CurrencyUnit::Msat,
                identifier,
                payments@[at],
            );
        lemma_says_most(payments@, at);
        assert(is_told(res, CurrencyUnit::Msat, identifier, payments@[at]));
    }
}

/// A payment that was sent is known by the id that the node gave it, where that
/// is one.
pub proof fn sent_payments_have_the_id_of_the_node(
    id: &str,
    context: OutgoingPaymentContext,
    now: u64,
)
    ensures
        forall|correlator: &mut OutgoingPaymentCorrelator, sent: PaymentSent| #[trigger]
            call_ensures(payment_sent, (correlator, id, &context, now), sent) ==> (
            match sent.payment_id {
                Ok(array) => is_id(id@) && array == array_of(hex_bytes(id@)),
                Err(PaymentError::Backend(error)) => tells_no_id(error, id@),
                Err(_) => false,
            }),
{
}

/// The mint is told at once what became of a payment whose details were found.
pub proof fn found_details_are_told(
    unit: CurrencyUnit,
    id: [u8; 32],
    payment: Payment,
    context: OutgoingPaymentContext,
    now: u64,
)
    ensures
        forall|correlator: &mut OutgoingPaymentCorrelator, concluded: PaymentConcluded| #[trigger]
            call_ensures(
                payment_found,
                (correlator, &unit, &id, &payment, &context, now),
                concluded,
            ) ==> is_told(concluded.answer, unit, PaymentIdentifier::PaymentId(id), payment),
{
}

/// Exactly a paid and a failed quote are settled for good.
pub proof fn paid_and_failed_are_final(answer: Result<MakePaymentResponseView, PaymentErrorView>)
    ensures
        is_terminal(answer) <==> (answer matches Ok(answer) && match answer.status {
            MeltQuoteState::Paid => true,
            MeltQuoteState::Failed => true,
            MeltQuoteState::Unpaid => false,
            MeltQuoteState::Pending => false,
            MeltQuoteState::Unknown => false,
        }),
{
}

/// Details are awaited for as long as the mint says, ten seconds where it does
/// not, and asked for ten times a second.
pub proof fn details_are_awaited_as_long_as_asked(
    found: Option<Payment>,
    elapsed_secs: u64,
    timeout_secs: Option<u64>,
    step: WaitStep,
)
    requires
        call_ensures(wait_for_payment_details, (found, elapsed_secs, timeout_secs), step),
    ensures
        match step {
            WaitStep::Found(payment) => found == Some(payment),
            WaitStep::AskAgainAfter(ms) => {
                &&& found is None
                &&& ms == 100
                &&& timeout_secs matches Some(secs) ==> elapsed_secs < secs
                &&& timeout_secs is None ==> elapsed_secs < 10
            },
            WaitStep::NotFound(error) => {
                &&& found is None
                &&& error == Error::PaymentNotFound
                &&& timeout_secs matches Some(secs) ==> elapsed_secs >= secs
                &&& timeout_secs is None ==> elapsed_secs >= 10
            },
        },
{
}

} // verus!
