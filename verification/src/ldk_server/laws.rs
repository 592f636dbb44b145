//! What holds of the LDK Server backend as a whole.

use vstd::prelude::*;

use crate::encoding::{array_of, hex_bytes, hex_ignores_case, hex_round_trip, hex_text};
use crate::encoding::{is_hex, lemma_array_of, lemma_hex_text_is_normal};
use crate::ldk_server::backend::{accepts, bare_address, least_reserve, quote_answer, PaymentFilter};
use crate::ldk_server::correlator::{
    age, event_answer, first_registered, first_sharing, keys_of, normal_key, with_keys,
    without_stale, ContextView, CorrelatorView, OutgoingPaymentOutcome, PendingView, UnmatchedView,
};
use crate::ldk_server::correlator::{OUTGOING_CONTEXT_TTL_NS, UNMATCHED_OUTGOING_EVENT_TTL_NS};
use crate::ldk_server::error::Error;
use crate::ldk_server::events::{envelope_answer, NodeEvent};
use crate::ldk_server::payments::{
    is_selected, payment_answer, received_answer, spent_in_unit, status_of, Payment, PaymentStatus,
};
use crate::payment::{
    CurrencyUnit, EventView, MeltQuoteState, OutgoingPaymentOptions, PaymentIdentifier,
};
use crate::text::{
    has_prefix, is_space, lemma_trimmed_already, lemma_trimmed_ends, lower, trim_end_char, trimmed,
};

verus! {

/// What is done to a correlator.
pub enum Operation {
    /// A quote registers under some keys.
    Remember {
        /// The keys.
        keys: Seq<Seq<char>>,
        /// The quote.
        context: ContextView,
    },
    /// A quote is done with.
    Remove {
        /// The quote.
        quote_id: Seq<char>,
    },
    /// The node reports a payment.
    Report {
        /// The payment.
        payment: Payment,
        /// How it ended.
        outcome: OutgoingPaymentOutcome,
    },
    /// The oldest ready event is taken.
    TakeReady,
}

/// What is known after an operation at some moment.
pub open spec fn after(known: CorrelatorView, operation: Operation, now: u64) -> CorrelatorView {
    let fresh = known.expired(now);
    match operation {
        Operation::Remember { keys, context } => fresh.remembering(keys, context, now),
        Operation::Remove { quote_id } => fresh.with_finalized(quote_id, now),
        Operation::Report { payment, outcome } => fresh.reporting(payment, outcome, now).1,
        Operation::TakeReady => if known.ready.len() > 0 {
            CorrelatorView { ready: known.ready.subrange(1, known.ready.len() as int), ..fresh }
        } else {
            fresh
        },
    }
}

/// The event that an operation gives rise to, whether it is handed out at once
/// or waits to be read.
pub open spec fn gives_rise(known: CorrelatorView, operation: Operation, now: u64) -> Option<
    EventView,
> {
    let fresh = known.expired(now);
    match operation {
        Operation::Remember { keys, context } => if fresh.makes_ready(keys, context) {
            let report = fresh.unmatched[first_sharing(fresh.unmatched, keys)];
            Some(event_answer(context, report.payment, report.outcome)->Ok_0)
        } else {
            None
        },
        Operation::Report { payment, outcome } => match fresh.reporting(payment, outcome, now).0 {
            Ok(event) => event,
            Err(_) => None,
        },
        _ => None,
    }
}

/// The quote that an event is about, where it is about one.
pub open spec fn quote_of(event: EventView) -> Option<Seq<char>> {
    match event {
        EventView::PaymentSuccessful { quote_id, .. } => Some(quote_id),
        EventView::PaymentFailed { quote_id, .. } => Some(quote_id),
        EventView::PaymentReceived(_) => None,
    }
}

/// Whether no quote that is done with is still registered.
pub open spec fn is_settled(known: CorrelatorView) -> bool {
    forall|key: Seq<char>| #[trigger]
        known.by_key.dom().contains(key) ==> !known.finalized.dom().contains(
            known.by_key[key].context.quote_id,
        )
}

/// Nothing is registered at the beginning, so no quote that is done with is.
pub proof fn a_new_correlator_is_settled()
    ensures
        is_settled(CorrelatorView::empty()),
{
}

/// Registering touches the given keys and no others.
pub proof fn lemma_with_keys(
    by_key: Map<Seq<char>, PendingView>,
    keys: Seq<Seq<char>>,
    pending: PendingView,
)
    ensures
        forall|key: Seq<char>| #[trigger]
            with_keys(by_key, keys, pending).dom().contains(key) <==> by_key.dom().contains(key)
                || keys.contains(key),
        forall|key: Seq<char>| #[trigger]
            with_keys(by_key, keys, pending).dom().contains(key) ==> with_keys(
                by_key,
                keys,
                pending,
            )[key] == (if keys.contains(key) {
                pending
            } else {
                by_key[key]
            }),
    decreases keys.len(),
{
    if keys.len() > 0 {
        lemma_with_keys(by_key, keys.drop_last(), pending);
        assert forall|key: Seq<char>| keys.contains(key) <==> key == keys.last()
            || keys.drop_last().contains(key) by {
            if keys.contains(key) && key != keys.last() {
                let i = choose|i: int| 0 <= i < keys.len() && keys[i] == key;
                assert(keys.drop_last()[i] == key);
            }
            if keys.drop_last().contains(key) {
                let i = choose|i: int| 0 <= i < keys.len() - 1 && keys.drop_last()[i] == key;
                assert(keys[i] == key);
            }
            if key == keys.last() {
                assert(keys[keys.len() - 1] == key);
            }
        }
    }
}

/// Every operation keeps the quotes that are done with unregistered.
pub proof fn operations_keep_correlators_settled(
    known: CorrelatorView,
    operation: Operation,
    now: u64,
)
    requires
        is_settled(known),
    ensures
        is_settled(after(known, operation, now)),
{
    let fresh = known.expired(now);
    assert(is_settled(fresh));
    match operation {
        Operation::Remember { keys, context } => {
            lemma_with_keys(fresh.by_key, keys, PendingView { context, inserted_at: now });
        },
        _ => {},
    }
}

/// A quote that an event was given rise to for is done with.
pub proof fn events_finish_their_quotes(known: CorrelatorView, operation: Operation, now: u64)
    ensures
        gives_rise(known, operation, now) matches Some(event) ==> {
            &&& quote_of(event) matches Some(quote_id)
            &&& after(known, operation, now).finalized.dom().contains(quote_id)
            &&& after(known, operation, now).finalized[quote_id] == now
        },
{
}

/// The first key under which a quote is registered is one of the keys.
pub proof fn lemma_first_registered_found(by_key: Map<Seq<char>, PendingView>, keys: Seq<Seq<char>>)
    ensures
        0 <= first_registered(by_key, keys) <= keys.len(),
        first_registered(by_key, keys) < keys.len() ==> by_key.dom().contains(
            keys[first_registered(by_key, keys)],
        ),
    decreases keys.len(),
{
    if keys.len() > 0 && !by_key.dom().contains(keys[0]) {
        let rest = keys.subrange(1, keys.len() as int);
        lemma_first_registered_found(by_key, rest);
    }
}

/// No event is given rise to for a quote that is done with, and a quote that is
/// done with stays so for a day.
pub proof fn finished_quotes_stay_silent(
    known: CorrelatorView,
    operation: Operation,
    quote_id: Seq<char>,
    now: u64,
)
    requires
        is_settled(known),
        known.finalized.dom().contains(quote_id),
        age(now, known.finalized[quote_id]) < OUTGOING_CONTEXT_TTL_NS,
    ensures
        gives_rise(known, operation, now) matches Some(event) ==> quote_of(event) != Some(quote_id),
        after(known, operation, now).finalized.dom().contains(quote_id),
        after(known, operation, now).finalized[quote_id] == known.finalized[quote_id] || after(
            known,
            operation,
            now,
        ).finalized[quote_id] == now,
{
    let fresh = known.expired(now);
    assert(is_settled(fresh));
    assert(fresh.finalized.dom().contains(quote_id));
    match operation {
        Operation::Report { payment, outcome } => {
            lemma_first_registered_found(fresh.by_key, keys_of(payment));
        },
        _ => {},
    }
}

/// An operation and the moment at which it is done.
pub struct Step {
    /// The operation.
    pub operation: Operation,
    /// The moment, in nanoseconds.
    pub now: u64,
}

/// The events that a run of operations gives rise to, in order.
pub open spec fn events_of(known: CorrelatorView, run: Seq<Step>) -> Seq<EventView>
    decreases run.len(),
{
    if run.len() == 0 {
        Seq::empty()
    } else {
        let rest = events_of(
            after(known, run[0].operation, run[0].now),
            run.subrange(1, run.len() as int),
        );
        match gives_rise(known, run[0].operation, run[0].now) {
            Some(event) => seq![event] + rest,
            None => rest,
        }
    }
}

/// Whether all moments of a run lie within the day that begins at some moment.
pub open spec fn within_a_day(run: Seq<Step>, start: u64) -> bool {
    forall|i: int|
        0 <= i < run.len() ==> start <= (#[trigger] run[i]).now < start + OUTGOING_CONTEXT_TTL_NS
}

/// Whether an event is about a quote.
pub open spec fn is_about(event: EventView, quote_id: Seq<char>) -> bool {
    quote_of(event) == Some(quote_id)
}

/// A quote that is done with has no event within the day.
pub proof fn lemma_silent_run(
    known: CorrelatorView,
    run: Seq<Step>,
    quote_id: Seq<char>,
    start: u64,
)
    requires
        is_settled(known),
        within_a_day(run, start),
        known.finalized.dom().contains(quote_id),
        start <= known.finalized[quote_id],
    ensures
        forall|i: int|
            0 <= i < events_of(known, run).len() ==> !is_about(
                #[trigger] events_of(known, run)[i],
                quote_id,
            ),
    decreases run.len(),
{
    if run.len() > 0 {
        let now = run[0].now;
        let next = after(known, run[0].operation, now);
        let rest = run.subrange(1, run.len() as int);
        finished_quotes_stay_silent(known, run[0].operation, quote_id, now);
        operations_keep_correlators_settled(known, run[0].operation, now);
        assert forall|i: int| 0 <= i < rest.len() implies start <= (#[trigger] rest[i]).now < start
            + OUTGOING_CONTEXT_TTL_NS by {
            assert(rest[i] == run[i + 1]);
        }
        lemma_silent_run(next, rest, quote_id, start);
        let later = events_of(next, rest);
        match gives_rise(known, run[0].operation, now) {
            Some(event) => {
                let all = seq![event] + later;
                assert forall|i: int| 0 <= i < all.len() implies !is_about(
                    #[trigger] all[i],
                    quote_id,
                ) by {
                    if i > 0 {
                        assert(all[i] == later[i - 1]);
                    }
                }
            },
            None => {},
        }
    }
}

/// Within a day, whatever is registered, reported and read, no quote has more
/// than one event.
pub proof fn quotes_have_one_event_at_most(known: CorrelatorView, run: Seq<Step>, start: u64)
    requires
        is_settled(known),
        within_a_day(run, start),
    ensures
        forall|i: int, j: int, quote_id: Seq<char>|
            0 <= i < j < events_of(known, run).len() && #[trigger] is_about(
                events_of(known, run)[i],
                quote_id,
            ) ==> !#[trigger] is_about(events_of(known, run)[j], quote_id),
    decreases run.len(),
{
    if run.len() > 0 {
        let now = run[0].now;
        let next = after(known, run[0].operation, now);
        let rest = run.subrange(1, run.len() as int);
        operations_keep_correlators_settled(known, run[0].operation, now);
        assert forall|i: int| 0 <= i < rest.len() implies start <= (#[trigger] rest[i]).now < start
            + OUTGOING_CONTEXT_TTL_NS by {
            assert(rest[i] == run[i + 1]);
        }
        quotes_have_one_event_at_most(next, rest, start);
        let later = events_of(next, rest);
        match gives_rise(known, run[0].operation, now) {
            Some(event) => {
                let all = events_of(known, run);
                assert(all == seq![event] + later);
                events_finish_their_quotes(known, run[0].operation, now);
                lemma_silent_run(next, rest, quote_of(event)->Some_0, start);
                assert forall|i: int, j: int, quote_id: Seq<char>|
                    0 <= i < j < all.len() && #[trigger] is_about(
                        all[i],
                        quote_id,
                    ) implies !#[trigger] is_about(all[j], quote_id) by {
                    assert(all[j] == later[j - 1]);
                    if i > 0 {
                        assert(all[i] == later[i - 1]);
                    } else {
                        assert(all[0] == event);
                    }
                }
            },
            None => {},
        }
    }
}

/// Forgetting drops stale reports from the front, and nothing else: no report
/// younger than a minute is lost.
pub proof fn young_reports_are_kept(unmatched: Seq<UnmatchedView>, now: u64) -> (dropped: nat)
    ensures
        dropped <= unmatched.len(),
        without_stale(unmatched, now) == unmatched.skip(dropped as int),
        forall|i: int|
            0 <= i < dropped ==> age(now, (#[trigger] unmatched[i]).received_at)
                >= UNMATCHED_OUTGOING_EVENT_TTL_NS,
    decreases unmatched.len(),
{
    if unmatched.len() > 0 && age(now, unmatched[0].received_at)
        >= UNMATCHED_OUTGOING_EVENT_TTL_NS {
        let rest = unmatched.subrange(1, unmatched.len() as int);
        let dropped = young_reports_are_kept(rest, now);
        assert(rest.skip(dropped as int) =~= unmatched.skip(dropped as int + 1));
        assert forall|i: int| 0 <= i < dropped + 1 implies age(
            now,
            (#[trigger] unmatched[i]).received_at,
        ) >= UNMATCHED_OUTGOING_EVENT_TTL_NS by {
            if i > 0 {
                assert(rest[i - 1] == unmatched[i]);
            }
        }
        dropped + 1
    } else {
        assert(unmatched.skip(0) =~= unmatched);
        0
    }
}

/// Where the reports came in order, none that is a minute old outlives
/// forgetting.
pub proof fn old_reports_are_dropped(unmatched: Seq<UnmatchedView>, now: u64)
    requires
        forall|i: int, j: int|
            0 <= i < j < unmatched.len() ==> (#[trigger] unmatched[i]).received_at <= (
            #[trigger] unmatched[j]).received_at,
    ensures
        forall|i: int|
            0 <= i < without_stale(unmatched, now).len() ==> age(
                now,
                (#[trigger] without_stale(unmatched, now)[i]).received_at,
            ) < UNMATCHED_OUTGOING_EVENT_TTL_NS,
    decreases unmatched.len(),
{
    if unmatched.len() > 0 {
        if age(now, unmatched[0].received_at) >= UNMATCHED_OUTGOING_EVENT_TTL_NS {
            old_reports_are_dropped(unmatched.subrange(1, unmatched.len() as int), now);
        } else {
            assert forall|i: int| 0 <= i < unmatched.len() implies age(
                now,
                (#[trigger] unmatched[i]).received_at,
            ) < UNMATCHED_OUTGOING_EVENT_TTL_NS by {
                assert(unmatched[0].received_at <= unmatched[i].received_at);
            }
        }
    }
}

/// Where there is no first registered key, none of the keys is registered.
pub proof fn lemma_none_registered(by_key: Map<Seq<char>, PendingView>, keys: Seq<Seq<char>>)
    requires
        first_registered(by_key, keys) >= keys.len(),
    ensures
        forall|i: int| 0 <= i < keys.len() ==> !by_key.dom().contains(#[trigger] keys[i]),
    decreases keys.len(),
{
    if keys.len() > 0 {
        let rest = keys.subrange(1, keys.len() as int);
        lemma_none_registered(by_key, rest);
        assert forall|i: int| 0 <= i < keys.len() implies !by_key.dom().contains(
            #[trigger] keys[i],
        ) by {
            if i > 0 {
                assert(rest[i - 1] == keys[i]);
            }
        }
    }
}

/// Ready events are read in the order in which they became ready, and reading
/// one loses no other.
pub proof fn ready_events_are_read_in_order(known: CorrelatorView, operation: Operation, now: u64)
    ensures
        operation is TakeReady && known.ready.len() > 0 ==> seq![known.ready[0]] + after(
            known,
            operation,
            now,
        ).ready == known.ready,
        operation is Remember ==> after(known, operation, now).ready == (match gives_rise(
            known,
            operation,
            now,
        ) {
            Some(event) => known.ready.push(event),
            None => known.ready,
        }),
        operation is Remove || operation is Report ==> after(known, operation, now).ready
            == known.ready,
{
    if known.ready.len() > 0 {
        assert(seq![known.ready[0]] + known.ready.subrange(1, known.ready.len() as int)
            =~= known.ready);
    }
}

/// Received payments are reported whatever outgoing payments are waiting, and
/// change nothing of them.
pub proof fn received_payments_never_wait(
    known: CorrelatorView,
    other: CorrelatorView,
    payment: Payment,
    now: u64,
)
    ensures
        envelope_answer(known, Some(NodeEvent::PaymentReceived(Some(payment))), now).1 == known,
        envelope_answer(known, Some(NodeEvent::PaymentReceived(Some(payment))), now).0
            == envelope_answer(other, Some(NodeEvent::PaymentReceived(Some(payment))), now).0,
{
}

/// The keys of payments are in normal form: bringing one into normal form
/// again changes nothing.
pub proof fn normal_keys_stay(text: Seq<char>)
    ensures
        normal_key(normal_key(text)) == normal_key(text),
{
    crate::text::lemma_lower_trimmed(text);
    crate::text::trimming_is_idempotent(text);
    crate::text::lowering_is_idempotent(trimmed(text));
    crate::text::lemma_lower_trimmed(trimmed(text));
}

/// Only a settled payment is answered as spending anything.
pub proof fn only_settled_payments_spend(
    unit: CurrencyUnit,
    identifier: PaymentIdentifier,
    payment: Payment,
)
    ensures
        payment_answer(unit, identifier, payment) matches Ok(answer) ==> {
            &&& answer.spends_only_when_paid()
            &&& answer.payment_lookup_id == identifier
            &&& (answer.status == MeltQuoteState::Paid) == (status_of(payment) == Ok::<
                PaymentStatus,
                Error,
            >(PaymentStatus::Succeeded))
        },
{
}

/// What a settled payment is answered to have spent covers its amount and its
/// fee: exactly in millisatoshis, and by less than one satoshi more in
/// satoshis.
pub proof fn spent_amounts_cover_the_payment(total: u64)
    ensures
        spent_in_unit(total, CurrencyUnit::Msat) matches Ok(amount) && amount.value == total,
        spent_in_unit(total, CurrencyUnit::Sat) matches Ok(amount) && total <= 1000 * amount.value
            < total + 1000,
{
}

/// Among the payments of an invoice a settled one is preferred to any other,
/// and a pending one to a failed one.
pub proof fn settled_payments_are_preferred(payments: Seq<Payment>, at: int, other: int)
    requires
        is_selected(payments, at),
        0 <= other < payments.len(),
    ensures
        status_of(payments[other]) == Ok::<PaymentStatus, Error>(PaymentStatus::Succeeded)
            ==> status_of(payments[at]) == Ok::<PaymentStatus, Error>(PaymentStatus::Succeeded),
        status_of(payments[other]) == Ok::<PaymentStatus, Error>(PaymentStatus::Pending)
            ==> status_of(payments[at]) == Ok::<PaymentStatus, Error>(PaymentStatus::Succeeded)
            || status_of(payments[at]) == Ok::<PaymentStatus, Error>(PaymentStatus::Pending),
        status_of(payments[other]) == status_of(payments[at]) && status_of(payments[at]) is Ok
            ==> payments[other].latest_update_timestamp <= payments[at].latest_update_timestamp,
{
    let chosen = payments[at];
    let candidate = payments[other];
}

/// The payment that says the most is unique.
pub proof fn one_payment_is_selected(payments: Seq<Payment>, a: int, b: int)
    requires
        is_selected(payments, a),
        is_selected(payments, b),
    ensures
        a == b,
{
    let first = payments[a];
    let second = payments[b];
}

/// A lookup by hash reports payments of that hash and no others.
pub proof fn lookups_report_the_hash_they_ask_for(
    hash: [u8; 32],
    wanted: String,
    payment: Payment,
)
    requires
        wanted@ == hex_text(hash@),
        accepts(PaymentFilter::IncomingHash(wanted), payment),
    ensures
        received_answer(payment) matches Ok(answer) ==> {
            &&& answer matches Some(response)
            &&& response.payment_identifier == PaymentIdentifier::PaymentHash(hash)
        },
{
    let text = payment.kind->Some_0->Bolt11_hash@;
    lemma_hex_text_is_normal(hash@);
    hex_round_trip(hash@);
    hex_ignores_case(text);
    assert(lower(text) == hex_text(hash@));
    assert(is_hex(text));
    assert(hex_bytes(text) == hash@);
    lemma_array_of(hash);
    assert(array_of(hex_bytes(text)) == hash);
}

/// A quote reserves at least the configured share and at least the configured
/// minimum, whatever its unit.
pub proof fn reserves_cover_share_and_minimum(
    unit: CurrencyUnit,
    options: OutgoingPaymentOptions,
    min_sat: u64,
    relative: u64,
)
    ensures
        quote_answer(unit, options, min_sat, relative) matches Ok(quote) ==> {
            &&& quote.state == MeltQuoteState::Unpaid
            &&& quote.amount.unit == unit
            &&& quote.fee.unit == unit
            &&& quote.fee.value >= relative
            &&& quote.fee.value >= least_reserve(unit, min_sat)
            &&& quote.fee.value == relative || quote.fee.value == least_reserve(unit, min_sat)
        },
{
}

/// An address is the same with either scheme and with a slash at its end.
pub proof fn schemes_and_slashes_are_removed(address: Seq<char>)
    requires
        trimmed(address) == address,
        !has_prefix(address, "https://"@),
        !has_prefix(address, "http://"@),
        address.len() > 0 ==> address.last() != '/',
    ensures
        bare_address(address) == address,
        bare_address(address + "/"@) == address,
        bare_address("https://"@ + address) == address,
        bare_address("http://"@ + address) == address,
        bare_address("https://"@ + address + "/"@) == address,
        bare_address("http://"@ + address + "/"@) == address,
{
    reveal_strlit("https://");
    reveal_strlit("http://");
    reveal_strlit("/");
    lemma_trimmed_ends(address);
    let slash = "/"@;
    let slashed = address + slash;
    assert(slashed.drop_last() =~= address);
    assert(trim_end_char(address, '/') == address);
    assert(trim_end_char(slashed, '/') == address);
    lemma_trimmed_already(slashed);
    lemma_scheme(address, "https://"@);
    lemma_scheme(address, "http://"@);
    let plain = "http://"@ + address;
    assert(!has_prefix(plain, "https://"@)) by {
        if has_prefix(plain, "https://"@) {
            assert(plain.subrange(0, 8)[4] == "https://"@[4]);
        }
    }
    let plain_slashed = "http://"@ + address + slash;
    assert(!has_prefix(plain_slashed, "https://"@)) by {
        if has_prefix(plain_slashed, "https://"@) {
            assert(plain_slashed.subrange(0, 8)[4] == "https://"@[4]);
        }
    }
}

proof fn lemma_scheme(address: Seq<char>, scheme: Seq<char>)
    requires
        scheme.len() >= 2,
        scheme[scheme.len() - 2] == '/',
        scheme.last() == '/',
        !is_space(scheme[0]),
        trimmed(address) == address,
        !has_prefix(address, scheme),
        address.len() > 0 ==> address.last() != '/',
    ensures
        !has_prefix(address + "/"@, scheme),
        trimmed(scheme + address) == scheme + address,
        trimmed(scheme + address + "/"@) == scheme + address + "/"@,
        has_prefix(scheme + address, scheme),
        has_prefix(scheme + address + "/"@, scheme),
        (scheme + address).subrange(scheme.len() as int, (scheme + address).len() as int)
            == address,
        (scheme + address + "/"@).subrange(
            scheme.len() as int,
            (scheme + address + "/"@).len() as int,
        ) == address + "/"@,
{
    reveal_strlit("/");
    lemma_trimmed_ends(address);
    let slash = "/"@;
    let slashed = address + slash;
    if has_prefix(slashed, scheme) {
        if slashed.len() > scheme.len() {
            assert(address.subrange(0, scheme.len() as int) =~= slashed.subrange(
                0,
                scheme.len() as int,
            ));
        } else {
            assert(slashed.subrange(0, scheme.len() as int)[scheme.len() - 2] == '/');
            assert(address.last() == '/');
        }
    }
    let full = scheme + address;
    let full_slashed = full + slash;
    lemma_trimmed_already(full);
    lemma_trimmed_already(full_slashed);
    assert(full.subrange(0, scheme.len() as int) =~= scheme);
    assert(full_slashed.subrange(0, scheme.len() as int) =~= scheme);
    assert(full.subrange(scheme.len() as int, full.len() as int) =~= address);
    assert(full_slashed.subrange(scheme.len() as int, full_slashed.len() as int) =~= slashed);
}

} // verus!
