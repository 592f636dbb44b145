//! What holds of an outgoing payment from its beginning to the report that ends
//! it, whatever else happens meanwhile.

use vstd::prelude::*;

use crate::encoding::{hex_ignores_case, hex_round_trip, hex_text, is_hex, is_hex_digit};
use crate::ldk_server::backend::{
    is_terminal, known_when_answered, known_when_begun, known_when_sent, payment_plan,
};
use crate::ldk_server::correlator::{
    event_answer, first_registered, hash_text, keys_of, normal_key, share_key, ContextView,
    CorrelatorView, OutgoingPaymentOutcome, OUTGOING_CONTEXT_TTL_NS,
};
use crate::ldk_server::events::{envelope_answer, NodeEvent};
use crate::ldk_server::laws::{
    after, finished_quotes_stay_silent, is_about, is_settled, lemma_first_registered_found,
    lemma_silent_run, operations_keep_correlators_settled, within_a_day, Operation, Step,
};
use crate::ldk_server::payments::{hex_array, payment_answer, Payment, PaymentErrorView};
use crate::ldk_server::run_laws::{
    after_run, are_among, holds_keys, is_claimed_by_another, is_free, is_silent, leaves_waiting,
    lemma_free_own, lemma_held_is_first, lemma_holds_own, lemma_holds_run, lemma_shared,
    quotes_go_on_waiting, run_goes_on, runs_keep_correlators_settled,
};
use crate::payment::{
    CurrencyUnit, EventView, MakePaymentResponseView, MeltQuoteState, OutgoingPaymentOptions,
    PaymentIdentifier,
};
use crate::text::{is_space, lemma_trimmed_already, lower, trimmed};

verus! {

/// Whether a moment lies within the day that begins at some moment.
pub open spec fn in_day(now: u64, start: u64) -> bool {
    start <= now < start + OUTGOING_CONTEXT_TTL_NS
}

/// An outgoing payment: what the mint asks for, what the node answers, when,
/// and what else happens to the correlator meanwhile.
pub struct PaymentFlow {
    /// The unit of the quote.
    pub unit: CurrencyUnit,
    /// What the mint asks for.
    pub options: OutgoingPaymentOptions,
    /// When the payment begins.
    pub begun: u64,
    /// What happens until the node has taken the payment.
    pub until_sent: Seq<Step>,
    /// The id that the node gives the payment.
    pub payment_id: Seq<char>,
    /// When the node has taken the payment.
    pub sent: u64,
    /// What happens until the details are known.
    pub until_found: Seq<Step>,
    /// The details of the payment.
    pub details: Payment,
    /// When the details are known.
    pub found: u64,
}

impl PaymentFlow {
    /// The quote for which the payment is made.
    pub open spec fn context(self) -> ContextView {
        payment_plan(self.unit, self.options)->Ok_0.context
    }

    /// The keys under which the quote is registered at the beginning: the hash
    /// of an invoice.
    pub open spec fn first_keys(self) -> Seq<Seq<char>> {
        match self.options {
            OutgoingPaymentOptions::Bolt11(options) => seq![
                hex_text(options.bolt11.payment_hash@),
            ],
            _ => Seq::empty(),
        }
    }

    /// All keys under which the quote is registered.
    pub open spec fn keys(self) -> Seq<Seq<char>> {
        self.first_keys() + seq![normal_key(self.payment_id)] + keys_of(self.details)
    }

    /// How the payment is looked up later.
    pub open spec fn lookup_id(self) -> PaymentIdentifier {
        PaymentIdentifier::PaymentId(hex_array(self.payment_id)->Ok_0)
    }

    /// Whether a report has the id that the node gave the payment, or the hash
    /// of the invoice, in digits of either case.
    pub open spec fn is_named_by(self, report: Payment) -> bool {
        ||| lower(report.id@) == lower(self.payment_id)
        ||| match (self.options, hash_text(report)) {
            (OutgoingPaymentOptions::Bolt11(options), Some(hash)) => lower(hash) == hex_text(
                options.bolt11.payment_hash@,
            ),
            _ => false,
        }
    }

    /// What the mint is answered with.
    pub open spec fn answer(self) -> Result<MakePaymentResponseView, PaymentErrorView> {
        payment_answer(self.unit, self.lookup_id(), self.details)
    }

    /// What is known when the payment has begun.
    pub open spec fn known_at_begin(self, known: CorrelatorView) -> CorrelatorView {
        known_when_begun(known, self.unit, self.options, self.begun)
    }

    /// What is known when the node has taken the payment.
    pub open spec fn known_at_sent(self, known: CorrelatorView) -> CorrelatorView {
        known_when_sent(
            after_run(self.known_at_begin(known), self.until_sent),
            self.payment_id,
            self.context(),
            self.sent,
        )
    }

    /// What is known when the payment was answered.
    pub open spec fn known_at_end(self, known: CorrelatorView) -> CorrelatorView {
        known_when_answered(
            after_run(self.known_at_sent(known), self.until_found),
            self.context(),
            self.details,
            self.answer(),
            self.found,
        )
    }

    /// Whether no event about the quote comes of the payment until it is
    /// answered: none of a registration, and none of what happens meanwhile.
    pub open spec fn is_quiet(self, known: CorrelatorView) -> bool {
        let begun = self.known_at_begin(known);
        let before_sent = after_run(begun, self.until_sent);
        let sent = self.known_at_sent(known);
        let before_found = after_run(sent, self.until_found);
        let quote_id = self.context().quote_id;
        &&& begun.ready == known.ready
        &&& is_silent(begun, self.until_sent, quote_id)
        &&& sent.ready == before_sent.ready
        &&& is_silent(sent, self.until_found, quote_id)
        &&& self.known_at_end(known).ready == before_found.ready
    }

    /// What is known when the details are known, before the mint is answered.
    pub open spec fn known_at_found(self, known: CorrelatorView) -> CorrelatorView {
        after_run(self.known_at_sent(known), self.until_found).expired(self.found).remembering(
            keys_of(self.details),
            self.context(),
            self.found,
        )
    }

    /// Whether the payment can be made and answered within a day.
    pub open spec fn is_made_in_a_day(self) -> bool {
        &&& payment_plan(self.unit, self.options) is Ok
        &&& hex_array(self.payment_id) is Ok
        &&& in_day(self.sent, self.begun)
        &&& in_day(self.found, self.begun)
        &&& within_a_day(self.until_sent, self.begun)
        &&& within_a_day(self.until_found, self.begun)
    }

    /// Whether the payment is made and answered within a day, and its quote
    /// waits all the while: nobody takes its keys, and it is not done with. The
    /// quote may register again meanwhile.
    pub open spec fn is_undisturbed(self, known: CorrelatorView) -> bool {
        let begun = self.known_at_begin(known);
        let sent = self.known_at_sent(known);
        let quote_id = self.context().quote_id;
        &&& self.is_made_in_a_day()
        &&& self.options is Bolt11 ==> !begun.finalized.dom().contains(quote_id)
        &&& leaves_waiting(begun, self.until_sent, self.keys(), self.context())
        &&& !sent.finalized.dom().contains(quote_id)
        &&& leaves_waiting(sent, self.until_found, self.keys(), self.context())
        &&& !self.known_at_found(known).finalized.dom().contains(quote_id)
    }
}

proof fn lemma_flow_keys(flow: PaymentFlow)
    ensures
        are_among(flow.first_keys(), flow.keys()),
        are_among(seq![normal_key(flow.payment_id)], flow.keys()),
        are_among(keys_of(flow.details), flow.keys()),
        are_among(flow.first_keys() + seq![normal_key(flow.payment_id)], flow.keys()),
{
    let keys = flow.keys();
    let first = flow.first_keys();
    let second = seq![normal_key(flow.payment_id)];
    let third = keys_of(flow.details);
    let held = first + second;
    assert forall|i: int| 0 <= i < first.len() implies keys.contains(#[trigger] first[i]) by {
        assert(keys[i] == first[i]);
    }
    assert forall|i: int| 0 <= i < second.len() implies keys.contains(#[trigger] second[i]) by {
        assert(keys[first.len() + i] == second[i]);
    }
    assert forall|i: int| 0 <= i < third.len() implies keys.contains(#[trigger] third[i]) by {
        assert(keys[first.len() + second.len() + i] == third[i]);
    }
    assert forall|i: int| 0 <= i < held.len() implies keys.contains(#[trigger] held[i]) by {
        assert(keys[i] == held[i]);
    }
}

/// Until it is answered, a payment that is not disturbed gives rise to no event
/// and its quote holds more and more of its keys.
proof fn lemma_flow(flow: PaymentFlow, known: CorrelatorView)
    requires
        is_settled(known),
        flow.is_undisturbed(known),
    ensures
        holds_keys(flow.known_at_found(known), flow.keys(), flow.context(), flow.begun),
        flow.known_at_end(known) == (if is_terminal(flow.answer()) {
            after(
                flow.known_at_found(known),
                Operation::Remove { quote_id: flow.context().quote_id },
                flow.found,
            )
        } else {
            flow.known_at_found(known)
        }),
        flow.is_quiet(known),
        is_settled(flow.known_at_end(known)),
{
    let keys = flow.keys();
    let context = flow.context();
    let start = flow.begun;
    let first = flow.first_keys();
    let second = seq![normal_key(flow.payment_id)];
    let third = keys_of(flow.details);
    let held = first + second;
    lemma_flow_keys(flow);
    let none = Seq::<Seq<char>>::empty();
    assert(holds_keys(known, none, context, start));
    let begun = flow.known_at_begin(known);
    if flow.options is Bolt11 {
        lemma_holds_own(known, first, flow.begun, none, context, start);
        operations_keep_correlators_settled(
            known,
            Operation::Remember { keys: first, context },
            flow.begun,
        );
    }
    assert(none + first =~= first);
    assert(holds_keys(begun, first, context, start));
    lemma_holds_run(begun, flow.until_sent, keys, first, context, start);
    runs_keep_correlators_settled(begun, flow.until_sent);
    let before_sent = after_run(begun, flow.until_sent);
    lemma_holds_own(before_sent, second, flow.sent, first, context, start);
    operations_keep_correlators_settled(
        before_sent,
        Operation::Remember { keys: second, context },
        flow.sent,
    );
    let sent = flow.known_at_sent(known);
    lemma_holds_run(sent, flow.until_found, keys, held, context, start);
    runs_keep_correlators_settled(sent, flow.until_found);
    let before_found = after_run(sent, flow.until_found);
    let remember = Operation::Remember { keys: third, context };
    lemma_holds_own(before_found, third, flow.found, held, context, start);
    operations_keep_correlators_settled(before_found, remember, flow.found);
    operations_keep_correlators_settled(
        flow.known_at_found(known),
        Operation::Remove { quote_id: context.quote_id },
        flow.found,
    );
    assert(held + third =~= keys);
}

/// A payment is not disturbed where its quote is not done with, no report with
/// one of the quote's keys is buffered, and everything that happens meanwhile
/// has nothing to do with the quote or is a further registration of it. The
/// keys of the quote are those of the payment, and whatever others it registers
/// under.
pub proof fn payments_beside_others_are_undisturbed(
    flow: PaymentFlow,
    known: CorrelatorView,
    keys: Seq<Seq<char>>,
)
    requires
        flow.is_made_in_a_day(),
        are_among(flow.keys(), keys),
        is_free(known, keys, flow.context().quote_id),
        run_goes_on(flow.until_sent, keys, flow.context()),
        run_goes_on(flow.until_found, keys, flow.context()),
    ensures
        flow.is_undisturbed(known),
        is_free(flow.known_at_found(known), keys, flow.context().quote_id),
{
    let context = flow.context();
    let mine = flow.keys();
    let first = flow.first_keys();
    let second = seq![normal_key(flow.payment_id)];
    let third = keys_of(flow.details);
    lemma_flow_keys(flow);
    lemma_among(first, mine, keys);
    lemma_among(second, mine, keys);
    lemma_among(third, mine, keys);
    let begun = flow.known_at_begin(known);
    if flow.options is Bolt11 {
        lemma_free_own(known, first, flow.begun, keys, context);
    }
    quotes_go_on_waiting(begun, flow.until_sent, keys, mine, context);
    lemma_free_own(after_run(begun, flow.until_sent), second, flow.sent, keys, context);
    let sent = flow.known_at_sent(known);
    quotes_go_on_waiting(sent, flow.until_found, keys, mine, context);
    lemma_free_own(after_run(sent, flow.until_found), third, flow.found, keys, context);
}

proof fn lemma_among(some: Seq<Seq<char>>, more: Seq<Seq<char>>, all: Seq<Seq<char>>)
    requires
        are_among(some, more),
        are_among(more, all),
    ensures
        are_among(some, all),
{
    assert forall|i: int| 0 <= i < some.len() implies all.contains(#[trigger] some[i]) by {
        assert(more.contains(some[i]));
        let j = choose|j: int| 0 <= j < more.len() && more[j] == some[i];
        assert(all.contains(more[j]));
    }
}

/// A payment registers its quote three times: at the beginning under the hash of
/// an invoice, when the node has taken it under its id, and when its details are
/// known under their keys. What holds of registrations holds of payments: a
/// report that came before is replayed at the first of them that has its key.
pub proof fn payments_register_their_quote(flow: PaymentFlow, known: CorrelatorView)
    requires
        payment_plan(flow.unit, flow.options) is Ok,
    ensures
        flow.known_at_begin(known) == (if flow.options is Bolt11 {
            after(
                known,
                Operation::Remember { keys: flow.first_keys(), context: flow.context() },
                flow.begun,
            )
        } else {
            known
        }),
        flow.known_at_sent(known) == after(
            after_run(flow.known_at_begin(known), flow.until_sent),
            (Operation::Remember {
                keys: seq![normal_key(flow.payment_id)],
                context: flow.context(),
            }),
            flow.sent,
        ),
        flow.known_at_found(known) == after(
            after_run(flow.known_at_sent(known), flow.until_found),
            (Operation::Remember { keys: keys_of(flow.details), context: flow.context() }),
            flow.found,
        ),
        flow.known_at_end(known) == (if is_terminal(flow.answer()) {
            after(
                flow.known_at_found(known),
                Operation::Remove { quote_id: flow.context().quote_id },
                flow.found,
            )
        } else {
            flow.known_at_found(known)
        }),
{
}

/// What the node reports when a payment has ended.
pub open spec fn report_of(payment: Payment, outcome: OutgoingPaymentOutcome) -> Option<NodeEvent> {
    match outcome {
        OutgoingPaymentOutcome::Succeeded => Some(NodeEvent::PaymentSuccessful(Some(payment))),
        OutgoingPaymentOutcome::Failed => Some(NodeEvent::PaymentFailed(Some(payment))),
    }
}

/// A payment that is answered as pending has exactly one event. The mint is
/// told to look it up by the id that the node gave it. Until the node reports
/// how it ended, no event is about its quote, which may register again; the
/// report, if it comes within the day, is answered at once with the event of the
/// quote (or with an error, where the report does not say enough); and no later
/// event within a day is about the quote.
pub proof fn pending_payments_have_one_event(
    flow: PaymentFlow,
    known: CorrelatorView,
    until_reported: Seq<Step>,
    report: Payment,
    outcome: OutgoingPaymentOutcome,
    reported: u64,
    later: Seq<Step>,
)
    requires
        is_settled(known),
        flow.is_undisturbed(known),
        flow.answer() matches Ok(answer) && answer.status == MeltQuoteState::Pending,
        within_a_day(until_reported, flow.begun),
        leaves_waiting(
            flow.known_at_end(known),
            until_reported,
            flow.keys(),
            flow.context(),
        ),
        share_key(keys_of(report), flow.keys()),
        !is_claimed_by_another(
            after_run(flow.known_at_end(known), until_reported),
            report,
            flow.context(),
        ),
        in_day(reported, flow.begun),
        within_a_day(later, reported),
    ensures
        flow.answer()->Ok_0.payment_lookup_id == flow.lookup_id(),
        flow.is_quiet(known),
        is_silent(flow.known_at_end(known), until_reported, flow.context().quote_id),
        ({
            let waiting = after_run(flow.known_at_end(known), until_reported);
            let (answer, done) = envelope_answer(waiting, report_of(report, outcome), reported);
            &&& match event_answer(flow.context(), report, outcome) {
                Ok(event) => answer == Ok::<Option<EventView>, PaymentErrorView>(Some(event))
                    && is_about(event, flow.context().quote_id),
                Err(error) => answer == Err::<Option<EventView>, PaymentErrorView>(error),
            }
            &&& is_silent(done, later, flow.context().quote_id)
        }),
{
    let keys = flow.keys();
    let context = flow.context();
    lemma_flow(flow, known);
    let end = flow.known_at_end(known);
    assert(are_among(keys, keys));
    lemma_holds_run(end, until_reported, keys, keys, context, flow.begun);
    runs_keep_correlators_settled(end, until_reported);
    let waiting = after_run(end, until_reported);
    lemma_held_is_first(waiting, report, keys, context, flow.begun, reported);
    let operation = Operation::Report { payment: report, outcome };
    let done = after(waiting, operation, reported);
    operations_keep_correlators_settled(waiting, operation, reported);
    assert(done == envelope_answer(waiting, report_of(report, outcome), reported).1);
    lemma_silent_run(done, later, context.quote_id, reported);
}

/// A payment that is answered as pending, beside whatever has nothing to do with
/// it, has its event when the report comes. This is the case in which no report
/// with one of the quote's keys is buffered at the beginning, and until the
/// report nobody but the quote registers under its keys.
pub proof fn pending_payments_beside_others_have_their_event(
    flow: PaymentFlow,
    known: CorrelatorView,
    keys: Seq<Seq<char>>,
    until_reported: Seq<Step>,
    report: Payment,
    outcome: OutgoingPaymentOutcome,
    reported: u64,
)
    requires
        is_settled(known),
        flow.is_made_in_a_day(),
        are_among(flow.keys(), keys),
        is_free(known, keys, flow.context().quote_id),
        run_goes_on(flow.until_sent, keys, flow.context()),
        run_goes_on(flow.until_found, keys, flow.context()),
        run_goes_on(until_reported, keys, flow.context()),
        within_a_day(until_reported, flow.begun),
        flow.answer() matches Ok(answer) && answer.status == MeltQuoteState::Pending,
        flow.is_named_by(report),
        !is_claimed_by_another(
            after_run(flow.known_at_end(known), until_reported),
            report,
            flow.context(),
        ),
        in_day(reported, flow.begun),
    ensures
        ({
            let waiting = after_run(flow.known_at_end(known), until_reported);
            let (answer, _) = envelope_answer(waiting, report_of(report, outcome), reported);
            match event_answer(flow.context(), report, outcome) {
                Ok(event) => answer == Ok::<Option<EventView>, PaymentErrorView>(Some(event))
                    && is_about(event, flow.context().quote_id),
                Err(error) => answer == Err::<Option<EventView>, PaymentErrorView>(error),
            }
        }),
{
    payments_beside_others_are_undisturbed(flow, known, keys);
    quotes_go_on_waiting(
        flow.known_at_found(known),
        until_reported,
        keys,
        flow.keys(),
        flow.context(),
    );
    reports_go_by_id_and_hash(flow, report);
    pending_payments_have_one_event(
        flow,
        known,
        until_reported,
        report,
        outcome,
        reported,
        Seq::empty(),
    );
}

/// A payment that is answered as paid or failed has no event: whatever happens
/// within the day after the answer, no event is about its quote, and a report
/// of the payment is answered with nothing, unless another quote is registered
/// for it.
pub proof fn concluded_payments_have_no_event(
    flow: PaymentFlow,
    known: CorrelatorView,
    later: Seq<Step>,
    report: Payment,
    outcome: OutgoingPaymentOutcome,
    reported: u64,
)
    requires
        is_settled(known),
        flow.is_undisturbed(known),
        is_terminal(flow.answer()),
        within_a_day(later, flow.found),
        in_day(reported, flow.found),
    ensures
        flow.answer()->Ok_0.payment_lookup_id == flow.lookup_id(),
        flow.is_quiet(known),
        is_silent(flow.known_at_end(known), later, flow.context().quote_id),
        ({
            let waiting = after_run(flow.known_at_end(known), later);
            let (answer, done) = envelope_answer(waiting, report_of(report, outcome), reported);
            !is_claimed_by_another(waiting, report, flow.context()) ==> answer == Ok::<
                Option<EventView>,
                PaymentErrorView,
            >(None)
        }),
{
    let quote_id = flow.context().quote_id;
    lemma_flow(flow, known);
    let end = flow.known_at_end(known);
    assert(end.finalized.dom().contains(quote_id) && end.finalized[quote_id] == flow.found);
    lemma_silent_run(end, later, quote_id, flow.found);
    lemma_finished_run(end, later, quote_id, flow.found);
    runs_keep_correlators_settled(end, later);
    let waiting = after_run(end, later);
    let fresh = waiting.expired(reported);
    let mine = keys_of(report);
    lemma_first_registered_found(fresh.by_key, mine);
    let at = first_registered(fresh.by_key, mine);
    if at < mine.len() {
        assert(waiting.by_key.dom().contains(mine[at]));
        assert(waiting.by_key[mine[at]].context.quote_id != quote_id);
    }
}

proof fn lemma_finished_run(
    known: CorrelatorView,
    run: Seq<Step>,
    quote_id: Seq<char>,
    start: u64,
)
    requires
        is_settled(known),
        within_a_day(run, start),
        known.finalized.dom().contains(quote_id),
        start <= known.finalized[quote_id],
    ensures
        after_run(known, run).finalized.dom().contains(quote_id),
    decreases run.len(),
{
    if run.len() > 0 {
        let rest = run.subrange(1, run.len() as int);
        finished_quotes_stay_silent(known, run[0].operation, quote_id, run[0].now);
        operations_keep_correlators_settled(known, run[0].operation, run[0].now);
        assert forall|i: int| 0 <= i < rest.len() implies start <= (#[trigger] rest[i]).now < start
            + OUTGOING_CONTEXT_TTL_NS by {
            assert(rest[i] == run[i + 1]);
        }
        lemma_finished_run(
            after(known, run[0].operation, run[0].now),
            rest,
            quote_id,
            start,
        );
    }
}

/// A report is one of a payment where it has the id that the node gave the
/// payment, or the hash of the invoice, in digits of either case.
pub proof fn reports_go_by_id_and_hash(flow: PaymentFlow, report: Payment)
    requires
        hex_array(flow.payment_id) is Ok,
        flow.is_named_by(report),
    ensures
        share_key(keys_of(report), flow.keys()),
{
    let keys = flow.keys();
    let mine = keys_of(report);
    let id = normal_key(report.id@);
    assert(mine.contains(id)) by {
        if mine.len() == 2 && mine[0] != id {
            assert(mine[1] == id);
        } else {
            assert(mine[0] == id);
        }
    }
    if lower(report.id@) == lower(flow.payment_id) {
        hex_ignores_case(flow.payment_id);
        hex_ignores_case(report.id@);
        lemma_hex_is_trimmed(flow.payment_id);
        lemma_hex_is_trimmed(report.id@);
        assert(keys[flow.first_keys().len() as int] == normal_key(flow.payment_id));
        lemma_shared(mine, keys, id);
    } else {
        let hash = hash_text(report)->Some_0;
        let options = flow.options->Bolt11_0;
        hex_round_trip(options.bolt11.payment_hash@);
        hex_ignores_case(hash);
        lemma_hex_is_trimmed(hash);
        let key = normal_key(hash);
        assert(mine.contains(key)) by {
            if mine.len() == 2 && mine[0] != key {
                assert(mine[1] == key);
            } else {
                assert(mine[0] == key);
            }
        }
        assert(keys[0] == key);
        lemma_shared(mine, keys, key);
    }
}

proof fn lemma_hex_is_trimmed(text: Seq<char>)
    requires
        is_hex(text),
    ensures
        trimmed(text) == text,
{
    assert forall|i: int| 0 <= i < text.len() implies !is_space(#[trigger] text[i]) by {
        assert(is_hex_digit(text[i]));
    }
    lemma_trimmed_already(text);
}

} // verus!
