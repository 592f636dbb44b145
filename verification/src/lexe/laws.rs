//! What holds of the Lexe backend as a whole.

use vstd::prelude::*;

use crate::lexe::backend::{
    answer_without_payment, capped_words, check_begun, fee_estimate, is_outbound_match,
    outgoing_answer, page_matches, payment_begun, search_concluded, submission_concluded,
    update_mapped, whole_sats, CheckStep, ErrorView, PaymentStep, SubmissionOutcome,
};
use crate::lexe::client::{
    payment_index_read, NodeErrorKind, Payment, PaymentStatus, SubmissionError,
};
use crate::lexe::database::{ownerless_attempt, stored, QuoteDatabaseView};
use crate::payment::{
    CurrencyUnit, EventView, MakePaymentResponseView, MeltQuoteState, OutgoingPaymentOptions,
    PaymentIdentifier, MSAT_IN_SAT,
};

verus! {

/// What is written can be read back, and nothing else changes.
pub proof fn reads_give_back_what_was_written(
    db: QuoteDatabaseView,
    hash: [u8; 32],
    other: [u8; 32],
    invoice: Seq<char>,
    index: Seq<char>,
)
    ensures
        stored(db.with_melt_quote(hash, invoice).melt_quotes, hash) == Some(invoice),
        stored(db.with_melt_payment_id(hash, index).melt_payment_ids, hash) == Some(index),
        stored(db.with_mint_mappings(hash, invoice, index).mint_quotes, hash) == Some(invoice),
        stored(db.with_mint_mappings(hash, invoice, index).mint_payment_ids, hash) == Some(index),
        other != hash ==> {
            &&& stored(db.with_melt_quote(hash, invoice).melt_quotes, other) == stored(
                db.melt_quotes,
                other,
            )
            &&& stored(db.with_melt_payment_id(hash, index).melt_payment_ids, other) == stored(
                db.melt_payment_ids,
                other,
            )
            &&& stored(db.with_mint_mappings(hash, invoice, index).mint_quotes, other) == stored(
                db.mint_quotes,
                other,
            )
            &&& stored(db.with_mint_mappings(hash, invoice, index).mint_payment_ids, other)
                == stored(db.mint_payment_ids, other)
        },
{
}

/// What can happen to the database once it is open.
pub enum Operation {
    /// An invoice was created.
    MintInvoice { hash: [u8; 32], invoice: Seq<char>, index: Seq<char> },
    /// An outgoing payment was quoted.
    Quote { hash: [u8; 32], invoice: Seq<char> },
    /// An outgoing payment was begun.
    Pay {
        timeout_secs: u64,
        unit: CurrencyUnit,
        options: OutgoingPaymentOptions,
        refusal: Option<Seq<char>>,
    },
    /// A submission ended.
    Submitted { hash: [u8; 32], outcome: SubmissionOutcome },
    /// The search of the node's history found a payment.
    Recovered { hash: [u8; 32], index: Seq<char> },
    /// The node reported an update.
    Update { payment: Payment },
    /// The backend was restarted.
    Reopen,
}

impl Operation {
    /// The database after the operation.
    pub open spec fn apply(self, db: QuoteDatabaseView) -> QuoteDatabaseView {
        match self {
            Operation::MintInvoice { hash, invoice, index } => db.with_mint_mappings(
                hash,
                invoice,
                index,
            ),
            Operation::Quote { hash, invoice } => db.with_melt_quote(hash, invoice),
            Operation::Pay { timeout_secs, unit, options, refusal } => payment_begun(
                db,
                timeout_secs,
                unit,
                options,
                refusal,
            ).1,
            Operation::Submitted { hash, outcome } => submission_concluded(db, hash, outcome).1,
            Operation::Recovered { hash, index } => db.with_melt_payment_id(hash, index),
            Operation::Update { payment } => update_mapped(db, payment).1,
            Operation::Reopen => db.opened(),
        }
    }

    /// Whether the operation tells to submit an invoice with this hash.
    pub open spec fn submits(self, db: QuoteDatabaseView, hash: [u8; 32]) -> bool {
        self matches Operation::Pay { timeout_secs, unit, options, refusal } && payment_begun(
            db,
            timeout_secs,
            unit,
            options,
            refusal,
        ).0 matches Ok(PaymentStep::Submit { payment_hash, .. }) && payment_hash == hash
    }
}

/// The database after the first `n` operations.
pub open spec fn after(db: QuoteDatabaseView, operations: Seq<Operation>, n: nat) -> QuoteDatabaseView
    decreases n,
{
    if n == 0 {
        db
    } else {
        operations[n - 1].apply(after(db, operations, (n - 1) as nat))
    }
}

/// Every operation keeps every attempt, with its owner, its unit and its
/// rejection.
pub proof fn operations_keep_attempts(db: QuoteDatabaseView, operation: Operation)
    requires
        db.attempts_migrated,
    ensures
        operation.apply(db).attempts_migrated,
        db.attempts_kept_in(operation.apply(db)),
{
}

/// What was attempted once stays attempted, by the same quote and in the same
/// unit, whatever happens later.
pub proof fn attempts_are_permanent(
    db: QuoteDatabaseView,
    operations: Seq<Operation>,
    i: nat,
    j: nat,
)
    requires
        db.attempts_migrated,
        i <= j <= operations.len(),
    ensures
        after(db, operations, j).attempts_migrated,
        after(db, operations, i).attempts_kept_in(after(db, operations, j)),
    decreases j,
{
    if i < j {
        let last = (j - 1) as nat;
        attempts_are_permanent(db, operations, i, last);
        operations_keep_attempts(after(db, operations, last), operations[last as int]);
        let first = after(db, operations, i);
        let end = after(db, operations, j);
        assert forall|hash: [u8; 32]| #[trigger]
            first.melt_attempts.dom().contains(hash) implies {
            &&& end.melt_attempts.dom().contains(hash)
            &&& end.melt_attempts[hash].quote_id == first.melt_attempts[hash].quote_id
            &&& end.melt_attempts[hash].unit == first.melt_attempts[hash].unit
            &&& first.melt_attempts[hash].submission_rejected
                ==> end.melt_attempts[hash].submission_rejected
        } by {
            assert(after(db, operations, last).melt_attempts.dom().contains(hash));
        }
    } else if j > 0 {
        let last = (j - 1) as nat;
        attempts_are_permanent(db, operations, last, last);
        operations_keep_attempts(after(db, operations, last), operations[last as int]);
    }
}

/// An invoice is submitted at most once: of all operations, however the
/// backend is retried, raced or restarted, at most one tells to submit it.
pub proof fn at_most_one_submission(
    db: QuoteDatabaseView,
    operations: Seq<Operation>,
    i: nat,
    j: nat,
    hash: [u8; 32],
)
    requires
        db.attempts_migrated,
        i < j < operations.len(),
        operations[i as int].submits(after(db, operations, i), hash),
    ensures
        !operations[j as int].submits(after(db, operations, j), hash),
{
    let claimed = after(db, operations, (i + 1) as nat);
    assert(claimed == operations[i as int].apply(after(db, operations, i)));
    assert(claimed.melt_attempts.dom().contains(hash));
    attempts_are_permanent(db, operations, (i + 1) as nat, j);
}

/// The quote that made a payment owns its events: whatever is quoted or tried
/// later, a settled or failed payment is reported for the quote under which it
/// was submitted.
pub proof fn events_belong_to_the_submitting_quote(
    db: QuoteDatabaseView,
    operations: Seq<Operation>,
    i: nat,
    j: nat,
    hash: [u8; 32],
    payment: Payment,
)
    requires
        db.attempts_migrated,
        i < j <= operations.len(),
        operations[i as int].submits(after(db, operations, i), hash),
        is_outbound_match(payment, hash),
    ensures
        ({
            let owner = operations[i as int]->options->Bolt11_0.quote_id@;
            let mapped = update_mapped(after(db, operations, j), payment).0;
            &&& mapped matches Ok(event) ==> match event {
                Some(EventView::PaymentSuccessful { quote_id, .. }) => quote_id == owner,
                Some(EventView::PaymentFailed { quote_id, .. }) => quote_id == owner,
                Some(EventView::PaymentReceived(_)) => false,
                None => payment.status == PaymentStatus::Pending,
            }
            &&& payment.status == PaymentStatus::Failed ==> mapped == Ok::<
                Option<EventView>,
                ErrorView,
            >(Some(EventView::PaymentFailed { quote_id: owner, reason: payment.status_msg@ }))
        }),
{
    let claimed = after(db, operations, (i + 1) as nat);
    assert(claimed == operations[i as int].apply(after(db, operations, i)));
    assert(claimed.melt_attempts.dom().contains(hash));
    attempts_are_permanent(db, operations, (i + 1) as nat, j);
}

/// A definite rejection is final: as long as no remote index turns up, the
/// payment reads as failed with nothing spent, without asking the node, after
/// any number of retries and restarts.
pub proof fn rejections_are_final(
    db: QuoteDatabaseView,
    operations: Seq<Operation>,
    i: nat,
    j: nat,
    hash: [u8; 32],
    why: String,
)
    requires
        db.attempts_migrated,
        i < j <= operations.len(),
        operations[i as int] == (Operation::Submitted {
            hash,
            outcome: SubmissionOutcome::Failed(SubmissionError::Rejected(why)),
        }),
        after(db, operations, i).can_reject(hash),
        !after(db, operations, j).melt_payment_ids.dom().contains(hash),
    ensures
        ({
            let before = after(db, operations, i).melt_attempts[hash];
            let later = after(db, operations, j);
            &&& check_begun(later, PaymentIdentifier::PaymentHash(hash)) == Ok::<
                CheckStep<MakePaymentResponseView, Seq<char>>,
                ErrorView,
            >(
                CheckStep::Answer(
                    answer_without_payment(
                        PaymentIdentifier::PaymentHash(hash),
                        before.unit,
                        MeltQuoteState::Failed,
                    ),
                ),
            )
            &&& later.melt_attempts[hash].quote_id == before.quote_id
        }),
{
    let rejected = after(db, operations, (i + 1) as nat);
    assert(rejected == operations[i as int].apply(after(db, operations, i)));
    assert(rejected.melt_attempts.dom().contains(hash));
    attempts_are_permanent(db, operations, (i + 1) as nat, j);
}

/// Only an error that proves a rejection is one; every other failure leaves
/// the attempt as it was.
pub proof fn ambiguity_changes_nothing(
    db: QuoteDatabaseView,
    hash: [u8; 32],
    why: String,
)
    ensures
        submission_concluded(
            db,
            hash,
            SubmissionOutcome::Failed(SubmissionError::Ambiguous(why)),
        ).1 == db,
        submission_concluded(db, hash, SubmissionOutcome::TimedOut).1 == db,
        !NodeErrorKind::Command.proves_rejection(),
        !NodeErrorKind::Timeout.proves_rejection(),
        !NodeErrorKind::Decode.proves_rejection(),
        !NodeErrorKind::Server.proves_rejection(),
        forall|code: u16| !(#[trigger] NodeErrorKind::Unknown(code).proves_rejection()),
{
}

/// An ambiguous attempt is searched for and, where the node knows nothing of
/// it, stays pending: missing history proves no rejection.
pub proof fn unresolved_attempts_stay_pending(db: QuoteDatabaseView, hash: [u8; 32])
    requires
        db.melt_attempts.dom().contains(hash),
        !db.melt_attempts[hash].submission_rejected,
        !db.melt_payment_ids.dom().contains(hash),
    ensures
        check_begun(db, PaymentIdentifier::PaymentHash(hash)) == Ok::<
            CheckStep<MakePaymentResponseView, Seq<char>>,
            ErrorView,
        >(CheckStep::Search { unit: db.melt_attempts[hash].unit }),
        search_concluded(
            PaymentIdentifier::PaymentHash(hash),
            db.melt_attempts[hash].unit,
            None,
        ) == Ok::<MakePaymentResponseView, ErrorView>(
            answer_without_payment(
                PaymentIdentifier::PaymentHash(hash),
                db.melt_attempts[hash].unit,
                MeltQuoteState::Pending,
            ),
        ),
{
}

/// A prepared quote that was never submitted is unpaid, and the node is not
/// asked about it.
pub proof fn prepared_quotes_are_unpaid(db: QuoteDatabaseView, hash: [u8; 32])
    requires
        db.melt_quotes.dom().contains(hash),
        !db.melt_attempts.dom().contains(hash),
    ensures
        check_begun(db, PaymentIdentifier::PaymentHash(hash)) == Ok::<
            CheckStep<MakePaymentResponseView, Seq<char>>,
            ErrorView,
        >(
            CheckStep::Answer(
                answer_without_payment(
                    PaymentIdentifier::PaymentHash(hash),
                    CurrencyUnit::Sat,
                    MeltQuoteState::Unpaid,
                ),
            ),
        ),
{
}

/// A capped payment is refused without creating an attempt, and its quote
/// reads as unpaid.
pub proof fn capped_payments_create_no_attempt(
    db: QuoteDatabaseView,
    timeout_secs: u64,
    options: OutgoingPaymentOptions,
    refusal: Option<Seq<char>>,
)
    requires
        options matches OutgoingPaymentOptions::Bolt11(options) && {
            &&& whole_sats(options.bolt11.amount_msat) is Some
            &&& options.max_fee_amount is Some
            &&& !db.melt_attempts.dom().contains(options.bolt11.payment_hash)
        },
    ensures
        ({
            let hash = options->Bolt11_0.bolt11.payment_hash;
            let begun = payment_begun(db, timeout_secs, CurrencyUnit::Sat, options, refusal);
            &&& begun.0 == Err::<PaymentStep<Seq<char>>, ErrorView>(
                ErrorView::Custom(capped_words()),
            )
            &&& begun.1.melt_attempts == db.melt_attempts
            &&& check_begun(begun.1, PaymentIdentifier::PaymentHash(hash)) == Ok::<
                CheckStep<MakePaymentResponseView, Seq<char>>,
                ErrorView,
            >(
                CheckStep::Answer(
                    answer_without_payment(
                        PaymentIdentifier::PaymentHash(hash),
                        CurrencyUnit::Sat,
                        MeltQuoteState::Unpaid,
                    ),
                ),
            )
        }),
{
}

/// An accepted payment is looked up under the index that was recorded before
/// anything else happened to it, and can no longer be rejected.
pub proof fn acceptance_is_recorded_first(
    db: QuoteDatabaseView,
    hash: [u8; 32],
    index: String,
    later: SubmissionError,
)
    requires
        db.melt_attempts.dom().contains(hash),
        payment_index_read(index@) == Ok::<Seq<char>, Seq<char>>(index@),
    ensures
        ({
            let accepted = submission_concluded(db, hash, SubmissionOutcome::Accepted(index)).1;
            &&& check_begun(accepted, PaymentIdentifier::PaymentHash(hash)) == Ok::<
                CheckStep<MakePaymentResponseView, Seq<char>>,
                ErrorView,
            >(CheckStep::Fetch { index: index@, unit: db.melt_attempts[hash].unit })
            &&& submission_concluded(accepted, hash, SubmissionOutcome::Failed(later)).1
                == accepted
        }),
{
}

/// Whatever the answer to an outgoing payment is, only a settled payment
/// spends anything, and what a settled payment spends covers principal and
/// fees by less than one satoshi.
pub proof fn only_settled_payments_spend(
    identifier: PaymentIdentifier,
    unit: CurrencyUnit,
    payment: Payment,
)
    ensures
        outgoing_answer(identifier, unit, payment) matches Ok(answer) ==> {
            &&& answer.spends_only_when_paid()
            &&& answer.payment_lookup_id == identifier
            &&& answer.status == MeltQuoteState::Paid ==> {
                let spent = payment.amount_msat->0 + payment.fees_msat;
                if unit == CurrencyUnit::Msat {
                    answer.total_spent.value == spent
                } else {
                    spent <= answer.total_spent.value * MSAT_IN_SAT < spent + MSAT_IN_SAT
                }
            }
        },
        payment.status != PaymentStatus::Completed ==> outgoing_answer(
            identifier,
            unit,
            payment,
        ) is Ok,
{
}

/// Opening a database twice changes no more than opening it once.
pub proof fn migration_runs_once(db: QuoteDatabaseView)
    ensures
        db.opened().opened() == db.opened(),
{
}

/// A migration loses nothing: every quote of an older database becomes an
/// attempt of its recorded owner, in its recorded unit, and other attempts,
/// invoices and indexes stay as they were.
pub proof fn migration_is_conservative(db: QuoteDatabaseView, hash: [u8; 32])
    requires
        !db.attempts_migrated,
    ensures
        db.melt_quotes.dom().contains(hash) ==> {
            &&& db.opened().melt_attempts.dom().contains(hash)
            &&& db.opened().melt_attempts[hash] == (if db.melt_owners.dom().contains(hash) {
                db.melt_owners[hash]
            } else {
                ownerless_attempt()
            })
        },
        !db.melt_quotes.dom().contains(hash) ==> stored(db.opened().melt_attempts, hash) == stored(
            db.melt_attempts,
            hash,
        ),
        db.opened().mint_quotes == db.mint_quotes,
        db.opened().mint_payment_ids == db.mint_payment_ids,
        db.opened().melt_quotes == db.melt_quotes,
        db.opened().melt_payment_ids == db.melt_payment_ids,
{
}

/// A quote that was stored after the migration is not taken for an attempt
/// when the database is opened again.
pub proof fn new_quotes_are_not_migrated(db: QuoteDatabaseView, hash: [u8; 32], invoice: Seq<char>)
    ensures
        db.opened().with_melt_quote(hash, invoice).opened().melt_attempts
            == db.opened().melt_attempts,
{
}

/// A migrated quote is never submitted.
pub proof fn migrated_quotes_are_never_submitted(
    db: QuoteDatabaseView,
    timeout_secs: u64,
    unit: CurrencyUnit,
    options: OutgoingPaymentOptions,
    refusal: Option<Seq<char>>,
)
    requires
        !db.attempts_migrated,
        options matches OutgoingPaymentOptions::Bolt11(options) && db.melt_quotes.dom().contains(
            options.bolt11.payment_hash,
        ),
    ensures
        !(payment_begun(db.opened(), timeout_secs, unit, options, refusal).0 matches Ok(
            PaymentStep::Submit { .. },
        )),
{
}

/// The estimate is at least the minimum and at least its share of the amount,
/// and exceeds the larger of the two by less than one satoshi.
pub proof fn fee_estimates_cover_their_share(amount_sats: int, ppm: int, min_sat: int)
    requires
        0 <= amount_sats <= u64::MAX,
        0 <= ppm <= u32::MAX,
        0 <= min_sat <= u64::MAX,
    ensures
        min_sat <= fee_estimate(amount_sats, ppm, min_sat) <= u64::MAX,
        fee_estimate(amount_sats, ppm, min_sat) < u64::MAX ==> fee_estimate(
            amount_sats,
            ppm,
            min_sat,
        ) * 1_000_000 >= amount_sats * ppm,
        fee_estimate(amount_sats, ppm, min_sat) > min_sat ==> (fee_estimate(
            amount_sats,
            ppm,
            min_sat,
        ) - 1) * 1_000_000 < amount_sats * ppm,
{
    let product = amount_sats * ppm;
    assert(0 <= product) by (nonlinear_arith)
        requires
            0 <= amount_sats,
            0 <= ppm,
            product == amount_sats * ppm,
    ;
}

/// Replaying an update reports the same event again and remembers nothing new.
pub proof fn replays_repeat_events(db: QuoteDatabaseView, payment: Payment)
    ensures
        update_mapped(update_mapped(db, payment).1, payment).0 == update_mapped(db, payment).0,
        update_mapped(update_mapped(db, payment).1, payment).1 == update_mapped(db, payment).1,
{
    let once = update_mapped(db, payment).1;
    let twice = update_mapped(once, payment).1;
    assert(twice.melt_payment_ids =~= once.melt_payment_ids);
}

/// Updates of payments that are neither invoices of this backend nor its
/// attempts are ignored and remember nothing.
pub proof fn foreign_payments_are_ignored(db: QuoteDatabaseView, payment: Payment)
    requires
        payment.hash matches Some(hash) ==> {
            &&& !db.mint_quotes.dom().contains(hash)
            &&& !db.melt_attempts.dom().contains(hash)
        },
    ensures
        update_mapped(db, payment) == (Ok::<Option<EventView>, ErrorView>(None), db),
{
}

/// A settled payment without an amount is an error, never a payment of zero.
pub proof fn unknown_amounts_are_never_zero(
    db: QuoteDatabaseView,
    identifier: PaymentIdentifier,
    unit: CurrencyUnit,
    payment: Payment,
)
    requires
        payment.status == PaymentStatus::Completed,
        payment.amount_msat is None,
    ensures
        !(update_mapped(db, payment).0 matches Ok(Some(_))),
        outgoing_answer(identifier, unit, payment) is Err,
{
}

/// Searching page after page finds the payment on whatever page it is: some
/// page is the first that holds a match, and no page before it does.
pub proof fn searching_reaches_every_page(pages: Seq<Seq<Payment>>, hash: [u8; 32], k: int)
    requires
        0 <= k < pages.len(),
        page_matches(pages[k], hash),
    ensures
        exists|first: int|
            0 <= first <= k && page_matches(#[trigger] pages[first], hash) && forall|j: int|
                0 <= j < first ==> !page_matches(#[trigger] pages[j], hash),
    decreases k,
{
    if exists|j: int| 0 <= j < k && page_matches(#[trigger] pages[j], hash) {
        let j = choose|j: int| 0 <= j < k && page_matches(#[trigger] pages[j], hash);
        searching_reaches_every_page(pages, hash, j);
    } else {
        assert(page_matches(pages[k], hash));
    }
}

} // verus!
