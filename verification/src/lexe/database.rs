//! What the backend remembers about each payment hash.
//!
//! An attempt and its event owner are recorded before a payment is submitted.
//! An ambiguous attempt is reconciled rather than submitted again, even if the
//! remote index was never received.

use vstd::prelude::*;
use vstd::string::*;

use crate::encoding::same_hash;
use crate::payment::CurrencyUnit;

verus! {

/// A submission intent. Its owner and its unit never change.
#[derive(Debug, PartialEq, Eq)]
pub struct MeltAttempt {
    /// The quote that owns the payment's events. A record from before owners
    /// were kept has none and is never given one.
    pub quote_id: Option<String>,
    /// The unit in which the attempt was requested.
    pub unit: CurrencyUnit,
    /// Whether the submission was definitely rejected, before acceptance.
    pub submission_rejected: bool,
}

/// What an attempt says.
pub struct MeltAttemptView {
    /// The owner, where there is one.
    pub quote_id: Option<Seq<char>>,
    /// The unit.
    pub unit: CurrencyUnit,
    /// Whether the submission was definitely rejected.
    pub submission_rejected: bool,
}

impl DeepView for MeltAttempt {
    type V = MeltAttemptView;

    open spec fn deep_view(&self) -> MeltAttemptView {
        MeltAttemptView {
            quote_id: self.quote_id.deep_view(),
            unit: self.unit,
            submission_rejected: self.submission_rejected,
        }
    }
}

impl Clone for MeltAttempt {
    fn clone(&self) -> (res: Self)
        ensures
            res == *self,
    {
        let quote_id = match &self.quote_id {
            Some(quote_id) => Some(quote_id.clone()),
            None => None,
        };
        MeltAttempt {
            quote_id,
            unit: self.unit.clone(),
            submission_rejected: self.submission_rejected,
        }
    }
}

impl MeltAttempt {
    /// An attempt as it is stored. Older records say nothing of a rejection
    /// and stay ambiguous.
    pub fn from_stored(
        quote_id: Option<String>,
        unit: CurrencyUnit,
        submission_rejected: Option<bool>,
    ) -> (res: MeltAttempt)
        ensures
            res.quote_id == quote_id,
            res.unit == unit,
            res.submission_rejected == (submission_rejected == Some(true)),
    {
        let submission_rejected = match submission_rejected {
            Some(rejected) => rejected,
            None => false,
        };
        MeltAttempt { quote_id, unit, submission_rejected }
    }
}

/// At most one value for each payment hash.
#[derive(Debug)]
pub struct Table<V: DeepView> {
    entries: Vec<([u8; 32], V)>,
}

/// Whether some entry has the given key.
spec fn has_key<V>(entries: Seq<([u8; 32], V)>, key: [u8; 32]) -> bool {
    exists|i: int| 0 <= i < entries.len() && (#[trigger] entries[i]).0 == key
}

/// The position of the entry with the given key.
spec fn position_of<V>(entries: Seq<([u8; 32], V)>, key: [u8; 32]) -> int {
    choose|i: int| 0 <= i < entries.len() && (#[trigger] entries[i]).0 == key
}

spec fn distinct_keys<V>(entries: Seq<([u8; 32], V)>) -> bool {
    forall|i: int, j: int|
        0 <= i < j < entries.len() ==> (#[trigger] entries[i]).0 != (#[trigger] entries[j]).0
}

impl<V: DeepView> Table<V> {
    /// The values by key.
    pub closed spec fn view(&self) -> Map<[u8; 32], V::V> {
        Map::new(
            |key: [u8; 32]| has_key(self.entries@, key),
            |key: [u8; 32]| self.entries@[position_of(self.entries@, key)].1.deep_view(),
        )
    }

    #[verifier::type_invariant]
    spec fn no_key_twice(self) -> bool {
        distinct_keys(self.entries@)
    }

    /// A table without entries.
    pub fn new() -> (table: Self)
        ensures
            table@ == Map::<[u8; 32], V::V>::empty(),
    {
        let table = Table { entries: Vec::new() };
        assert(table@ =~= Map::<[u8; 32], V::V>::empty());
        table
    }

    fn find(&self, key: &[u8; 32]) -> (res: Option<usize>)
        ensures
            match res {
                Some(i) => i < self.entries@.len() && self.entries@[i as int].0 == *key,
                None => !has_key(self.entries@, *key),
            },
    {
        let mut i: usize = 0;
        while i < self.entries.len()
            invariant
                i <= self.entries@.len(),
                forall|j: int| 0 <= j < i ==> (#[trigger] self.entries@[j]).0 != *key,
            decreases self.entries@.len() - i,
        {
            if same_hash(&self.entries[i].0, key) {
                return Some(i);
            }
            i = i + 1;
        }
        None
    }

    /// The value stored under a key.
    pub fn get(&self, key: &[u8; 32]) -> (res: Option<&V>)
        ensures
            match res {
                Some(value) => self@.dom().contains(*key) && self@[*key] == value.deep_view(),
                None => !self@.dom().contains(*key),
            },
    {
        proof {
            use_type_invariant(self);
        }
        match self.find(key) {
            Some(i) => {
                proof {
                    let p = position_of(self.entries@, *key);
                    assert(self.entries@[i as int].0 == *key);
                    assert(p == i);
                }
                Some(&self.entries[i].1)
            },
            None => None,
        }
    }

    /// How many keys there are.
    pub fn len(&self) -> (n: usize)
        ensures
            n == self.rows().len(),
    {
        self.entries.len()
    }

    /// The rows, in the order in which their keys first came.
    pub closed spec fn rows(&self) -> Seq<([u8; 32], V)> {
        self.entries@
    }

    /// The key of a row.
    pub fn key_at(&self, i: usize) -> (key: [u8; 32])
        requires
            i < self.rows().len(),
        ensures
            key == self.rows()[i as int].0,
    {
        self.entries[i].0
    }

    /// The keys of the rows are the keys of the table.
    pub proof fn lemma_rows(&self, key: [u8; 32])
        ensures
            self@.dom().contains(key) <==> exists|i: int|
                0 <= i < self.rows().len() && (#[trigger] self.rows()[i]).0 == key,
    {
        if has_key(self.entries@, key) {
            assert(self.rows()[position_of(self.entries@, key)].0 == key);
        }
    }

    /// Stores a value under a key, in place of one that was there.
    pub fn insert(&mut self, key: &[u8; 32], value: V)
        ensures
            final(self)@ == old(self)@.insert(*key, value.deep_view()),
    {
        proof {
            use_type_invariant(&*self);
        }
        let ghost before = self.entries@;
        let found = self.find(key);
        let mut entries: Vec<([u8; 32], V)> = Vec::new();
        std::mem::swap(&mut entries, &mut self.entries);
        let ghost at: int = match found {
            Some(i) => i as int,
            None => before.len() as int,
        };
        match found {
            Some(i) => {
                entries[i] = (*key, value);
            },
            None => {
                entries.push((*key, value));
            },
        }
        let ghost after = entries@;
        assert(distinct_keys(after)) by {
            assert forall|i: int, j: int| 0 <= i < j < after.len() implies (#[trigger] after[i]).0
                != (#[trigger] after[j]).0 by {
                if found is None {
                    if j == at {
                        assert(after[i] == before[i]);
                    } else {
                        assert(after[i] == before[i] && after[j] == before[j]);
                    }
                } else {
                    assert(after[i].0 == before[i].0 && after[j].0 == before[j].0);
                }
            }
        }
        self.entries = entries;
        proof {
            assert(after[at] == (*key, value));
            assert forall|k: [u8; 32]|
                has_key(after, k) == (has_key(before, k) || k == *key) by {
                if has_key(before, k) {
                    let p = position_of(before, k);
                    assert(after[p].0 == k);
                }
                if has_key(after, k) && k != *key {
                    let p = position_of(after, k);
                    assert(before[p].0 == k);
                }
            }
            assert forall|k: [u8; 32]| has_key(after, k) implies after[position_of(after, k)].1
                == (if k == *key {
                value
            } else {
                before[position_of(before, k)].1
            }) by {
                let p = position_of(after, k);
                if k == *key {
                    assert(p == at);
                } else {
                    let q = position_of(before, k);
                    assert(before[p].0 == k);
                    assert(p == q);
                }
            }
            assert(self@ =~= old(self)@.insert(*key, value.deep_view()));
        }
    }
}

/// Whether one of the first `n` rows has the given key.
spec fn among_first<V>(rows: Seq<([u8; 32], V)>, n: int, key: [u8; 32]) -> bool {
    exists|j: int| 0 <= j < n && (#[trigger] rows[j]).0 == key
}

/// Everything that is stored: what a database file holds.
#[derive(Debug)]
pub struct QuoteTables {
    /// BOLT11 invoices the backend created.
    pub mint_quotes: Table<String>,
    /// The node's payment index for each created invoice.
    pub mint_payment_ids: Table<String>,
    /// Outgoing BOLT11 invoices that were quoted.
    pub melt_quotes: Table<String>,
    /// The node's payment index for each outgoing payment.
    pub melt_payment_ids: Table<String>,
    /// Owners of outgoing payments from before attempts were recorded.
    pub melt_owners: Table<MeltAttempt>,
    /// Submission intents.
    pub melt_attempts: Table<MeltAttempt>,
    /// Whether attempts were recorded for the quotes of an older database.
    pub attempts_migrated: bool,
}

/// What is stored, by payment hash.
pub struct QuoteDatabaseView {
    /// BOLT11 invoices the backend created.
    pub mint_quotes: Map<[u8; 32], Seq<char>>,
    /// The node's payment index for each created invoice.
    pub mint_payment_ids: Map<[u8; 32], Seq<char>>,
    /// Outgoing BOLT11 invoices that were quoted.
    pub melt_quotes: Map<[u8; 32], Seq<char>>,
    /// The node's payment index for each outgoing payment.
    pub melt_payment_ids: Map<[u8; 32], Seq<char>>,
    /// Owners of outgoing payments from before attempts were recorded.
    pub melt_owners: Map<[u8; 32], MeltAttemptView>,
    /// Submission intents.
    pub melt_attempts: Map<[u8; 32], MeltAttemptView>,
    /// Whether attempts were recorded for the quotes of an older database.
    pub attempts_migrated: bool,
}

/// The attempt that stands for a quote whose owner is not known.
pub open spec fn ownerless_attempt() -> MeltAttemptView {
    MeltAttemptView { quote_id: None, unit: CurrencyUnit::Sat, submission_rejected: false }
}

impl QuoteDatabaseView {
    /// The database with nothing in it.
    pub open spec fn empty() -> QuoteDatabaseView {
        QuoteDatabaseView {
            mint_quotes: Map::empty(),
            mint_payment_ids: Map::empty(),
            melt_quotes: Map::empty(),
            melt_payment_ids: Map::empty(),
            melt_owners: Map::empty(),
            melt_attempts: Map::empty(),
            attempts_migrated: true,
        }
    }

    /// The attempts after a migration: every quote counts as an attempt of its
    /// recorded owner, since it may have been submitted.
    pub open spec fn migrated_attempts(self) -> Map<[u8; 32], MeltAttemptView> {
        Map::new(
            |hash: [u8; 32]|
                self.melt_quotes.dom().contains(hash) || self.melt_attempts.dom().contains(hash),
            |hash: [u8; 32]|
                if !self.melt_quotes.dom().contains(hash) {
                    self.melt_attempts[hash]
                } else if self.melt_owners.dom().contains(hash) {
                    self.melt_owners[hash]
                } else {
                    ownerless_attempt()
                },
        )
    }

    /// The database after it was opened: migrated, unless that was done before.
    pub open spec fn opened(self) -> QuoteDatabaseView {
        if self.attempts_migrated {
            self
        } else {
            QuoteDatabaseView {
                melt_attempts: self.migrated_attempts(),
                attempts_migrated: true,
                ..self
            }
        }
    }

    /// The database after an attempt was claimed, where none was recorded.
    pub open spec fn claimed(
        self,
        hash: [u8; 32],
        quote_id: Seq<char>,
        unit: CurrencyUnit,
    ) -> QuoteDatabaseView {
        if self.melt_attempts.dom().contains(hash) {
            self
        } else {
            QuoteDatabaseView {
                melt_attempts: self.melt_attempts.insert(
                    hash,
                    MeltAttemptView { quote_id: Some(quote_id), unit, submission_rejected: false },
                ),
                ..self
            }
        }
    }

    /// Whether a definite rejection can be recorded.
    pub open spec fn can_reject(self, hash: [u8; 32]) -> bool {
        !self.melt_payment_ids.dom().contains(hash) && self.melt_attempts.dom().contains(hash)
    }

    /// The database after a definite rejection was recorded.
    pub open spec fn rejected(self, hash: [u8; 32]) -> QuoteDatabaseView {
        QuoteDatabaseView {
            melt_attempts: self.melt_attempts.insert(
                hash,
                MeltAttemptView { submission_rejected: true, ..self.melt_attempts[hash] },
            ),
            ..self
        }
    }

    /// The database after an outgoing invoice was stored.
    pub open spec fn with_melt_quote(self, hash: [u8; 32], invoice: Seq<char>) -> QuoteDatabaseView {
        QuoteDatabaseView { melt_quotes: self.melt_quotes.insert(hash, invoice), ..self }
    }

    /// The database after the index of an outgoing payment was stored.
    pub open spec fn with_melt_payment_id(
        self,
        hash: [u8; 32],
        index: Seq<char>,
    ) -> QuoteDatabaseView {
        QuoteDatabaseView { melt_payment_ids: self.melt_payment_ids.insert(hash, index), ..self }
    }

    /// The database after a created invoice and its index were stored.
    pub open spec fn with_mint_mappings(
        self,
        hash: [u8; 32],
        invoice: Seq<char>,
        index: Seq<char>,
    ) -> QuoteDatabaseView {
        QuoteDatabaseView {
            mint_quotes: self.mint_quotes.insert(hash, invoice),
            mint_payment_ids: self.mint_payment_ids.insert(hash, index),
            ..self
        }
    }

    /// Whether every attempt of `self` is still recorded in `later`, with the
    /// same owner and unit, and with its rejection if it had one.
    pub open spec fn attempts_kept_in(self, later: QuoteDatabaseView) -> bool {
        forall|hash: [u8; 32]| #[trigger]
            self.melt_attempts.dom().contains(hash) ==> {
                &&& later.melt_attempts.dom().contains(hash)
                &&& later.melt_attempts[hash].quote_id == self.melt_attempts[hash].quote_id
                &&& later.melt_attempts[hash].unit == self.melt_attempts[hash].unit
                &&& self.melt_attempts[hash].submission_rejected
                    ==> later.melt_attempts[hash].submission_rejected
            }
    }
}

impl QuoteTables {
    /// What the tables say.
    pub open spec fn view(&self) -> QuoteDatabaseView {
        QuoteDatabaseView {
            mint_quotes: self.mint_quotes@,
            mint_payment_ids: self.mint_payment_ids@,
            melt_quotes: self.melt_quotes@,
            melt_payment_ids: self.melt_payment_ids@,
            melt_owners: self.melt_owners@,
            melt_attempts: self.melt_attempts@,
            attempts_migrated: self.attempts_migrated,
        }
    }

    /// The tables of a file that holds nothing yet.
    pub fn empty(attempts_migrated: bool) -> (tables: QuoteTables)
        ensures
            tables@ == (QuoteDatabaseView { attempts_migrated, ..QuoteDatabaseView::empty() }),
    {
        QuoteTables {
            mint_quotes: Table::new(),
            mint_payment_ids: Table::new(),
            melt_quotes: Table::new(),
            melt_payment_ids: Table::new(),
            melt_owners: Table::new(),
            melt_attempts: Table::new(),
            attempts_migrated,
        }
    }
}

/// Why a rejection could not be recorded.
#[derive(Clone, Copy, Debug, PartialEq, Eq, Structural)]
pub enum RejectError {
    /// The payment was accepted: its remote index is known.
    RemoteIndexKnown,
    /// No attempt is recorded.
    AttemptNotFound,
}

/// The reason in words.
pub open spec fn reject_error_words(error: RejectError) -> Seq<char> {
    match error {
        RejectError::RemoteIndexKnown => "Cannot reject an attempt with a remote payment index"@,
        RejectError::AttemptNotFound => "Outgoing attempt not found"@,
    }
}

impl RejectError {
    /// The reason in words.
    pub fn message(&self) -> (words: String)
        ensures
            words@ == reject_error_words(*self),
    {
        match self {
            RejectError::RemoteIndexKnown => {
                "Cannot reject an attempt with a remote payment index".to_owned()
            },
            RejectError::AttemptNotFound => "Outgoing attempt not found".to_owned(),
        }
    }
}

/// Quote-to-payment mappings, open for use.
#[derive(Debug)]
pub struct QuoteDatabase {
    tables: QuoteTables,
}

fn copied(text: Option<&String>) -> (res: Option<String>)
    ensures
        match text {
            Some(text) => res == Some(*text),
            None => res is None,
        },
{
    match text {
        Some(text) => Some(text.clone()),
        None => None,
    }
}

/// The value stored under a key, where there is one.
pub open spec fn stored<V>(table: Map<[u8; 32], V>, hash: [u8; 32]) -> Option<V> {
    if table.dom().contains(hash) {
        Some(table[hash])
    } else {
        None
    }
}

impl QuoteDatabase {
    /// What the database holds.
    pub closed spec fn view(&self) -> QuoteDatabaseView {
        self.tables@
    }

    /// Opens a database. Quotes of an older one are recorded as attempts once:
    /// a quote that may have been paid never turns into a fresh attempt.
    pub fn new(tables: QuoteTables) -> (db: QuoteDatabase)
        ensures
            db@ == tables@.opened(),
            db@.attempts_migrated,
    {
        let mut tables = tables;
        let ghost before = tables@;
        if !tables.attempts_migrated {
            let ghost quotes = tables.melt_quotes;
            let ghost owners = tables.melt_owners@;
            let mut attempts: Table<MeltAttempt> = Table::new();
            std::mem::swap(&mut attempts, &mut tables.melt_attempts);
            let mut i: usize = 0;
            while i < tables.melt_quotes.len()
                invariant
                    i <= tables.melt_quotes.rows().len(),
                    tables.melt_quotes == quotes,
                    quotes@ == before.melt_quotes,
                    tables.melt_owners@ == owners,
                    owners == before.melt_owners,
                    forall|hash: [u8; 32]|
                        #![trigger attempts@.dom().contains(hash)]
                        attempts@.dom().contains(hash) == (before.melt_attempts.dom().contains(hash)
                            || among_first(quotes.rows(), i as int, hash)),
                    forall|hash: [u8; 32]|
                        #![trigger attempts@[hash]]
                        attempts@.dom().contains(hash) ==> attempts@[hash] == (if among_first(
                            quotes.rows(),
                            i as int,
                            hash,
                        ) {
                            if owners.dom().contains(hash) {
                                owners[hash]
                            } else {
                                ownerless_attempt()
                            }
                        } else {
                            before.melt_attempts[hash]
                        }),
                decreases tables.melt_quotes.rows().len() - i,
            {
                let hash = tables.melt_quotes.key_at(i);
                let attempt = match tables.melt_owners.get(&hash) {
                    Some(owner) => owner.clone(),
                    None => MeltAttempt {
                        quote_id: None,
                        unit: CurrencyUnit::Sat,
                        submission_rejected: false,
                    },
                };
                attempts.insert(&hash, attempt);
                proof {
                    assert forall|other: [u8; 32]| #[trigger]
                        among_first(quotes.rows(), i + 1, other) == (among_first(
                            quotes.rows(),
                            i as int,
                            other,
                        ) || other == hash) by {
                        if other == hash {
                            assert(quotes.rows()[i as int].0 == other);
                        }
                    }
                }
                i = i + 1;
            }
            std::mem::swap(&mut attempts, &mut tables.melt_attempts);
            tables.attempts_migrated = true;
            proof {
                assert forall|hash: [u8; 32]| #[trigger]
                    before.melt_quotes.dom().contains(hash) == among_first(
                        quotes.rows(),
                        quotes.rows().len() as int,
                        hash,
                    ) by {
                    quotes.lemma_rows(hash);
                }
                assert(tables.melt_attempts@ =~= before.migrated_attempts());
            }
        }
        QuoteDatabase { tables }
    }

    /// The tables, to be written out.
    pub fn tables(&self) -> (tables: &QuoteTables)
        ensures
            tables@ == self@,
    {
        &self.tables
    }

    /// Stores a created invoice.
    pub fn insert_mint_quote(&mut self, payment_hash: &[u8; 32], payment_request: &str)
        ensures
            final(self)@ == (QuoteDatabaseView {
                mint_quotes: old(self)@.mint_quotes.insert(*payment_hash, payment_request@),
                ..old(self)@
            }),
    {
        self.tables.mint_quotes.insert(payment_hash, payment_request.to_owned());
    }

    /// The invoice that was created for a payment hash.
    pub fn get_mint_quote(&self, payment_hash: &[u8; 32]) -> (res: Option<String>)
        ensures
            res.deep_view() == stored(self@.mint_quotes, *payment_hash),
    {
        copied(self.tables.mint_quotes.get(payment_hash))
    }

    /// Stores the node's payment index for a created invoice.
    pub fn insert_mint_payment_id(&mut self, payment_hash: &[u8; 32], payment_index: &str)
        ensures
            final(self)@ == (QuoteDatabaseView {
                mint_payment_ids: old(self)@.mint_payment_ids.insert(*payment_hash, payment_index@),
                ..old(self)@
            }),
    {
        self.tables.mint_payment_ids.insert(payment_hash, payment_index.to_owned());
    }

    /// Stores a created invoice together with its payment index.
    pub fn insert_mint_mappings(
        &mut self,
        payment_hash: &[u8; 32],
        payment_request: &str,
        payment_index: &str,
    )
        ensures
            final(self)@ == old(self)@.with_mint_mappings(
                *payment_hash,
                payment_request@,
                payment_index@,
            ),
    {
        self.tables.mint_quotes.insert(payment_hash, payment_request.to_owned());
        self.tables.mint_payment_ids.insert(payment_hash, payment_index.to_owned());
    }

    /// Stores a created invoice together with its payment index.
    pub fn insert_mint_quote_and_payment_id(
        &mut self,
        payment_hash: &[u8; 32],
        payment_request: &str,
        payment_index: &str,
    )
        ensures
            final(self)@ == old(self)@.with_mint_mappings(
                *payment_hash,
                payment_request@,
                payment_index@,
            ),
    {
        self.insert_mint_mappings(payment_hash, payment_request, payment_index);
    }

    /// The node's payment index for a created invoice.
    pub fn get_mint_payment_id(&self, payment_hash: &[u8; 32]) -> (res: Option<String>)
        ensures
            res.deep_view() == stored(self@.mint_payment_ids, *payment_hash),
    {
        copied(self.tables.mint_payment_ids.get(payment_hash))
    }

    /// Stores an outgoing invoice.
    pub fn insert_melt_quote(&mut self, payment_hash: &[u8; 32], payment_request: &str)
        ensures
            final(self)@ == old(self)@.with_melt_quote(*payment_hash, payment_request@),
    {
        self.tables.melt_quotes.insert(payment_hash, payment_request.to_owned());
    }

    /// The stored outgoing invoice for a payment hash.
    pub fn get_melt_quote(&self, payment_hash: &[u8; 32]) -> (res: Option<String>)
        ensures
            res.deep_view() == stored(self@.melt_quotes, *payment_hash),
    {
        copied(self.tables.melt_quotes.get(payment_hash))
    }

    /// Stores the node's payment index for an outgoing payment.
    pub fn insert_melt_payment_id(&mut self, payment_hash: &[u8; 32], payment_index: &str)
        ensures
            final(self)@ == old(self)@.with_melt_payment_id(*payment_hash, payment_index@),
    {
        self.tables.melt_payment_ids.insert(payment_hash, payment_index.to_owned());
    }

    /// The node's payment index for an outgoing payment.
    pub fn get_melt_payment_id(&self, payment_hash: &[u8; 32]) -> (res: Option<String>)
        ensures
            res.deep_view() == stored(self@.melt_payment_ids, *payment_hash),
    {
        copied(self.tables.melt_payment_ids.get(payment_hash))
    }

    /// Claims an invoice for submission and records its event owner. Returns
    /// false where it was claimed before: that attempt must be recovered and
    /// must not be submitted again.
    pub fn begin_melt_attempt(
        &mut self,
        payment_hash: &[u8; 32],
        quote_id: &str,
        unit: &CurrencyUnit,
    ) -> (claimed: bool)
        ensures
            claimed == !old(self)@.melt_attempts.dom().contains(*payment_hash),
            final(self)@ == old(self)@.claimed(*payment_hash, quote_id@, *unit),
    {
        if self.tables.melt_attempts.get(payment_hash).is_some() {
            return false;
        }
        let attempt = MeltAttempt {
            quote_id: Some(quote_id.to_owned()),
            unit: unit.clone(),
            submission_rejected: false,
        };
        self.tables.melt_attempts.insert(payment_hash, attempt);
        true
    }

    /// The recorded attempt, whether or not its index is known.
    pub fn get_melt_attempt(&self, payment_hash: &[u8; 32]) -> (res: Option<MeltAttempt>)
        ensures
            res.deep_view() == stored(self@.melt_attempts, *payment_hash),
    {
        match self.tables.melt_attempts.get(payment_hash) {
            Some(attempt) => Some(attempt.clone()),
            None => None,
        }
    }

    /// Records a definite submission rejection. The claim is not released and
    /// its owner does not change. An attempt whose remote index is known is
    /// never rejected.
    pub fn reject_melt_attempt(&mut self, payment_hash: &[u8; 32]) -> (res: Result<
        (),
        RejectError,
    >)
        ensures
            match res {
                Ok(()) => {
                    &&& old(self)@.can_reject(*payment_hash)
                    &&& final(self)@ == old(self)@.rejected(*payment_hash)
                },
                Err(error) => {
                    &&& !old(self)@.can_reject(*payment_hash)
                    &&& error == (if old(self)@.melt_payment_ids.dom().contains(*payment_hash) {
                        RejectError::RemoteIndexKnown
                    } else {
                        RejectError::AttemptNotFound
                    })
                    &&& final(self)@ == old(self)@
                },
            },
    {
        if self.tables.melt_payment_ids.get(payment_hash).is_some() {
            return Err(RejectError::RemoteIndexKnown);
        }
        let attempt = match self.tables.melt_attempts.get(payment_hash) {
            Some(attempt) => attempt.clone(),
            None => return Err(RejectError::AttemptNotFound),
        };
        let attempt = MeltAttempt { submission_rejected: true, ..attempt };
        self.tables.melt_attempts.insert(payment_hash, attempt);
        Ok(())
    }
}

} // verus!
