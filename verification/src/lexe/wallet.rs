//! Opening the wallet: from a seed phrase to a seed, and in which order the
//! wallet is loaded, made, signed up and provisioned.

use vstd::prelude::*;
use vstd::string::*;

use crate::text::{join2, trim, trimmed};

verus! {

/// A BIP39 mnemonic.
#[verifier::external_type_specification]
#[verifier::external_body]
pub struct ExMnemonic(lexe::bip39::Mnemonic);

/// The seed of a wallet.
#[verifier::external_type_specification]
#[verifier::external_body]
pub struct ExRootSeed(lexe::types::auth::RootSeed);

/// The mnemonic that a phrase is read as, or the words in which the phrase is
/// refused.
pub uninterp spec fn mnemonic_read(phrase: Seq<char>) -> Result<
    lexe::bip39::Mnemonic,
    Seq<char>,
>;

/// The seed of a mnemonic, or the words in which the mnemonic is refused.
pub uninterp spec fn seed_of(mnemonic: lexe::bip39::Mnemonic) -> Result<
    lexe::types::auth::RootSeed,
    Seq<char>,
>;

/// Reads a mnemonic.
///
/// `Mnemonic::parse_normalized` of `bip39` is trusted to depend on the phrase
/// alone.
#[verifier::external_body]
fn read_mnemonic(phrase: &str) -> (res: Result<lexe::bip39::Mnemonic, String>)
    ensures
        match res {
            Ok(mnemonic) => mnemonic_read(phrase@) == Ok::<lexe::bip39::Mnemonic, Seq<char>>(
                mnemonic,
            ),
            Err(words) => mnemonic_read(phrase@) == Err::<lexe::bip39::Mnemonic, Seq<char>>(
                words@,
            ),
        },
{
    lexe::bip39::Mnemonic::parse_normalized(phrase).map_err(|error| error.to_string())
}

/// The seed of a mnemonic.
///
/// `RootSeed::from_mnemonic` of the Lexe SDK is trusted to depend on the
/// mnemonic alone, and to refuse one in no other words than those given here:
/// it takes mnemonics of exactly 32 bytes.
#[verifier::external_body]
fn derive_seed(mnemonic: lexe::bip39::Mnemonic) -> (res: Result<
    lexe::types::auth::RootSeed,
    String,
>)
    ensures
        match res {
            Ok(seed) => seed_of(mnemonic) == Ok::<lexe::types::auth::RootSeed, Seq<char>>(seed),
            Err(words) => {
                &&& seed_of(mnemonic) == Err::<lexe::types::auth::RootSeed, Seq<char>>(words@)
                &&& words@ == "Should contain exactly 32 bytes"@
            },
        },
{
    lexe::types::auth::RootSeed::from_mnemonic(mnemonic).map_err(|error| error.to_string())
}

/// What follows from reading a phrase: the seed of its mnemonic, or why there
/// is none.
pub open spec fn seed_from(read: Result<lexe::bip39::Mnemonic, Seq<char>>) -> Result<
    lexe::types::auth::RootSeed,
    Seq<char>,
> {
    match read {
        Err(words) => Err("invalid BIP39 mnemonic: "@ + words),
        Ok(mnemonic) => seed_of(mnemonic),
    }
}

/// The seed that a phrase gives, or why it gives none. White space around the
/// phrase does not count.
pub open spec fn seed_answer(raw: Seq<char>) -> Result<lexe::types::auth::RootSeed, Seq<char>> {
    seed_from(mnemonic_read(trimmed(raw)))
}

/// Reads the seed from a BIP39 seed phrase.
pub fn decode_seed_phrase(raw: &str) -> (res: Result<lexe::types::auth::RootSeed, String>)
    ensures
        match res {
            Ok(seed) => seed_answer(raw@) == Ok::<lexe::types::auth::RootSeed, Seq<char>>(seed),
            Err(words) => seed_answer(raw@) == Err::<lexe::types::auth::RootSeed, Seq<char>>(
                words@,
            ),
        },
{
    seed_or_refusal(read_mnemonic(trim(raw)))
}

/// The seed, from what reading the phrase gave.
pub fn seed_or_refusal(read: Result<lexe::bip39::Mnemonic, String>) -> (res: Result<
    lexe::types::auth::RootSeed,
    String,
>)
    ensures
        match (read, res) {
            (Ok(mnemonic), Ok(seed)) => seed_of(mnemonic) == Ok::<
                lexe::types::auth::RootSeed,
                Seq<char>,
            >(seed),
            (Ok(mnemonic), Err(words)) => {
                &&& seed_of(mnemonic) == Err::<lexe::types::auth::RootSeed, Seq<char>>(words@)
                &&& words@ == "Should contain exactly 32 bytes"@
            },
            (Err(refusal), Ok(_)) => false,
            (Err(refusal), Err(words)) => words@ == "invalid BIP39 mnemonic: "@ + refusal@,
        },
{
    match read {
        Ok(mnemonic) => derive_seed(mnemonic),
        Err(words) => Err(join2("invalid BIP39 mnemonic: ", words.as_str())),
    }
}

/// What came of a step of opening the wallet.
#[derive(Debug, PartialEq, Eq)]
pub enum WalletEvent<T> {
    /// The wallet was looked for on disk; whether there is one.
    Loaded(Result<bool, T>),
    /// A new wallet was made.
    Made(Result<(), T>),
    /// The node of a new wallet was signed up.
    SignedUp(Result<(), T>),
    /// The node was provisioned.
    Provisioned(Result<(), T>),
}

impl DeepView for WalletEvent<String> {
    type V = WalletEvent<Seq<char>>;

    open spec fn deep_view(&self) -> WalletEvent<Seq<char>> {
        match self {
            WalletEvent::Loaded(Ok(found)) => WalletEvent::Loaded(Ok(*found)),
            WalletEvent::Loaded(Err(words)) => WalletEvent::Loaded(Err(words@)),
            WalletEvent::Made(Ok(_)) => WalletEvent::Made(Ok(())),
            WalletEvent::Made(Err(words)) => WalletEvent::Made(Err(words@)),
            WalletEvent::SignedUp(Ok(_)) => WalletEvent::SignedUp(Ok(())),
            WalletEvent::SignedUp(Err(words)) => WalletEvent::SignedUp(Err(words@)),
            WalletEvent::Provisioned(Ok(_)) => WalletEvent::Provisioned(Ok(())),
            WalletEvent::Provisioned(Err(words)) => WalletEvent::Provisioned(Err(words@)),
        }
    }
}

/// What is done next to open the wallet.
#[derive(Clone, Copy, Debug, PartialEq, Eq, Structural)]
pub enum WalletStep {
    /// Make a new wallet.
    Make,
    /// Sign up the node of the new wallet.
    SignUp,
    /// Provision the node.
    Provision,
    /// Use the wallet.
    Ready,
}

/// What follows a step of opening the wallet, or why it is not opened. A node
/// is signed up only for a new wallet, and only with a seed.
pub open spec fn wallet_answer(with_seed: bool, event: WalletEvent<Seq<char>>) -> Result<
    WalletStep,
    Seq<char>,
> {
    match event {
        WalletEvent::Loaded(Ok(true)) => Ok(WalletStep::Provision),
        WalletEvent::Loaded(Ok(false)) => Ok(WalletStep::Make),
        WalletEvent::Made(Ok(_)) => if with_seed {
            Ok(WalletStep::SignUp)
        } else {
            Ok(WalletStep::Provision)
        },
        WalletEvent::SignedUp(Ok(_)) => Ok(WalletStep::Provision),
        WalletEvent::Provisioned(Ok(_)) => Ok(WalletStep::Ready),
        WalletEvent::Loaded(Err(words)) => Err("failed to load Lexe wallet: "@ + words),
        WalletEvent::Made(Err(words)) => Err("failed to initialize Lexe wallet: "@ + words),
        WalletEvent::SignedUp(Err(words)) => Err("Lexe signup failed: "@ + words),
        WalletEvent::Provisioned(Err(words)) => Err("failed to provision Lexe node: "@ + words),
    }
}

/// Decides what follows a step of opening the wallet. Opening begins with
/// looking for the wallet on disk; a failure at any step ends it.
pub fn wallet_step(with_seed: bool, event: WalletEvent<String>) -> (res: Result<
    WalletStep,
    String,
>)
    ensures
        match res {
            Ok(step) => wallet_answer(with_seed, event.deep_view()) == Ok::<
                WalletStep,
                Seq<char>,
            >(step),
            Err(words) => wallet_answer(with_seed, event.deep_view()) == Err::<
                WalletStep,
                Seq<char>,
            >(words@),
        },
{
    match event {
        WalletEvent::Loaded(Ok(found)) => if found {
            Ok(WalletStep::Provision)
        } else {
            Ok(WalletStep::Make)
        },
        WalletEvent::Made(Ok(_)) => if with_seed {
            Ok(WalletStep::SignUp)
        } else {
            Ok(WalletStep::Provision)
        },
        WalletEvent::SignedUp(Ok(_)) => Ok(WalletStep::Provision),
        WalletEvent::Provisioned(Ok(_)) => Ok(WalletStep::Ready),
        WalletEvent::Loaded(Err(words)) => Err(
            join2("failed to load Lexe wallet: ", words.as_str()),
        ),
        WalletEvent::Made(Err(words)) => Err(
            join2("failed to initialize Lexe wallet: ", words.as_str()),
        ),
        WalletEvent::SignedUp(Err(words)) => Err(join2("Lexe signup failed: ", words.as_str())),
        WalletEvent::Provisioned(Err(words)) => Err(
            join2("failed to provision Lexe node: ", words.as_str()),
        ),
    }
}

/// Whether what came is of the step that was asked for.
pub open spec fn answers_step(step: WalletStep, event: WalletEvent<Seq<char>>) -> bool {
    match step {
        WalletStep::Make => event is Made,
        WalletStep::SignUp => event is SignedUp,
        WalletStep::Provision => event is Provisioned,
        WalletStep::Ready => false,
    }
}

/// Whether a run of events makes a wallet ready, from a step on: each event is
/// of the step that was asked for, and no step is left at the end.
pub open spec fn makes_ready(
    with_seed: bool,
    step: WalletStep,
    run: Seq<WalletEvent<Seq<char>>>,
) -> bool
    decreases run.len(),
{
    if run.len() == 0 {
        step == WalletStep::Ready
    } else {
        &&& answers_step(step, run[0])
        &&& wallet_answer(with_seed, run[0]) matches Ok(next)
        &&& makes_ready(with_seed, next, run.skip(1))
    }
}

/// Whether a run of events opens a wallet: it begins with looking for the
/// wallet, and what follows makes the wallet ready.
pub open spec fn opens_wallet(with_seed: bool, run: Seq<WalletEvent<Seq<char>>>) -> bool {
    &&& run.len() > 0
    &&& run[0] is Loaded
    &&& wallet_answer(with_seed, run[0]) matches Ok(next)
    &&& makes_ready(with_seed, next, run.skip(1))
}

/// The events that follow a step when everything succeeds.
pub open spec fn rest_from(with_seed: bool, step: WalletStep) -> Seq<WalletEvent<Seq<char>>> {
    let provisioned = seq![WalletEvent::Provisioned(Ok(()))];
    let signed_up = if with_seed {
        seq![WalletEvent::SignedUp(Ok(()))] + provisioned
    } else {
        provisioned
    };
    match step {
        WalletStep::Make => seq![WalletEvent::Made(Ok(()))] + signed_up,
        WalletStep::SignUp => seq![WalletEvent::SignedUp(Ok(()))] + provisioned,
        WalletStep::Provision => provisioned,
        WalletStep::Ready => Seq::empty(),
    }
}

proof fn lemma_rest(with_seed: bool, step: WalletStep, run: Seq<WalletEvent<Seq<char>>>)
    ensures
        makes_ready(with_seed, step, run) <==> run == rest_from(with_seed, step),
    decreases run.len(),
{
    let rest = rest_from(with_seed, step);
    if run.len() > 0 {
        match wallet_answer(with_seed, run[0]) {
            Ok(next) => {
                lemma_rest(with_seed, next, run.skip(1));
                if answers_step(step, run[0]) {
                    let after = rest_from(with_seed, next);
                    match run[0] {
                        WalletEvent::Made(Ok(done)) => assert(done == ()),
                        WalletEvent::SignedUp(Ok(done)) => assert(done == ()),
                        WalletEvent::Provisioned(Ok(done)) => assert(done == ()),
                        _ => {},
                    }
                    assert(rest[0] == run[0]);
                    assert(rest =~= seq![run[0]] + after);
                    assert(run =~= seq![run[0]] + run.skip(1));
                    if run == rest {
                        assert(run.skip(1) =~= after);
                    }
                } else if run == rest {
                    assert(rest[0] == run[0]);
                }
            },
            Err(_) => {
                if run == rest {
                    assert(rest[0] == run[0]);
                }
            },
        }
    } else if run == rest {
        assert(rest.len() == 0);
    } else if step == WalletStep::Ready {
        assert(run =~= rest);
    }
}

/// A wallet is opened in one of two ways. One that is on disk is provisioned.
/// Otherwise one is made, with a seed its node is signed up, and then it is
/// provisioned. Every step succeeded: a failure, that of signing up among
/// them, opens no wallet.
pub proof fn wallets_are_opened_in_order(with_seed: bool, run: Seq<WalletEvent<Seq<char>>>)
    ensures
        opens_wallet(with_seed, run) <==> {
            ||| run == seq![WalletEvent::<Seq<char>>::Loaded(Ok(true))] + rest_from(
                with_seed,
                WalletStep::Provision,
            )
            ||| run == seq![WalletEvent::<Seq<char>>::Loaded(Ok(false))] + rest_from(
                with_seed,
                WalletStep::Make,
            )
        },
{
    if run.len() > 0 {
        assert(run =~= seq![run[0]] + run.skip(1));
        lemma_rest(with_seed, WalletStep::Provision, run.skip(1));
        lemma_rest(with_seed, WalletStep::Make, run.skip(1));
        assert forall|rest: Seq<WalletEvent<Seq<char>>>, first: WalletEvent<Seq<char>>|
            run == #[trigger] (seq![first] + rest) implies run[0] == first && run.skip(1)
            == rest by {
            assert((seq![first] + rest).skip(1) =~= rest);
            assert((seq![first] + rest)[0] == first);
        }
    }
}

/// A phrase gives the same seed with and without white space around it.
pub proof fn space_around_phrases_does_not_count(raw: Seq<char>)
    ensures
        seed_answer(trimmed(raw)) == seed_answer(raw),
{
    crate::text::trimming_is_idempotent(raw);
}

} // verus!
