use cdk_payment_processors::lexe::wallet::{
    decode_seed_phrase, seed_or_refusal, wallet_step, WalletEvent, WalletStep,
};

const PHRASE: &str = "music mystery deliver gospel profit blanket leaf tell \
    photo segment letter degree nice plastic duty canyon \
    mammal marble bicycle economy unique find cream dune";
const SEED: &str = "91f24ce8326abc2e9faef6a3b866021ce9574c11210e86b0f457a31ed8ad4cba";
const SHORT_PHRASE: &str = "abandon abandon abandon abandon abandon abandon abandon abandon \
    abandon abandon abandon about";

fn refusal(phrase: &str) -> String {
    match decode_seed_phrase(phrase) {
        Ok(_) => panic!("the phrase must be refused"),
        Err(words) => words,
    }
}

#[test]
fn seed_phrases_give_their_seed_with_and_without_space_around_them() {
    for phrase in [PHRASE.to_string(), format!(" \n{PHRASE}\t ")] {
        match decode_seed_phrase(&phrase) {
            Ok(seed) => assert_eq!(seed.to_hex(), SEED),
            Err(words) => panic!("{words}"),
        }
    }
}

#[test]
fn phrases_that_are_no_mnemonics_are_refused_in_the_words_of_their_reader() {
    let unknown = PHRASE.replace("music", "musicc");
    assert_eq!(
        refusal(&unknown),
        "invalid BIP39 mnemonic: mnemonic contains an unknown word (word 0)"
    );
    let misspelt = PHRASE.replace("dune", "duty");
    assert_eq!(
        refusal(&misspelt),
        "invalid BIP39 mnemonic: the mnemonic has an invalid checksum"
    );
    for phrase in ["", "  ", "music mystery"] {
        assert!(refusal(phrase)
            .starts_with("invalid BIP39 mnemonic: mnemonic has an invalid word count: "));
    }
}

#[test]
fn mnemonics_of_other_lengths_give_no_seed() {
    assert_eq!(refusal(SHORT_PHRASE), "Should contain exactly 32 bytes");
    let mnemonic = lexe::bip39::Mnemonic::parse_normalized(PHRASE).unwrap();
    match seed_or_refusal(Ok(mnemonic)) {
        Ok(seed) => assert_eq!(seed.to_hex(), SEED),
        Err(words) => panic!("{words}"),
    }
    match seed_or_refusal(Err("why".to_string())) {
        Ok(_) => panic!("what was not read gives no seed"),
        Err(words) => assert_eq!(words, "invalid BIP39 mnemonic: why"),
    }
}

#[test]
fn wallets_on_disk_are_provisioned() {
    for with_seed in [false, true] {
        assert_eq!(
            wallet_step(with_seed, WalletEvent::Loaded(Ok(true))),
            Ok(WalletStep::Provision)
        );
        assert_eq!(
            wallet_step(with_seed, WalletEvent::Provisioned(Ok(()))),
            Ok(WalletStep::Ready)
        );
    }
}

#[test]
fn only_new_wallets_with_a_seed_are_signed_up() {
    for with_seed in [false, true] {
        assert_eq!(
            wallet_step(with_seed, WalletEvent::Loaded(Ok(false))),
            Ok(WalletStep::Make)
        );
    }
    assert_eq!(
        wallet_step(true, WalletEvent::Made(Ok(()))),
        Ok(WalletStep::SignUp)
    );
    assert_eq!(
        wallet_step(true, WalletEvent::SignedUp(Ok(()))),
        Ok(WalletStep::Provision)
    );
    assert_eq!(
        wallet_step(false, WalletEvent::Made(Ok(()))),
        Ok(WalletStep::Provision)
    );
}

#[test]
fn a_failure_at_any_step_opens_no_wallet() {
    let why = || Err("why".to_string());
    for with_seed in [false, true] {
        assert_eq!(
            wallet_step(with_seed, WalletEvent::Loaded(Err("why".to_string()))),
            Err("failed to load Lexe wallet: why".to_string())
        );
        assert_eq!(
            wallet_step(with_seed, WalletEvent::Made(why())),
            Err("failed to initialize Lexe wallet: why".to_string())
        );
        assert_eq!(
            wallet_step(with_seed, WalletEvent::SignedUp(why())),
            Err("Lexe signup failed: why".to_string())
        );
        assert_eq!(
            wallet_step(with_seed, WalletEvent::Provisioned(why())),
            Err("failed to provision Lexe node: why".to_string())
        );
    }
}
