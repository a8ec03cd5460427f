use beacon_network::observed_attesters::Error;
use beacon_network::observed_attesters::ObservedAttesters;
use beacon_network::observed_attesters::MAX_RETAINED_EPOCHS;
use beacon_network::observed_attesters::VALIDATOR_REGISTRY_LIMIT;

const NUM_ATTESTERS: usize = 23;

fn single_epoch_test(store: &mut ObservedAttesters, epoch: u64) {
    let attesters = [0, 1, 2, 3, 5, 6, 7, 18, 22];

    for &i in &attesters {
        assert_eq!(
            store.has_attested(epoch, i),
            Ok(false),
            "should indicate an unknown attestation is unknown"
        );
        assert_eq!(
            store.observe_attesting_validator(epoch, i),
            Ok(false),
            "should observe new attestation"
        );
    }

    for &i in &attesters {
        assert_eq!(
            store.has_attested(epoch, i),
            Ok(true),
            "should indicate a known attestation is known"
        );
        assert_eq!(
            store.observe_attesting_validator(epoch, i),
            Ok(true),
            "should acknowledge an existing attestation"
        );
    }
}

#[test]
fn single_epoch() {
    let mut store = ObservedAttesters::default();

    single_epoch_test(&mut store, 0);

    assert_eq!(store.bitfields.len(), 1, "should have a single bitfield stored");
    assert_eq!(
        store.bitfields[0].len(),
        NUM_ATTESTERS,
        "bitfield should have NUM_ATTESTERS_LEN"
    );
}

#[test]
fn mulitple_contiguous_epochs() {
    let mut store = ObservedAttesters::default();
    let max_cap = MAX_RETAINED_EPOCHS;

    for i in 0..max_cap * 3 {
        let epoch = i;

        single_epoch_test(&mut store, epoch);

        /*
         * Ensure that the number of sets is correct.
         */

        if i < max_cap {
            assert_eq!(
                store.bitfields.len(),
                i as usize + 1,
                "should have a {} bitfields stored",
                i + 1
            );
        } else {
            assert_eq!(
                store.bitfields.len(),
                max_cap as usize,
                "should have max_capacity bitfields stored"
            );
        }

        /*
         * Ensure that each set contains the correct number of elements.
         */

        for set in &store.bitfields[..] {
            assert_eq!(set.len(), NUM_ATTESTERS, "each store should have NUM_ELEMENTS elements")
        }

        /*
         *  Ensure that all the sets have the expected slots
         */

        let mut store_epochs = store.bitfields.iter().map(|set| set.epoch).collect::<Vec<_>>();

        assert!(
            store_epochs.len() <= max_cap as usize,
            "store size should not exceed max"
        );

        store_epochs.sort_unstable();

        let expected_epochs = (i.saturating_sub(max_cap - 1)..=i).collect::<Vec<_>>();

        assert_eq!(expected_epochs, store_epochs, "should have expected slots");
    }
}

#[test]
fn mulitple_non_contiguous_epochs() {
    let mut store = ObservedAttesters::default();
    let max_cap = MAX_RETAINED_EPOCHS;

    let to_skip = vec![1_u64, 3, 4, 5];
    let epochs = (0..max_cap * 3).filter(|i| !to_skip.contains(i)).collect::<Vec<_>>();

    for &i in &epochs {
        if to_skip.contains(&i) {
            continue;
        }

        let epoch = i;

        single_epoch_test(&mut store, epoch);

        /*
         * Ensure that each set contains the correct number of elements.
         */

        for set in &store.bitfields[..] {
            assert_eq!(
                set.len(),
                NUM_ATTESTERS,
                "each bitfield should have NUM_ATTESTERS length"
            )
        }

        /*
         *  Ensure that all the sets have the expected slots
         */

        let mut store_epochs = store.bitfields.iter().map(|b| b.epoch).collect::<Vec<_>>();

        store_epochs.sort_unstable();

        assert!(
            store_epochs.len() <= max_cap as usize,
            "store size should not exceed max"
        );

        let lowest = store.lowest_permissible_epoch;
        let highest = epoch;
        let expected_epochs = (lowest..=highest).filter(|i| !to_skip.contains(i)).collect::<Vec<_>>();

        assert_eq!(expected_epochs, &store_epochs[..], "should have expected epochs");
    }
}

#[test]
fn stale_epoch_is_rejected() {
    let mut store = ObservedAttesters::default();

    assert_eq!(store.observe_attesting_validator(3, 7), Ok(false));
    // observing epoch 5 advances the floor to 4 and drops epoch 3
    assert_eq!(store.observe_attesting_validator(5, 7), Ok(false));
    assert_eq!(store.lowest_permissible_epoch, 4);
    assert_eq!(
        store.observe_attesting_validator(3, 7),
        Err(Error::EpochTooLow { epoch: 3, lowest_permissible_epoch: 4 })
    );
    assert_eq!(
        store.has_attested(3, 7),
        Err(Error::EpochTooLow { epoch: 3, lowest_permissible_epoch: 4 })
    );
}

#[test]
fn validator_index_above_limit_is_rejected() {
    let mut store = ObservedAttesters::default();
    let too_high = (VALIDATOR_REGISTRY_LIMIT + 1) as usize;

    assert_eq!(
        store.observe_attesting_validator(0, too_high),
        Err(Error::ValidatorIndexTooHigh(too_high))
    );
    assert_eq!(store.has_attested(0, too_high), Err(Error::ValidatorIndexTooHigh(too_high)));
    // the limit itself is still accepted
    assert_eq!(store.has_attested(0, VALIDATOR_REGISTRY_LIMIT as usize), Ok(false));
}

#[test]
fn prune_advances_the_window() {
    let mut store = ObservedAttesters::default();

    assert_eq!(store.observe_attesting_validator(0, 1), Ok(false));
    assert_eq!(store.observe_attesting_validator(1, 1), Ok(false));

    store.prune(6);

    assert_eq!(store.lowest_permissible_epoch, 5);
    assert_eq!(store.bitfields.len(), 0, "both epochs fall below the new floor");
    assert_eq!(
        store.has_attested(1, 1),
        Err(Error::EpochTooLow { epoch: 1, lowest_permissible_epoch: 5 })
    );

    // the floor never moves backwards
    store.prune(0);
    assert_eq!(store.lowest_permissible_epoch, 5);
}

#[test]
fn non_contiguous_window_follows_highest_epoch() {
    let mut store = ObservedAttesters::default();
    let steps: [(u64, Vec<u64>); 4] =
        [(0, vec![0]), (2, vec![2]), (6, vec![6]), (7, vec![6, 7])];

    for (epoch, expected) in steps {
        assert_eq!(store.observe_attesting_validator(epoch, 0), Ok(false));
        let mut epochs = store.bitfields.iter().map(|b| b.epoch).collect::<Vec<_>>();
        epochs.sort_unstable();
        assert_eq!(epochs, expected, "retained epochs after observing {}", epoch);
    }
}
