use poh_chain::extensions::Extensions;
use poh_chain::{
    AppendedData, InitialSeed, PoHConfig, PoHError, PoHUsage, TickEntryType,
};
use sha2::{Digest, Sha256};

fn sha(bytes: &[u8]) -> Vec<u8> {
    Sha256::digest(bytes).to_vec()
}

fn config(
    tick_interval: u64,
    max_entries: Option<usize>,
    allow_data: bool,
    allow_empty: bool,
    entry_type: TickEntryType,
) -> PoHConfig {
    PoHConfig::new(32, tick_interval, max_entries, allow_data, allow_empty, entry_type).unwrap()
}

#[test]
fn run() {
    let config = config(1000, Some(1000), true, true, TickEntryType::Data);
    let seed = InitialSeed([0; 64]);
    let mut poh = PoHUsage::new(config, seed, Some(vec![1, 2, 3]), vec![]).unwrap();
    println!("{:?}", poh.get_state());
    println!("Initializing PoH...");
    poh.init().unwrap();
}

#[test]
fn genesis_hashes_the_seed() {
    let cfg = config(5, None, true, true, TickEntryType::Data);
    let seed = InitialSeed([0; 64]);
    let poh = PoHUsage::new(cfg, seed, None, vec![]).unwrap();
    let state = poh.get_state();
    assert_eq!(state.len(), 1);
    assert_eq!(state[0].hash, sha(&[0u8; 64]));
    assert!(state[0].appended_data.is_none());
    assert_eq!(poh.get_id(), 0);
    assert_eq!(poh.get_config().tick_interval, 5);
}

#[test]
fn genesis_binds_initial_data() {
    let cfg = config(5, None, true, true, TickEntryType::Data);
    let seed = InitialSeed([7; 64]);
    let poh = PoHUsage::new(cfg, seed, Some(vec![1, 2, 3]), vec![]).unwrap();
    let state = poh.get_state();
    let mut input = [7u8; 64].to_vec();
    input.extend_from_slice(&[1, 2, 3]);
    assert_eq!(state[0].hash, sha(&input));
    assert_eq!(
        state[0].appended_data.as_ref().unwrap().get_data(),
        &[1, 2, 3]
    );
}

#[test]
fn genesis_rejects_data_when_disallowed() {
    let cfg = config(5, None, false, true, TickEntryType::Empty);
    let seed = InitialSeed([0; 64]);
    let r = PoHUsage::new(cfg, seed, Some(vec![1]), vec![]);
    assert_eq!(r.unwrap_err(), PoHError::ConfigViolation);
}

#[test]
fn config_rejects_zero_interval() {
    let r = PoHConfig::new(32, 0, None, true, true, TickEntryType::Data);
    assert_eq!(r.unwrap_err(), PoHError::ConfigViolation);
}

#[test]
fn config_rejects_contradictory_flags() {
    let r = PoHConfig::new(32, 5, None, false, false, TickEntryType::Data);
    assert_eq!(r.unwrap_err(), PoHError::ConfigViolation);
}

#[test]
fn engine_rejects_contradictory_config() {
    let cfg = PoHConfig {
        output_size: 32,
        tick_interval: 0,
        max_entries: None,
        allow_data_entries: true,
        allow_empty_entries: true,
        tick_entry_type: TickEntryType::Data,
    };
    let r = PoHUsage::new(cfg, InitialSeed([0; 64]), None, vec![]);
    assert_eq!(r.unwrap_err(), PoHError::ConfigViolation);
}

#[test]
fn tick_applies_iterated_hashing() {
    let cfg = config(9, None, true, true, TickEntryType::Data);
    let seed = InitialSeed([3; 64]);
    let mut poh = PoHUsage::new(cfg, seed, None, vec![]).unwrap();
    let entry = poh.tick(None).unwrap();
    let mut expected = sha(&[3u8; 64]);
    for _ in 0..9 {
        expected = sha(&expected);
    }
    assert_eq!(entry.hash, expected);
    assert_eq!(poh.get_state().len(), 2);
    assert_eq!(poh.get_state()[1].hash, expected);
}

#[test]
fn tick_binds_data_outside_the_digest() {
    let cfg = config(4, None, true, true, TickEntryType::Data);
    let seed = InitialSeed([0; 64]);
    let mut with_data = PoHUsage::new(cfg, seed, None, vec![]).unwrap();
    let mut without_data = PoHUsage::new(cfg, seed, None, vec![]).unwrap();
    let e1 = with_data.tick(Some(vec![9, 9, 9])).unwrap();
    let e2 = without_data.tick(None).unwrap();
    assert_eq!(e1.hash, e2.hash);
    assert_eq!(e1.appended_data.unwrap().get_data(), &[9, 9, 9]);
    assert!(e2.appended_data.is_none());
}

#[test]
fn capacity_enforcement() {
    let cfg = config(3, Some(2), true, true, TickEntryType::Data);
    let seed = InitialSeed([0; 64]);
    let mut poh = PoHUsage::new(cfg, seed, None, vec![]).unwrap();
    assert!(poh.tick(None).is_ok());
    assert!(poh.tick(None).is_ok());
    let r = poh.tick(None);
    assert_eq!(r.unwrap_err(), PoHError::CapacityExceeded);
    assert_eq!(poh.get_state().len(), 3);
}

#[test]
fn capacity_zero_seals_at_genesis() {
    let cfg = config(3, Some(0), true, true, TickEntryType::Data);
    let mut poh = PoHUsage::new(cfg, InitialSeed([0; 64]), None, vec![]).unwrap();
    let r = poh.tick(None);
    assert_eq!(r.unwrap_err(), PoHError::CapacityExceeded);
    assert_eq!(poh.get_state().len(), 1);
}

#[test]
fn policy_enforcement() {
    let cfg = config(3, None, false, true, TickEntryType::Empty);
    let mut poh = PoHUsage::new(cfg, InitialSeed([0; 64]), None, vec![]).unwrap();
    let r = poh.tick(Some(vec![1, 2]));
    assert_eq!(r.unwrap_err(), PoHError::EntryPolicyViolation);
    assert_eq!(poh.get_state().len(), 1);
}

#[test]
fn policy_enforcement_empty_disallowed() {
    let cfg = config(3, None, true, false, TickEntryType::Data);
    let mut poh = PoHUsage::new(cfg, InitialSeed([0; 64]), None, vec![]).unwrap();
    let r = poh.tick(None);
    assert_eq!(r.unwrap_err(), PoHError::EntryPolicyViolation);
    assert_eq!(poh.get_state().len(), 1);
}

#[test]
fn shape_validation() {
    let cfg = config(3, None, true, true, TickEntryType::FixedHash(32));
    let mut poh = PoHUsage::new(cfg, InitialSeed([0; 64]), None, vec![]).unwrap();
    let r = poh.tick(Some(vec![0; 31]));
    assert_eq!(r.unwrap_err(), PoHError::EntryShapeMismatch);
    let r = poh.tick(Some(vec![0; 33]));
    assert_eq!(r.unwrap_err(), PoHError::EntryShapeMismatch);
    assert_eq!(poh.get_state().len(), 1);
    let r = poh.tick(Some(vec![0; 32]));
    assert!(r.is_ok());
    assert_eq!(poh.get_state().len(), 2);
}

#[test]
fn shape_validation_event_hash() {
    let cfg = config(3, None, true, true, TickEntryType::EventHash28);
    let mut poh = PoHUsage::new(cfg, InitialSeed([0; 64]), None, vec![]).unwrap();
    assert_eq!(
        poh.tick(Some(vec![0; 32])).unwrap_err(),
        PoHError::EntryShapeMismatch
    );
    assert!(poh.tick(Some(vec![0; 28])).is_ok());
}

#[test]
fn determinism() {
    let cfg = config(7, Some(5), true, true, TickEntryType::Data);
    let seed = InitialSeed([42; 64]);
    let inputs: [Option<Vec<u8>>; 3] = [None, Some(vec![1, 2]), None];
    let mut a = PoHUsage::new(cfg, seed, Some(vec![5]), vec![]).unwrap();
    let mut b = PoHUsage::new(cfg, seed, Some(vec![5]), vec![]).unwrap();
    for input in inputs.iter() {
        a.tick(input.clone()).unwrap();
        b.tick(input.clone()).unwrap();
    }
    assert_eq!(a.get_state(), b.get_state());
}

#[test]
fn chain_dependency() {
    // A different iteration count changes every entry after genesis.
    let seed = InitialSeed([0; 64]);
    let mut a = PoHUsage::new(config(5, None, true, true, TickEntryType::Data), seed, None, vec![])
        .unwrap();
    let mut b = PoHUsage::new(config(6, None, true, true, TickEntryType::Data), seed, None, vec![])
        .unwrap();
    for _ in 0..3 {
        a.tick(None).unwrap();
        b.tick(None).unwrap();
    }
    assert_eq!(a.get_state()[0].hash, b.get_state()[0].hash);
    for i in 1..4 {
        assert_ne!(a.get_state()[i].hash, b.get_state()[i].hash);
    }
    // A different seed changes every entry from genesis on.
    let mut c = PoHUsage::new(
        config(5, None, true, true, TickEntryType::Data),
        InitialSeed([1; 64]),
        None,
        vec![],
    )
    .unwrap();
    for _ in 0..3 {
        c.tick(None).unwrap();
    }
    for i in 0..4 {
        assert_ne!(a.get_state()[i].hash, c.get_state()[i].hash);
    }
}

#[test]
fn init_runs_max_entries_rounds() {
    let cfg = config(2, Some(4), true, true, TickEntryType::Data);
    let seed = InitialSeed([9; 64]);
    let mut poh = PoHUsage::new(cfg, seed, None, vec![]).unwrap();
    poh.init().unwrap();
    assert_eq!(poh.get_state().len(), 5);
    let mut expected = sha(&[9u8; 64]);
    for i in 1..5 {
        expected = sha(&sha(&expected));
        assert_eq!(poh.get_state()[i].hash, expected);
        assert!(poh.get_state()[i].appended_data.is_none());
    }
}

#[test]
fn concrete_scenario() {
    let cfg = config(1000, Some(2), true, true, TickEntryType::Data);
    let seed = InitialSeed([0; 64]);
    let mut poh = PoHUsage::new(cfg, seed, None, vec![]).unwrap();
    assert_eq!(poh.get_state()[0].hash, sha(&[0u8; 64]));
    let entry1 = poh.tick(None).unwrap();
    let mut expected = sha(&[0u8; 64]);
    for _ in 0..1000 {
        expected = sha(&expected);
    }
    assert_eq!(entry1.hash, expected);
    assert!(poh.tick(None).is_ok());
    assert_eq!(poh.tick(None).unwrap_err(), PoHError::CapacityExceeded);
    assert_eq!(poh.get_state().len(), 3);
}

#[test]
fn hex_rendering() {
    let cfg = config(2, None, true, true, TickEntryType::Data);
    let poh = PoHUsage::new(cfg, InitialSeed([0; 64]), None, vec![]).unwrap();
    let entry = &poh.get_state()[0];
    let mut expected = String::new();
    for b in entry.hash.iter() {
        expected.push_str(&format!("{:02x}", b));
    }
    assert_eq!(entry.to_hex_string(), expected);
    assert_eq!(entry.to_hex_string().len(), 64);
}

#[test]
fn appended_data_round_trip() {
    let d = AppendedData::new(vec![10, 20, 30]);
    assert_eq!(d.get_data(), &[10, 20, 30]);
}

#[test]
fn extensions_are_metadata_only() {
    let cfg = config(2, None, true, true, TickEntryType::Data);
    let seed = InitialSeed([0; 64]);
    let tagged = PoHUsage::new(
        cfg,
        seed,
        None,
        vec![Extensions::TickHasher, Extensions::Milestone],
    )
    .unwrap();
    let plain = PoHUsage::new(cfg, seed, None, vec![]).unwrap();
    assert_eq!(tagged.get_state()[0].hash, plain.get_state()[0].hash);
}

#[test]
fn timestamps_are_sane() {
    let t = poh_chain::timestamps::get_current_timestamp();
    assert!(t > 1_600_000_000);
    let s = poh_chain::timestamps::get_current_timestamp_rfc3339();
    assert!(s.contains('T'));
}

#[test]
fn init_respects_entry_policy() {
    let cfg = config(3, Some(4), true, false, TickEntryType::Data);
    let mut poh = PoHUsage::new(cfg, InitialSeed([0; 64]), None, vec![]).unwrap();
    let r = poh.init();
    assert_eq!(r.unwrap_err(), PoHError::EntryPolicyViolation);
    assert_eq!(poh.get_state().len(), 1);
}

#[test]
fn init_respects_capacity() {
    let cfg = config(3, Some(3), true, true, TickEntryType::Data);
    let mut poh = PoHUsage::new(cfg, InitialSeed([0; 64]), None, vec![]).unwrap();
    poh.tick(None).unwrap();
    let r = poh.init();
    assert_eq!(r.unwrap_err(), PoHError::CapacityExceeded);
    assert_eq!(poh.get_state().len(), 4);
    let r = poh.init();
    assert_eq!(r.unwrap_err(), PoHError::CapacityExceeded);
    assert_eq!(poh.get_state().len(), 4);
}

#[test]
fn init_with_zero_capacity_appends_nothing() {
    let cfg = config(3, Some(0), true, true, TickEntryType::Data);
    let mut poh = PoHUsage::new(cfg, InitialSeed([0; 64]), None, vec![]).unwrap();
    assert_eq!(poh.init(), Ok(()));
    assert_eq!(poh.get_state().len(), 1);
}
