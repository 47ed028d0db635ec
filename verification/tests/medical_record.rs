use medical_records::medical_record::{
    Config, Error, Event, GenesisConfig, Pallet, Record, UserType,
};

const MAX_RECORD_CONTENT_LENGTH: u32 = 1;
const SIGNATURE_LENGTH: u32 = 3;
const MAX_RECORD_LENGTH: u32 = 3;

fn limits() -> Config {
    Config {
        max_content_length: MAX_RECORD_CONTENT_LENGTH,
        max_signature_length: SIGNATURE_LENGTH,
        max_records_per_account_role: MAX_RECORD_LENGTH,
    }
}

fn registry_with(accounts: Vec<(u64, UserType)>) -> Pallet {
    GenesisConfig { accounts }.build(limits())
}

fn everything(registry: &Pallet, accounts: &[u64]) -> Vec<Option<Vec<Record>>> {
    let mut all = Vec::new();
    for account in accounts {
        all.push(registry.records(*account, UserType::Patient));
        all.push(registry.records(*account, UserType::Doctor));
    }
    all
}

#[test]
fn user_can_create_account() {
    let patient_account_id: u64 = 1;
    let mut registry = registry_with(Vec::new());
    assert!(registry.create_account(patient_account_id, UserType::Patient).is_ok());

    let account_created = registry.records(patient_account_id, UserType::Patient).is_some();
    assert!(account_created, "failed to create an account");

    let before = everything(&registry, &[1]);
    assert_eq!(
        registry.create_account(patient_account_id, UserType::Patient),
        Err(Error::AccountAlreadyExist)
    );
    assert_eq!(everything(&registry, &[1]), before);
}

#[test]
fn patient_can_add_record() {
    let patient_account_id: u64 = 1;
    let mut registry = registry_with(vec![(patient_account_id, UserType::Patient)]);
    let max_record_len = MAX_RECORD_LENGTH as usize;
    for _ in 0..max_record_len {
        assert!(registry.patient_adds_record(patient_account_id, Vec::new()).is_ok());
    }

    let records = registry
        .records(patient_account_id, UserType::Patient)
        .expect("The record should exist");
    assert_eq!(records.len(), max_record_len);
    assert_eq!(records.into_iter().filter(|r| !r.is_verified()).count(), max_record_len);

    let before = everything(&registry, &[1]);
    assert_eq!(
        registry.patient_adds_record(patient_account_id, Vec::new()),
        Err(Error::ExceedsMaxRecordLength)
    );
    assert_eq!(everything(&registry, &[1]), before);
}

#[test]
fn doctor_can_add_record_for_patient() {
    let patient_account_id: u64 = 1;
    let doctor_account_id: u64 = 2;
    let mut registry = registry_with(vec![
        (patient_account_id, UserType::Patient),
        (doctor_account_id, UserType::Doctor),
    ]);
    let max_record_len = MAX_RECORD_LENGTH as usize;
    for _ in 0..max_record_len {
        assert!(registry
            .doctor_adds_record(doctor_account_id, patient_account_id, Vec::new(), Vec::new())
            .is_ok());
    }

    let patient_records = registry
        .records(patient_account_id, UserType::Patient)
        .expect("the record should exist");
    assert_eq!(patient_records.len(), max_record_len);
    assert_eq!(patient_records.into_iter().filter(|r| r.is_verified()).count(), max_record_len);

    let before = everything(&registry, &[1, 2]);
    assert_eq!(
        registry.patient_adds_record(patient_account_id, Vec::new()),
        Err(Error::ExceedsMaxRecordLength)
    );
    assert_eq!(everything(&registry, &[1, 2]), before);
}

#[test]
fn doctor_can_transform_unverified_record() {
    let patient_account_id: u64 = 1;
    let doctor_account_id: u64 = 2;
    let mut registry = registry_with(vec![
        (patient_account_id, UserType::Patient),
        (doctor_account_id, UserType::Doctor),
    ]);
    let max_record_len = MAX_RECORD_LENGTH as usize;
    for _ in 0..max_record_len {
        assert!(registry.patient_adds_record(patient_account_id, Vec::new()).is_ok());
    }
    let record_id_to_verify = 1.min(max_record_len as u32 / 2);
    let signature: Vec<u8> = vec![];
    assert!(registry
        .doctor_verifies_record(
            doctor_account_id,
            patient_account_id,
            record_id_to_verify,
            signature.clone()
        )
        .is_ok());

    let verified_record = registry
        .get_record_by_id(patient_account_id, UserType::Patient, record_id_to_verify)
        .expect("Record should exist");

    assert!(verified_record.is_verified());

    let patient_records = registry
        .records(patient_account_id, UserType::Patient)
        .expect("records should exists");
    assert_eq!(
        patient_records.into_iter().filter(|r| !r.is_verified()).count(),
        max_record_len - 1
    );

    let before = everything(&registry, &[1, 2]);
    assert_eq!(
        registry.doctor_verifies_record(
            doctor_account_id,
            patient_account_id,
            record_id_to_verify,
            signature
        ),
        Err(Error::RecordAlreadyVerified)
    );
    assert_eq!(everything(&registry, &[1, 2]), before);
}

#[test]
fn create_account_reports_account_and_role() {
    let mut registry = Pallet::new(limits());
    assert_eq!(
        registry.create_account(7, UserType::Doctor),
        Ok(Event::AccountCreated(7, UserType::Doctor))
    );
    assert_eq!(registry.records(7, UserType::Doctor), Some(Vec::new()));
    assert_eq!(registry.records(7, UserType::Patient), None);
    assert!(registry.is_registered_as(7, UserType::Doctor));
    assert!(!registry.is_registered_as(7, UserType::Patient));
    assert_eq!(registry.limits(), limits());
}

#[test]
fn one_account_may_hold_both_roles() {
    let mut registry = Pallet::new(limits());
    assert!(registry.create_account(7, UserType::Doctor).is_ok());
    assert_eq!(
        registry.create_account(7, UserType::Patient),
        Ok(Event::AccountCreated(7, UserType::Patient))
    );
    assert_eq!(registry.create_account(7, UserType::Doctor), Err(Error::AccountAlreadyExist));
    assert!(registry.account_exists(7));
    assert!(!registry.account_exists(8));
}

#[test]
fn registering_twice_keeps_the_records() {
    let mut registry = registry_with(vec![(1, UserType::Patient)]);
    assert_eq!(registry.patient_adds_record(1, vec![5]), Ok(Event::PatientAddsRecord(1, 1)));
    let before = registry.records(1, UserType::Patient);
    assert_eq!(registry.create_account(1, UserType::Patient), Err(Error::AccountAlreadyExist));
    assert_eq!(registry.records(1, UserType::Patient), before);
    assert_eq!(before, Some(vec![Record::UnverifiedRecord(1, 1, vec![5])]));
}

#[test]
fn record_ids_count_up_from_one() {
    let mut registry = registry_with(vec![(1, UserType::Patient), (2, UserType::Doctor)]);
    assert_eq!(registry.patient_adds_record(1, vec![]), Ok(Event::PatientAddsRecord(1, 1)));
    assert_eq!(
        registry.doctor_adds_record(2, 1, vec![9], vec![1, 2, 3]),
        Ok(Event::DoctorAddsRecordForPatient(1, 2, 2))
    );
    assert_eq!(registry.patient_adds_record(1, vec![4]), Ok(Event::PatientAddsRecord(1, 3)));
    let records = registry.records(1, UserType::Patient).expect("registered");
    let ids: Vec<u32> = records.iter().map(|r| r.get_id()).collect();
    assert_eq!(ids, vec![1, 2, 3]);
    assert_eq!(records[1], Record::VerifiedRecord(2, 1, 2, vec![9], vec![1, 2, 3]));
    assert_eq!(registry.records(2, UserType::Doctor), Some(Vec::new()));
}

#[test]
fn patient_must_be_registered_to_add() {
    let mut registry = registry_with(vec![(1, UserType::Doctor)]);
    assert_eq!(registry.patient_adds_record(1, vec![]), Err(Error::AccountNotFound));
    assert_eq!(registry.patient_adds_record(9, vec![]), Err(Error::AccountNotFound));
    assert_eq!(registry.records(1, UserType::Doctor), Some(Vec::new()));
}

#[test]
fn doctor_and_patient_must_be_registered_to_add() {
    let mut registry = registry_with(vec![(1, UserType::Patient), (2, UserType::Doctor)]);
    assert_eq!(registry.doctor_adds_record(1, 1, vec![], vec![]), Err(Error::AccountNotFound));
    assert_eq!(registry.doctor_adds_record(2, 2, vec![], vec![]), Err(Error::AccountNotFound));
    assert_eq!(registry.records(1, UserType::Patient), Some(Vec::new()));
}

#[test]
fn content_and_signature_longer_than_allowed_are_rejected() {
    let mut registry = registry_with(vec![(1, UserType::Patient), (2, UserType::Doctor)]);
    assert_eq!(registry.patient_adds_record(1, vec![1, 2]), Err(Error::InvalidArgument));
    assert_eq!(
        registry.doctor_adds_record(2, 1, vec![1, 2], vec![]),
        Err(Error::InvalidArgument)
    );
    assert_eq!(
        registry.doctor_adds_record(2, 1, vec![1], vec![1, 2, 3, 4]),
        Err(Error::InvalidArgument)
    );
    assert_eq!(registry.records(1, UserType::Patient), Some(Vec::new()));
    assert_eq!(registry.patient_adds_record(1, vec![1]), Ok(Event::PatientAddsRecord(1, 1)));
    assert_eq!(
        registry.doctor_verifies_record(2, 1, 1, vec![1, 2, 3, 4]),
        Err(Error::InvalidArgument)
    );
    assert_eq!(
        registry.doctor_verifies_record(2, 1, 1, vec![1, 2, 3]),
        Ok(Event::DoctorVerifiesRecordForPatient(1, 2, 1))
    );
}

#[test]
fn verify_rejects_ids_outside_the_slot() {
    let mut registry = registry_with(vec![(1, UserType::Patient), (2, UserType::Doctor)]);
    assert!(registry.patient_adds_record(1, vec![]).is_ok());
    let before = registry.records(1, UserType::Patient);
    assert_eq!(registry.doctor_verifies_record(2, 1, 0, vec![]), Err(Error::InvalidArgument));
    assert_eq!(registry.doctor_verifies_record(2, 1, 2, vec![]), Err(Error::InvalidArgument));
    assert_eq!(
        registry.doctor_verifies_record(2, 1, u32::MAX, vec![]),
        Err(Error::InvalidArgument)
    );
    assert_eq!(registry.records(1, UserType::Patient), before);
}

#[test]
fn verify_needs_a_registered_doctor_and_patient() {
    let mut registry = registry_with(vec![(1, UserType::Patient), (2, UserType::Doctor)]);
    assert!(registry.patient_adds_record(1, vec![]).is_ok());
    assert_eq!(registry.doctor_verifies_record(1, 1, 1, vec![]), Err(Error::AccountNotFound));
    assert_eq!(registry.doctor_verifies_record(3, 1, 1, vec![]), Err(Error::AccountNotFound));
    assert_eq!(registry.doctor_verifies_record(3, 1, 9, vec![]), Err(Error::AccountNotFound));
    assert_eq!(registry.doctor_verifies_record(2, 2, 1, vec![]), Err(Error::AccountNotFound));
    assert_eq!(
        registry.records(1, UserType::Patient),
        Some(vec![Record::UnverifiedRecord(1, 1, vec![])])
    );
}

#[test]
fn verify_changes_one_record_only() {
    let mut registry = registry_with(vec![(1, UserType::Patient), (2, UserType::Doctor)]);
    for byte in 0..3u8 {
        assert!(registry.patient_adds_record(1, vec![byte]).is_ok());
    }
    assert_eq!(
        registry.doctor_verifies_record(2, 1, 2, vec![8, 9]),
        Ok(Event::DoctorVerifiesRecordForPatient(1, 2, 2))
    );
    assert_eq!(
        registry.records(1, UserType::Patient),
        Some(vec![
            Record::UnverifiedRecord(1, 1, vec![0]),
            Record::VerifiedRecord(2, 1, 2, vec![1], vec![8, 9]),
            Record::UnverifiedRecord(3, 1, vec![2]),
        ])
    );
}

#[test]
fn transform_signs_an_unverified_record() {
    let signed =
        Record::transform_unverified_record(Record::UnverifiedRecord(4, 1, vec![7]), 2, vec![1]);
    assert_eq!(signed, Record::VerifiedRecord(4, 1, 2, vec![7], vec![1]));
    assert_eq!(signed.get_id(), 4);
    assert!(signed.is_verified());
}

#[test]
fn transform_leaves_a_verified_record_alone() {
    let held = Record::VerifiedRecord(4, 1, 2, vec![7], vec![1]);
    let again = Record::transform_unverified_record(held.clone(), 3, vec![9, 9]);
    assert_eq!(again, held);
}

#[test]
fn lookup_finds_records_by_id() {
    let mut registry = registry_with(vec![(1, UserType::Patient), (2, UserType::Doctor)]);
    assert!(registry.patient_adds_record(1, vec![3]).is_ok());
    assert!(registry.patient_adds_record(1, vec![4]).is_ok());
    assert_eq!(
        registry.get_record_by_id(1, UserType::Patient, 2),
        Some(Record::UnverifiedRecord(2, 1, vec![4]))
    );
    assert_eq!(
        registry.get_record_by_id(1, UserType::Patient, 1),
        Some(Record::UnverifiedRecord(1, 1, vec![3]))
    );
    assert_eq!(registry.get_record_by_id(1, UserType::Patient, 0), None);
    assert_eq!(registry.get_record_by_id(1, UserType::Patient, 3), None);
    assert_eq!(registry.get_record_by_id(1, UserType::Doctor, 1), None);
    assert_eq!(registry.get_record_by_id(2, UserType::Doctor, 1), None);
    assert_eq!(registry.get_record_by_id(5, UserType::Patient, 1), None);
}

#[test]
fn genesis_registers_each_listed_pair_once() {
    let registry = registry_with(vec![
        (1, UserType::Patient),
        (2, UserType::Doctor),
        (1, UserType::Patient),
    ]);
    assert_eq!(registry.records(1, UserType::Patient), Some(Vec::new()));
    assert_eq!(registry.records(2, UserType::Doctor), Some(Vec::new()));
    assert_eq!(registry.records(1, UserType::Doctor), None);
    assert_eq!(registry.records(2, UserType::Patient), None);
}

#[test]
fn default_genesis_lists_nobody() {
    let genesis = GenesisConfig::default();
    assert!(genesis.accounts.is_empty());
    let registry = genesis.build(limits());
    assert!(!registry.account_exists(1));
}

#[test]
fn a_registry_without_room_takes_no_record() {
    let mut registry = GenesisConfig { accounts: vec![(1, UserType::Patient)] }.build(Config {
        max_content_length: 1,
        max_signature_length: 1,
        max_records_per_account_role: 0,
    });
    assert_eq!(registry.patient_adds_record(1, vec![]), Err(Error::ExceedsMaxRecordLength));
    assert_eq!(registry.records(1, UserType::Patient), Some(Vec::new()));
}

#[test]
fn a_full_slot_is_reported_whatever_the_content() {
    let mut registry = registry_with(vec![(1, UserType::Patient), (2, UserType::Doctor)]);
    for _ in 0..MAX_RECORD_LENGTH {
        assert!(registry.patient_adds_record(1, vec![0]).is_ok());
    }
    let before = registry.records(1, UserType::Patient);
    assert_eq!(
        registry.patient_adds_record(1, vec![0, 0, 0]),
        Err(Error::ExceedsMaxRecordLength)
    );
    assert_eq!(
        registry.doctor_adds_record(2, 1, vec![0, 0, 0], vec![0, 0, 0, 0]),
        Err(Error::ExceedsMaxRecordLength)
    );
    assert_eq!(registry.records(1, UserType::Patient), before);
    assert_eq!(before.map(|records| records.len()), Some(3));
}

#[test]
fn a_signed_record_is_reported_whatever_the_signature() {
    let mut registry = registry_with(vec![(1, UserType::Patient), (2, UserType::Doctor)]);
    assert!(registry.patient_adds_record(1, vec![0]).is_ok());
    assert!(registry.doctor_verifies_record(2, 1, 1, vec![1]).is_ok());
    let before = registry.records(1, UserType::Patient);
    assert_eq!(
        registry.doctor_verifies_record(2, 1, 1, vec![1, 2, 3, 4]),
        Err(Error::RecordAlreadyVerified)
    );
    assert_eq!(registry.records(1, UserType::Patient), before);
}

#[test]
fn an_unregistered_doctor_is_reported_before_anything_else() {
    let mut registry = registry_with(vec![(1, UserType::Patient)]);
    assert!(registry.patient_adds_record(1, vec![0]).is_ok());
    assert_eq!(
        registry.doctor_verifies_record(2, 1, 7, vec![1, 2, 3, 4]),
        Err(Error::AccountNotFound)
    );
    assert_eq!(
        registry.doctor_adds_record(2, 1, vec![1, 2], vec![1, 2, 3, 4]),
        Err(Error::AccountNotFound)
    );
}
