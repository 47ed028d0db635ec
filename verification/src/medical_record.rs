//! The record registry: for each account and role, the records kept under
//! it, in the order in which they were added.
//!
//! An account is registered under a role exactly when the registry holds a
//! slot for the pair, empty or not. A record is numbered by its place in its
//! slot, counting from one, and keeps that number for good. A patient's own
//! record starts out unverified; a registered doctor turns it into a verified
//! one, once, by signing it.

use crate::bytes::copy_bytes;
use crate::record_sharing;
use crate::record_sharing::GrantLedger;
use std::collections::HashMap;
use vstd::prelude::*;

verus! {

broadcast use vstd::std_specs::hash::group_hash_axioms;

/// The limits that a registry is made with.
#[derive(Clone, Copy, Debug, PartialEq, Eq)]
pub struct Config {
    /// How many bytes the content of a record may hold.
    pub max_content_length: u32,
    /// How many bytes a signature may hold.
    pub max_signature_length: u32,
    /// How many records one slot may hold.
    pub max_records_per_account_role: u32,
}

/// The role under which an account is registered.
#[derive(Clone, Copy, Debug, PartialEq, Eq)]
pub enum UserType {
    Patient,
    Doctor,
}

/// A medical record.
#[derive(Debug, PartialEq, Eq)]
pub enum Record {
    /// Id, patient, doctor, content, and the doctor's signature.
    VerifiedRecord(u32, u64, u64, Vec<u8>, Vec<u8>),
    /// Id, patient and content.
    UnverifiedRecord(u32, u64, Vec<u8>),
}

/// A record as a mathematical value.
pub enum RecordView {
    VerifiedRecord(u32, u64, u64, Seq<u8>, Seq<u8>),
    UnverifiedRecord(u32, u64, Seq<u8>),
}

impl RecordView {
    pub open spec fn id(self) -> u32 {
        match self {
            RecordView::VerifiedRecord(id, _, _, _, _) => id,
            RecordView::UnverifiedRecord(id, _, _) => id,
        }
    }

    pub open spec fn patient(self) -> u64 {
        match self {
            RecordView::VerifiedRecord(_, patient, _, _, _) => patient,
            RecordView::UnverifiedRecord(_, patient, _) => patient,
        }
    }

    pub open spec fn content(self) -> Seq<u8> {
        match self {
            RecordView::VerifiedRecord(_, _, _, content, _) => content,
            RecordView::UnverifiedRecord(_, _, content) => content,
        }
    }

    pub open spec fn is_verified(self) -> bool {
        self is VerifiedRecord
    }

    /// The record signed by `doctor`: a verified record stays as it is, an
    /// unverified one keeps its id, patient and content.
    pub open spec fn signed_by(self, doctor: u64, signature: Seq<u8>) -> RecordView {
        match self {
            RecordView::VerifiedRecord(_, _, _, _, _) => self,
            RecordView::UnverifiedRecord(id, patient, content) => RecordView::VerifiedRecord(
                id,
                patient,
                doctor,
                content,
                signature,
            ),
        }
    }

    /// The record fits the limits of `config`.
    pub open spec fn within(self, config: Config) -> bool {
        &&& self.content().len() <= config.max_content_length
        &&& match self {
            RecordView::VerifiedRecord(_, _, _, _, signature) => signature.len()
                <= config.max_signature_length,
            RecordView::UnverifiedRecord(_, _, _) => true,
        }
    }
}

impl View for Record {
    type V = RecordView;

    open spec fn view(&self) -> RecordView {
        match self {
            Record::VerifiedRecord(id, patient, doctor, content, signature) => {
                RecordView::VerifiedRecord(*id, *patient, *doctor, content@, signature@)
            },
            Record::UnverifiedRecord(id, patient, content) => RecordView::UnverifiedRecord(
                *id,
                *patient,
                content@,
            ),
        }
    }
}

impl Clone for Record {
    fn clone(&self) -> (copy: Self)
        ensures
            copy@ == self@,
    {
        match self {
            Record::VerifiedRecord(id, patient, doctor, content, signature) => {
                Record::VerifiedRecord(
                    *id,
                    *patient,
                    *doctor,
                    copy_bytes(content),
                    copy_bytes(signature),
                )
            },
            Record::UnverifiedRecord(id, patient, content) => Record::UnverifiedRecord(
                *id,
                *patient,
                copy_bytes(content),
            ),
        }
    }
}

impl Record {
    /// Signs an unverified record in the name of `doctor_id`; a record that
    /// is verified already comes back unchanged.
    pub fn transform_unverified_record(record: Record, doctor_id: u64, signature: Vec<u8>) -> (signed:
        Record)
        ensures
            signed@ == record@.signed_by(doctor_id, signature@),
    {
        match record {
            Record::VerifiedRecord(id, patient, doctor, content, held) => Record::VerifiedRecord(
                id,
                patient,
                doctor,
                content,
                held,
            ),
            Record::UnverifiedRecord(record_id, patient_id, record_content) => {
                Record::VerifiedRecord(record_id, patient_id, doctor_id, record_content, signature)
            },
        }
    }

    pub fn get_id(&self) -> (id: u32)
        ensures
            id == self@.id(),
    {
        match self {
            Record::UnverifiedRecord(id, _, _) => *id,
            Record::VerifiedRecord(id, _, _, _, _) => *id,
        }
    }

    pub fn is_verified(&self) -> (verified: bool)
        ensures
            verified == self@.is_verified(),
    {
        match self {
            Record::UnverifiedRecord(_, _, _) => false,
            Record::VerifiedRecord(_, _, _, _, _) => true,
        }
    }
}

/// What a successful call tells the outside world.
#[derive(Clone, Copy, Debug, PartialEq, Eq)]
pub enum Event {
    /// Account and role.
    AccountCreated(u64, UserType),
    /// Patient and the id of the new record.
    PatientAddsRecord(u64, u32),
    /// Patient, doctor and the id of the new record.
    DoctorAddsRecordForPatient(u64, u64, u32),
    /// Patient, doctor and the id of the record that was signed.
    DoctorVerifiesRecordForPatient(u64, u64, u32),
}

/// Why the registry rejected a call.
#[derive(Clone, Copy, Debug, PartialEq, Eq)]
pub enum Error {
    /// An account that the call needs is not registered under the role.
    AccountNotFound,
    /// The account is registered under the role already.
    AccountAlreadyExist,
    /// A record id that names no record of the slot, or content or a
    /// signature longer than the registry allows.
    InvalidArgument,
    /// The slot is full.
    ExceedsMaxRecordLength,
    /// The record has been signed before.
    RecordAlreadyVerified,
    /// The owner holds no record of that id.
    NonExistentRecord,
}

/// Why a share was rejected: by the registry, before the ledger was
/// touched, or by the ledger.
#[derive(Clone, Copy, Debug, PartialEq, Eq)]
pub enum DispatchError {
    MedicalRecord(Error),
    RecordSharing(record_sharing::Error),
}

/// The slot of the registry, if any, that holds the records of `account`
/// under each role.
pub type Slots = Map<(u64, UserType), Seq<RecordView>>;

/// The records of one slot fit `config`, belong to `account`, and are
/// numbered 1, 2, 3 and so on in the order in which they stand.
pub open spec fn slot_wf(config: Config, account: u64, records: Seq<RecordView>) -> bool {
    &&& records.len() <= config.max_records_per_account_role
    &&& forall|i: int|
        0 <= i < records.len() ==> {
            &&& (#[trigger] records[i]).id() == i + 1
            &&& records[i].patient() == account
            &&& records[i].within(config)
        }
}

/// Every slot of the registry is well formed.
pub open spec fn slots_wf(config: Config, slots: Slots) -> bool {
    forall|slot: (u64, UserType)| #[trigger]
        slots.contains_key(slot) ==> slot_wf(config, slot.0, slots[slot])
}

/// Registering `who` under `user_type`.
pub open spec fn create_account_model(slots: Slots, who: u64, user_type: UserType) -> (
    Slots,
    Result<Event, Error>,
) {
    if slots.contains_key((who, user_type)) {
        (slots, Err(Error::AccountAlreadyExist))
    } else {
        (
            slots.insert((who, user_type), Seq::empty()),
            Ok(Event::AccountCreated(who, user_type)),
        )
    }
}

/// A patient adding an unverified record of their own.
pub open spec fn patient_adds_record_model(
    config: Config,
    slots: Slots,
    patient: u64,
    content: Seq<u8>,
) -> (Slots, Result<Event, Error>) {
    let slot = (patient, UserType::Patient);
    if !slots.contains_key(slot) {
        (slots, Err(Error::AccountNotFound))
    } else if slots[slot].len() >= config.max_records_per_account_role {
        (slots, Err(Error::ExceedsMaxRecordLength))
    } else if content.len() > config.max_content_length {
        (slots, Err(Error::InvalidArgument))
    } else {
        let id = (slots[slot].len() + 1) as u32;
        (
            slots.insert(slot, slots[slot].push(RecordView::UnverifiedRecord(id, patient, content))),
            Ok(Event::PatientAddsRecord(patient, id)),
        )
    }
}

/// A doctor adding a record, signed from the start, for a patient.
pub open spec fn doctor_adds_record_model(
    config: Config,
    slots: Slots,
    doctor: u64,
    patient: u64,
    content: Seq<u8>,
    signature: Seq<u8>,
) -> (Slots, Result<Event, Error>) {
    let slot = (patient, UserType::Patient);
    if !slots.contains_key((doctor, UserType::Doctor)) {
        (slots, Err(Error::AccountNotFound))
    } else if !slots.contains_key(slot) {
        (slots, Err(Error::AccountNotFound))
    } else if slots[slot].len() >= config.max_records_per_account_role {
        (slots, Err(Error::ExceedsMaxRecordLength))
    } else if content.len() > config.max_content_length || signature.len()
        > config.max_signature_length {
        (slots, Err(Error::InvalidArgument))
    } else {
        let id = (slots[slot].len() + 1) as u32;
        (
            slots.insert(
                slot,
                slots[slot].push(RecordView::VerifiedRecord(id, patient, doctor, content, signature)),
            ),
            Ok(Event::DoctorAddsRecordForPatient(patient, doctor, id)),
        )
    }
}

/// A doctor signing the record `record_id` of a patient.
pub open spec fn doctor_verifies_record_model(
    config: Config,
    slots: Slots,
    doctor: u64,
    patient: u64,
    record_id: u32,
    signature: Seq<u8>,
) -> (Slots, Result<Event, Error>) {
    let slot = (patient, UserType::Patient);
    if !slots.contains_key((doctor, UserType::Doctor)) {
        (slots, Err(Error::AccountNotFound))
    } else if !slots.contains_key(slot) {
        (slots, Err(Error::AccountNotFound))
    } else if record_id < 1 || record_id > slots[slot].len() {
        (slots, Err(Error::InvalidArgument))
    } else if slots[slot][record_id - 1].is_verified() {
        (slots, Err(Error::RecordAlreadyVerified))
    } else if signature.len() > config.max_signature_length {
        (slots, Err(Error::InvalidArgument))
    } else {
        (
            slots.insert(
                slot,
                slots[slot].update(
                    record_id - 1,
                    slots[slot][record_id - 1].signed_by(doctor, signature),
                ),
            ),
            Ok(Event::DoctorVerifiesRecordForPatient(patient, doctor, record_id)),
        )
    }
}

/// The record `record_id` of the slot, where the slot exists and holds one.
pub open spec fn get_record_by_id_model(
    slots: Slots,
    account: u64,
    user_type: UserType,
    record_id: u32,
) -> Option<RecordView> {
    let slot = (account, user_type);
    if slots.contains_key(slot) && 1 <= record_id <= slots[slot].len() {
        Some(slots[slot][record_id - 1])
    } else {
        None
    }
}

/// The account is registered under at least one role.
pub open spec fn account_exists_model(slots: Slots, account: u64) -> bool {
    slots.contains_key((account, UserType::Patient)) || slots.contains_key(
        (account, UserType::Doctor),
    )
}

/// The owner `sender` granting `recipient` the key to record `record_id`:
/// the ledger afterwards, and the answer. The registry is only read.
pub open spec fn share_record_with_model(
    slots: Slots,
    max_grants: u32,
    ledger: Map<(u64, u64), Seq<(Seq<u8>, u32)>>,
    sender: u64,
    recipient: u64,
    encrypted_key: Seq<u8>,
    record_id: u32,
) -> (Map<(u64, u64), Seq<(Seq<u8>, u32)>>, Result<record_sharing::Event, DispatchError>) {
    if !(account_exists_model(slots, sender) && account_exists_model(slots, recipient)) {
        (ledger, Err(DispatchError::MedicalRecord(Error::AccountNotFound)))
    } else if get_record_by_id_model(slots, sender, UserType::Patient, record_id) is None {
        (ledger, Err(DispatchError::MedicalRecord(Error::NonExistentRecord)))
    } else {
        let (after, answer) = record_sharing::share_record_model(
            max_grants,
            ledger,
            sender,
            recipient,
            encrypted_key,
            record_id,
        );
        (
            after,
            match answer {
                Ok(event) => Ok(event),
                Err(error) => Err(DispatchError::RecordSharing(error)),
            },
        )
    }
}

/// The registry that a list of accounts gives rise to: one empty slot for
/// each pair that the list names, once or more often.
pub open spec fn genesis_model(accounts: Seq<(u64, UserType)>) -> Slots {
    Map::new(
        |slot: (u64, UserType)| exists|i: int| 0 <= i < accounts.len() && accounts[i] == slot,
        |slot: (u64, UserType)| Seq::empty(),
    )
}

/// The records of one stored slot as mathematical values.
pub open spec fn records_view(stored: Seq<Record>) -> Seq<RecordView> {
    stored.map_values(|record: Record| record@)
}

/// The record registry.
pub struct Pallet {
    config: Config,
    patients: HashMap<u64, Vec<Record>>,
    doctors: HashMap<u64, Vec<Record>>,
}

impl View for Pallet {
    type V = Map<(u64, UserType), Seq<RecordView>>;

    /// The registry as a map from (account, role) to the records kept.
    closed spec fn view(&self) -> Slots {
        Map::new(
            |slot: (u64, UserType)|
                match slot.1 {
                    UserType::Patient => self.patients@.contains_key(slot.0),
                    UserType::Doctor => self.doctors@.contains_key(slot.0),
                },
            |slot: (u64, UserType)|
                match slot.1 {
                    UserType::Patient => records_view(self.patients@[slot.0]@),
                    UserType::Doctor => records_view(self.doctors@[slot.0]@),
                },
        )
    }
}

impl Pallet {
    /// The limits that the registry was made with.
    pub closed spec fn config(&self) -> Config {
        self.config
    }

    /// Every slot is within the limits and numbered without gaps.
    pub open spec fn wf(&self) -> bool {
        slots_wf(self.config(), self@)
    }

    /// A registry without accounts.
    pub fn new(config: Config) -> (registry: Pallet)
        ensures
            registry.wf(),
            registry.config() == config,
            registry@ == Map::<(u64, UserType), Seq<RecordView>>::empty(),
    {
        Pallet { config, patients: HashMap::new(), doctors: HashMap::new() }
    }

    /// The limits that the registry was made with.
    pub fn limits(&self) -> (config: Config)
        ensures
            config == self.config(),
    {
        self.config
    }

    /// Gives the pair an empty slot, whether or not it had one.
    fn put_empty_slot(&mut self, who: u64, user_type: UserType)
        ensures
            final(self).config() == old(self).config(),
            final(self)@ == old(self)@.insert((who, user_type), Seq::empty()),
    {
        match user_type {
            UserType::Patient => {
                self.patients.insert(who, Vec::new());
            },
            UserType::Doctor => {
                self.doctors.insert(who, Vec::new());
            },
        }
        proof {
            assert(records_view(Seq::<Record>::empty()) =~= Seq::<RecordView>::empty());
        }
    }

    /// Adds `record` at the end of the patient's slot, which must exist.
    fn push_record(&mut self, patient_id: u64, record: Record)
        requires
            old(self)@.contains_key((patient_id, UserType::Patient)),
        ensures
            final(self).config() == old(self).config(),
            final(self)@ == old(self)@.insert(
                (patient_id, UserType::Patient),
                old(self)@[(patient_id, UserType::Patient)].push(record@),
            ),
    {
        let mut records = self.patients.remove(&patient_id).unwrap();
        let ghost before = records@;
        records.push(record);
        self.patients.insert(patient_id, records);
        proof {
            assert(records_view(records@) =~= records_view(before).push(record@));
            assert(self@ =~= old(self)@.insert(
                (patient_id, UserType::Patient),
                old(self)@[(patient_id, UserType::Patient)].push(record@),
            ));
        }
    }

    /// How many records the patient's slot holds, if there is such a slot.
    fn patient_record_count(&self, patient_id: u64) -> (count: Option<usize>)
        ensures
            match count {
                Some(n) => self@.contains_key((patient_id, UserType::Patient)) && n
                    == self@[(patient_id, UserType::Patient)].len(),
                None => !self@.contains_key((patient_id, UserType::Patient)),
            },
    {
        match self.patients.get(&patient_id) {
            Some(records) => Some(records.len()),
            None => None,
        }
    }

    /// Whether `account` is registered under `user_type`.
    pub fn is_registered_as(&self, account: u64, user_type: UserType) -> (registered: bool)
        ensures
            registered == self@.contains_key((account, user_type)),
    {
        match user_type {
            UserType::Patient => self.patients.contains_key(&account),
            UserType::Doctor => self.doctors.contains_key(&account),
        }
    }

    /// Whether `account` is registered under any role.
    pub fn account_exists(&self, account: u64) -> (registered: bool)
        ensures
            registered == account_exists_model(self@, account),
    {
        self.patients.contains_key(&account) || self.doctors.contains_key(&account)
    }

    /// Registers `who` under `user_type` with an empty slot, unless the pair
    /// is registered already: then the call fails with `AccountAlreadyExist`
    /// and the registry stays as it is.
    pub fn create_account(&mut self, who: u64, user_type: UserType) -> (result: Result<
        Event,
        Error,
    >)
        requires
            old(self).wf(),
        ensures
            final(self).wf(),
            final(self).config() == old(self).config(),
            (final(self)@, result) == create_account_model(old(self)@, who, user_type),
    {
        if self.is_registered_as(who, user_type) {
            return Err(Error::AccountAlreadyExist);
        }
        self.put_empty_slot(who, user_type);
        proof {
            lemma_create_account_keeps_wf(old(self).config(), old(self)@, who, user_type);
        }
        Ok(Event::AccountCreated(who, user_type))
    }

    /// Adds an unverified record with the given content to the patient's
    /// own slot, numbered one more than the slot held before. The call fails
    /// with `AccountNotFound` where the patient is not registered, with
    /// `ExceedsMaxRecordLength` where the slot is full, and with
    /// `InvalidArgument` where the content is longer than the registry
    /// allows, tested in this order; a failed call changes nothing.
    pub fn patient_adds_record(&mut self, patient_id: u64, record_content: Vec<u8>) -> (result:
        Result<Event, Error>)
        requires
            old(self).wf(),
        ensures
            final(self).wf(),
            final(self).config() == old(self).config(),
            (final(self)@, result) == patient_adds_record_model(
                old(self).config(),
                old(self)@,
                patient_id,
                record_content@,
            ),
    {
        let held: usize = match self.patient_record_count(patient_id) {
            Some(n) => n,
            None => {
                return Err(Error::AccountNotFound);
            },
        };
        if held >= self.config.max_records_per_account_role as usize {
            return Err(Error::ExceedsMaxRecordLength);
        }
        if record_content.len() > self.config.max_content_length as usize {
            return Err(Error::InvalidArgument);
        }
        let new_record_id: u32 = held as u32 + 1;
        proof {
            lemma_patient_adds_record_keeps_wf(
                old(self).config(),
                old(self)@,
                patient_id,
                record_content@,
            );
        }
        self.push_record(patient_id, Record::UnverifiedRecord(new_record_id, patient_id, record_content));
        Ok(Event::PatientAddsRecord(patient_id, new_record_id))
    }

    /// Adds a record that `doctor_id` has signed to the patient's slot,
    /// numbered one more than the slot held before. The call fails with
    /// `AccountNotFound` where the doctor or the patient is not registered
    /// as such, with `ExceedsMaxRecordLength` where the slot is full, and
    /// with `InvalidArgument` where the content or the signature is longer
    /// than the registry allows, tested in this order; a failed call changes
    /// nothing.
    pub fn doctor_adds_record(
        &mut self,
        doctor_id: u64,
        patient_id: u64,
        record_content: Vec<u8>,
        signature: Vec<u8>,
    ) -> (result: Result<Event, Error>)
        requires
            old(self).wf(),
        ensures
            final(self).wf(),
            final(self).config() == old(self).config(),
            (final(self)@, result) == doctor_adds_record_model(
                old(self).config(),
                old(self)@,
                doctor_id,
                patient_id,
                record_content@,
                signature@,
            ),
    {
        if !self.is_registered_as(doctor_id, UserType::Doctor) {
            return Err(Error::AccountNotFound);
        }
        let held: usize = match self.patient_record_count(patient_id) {
            Some(n) => n,
            None => {
                return Err(Error::AccountNotFound);
            },
        };
        if held >= self.config.max_records_per_account_role as usize {
            return Err(Error::ExceedsMaxRecordLength);
        }
        if record_content.len() > self.config.max_content_length as usize || signature.len()
            > self.config.max_signature_length as usize {
            return Err(Error::InvalidArgument);
        }
        let new_record_id: u32 = held as u32 + 1;
        proof {
            lemma_doctor_adds_record_keeps_wf(
                old(self).config(),
                old(self)@,
                doctor_id,
                patient_id,
                record_content@,
                signature@,
            );
        }
        self.push_record(
            patient_id,
            Record::VerifiedRecord(new_record_id, patient_id, doctor_id, record_content, signature),
        );
        Ok(Event::DoctorAddsRecordForPatient(patient_id, doctor_id, new_record_id))
    }

    /// Turns the unverified record `record_id` of the patient into a
    /// verified one that carries `doctor_id` and `signature`; id, patient and
    /// content stay. The call fails with `AccountNotFound` where the doctor
    /// or the patient is not registered as such, with `InvalidArgument`
    /// where the slot holds no record of that id, with
    /// `RecordAlreadyVerified` where the record is signed already, and with
    /// `InvalidArgument` where the signature is longer than the registry
    /// allows, tested in this order and before anything is written.
    pub fn doctor_verifies_record(
        &mut self,
        doctor_id: u64,
        patient_id: u64,
        record_id: u32,
        signature: Vec<u8>,
    ) -> (result: Result<Event, Error>)
        requires
            old(self).wf(),
        ensures
            final(self).wf(),
            final(self).config() == old(self).config(),
            (final(self)@, result) == doctor_verifies_record_model(
                old(self).config(),
                old(self)@,
                doctor_id,
                patient_id,
                record_id,
                signature@,
            ),
    {
        if !self.is_registered_as(doctor_id, UserType::Doctor) {
            return Err(Error::AccountNotFound);
        }
        match self.patients.get(&patient_id) {
            None => {
                return Err(Error::AccountNotFound);
            },
            Some(records) => {
                if record_id < 1 || record_id as usize > records.len() {
                    return Err(Error::InvalidArgument);
                }
                if records[(record_id - 1) as usize].is_verified() {
                    return Err(Error::RecordAlreadyVerified);
                }
                if signature.len() > self.config.max_signature_length as usize {
                    return Err(Error::InvalidArgument);
                }
            },
        }
        let index: usize = (record_id - 1) as usize;
        let mut records = self.patients.remove(&patient_id).unwrap();
        let ghost before = records@;
        let pending = records[index].clone();
        let verified = Record::transform_unverified_record(pending, doctor_id, signature);
        let ghost signed = verified@;
        records.set(index, verified);
        self.patients.insert(patient_id, records);
        proof {
            assert(records_view(records@) =~= records_view(before).update(index as int, signed));
            assert(self@ =~= old(self)@.insert(
                (patient_id, UserType::Patient),
                old(self)@[(patient_id, UserType::Patient)].update(index as int, signed),
            ));
            lemma_doctor_verifies_record_keeps_wf(
                old(self).config(),
                old(self)@,
                doctor_id,
                patient_id,
                record_id,
                signature@,
            );
        }
        Ok(Event::DoctorVerifiesRecordForPatient(patient_id, doctor_id, record_id))
    }

    /// The record of the slot that carries `record_id`, found by its id.
    pub fn get_record_by_id(&self, account_id: u64, user_type: UserType, record_id: u32) -> (found:
        Option<Record>)
        requires
            self.wf(),
        ensures
            match found {
                Some(record) => Some(record@) == get_record_by_id_model(
                    self@,
                    account_id,
                    user_type,
                    record_id,
                ),
                None => get_record_by_id_model(self@, account_id, user_type, record_id) is None,
            },
    {
        let slot = match user_type {
            UserType::Patient => self.patients.get(&account_id),
            UserType::Doctor => self.doctors.get(&account_id),
        };
        match slot {
            None => None,
            Some(records) => {
                assert(self@.contains_key((account_id, user_type)));
                if records.len() < record_id as usize {
                    return None;
                }
                let mut i: usize = 0;
                while i < records.len()
                    invariant
                        i <= records.len(),
                        record_id <= records.len(),
                        self@.contains_key((account_id, user_type)),
                        self@[(account_id, user_type)] == records_view(records@),
                        slot_wf(self.config(), account_id, records_view(records@)),
                        forall|j: int| 0 <= j < i ==> records_view(records@)[j].id() != record_id,
                    decreases records.len() - i,
                {
                    if records[i].get_id() == record_id {
                        assert(records_view(records@)[i as int] == records@[i as int]@);
                        return Some(records[i].clone());
                    }
                    i += 1;
                }
                None
            },
        }
    }

    /// A copy of the records of the slot, oldest first, where the account
    /// is registered under the role.
    pub fn records(&self, account: u64, user_type: UserType) -> (held: Option<Vec<Record>>)
        ensures
            match held {
                Some(records) => self@.contains_key((account, user_type)) && records_view(records@)
                    == self@[(account, user_type)],
                None => !self@.contains_key((account, user_type)),
            },
    {
        let slot = match user_type {
            UserType::Patient => self.patients.get(&account),
            UserType::Doctor => self.doctors.get(&account),
        };
        match slot {
            None => None,
            Some(records) => {
                let mut copy: Vec<Record> = Vec::new();
                let mut i: usize = 0;
                while i < records.len()
                    invariant
                        i <= records.len(),
                        copy@.len() == i,
                        forall|j: int| 0 <= j < i ==> (#[trigger] copy@[j])@ == records@[j]@,
                    decreases records.len() - i,
                {
                    copy.push(records[i].clone());
                    i += 1;
                }
                Some(copy)
            },
        }
    }

    /// Grants `recipient_id` the key to the record `record_id` of
    /// `sender_id`. Both accounts must be registered under some role and the
    /// sender must hold the record as a patient; only then is the ledger
    /// asked to take the grant, and only the ledger is ever written.
    pub fn share_record_with<L: GrantLedger>(
        &self,
        ledger: &mut L,
        sender_id: u64,
        recipient_id: u64,
        encrypted_key: Vec<u8>,
        record_id: u32,
    ) -> (result: Result<record_sharing::Event, DispatchError>)
        requires
            self.wf(),
            old(ledger).sound(),
        ensures
            final(ledger).sound(),
            final(ledger).max_grants() == old(ledger).max_grants(),
            (final(ledger).held(), result) == share_record_with_model(
                self@,
                old(ledger).max_grants(),
                old(ledger).held(),
                sender_id,
                recipient_id,
                encrypted_key@,
                record_id,
            ),
    {
        if !(self.account_exists(sender_id) && self.account_exists(recipient_id)) {
            return Err(DispatchError::MedicalRecord(Error::AccountNotFound));
        }
        if self.get_record_by_id(sender_id, UserType::Patient, record_id).is_none() {
            return Err(DispatchError::MedicalRecord(Error::NonExistentRecord));
        }
        match ledger.grant(sender_id, recipient_id, encrypted_key, record_id) {
            Ok(event) => Ok(event),
            Err(error) => Err(DispatchError::RecordSharing(error)),
        }
    }
}

/// Registering an account keeps the registry well formed.
pub proof fn lemma_create_account_keeps_wf(
    config: Config,
    slots: Slots,
    who: u64,
    user_type: UserType,
)
    requires
        slots_wf(config, slots),
    ensures
        slots_wf(config, create_account_model(slots, who, user_type).0),
{
}

/// A patient's append keeps the registry well formed.
pub proof fn lemma_patient_adds_record_keeps_wf(
    config: Config,
    slots: Slots,
    patient: u64,
    content: Seq<u8>,
)
    requires
        slots_wf(config, slots),
    ensures
        slots_wf(config, patient_adds_record_model(config, slots, patient, content).0),
{
}

/// A doctor's append keeps the registry well formed.
pub proof fn lemma_doctor_adds_record_keeps_wf(
    config: Config,
    slots: Slots,
    doctor: u64,
    patient: u64,
    content: Seq<u8>,
    signature: Seq<u8>,
)
    requires
        slots_wf(config, slots),
    ensures
        slots_wf(
            config,
            doctor_adds_record_model(config, slots, doctor, patient, content, signature).0,
        ),
{
}

/// Signing a record keeps the registry well formed.
pub proof fn lemma_doctor_verifies_record_keeps_wf(
    config: Config,
    slots: Slots,
    doctor: u64,
    patient: u64,
    record_id: u32,
    signature: Seq<u8>,
)
    requires
        slots_wf(config, slots),
    ensures
        slots_wf(
            config,
            doctor_verifies_record_model(config, slots, doctor, patient, record_id, signature).0,
        ),
{
}

/// The accounts that a registry starts out with.
pub struct GenesisConfig {
    pub accounts: Vec<(u64, UserType)>,
}

impl Default for GenesisConfig {
    /// No accounts.
    fn default() -> (genesis: Self)
        ensures
            genesis.accounts@ == Seq::<(u64, UserType)>::empty(),
    {
        GenesisConfig { accounts: Vec::new() }
    }
}

impl GenesisConfig {
    /// A registry in which each listed pair is registered with an empty
    /// slot, and no other. A pair that is listed twice is registered once.
    pub fn build(&self, config: Config) -> (registry: Pallet)
        ensures
            registry.wf(),
            registry.config() == config,
            registry@ == genesis_model(self.accounts@),
    {
        let mut registry = Pallet::new(config);
        let mut i: usize = 0;
        while i < self.accounts.len()
            invariant
                i <= self.accounts.len(),
                registry.config() == config,
                registry@ == genesis_model(self.accounts@.subrange(0, i as int)),
            decreases self.accounts.len() - i,
        {
            let account: u64 = self.accounts[i].0;
            let user_type = self.accounts[i].1;
            registry.put_empty_slot(account, user_type);
            proof {
                lemma_genesis_push(self.accounts@.subrange(0, i as int), (account, user_type));
                assert(self.accounts@.subrange(0, i as int).push((account, user_type))
                    =~= self.accounts@.subrange(0, i + 1));
            }
            i += 1;
        }
        assert(self.accounts@.subrange(0, i as int) =~= self.accounts@);
        registry
    }
}

/// Listing one more account registers that account and changes nothing
/// else.
pub proof fn lemma_genesis_push(accounts: Seq<(u64, UserType)>, next: (u64, UserType))
    ensures
        genesis_model(accounts.push(next)) == genesis_model(accounts).insert(next, Seq::empty()),
{
    let longer = accounts.push(next);
    assert forall|slot: (u64, UserType)|
        genesis_model(longer).contains_key(slot) <==> genesis_model(accounts).insert(
            next,
            Seq::empty(),
        ).contains_key(slot) by {
        if slot == next {
            assert(longer[accounts.len() as int] == slot);
        }
        if genesis_model(accounts).contains_key(slot) {
            let i = choose|i: int| 0 <= i < accounts.len() && accounts[i] == slot;
            assert(longer[i] == slot);
        }
    }
}

} // verus!
