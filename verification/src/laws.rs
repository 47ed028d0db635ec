//! What holds of the registry and the ledger over more than one call,
//! stated over the models that the operations are specified by.

use crate::medical_record::{
    account_exists_model, create_account_model, doctor_adds_record_model,
    doctor_verifies_record_model, get_record_by_id_model, patient_adds_record_model,
    share_record_with_model, slots_wf, Config, DispatchError, Error, Event, RecordView, Slots,
    UserType,
};
use crate::record_sharing;
use vstd::prelude::*;

verus! {

/// Registering the same account under the same role twice: the first call
/// succeeds exactly when the pair was not registered before, the second
/// fails with `AccountAlreadyExist`, and the registry after both calls is
/// the registry after the first.
pub proof fn lemma_registration_is_idempotent(slots: Slots, who: u64, user_type: UserType)
    ensures
        ({
            let (once, first) = create_account_model(slots, who, user_type);
            let (twice, second) = create_account_model(once, who, user_type);
            &&& first is Ok <==> !slots.contains_key((who, user_type))
            &&& first is Ok ==> once[(who, user_type)] == Seq::<RecordView>::empty()
            &&& second == Err::<Event, Error>(Error::AccountAlreadyExist)
            &&& twice == once
        }),
{
}

/// In a well-formed registry the records of every slot carry the ids
/// 1, 2, 3 and so on up to the number of records, in that order.
pub proof fn lemma_record_ids_are_dense(config: Config, slots: Slots, account: u64, user_type: UserType)
    requires
        slots_wf(config, slots),
        slots.contains_key((account, user_type)),
    ensures
        forall|i: int|
            0 <= i < slots[(account, user_type)].len() ==> (#[trigger] slots[(
                account,
                user_type,
            )][i]).id() == i + 1,
{
}

/// A patient's append that succeeds gives the new record the id that
/// follows the last one, puts it at the end of the patient's slot and leaves
/// the records before it, and every other slot, as they were.
pub proof fn lemma_patient_append_assigns_next_id(
    config: Config,
    slots: Slots,
    patient: u64,
    content: Seq<u8>,
)
    requires
        slots_wf(config, slots),
        patient_adds_record_model(config, slots, patient, content).1 is Ok,
    ensures
        ({
            let slot = (patient, UserType::Patient);
            let (after, answer) = patient_adds_record_model(config, slots, patient, content);
            let id = (slots[slot].len() + 1) as u32;
            &&& slots.contains_key(slot)
            &&& id == slots[slot].len() + 1
            &&& answer == Ok::<Event, Error>(Event::PatientAddsRecord(patient, id))
            &&& after == slots.insert(
                slot,
                slots[slot].push(RecordView::UnverifiedRecord(id, patient, content)),
            )
            &&& slots_wf(config, after)
        }),
{
}

/// A doctor's append that succeeds gives the new record the id that follows
/// the last one, puts it at the end of the patient's slot and leaves the
/// records before it, and every other slot, as they were.
pub proof fn lemma_doctor_append_assigns_next_id(
    config: Config,
    slots: Slots,
    doctor: u64,
    patient: u64,
    content: Seq<u8>,
    signature: Seq<u8>,
)
    requires
        slots_wf(config, slots),
        doctor_adds_record_model(config, slots, doctor, patient, content, signature).1 is Ok,
    ensures
        ({
            let slot = (patient, UserType::Patient);
            let (after, answer) = doctor_adds_record_model(
                config,
                slots,
                doctor,
                patient,
                content,
                signature,
            );
            let id = (slots[slot].len() + 1) as u32;
            &&& slots.contains_key(slot)
            &&& id == slots[slot].len() + 1
            &&& answer == Ok::<Event, Error>(Event::DoctorAddsRecordForPatient(patient, doctor, id))
            &&& after == slots.insert(
                slot,
                slots[slot].push(
                    RecordView::VerifiedRecord(id, patient, doctor, content, signature),
                ),
            )
            &&& slots_wf(config, after)
        }),
{
}

/// One append to a patient's slot: by the patient where no doctor is
/// named, else by that doctor, with the signature given.
pub open spec fn append_model(
    config: Config,
    slots: Slots,
    patient: u64,
    append: (Option<u64>, Seq<u8>, Seq<u8>),
) -> (Slots, Result<Event, Error>) {
    match append.0 {
        None => patient_adds_record_model(config, slots, patient, append.1),
        Some(doctor) => doctor_adds_record_model(
            config,
            slots,
            doctor,
            patient,
            append.1,
            append.2,
        ),
    }
}

/// A run of appends to one patient's slot, one after the other: the
/// registry after the last, and the answers in the order of the calls.
pub open spec fn appends_model(
    config: Config,
    slots: Slots,
    patient: u64,
    appends: Seq<(Option<u64>, Seq<u8>, Seq<u8>)>,
) -> (Slots, Seq<Result<Event, Error>>)
    decreases appends.len(),
{
    if appends.len() == 0 {
        (slots, Seq::empty())
    } else {
        let (before, answers) = appends_model(config, slots, patient, appends.drop_last());
        let (after, answer) = append_model(config, before, patient, appends.last());
        (after, answers.push(answer))
    }
}

/// The id that an append reports, where it succeeded.
pub open spec fn assigned_id(answer: Result<Event, Error>) -> Option<u32> {
    match answer {
        Ok(Event::PatientAddsRecord(_, id)) => Some(id),
        Ok(Event::DoctorAddsRecordForPatient(_, _, id)) => Some(id),
        _ => None,
    }
}

/// A run of appends to one slot that all succeed hands out the ids that
/// follow the records already there, one by one, without a gap and without
/// a repeat: on a slot that was empty, 1, 2, 3 and so on. The slot ends up
/// with one record more for each append, and the registry well formed.
pub proof fn lemma_successive_appends_count_up(
    config: Config,
    slots: Slots,
    patient: u64,
    appends: Seq<(Option<u64>, Seq<u8>, Seq<u8>)>,
)
    requires
        slots_wf(config, slots),
        slots.contains_key((patient, UserType::Patient)),
        forall|i: int|
            0 <= i < appends.len() ==> (#[trigger] appends_model(
                config,
                slots,
                patient,
                appends,
            ).1[i]) is Ok,
    ensures
        ({
            let slot = (patient, UserType::Patient);
            let (after, answers) = appends_model(config, slots, patient, appends);
            &&& answers.len() == appends.len()
            &&& slots_wf(config, after)
            &&& after.contains_key(slot)
            &&& after[slot].len() == slots[slot].len() + appends.len()
            &&& forall|i: int|
                0 <= i < appends.len() ==> assigned_id(#[trigger] answers[i]) == Some(
                    (slots[slot].len() + i + 1) as u32,
                ) && slots[slot].len() + i + 1 <= config.max_records_per_account_role
            &&& forall|i: int|
                0 <= i < after[slot].len() ==> (#[trigger] after[slot][i]).id() == i + 1
        }),
    decreases appends.len(),
{
    if appends.len() > 0 {
        let shorter = appends.drop_last();
        let before = appends_model(config, slots, patient, shorter).0;
        lemma_appends_answer_each(config, slots, patient, shorter);
        assert forall|i: int| 0 <= i < shorter.len() implies (#[trigger] appends_model(
            config,
            slots,
            patient,
            shorter,
        ).1[i]) is Ok by {
            assert(appends_model(config, slots, patient, appends).1[i] is Ok);
        }
        lemma_successive_appends_count_up(config, slots, patient, shorter);
        assert(appends_model(config, slots, patient, appends).1[shorter.len() as int] is Ok);
        match appends.last().0 {
            None => {
                lemma_patient_append_assigns_next_id(config, before, patient, appends.last().1);
            },
            Some(doctor) => {
                lemma_doctor_append_assigns_next_id(
                    config,
                    before,
                    doctor,
                    patient,
                    appends.last().1,
                    appends.last().2,
                );
            },
        }
    }
}

/// Once a run of successful appends has filled a slot to the limit, the
/// patient's next append fails with `ExceedsMaxRecordLength`, and the slot
/// still holds as many records as the limit says.
pub proof fn lemma_append_beyond_capacity_fails(
    config: Config,
    slots: Slots,
    patient: u64,
    appends: Seq<(Option<u64>, Seq<u8>, Seq<u8>)>,
    content: Seq<u8>,
)
    requires
        slots_wf(config, slots),
        slots.contains_key((patient, UserType::Patient)),
        forall|i: int|
            0 <= i < appends.len() ==> (#[trigger] appends_model(
                config,
                slots,
                patient,
                appends,
            ).1[i]) is Ok,
        slots[(patient, UserType::Patient)].len() + appends.len()
            == config.max_records_per_account_role,
    ensures
        ({
            let slot = (patient, UserType::Patient);
            let full = appends_model(config, slots, patient, appends).0;
            let (after, answer) = patient_adds_record_model(config, full, patient, content);
            &&& answer == Err::<Event, Error>(Error::ExceedsMaxRecordLength)
            &&& after == full
            &&& after[slot].len() == config.max_records_per_account_role
        }),
{
    lemma_successive_appends_count_up(config, slots, patient, appends);
}

/// A run of appends gives one answer for each append.
pub proof fn lemma_appends_answer_each(
    config: Config,
    slots: Slots,
    patient: u64,
    appends: Seq<(Option<u64>, Seq<u8>, Seq<u8>)>,
)
    ensures
        appends_model(config, slots, patient, appends).1.len() == appends.len(),
    decreases appends.len(),
{
    if appends.len() > 0 {
        lemma_appends_answer_each(config, slots, patient, appends.drop_last());
    }
}

/// A slot that holds as many records as the registry allows takes no
/// further one: an append by the patient, or by a registered doctor, fails
/// with `ExceedsMaxRecordLength` and leaves the registry as it was.
pub proof fn lemma_full_slot_rejects_append(
    config: Config,
    slots: Slots,
    doctor: u64,
    patient: u64,
    content: Seq<u8>,
    signature: Seq<u8>,
)
    requires
        slots.contains_key((patient, UserType::Patient)),
        slots[(patient, UserType::Patient)].len() == config.max_records_per_account_role,
    ensures
        patient_adds_record_model(config, slots, patient, content) == (
            slots,
            Err::<Event, Error>(Error::ExceedsMaxRecordLength),
        ),
        slots.contains_key((doctor, UserType::Doctor)) ==> doctor_adds_record_model(
            config,
            slots,
            doctor,
            patient,
            content,
            signature,
        ) == (slots, Err::<Event, Error>(Error::ExceedsMaxRecordLength)),
{
}

/// Signing a record once changes that record alone, and of it only the
/// variant: id, patient and content stay, the doctor and the signature are
/// those of the call. Signing the same record again, by whichever
/// registered doctor, fails with `RecordAlreadyVerified` and leaves the
/// registry as it was.
pub proof fn lemma_verify_once_then_rejected(
    config: Config,
    slots: Slots,
    doctor: u64,
    patient: u64,
    record_id: u32,
    signature: Seq<u8>,
    next_doctor: u64,
    next_signature: Seq<u8>,
)
    requires
        doctor_verifies_record_model(config, slots, doctor, patient, record_id, signature).1 is Ok,
        slots.contains_key((next_doctor, UserType::Doctor)),
    ensures
        ({
            let slot = (patient, UserType::Patient);
            let index = record_id - 1;
            let before = slots[slot][index];
            let (once, first) = doctor_verifies_record_model(
                config,
                slots,
                doctor,
                patient,
                record_id,
                signature,
            );
            &&& first == Ok::<Event, Error>(
                Event::DoctorVerifiesRecordForPatient(patient, doctor, record_id),
            )
            &&& once.dom() == slots.dom()
            &&& forall|other: (u64, UserType)|
                other != slot && slots.contains_key(other) ==> #[trigger] once[other]
                    == slots[other]
            &&& once[slot].len() == slots[slot].len()
            &&& forall|i: int|
                0 <= i < slots[slot].len() && i != index ==> #[trigger] once[slot][i]
                    == slots[slot][i]
            &&& before is UnverifiedRecord
            &&& once[slot][index] == RecordView::VerifiedRecord(
                before.id(),
                before.patient(),
                doctor,
                before.content(),
                signature,
            )
            &&& doctor_verifies_record_model(
                config,
                once,
                next_doctor,
                patient,
                record_id,
                next_signature,
            ) == (once, Err::<Event, Error>(Error::RecordAlreadyVerified))
        }),
{
}

/// Without a slot under the doctor's role nobody signs anything: the call
/// fails with `AccountNotFound` and leaves the registry as it was, whatever
/// the patient, the record and the signature.
pub proof fn lemma_verify_requires_registered_doctor(
    config: Config,
    slots: Slots,
    doctor: u64,
    patient: u64,
    record_id: u32,
    signature: Seq<u8>,
)
    requires
        !slots.contains_key((doctor, UserType::Doctor)),
    ensures
        doctor_verifies_record_model(config, slots, doctor, patient, record_id, signature) == (
            slots,
            Err::<Event, Error>(Error::AccountNotFound),
        ),
{
}

/// A share is checked in full before the ledger is touched. Where the
/// sender or the recipient is registered under no role it fails with
/// `AccountNotFound`; where both are registered and the sender holds no
/// record of that id as a patient it fails with `NonExistentRecord`; either
/// way the ledger stays as it was. In every other case the answer is the
/// ledger's own.
pub proof fn lemma_share_is_all_or_nothing(
    slots: Slots,
    max_grants: u32,
    ledger: Map<(u64, u64), Seq<(Seq<u8>, u32)>>,
    sender: u64,
    recipient: u64,
    encrypted_key: Seq<u8>,
    record_id: u32,
)
    ensures
        ({
            let (after, answer) = share_record_with_model(
                slots,
                max_grants,
                ledger,
                sender,
                recipient,
                encrypted_key,
                record_id,
            );
            let registered = account_exists_model(slots, sender) && account_exists_model(
                slots,
                recipient,
            );
            let held = get_record_by_id_model(slots, sender, UserType::Patient, record_id) is Some;
            &&& !registered ==> after == ledger && answer == Err::<
                record_sharing::Event,
                DispatchError,
            >(DispatchError::MedicalRecord(Error::AccountNotFound))
            &&& registered && !held ==> after == ledger && answer == Err::<
                record_sharing::Event,
                DispatchError,
            >(DispatchError::MedicalRecord(Error::NonExistentRecord))
            &&& registered && held ==> after == record_sharing::share_record_model(
                max_grants,
                ledger,
                sender,
                recipient,
                encrypted_key,
                record_id,
            ).0
            &&& answer is Err ==> after == ledger
        }),
{
}

/// In a well-formed registry a record is found by its id exactly when the
/// id lies between one and the number of records of the slot, and the
/// record found carries that id.
pub proof fn lemma_lookup_finds_by_id(
    config: Config,
    slots: Slots,
    account: u64,
    user_type: UserType,
    record_id: u32,
)
    requires
        slots_wf(config, slots),
    ensures
        match get_record_by_id_model(slots, account, user_type, record_id) {
            Some(record) => record.id() == record_id && slots[(account, user_type)].contains(record),
            None => !slots.contains_key((account, user_type)) || forall|i: int|
                0 <= i < slots[(account, user_type)].len() ==> (#[trigger] slots[(
                    account,
                    user_type,
                )][i]).id() != record_id,
        },
{
}

} // verus!
