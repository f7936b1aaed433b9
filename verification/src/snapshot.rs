//! Snapshots: the whole state of a machine as bytes, and back.
//!
//! The encoding is bincode's, of the six fields of the state in the order
//! counter, registers, arrays, free handles, finger, halt flag. What is
//! decoded is taken over only if it is a state that the machine could be in.

use vstd::prelude::*;
use crate::machine::{contents, Machine, MachineState};
use crate::model::MachineModel;

verus! {

/// bincode's error. Its variants are not looked at: a blob that does not
/// decode is malformed, whatever the reason.
#[verifier::external_type_specification]
#[verifier::external_body]
pub struct ExErrorKind(bincode::ErrorKind);

/// The bytes that bincode writes for these six fields.
pub uninterp spec fn snapshot_bytes(
    count: u64,
    registers: Seq<u32>,
    arrays: Seq<Seq<u32>>,
    free_handles: Seq<u32>,
    finger: u64,
    halted: bool,
) -> Seq<u8>;

/// The six fields that bincode reads from these bytes, if it can read them.
pub uninterp spec fn snapshot_fields(bytes: Seq<u8>) -> Option<
    (u64, Seq<u32>, Seq<Seq<u32>>, Seq<u32>, u64, bool),
>;

/// Why a blob was not taken over as the state of a machine.
#[derive(Clone, Copy, Debug, PartialEq, Eq)]
pub enum SnapshotError {
    /// The bytes do not decode to the fields of a state.
    Malformed,
    /// The fields decode, but break the invariant of the array store or
    /// do not fit this machine's word size.
    Inconsistent,
}

/// The state made of six fields, as a mathematical value.
pub open spec fn model_of(
    count: nat,
    registers: Seq<u32>,
    arrays: Seq<Seq<u32>>,
    free_handles: Seq<u32>,
    finger: nat,
    halted: bool,
) -> MachineModel {
    MachineModel { count, registers, arrays, free_handles, finger, halted }
}

/// The bytes of the snapshot of a state.
pub open spec fn encoded(m: MachineModel) -> Seq<u8> {
    snapshot_bytes(
        m.count as u64,
        m.registers,
        m.arrays,
        m.free_handles,
        m.finger as u64,
        m.halted,
    )
}

/// The state that a blob restores, or why it restores none.
pub open spec fn restored(bytes: Seq<u8>) -> Result<MachineModel, SnapshotError> {
    match snapshot_fields(bytes) {
        None => Err(SnapshotError::Malformed),
        Some((count, registers, arrays, free_handles, finger, halted)) => {
            let m = model_of(count as nat, registers, arrays, free_handles, finger as nat, halted);
            if count <= usize::MAX && finger <= usize::MAX && m.wf() {
                Ok(m)
            } else {
                Err(SnapshotError::Inconsistent)
            }
        },
    }
}

/// Calls `bincode::serialize_into` on a byte vector and the tuple of the
/// six fields. With bincode's default options (no size limit, fixed-width
/// integers) and a vector as the writer the call cannot fail: the only
/// errors of the serializer are the writer's, a size limit, and a sequence
/// without a length. The contract names the bytes written, and claims that
/// `bincode::deserialize_from` reads the same six fields back from them.
#[verifier::external_body]
fn encode_fields(
    count: u64,
    registers: &[u32; 8],
    arrays: &Vec<Vec<u32>>,
    free_handles: &Vec<u32>,
    finger: u64,
    halted: bool,
) -> (blob: Vec<u8>)
    ensures
        blob@ == snapshot_bytes(
            count,
            registers@,
            contents(arrays@),
            free_handles@,
            finger,
            halted,
        ),
        snapshot_fields(blob@) == Some(
            (count, registers@, contents(arrays@), free_handles@, finger, halted),
        ),
{
    let mut blob: Vec<u8> = Vec::new();
    bincode::serialize_into(&mut blob, &(count, registers, arrays, free_handles, finger, halted))
        .expect("a vector takes every byte written to it");
    blob
}

/// Calls `bincode::deserialize_from` on the bytes, for the tuple of the
/// six fields. The contract names the result; bytes after the encoded
/// fields are not read.
#[verifier::external_body]
fn decode_fields(blob: &[u8]) -> (r: Result<
    (u64, [u32; 8], Vec<Vec<u32>>, Vec<u32>, u64, bool),
    Box<bincode::ErrorKind>,
>)
    ensures
        r is Ok <==> snapshot_fields(blob@) is Some,
        r matches Ok(f) ==> snapshot_fields(blob@) == Some(
            (f.0, f.1@, contents(f.2@), f.3@, f.4, f.5),
        ),
{
    bincode::deserialize_from(blob)
}

/// Whether the arrays and the free handles satisfy the invariant of the
/// array store.
fn store_is_consistent(arrays: &Vec<Vec<u32>>, free_handles: &Vec<u32>) -> (ok: bool)
    ensures
        ok == ({
            &&& arrays@.len() >= 1
            &&& free_handles@.no_duplicates()
            &&& forall|i: int|
                0 <= i < free_handles@.len() ==> {
                    &&& 0 < #[trigger] free_handles@[i] < arrays@.len()
                    &&& arrays@[free_handles@[i] as int]@.len() == 0
                }
        }),
{
    if arrays.len() == 0 {
        return false;
    }
    let mut seen: Vec<bool> = vec![false; arrays.len()];
    let mut i: usize = 0;
    while i < free_handles.len()
        invariant
            i <= free_handles@.len(),
            arrays@.len() >= 1,
            seen@.len() == arrays@.len(),
            forall|h: int|
                0 <= h < seen@.len() ==> (#[trigger] seen@[h] <==> exists|j: int|
                    0 <= j < i && #[trigger] free_handles@[j] == h),
            forall|j: int, k: int|
                0 <= j < i && 0 <= k < i && j != k ==> free_handles@[j] != free_handles@[k],
            forall|j: int|
                0 <= j < i ==> {
                    &&& 0 < #[trigger] free_handles@[j] < arrays@.len()
                    &&& arrays@[free_handles@[j] as int]@.len() == 0
                },
        decreases free_handles@.len() - i,
    {
        let handle: u32 = free_handles[i];
        if handle == 0 || handle as usize >= arrays.len() {
            return false;
        }
        if arrays[handle as usize].len() != 0 {
            return false;
        }
        if seen[handle as usize] {
            proof {
                let j = choose|j: int| 0 <= j < i && #[trigger] free_handles@[j] == handle as int;
                assert(free_handles@[j] == free_handles@[i as int] && j != i);
            }
            return false;
        }
        let ghost marks = seen@;
        seen[handle as usize] = true;
        proof {
            assert forall|h: int| 0 <= h < seen@.len() implies (#[trigger] seen@[h] <==> exists|
                j: int,
            |
                0 <= j < i + 1 && #[trigger] free_handles@[j] == h) by {
                if h == handle as int {
                    assert(free_handles@[i as int] == h);
                } else {
                    assert(seen@[h] == marks[h]);
                    if marks[h] {
                        let j = choose|j: int| 0 <= j < i && #[trigger] free_handles@[j] == h;
                        assert(0 <= j < i + 1 && free_handles@[j] == h);
                    }
                    if exists|j: int| 0 <= j < i + 1 && #[trigger] free_handles@[j] == h {
                        let j = choose|j: int| 0 <= j < i + 1 && #[trigger] free_handles@[j] == h;
                        assert(j != i);
                        assert(0 <= j < i && free_handles@[j] == h);
                    }
                }
            }
            assert forall|j: int, k: int| 0 <= j < i + 1 && 0 <= k < i + 1 && j != k implies
                free_handles@[j] != free_handles@[k] by {
                if j == i && free_handles@[k] == handle {
                    assert(0 <= k < i && free_handles@[k] == handle as int);
                    assert(marks[handle as int]);
                }
                if k == i && free_handles@[j] == handle {
                    assert(0 <= j < i && free_handles@[j] == handle as int);
                    assert(marks[handle as int]);
                }
            }
        }
        i += 1;
    }
    true
}

impl MachineState {
    /// Makes a state of six fields, if they are a state that a machine could
    /// be in: there is a program, and the free handles are distinct, never
    /// 0, in range, and bound to empty arrays.
    pub fn from_parts(
        count: usize,
        registers: [u32; 8],
        arrays: Vec<Vec<u32>>,
        free_handles: Vec<u32>,
        execution_finger: usize,
        halted: bool,
    ) -> (state: Option<MachineState>)
        ensures
            state is Some <==> model_of(
                count as nat,
                registers@,
                contents(arrays@),
                free_handles@,
                execution_finger as nat,
                halted,
            ).wf(),
            state matches Some(s) ==> s@ == model_of(
                count as nat,
                registers@,
                contents(arrays@),
                free_handles@,
                execution_finger as nat,
                halted,
            ),
    {
        if store_is_consistent(&arrays, &free_handles) {
            let state = MachineState {
                count,
                registers,
                arrays,
                array_list: free_handles,
                execution_finger,
                halted,
            };
            proof {
                state.lemma_view();
            }
            Some(state)
        } else {
            None
        }
    }
}

impl Machine {
    /// The whole state as bytes. Loading them back restores exactly this
    /// state.
    pub fn snapshot(&self) -> (blob: Vec<u8>)
        ensures
            blob@ == encoded(self@),
            self.wf() ==> restored(blob@) == Ok::<MachineModel, SnapshotError>(self@),
    {
        proof {
            self.lemma_view();
            self.state.lemma_view();
        }
        encode_fields(
            self.state.count as u64,
            &self.state.registers,
            &self.state.arrays,
            &self.state.array_list,
            self.state.execution_finger as u64,
            self.state.halted,
        )
    }

    /// Replaces the whole state by the one that `blob` holds. A blob that
    /// does not decode, or that decodes to no state that a machine could be
    /// in, is refused and leaves the machine as it was.
    pub fn load_from_snapshot(&mut self, blob: &[u8]) -> (r: Result<(), SnapshotError>)
        requires
            old(self).wf(),
        ensures
            final(self).wf(),
            final(self).inlet() == old(self).inlet(),
            match restored(blob@) {
                Ok(m) => r is Ok && final(self)@ == m,
                Err(e) => r == Err::<(), SnapshotError>(e) && final(self)@ == old(self)@,
            },
    {
        proof {
            self.lemma_view();
        }
        match decode_fields(blob) {
            Err(_) => Err(SnapshotError::Malformed),
            Ok((count, registers, arrays, free_handles, finger, halted)) => {
                if count > usize::MAX as u64 || finger > usize::MAX as u64 {
                    return Err(SnapshotError::Inconsistent);
                }
                match MachineState::from_parts(
                    count as usize,
                    registers,
                    arrays,
                    free_handles,
                    finger as usize,
                    halted,
                ) {
                    Some(state) => {
                        self.state = state;
                        proof {
                            self.lemma_view();
                        }
                        Ok(())
                    },
                    None => Err(SnapshotError::Inconsistent),
                }
            },
        }
    }
}

} // verus!
