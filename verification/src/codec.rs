//! Binary state codec: a vault's persisted balance and metadata live in a
//! fixed-layout byte buffer inside its storage cell.
//!
//! Derived-authority records hold `[balance: u64 LE][owner: 32 bytes]
//! [initialized: 1 byte]`; self-contained deposit records hold
//! `[total_deposited: u64 LE]` only. The layout is versionless: callers must
//! supply a buffer at least as large as the schema, and a write overwrites
//! the whole schema range in place, leaving any tail bytes untouched.

use vstd::bytes::*;
use vstd::prelude::*;

use crate::errors::VaultError;
use crate::identity::Identity;

verus! {

/// Byte length of a derived-authority vault record.
pub const STATE_LEN: usize = 41;

/// Byte length of a self-contained deposit record.
pub const TOTAL_LEN: usize = 8;

/// A decoded vault record.
#[derive(Clone, Copy, Debug)]
pub struct VaultState {
    pub balance: u64,
    pub owner: Identity,
    pub initialized: bool,
}

impl VaultState {
    /// A freshly created record: zero balance, the given owner, initialized.
    pub fn new(owner: Identity) -> (r: VaultState)
        ensures
            r.balance == 0,
            r.owner == owner,
            r.initialized,
    {
        VaultState { balance: 0, owner, initialized: true }
    }
}

/// The balance encoded at the front of a record.
pub open spec fn spec_balance_of(s: Seq<u8>) -> u64
    recommends
        s.len() >= STATE_LEN,
{
    spec_u64_from_le_bytes(s.subrange(0, 8))
}

/// The owner bytes encoded in a record.
pub open spec fn spec_owner_of(s: Seq<u8>) -> Seq<u8>
    recommends
        s.len() >= STATE_LEN,
{
    s.subrange(8, 40)
}

/// The initialized flag encoded in a record: any nonzero byte counts as set.
pub open spec fn spec_initialized_of(s: Seq<u8>) -> bool
    recommends
        s.len() >= STATE_LEN,
{
    s[40] != 0
}

/// The total encoded in a self-contained deposit record.
pub open spec fn spec_total_of(s: Seq<u8>) -> u64
    recommends
        s.len() >= TOTAL_LEN,
{
    spec_u64_from_le_bytes(s.subrange(0, 8))
}

/// The 41 bytes that encode the given fields.
pub open spec fn spec_record_bytes(balance: u64, owner: Seq<u8>, initialized: bool) -> Seq<u8>
    recommends
        owner.len() == 32,
{
    spec_u64_to_le_bytes(balance) + owner + seq![(if initialized { 1u8 } else { 0u8 })]
}

/// A record buffer after its schema range is overwritten with the given
/// fields; bytes past the schema are kept.
pub open spec fn spec_write_state_bytes(
    s: Seq<u8>,
    balance: u64,
    owner: Seq<u8>,
    initialized: bool,
) -> Seq<u8>
    recommends
        s.len() >= STATE_LEN,
        owner.len() == 32,
{
    spec_record_bytes(balance, owner, initialized) + s.skip(STATE_LEN as int)
}

/// A self-contained buffer after its total is overwritten; tail bytes kept.
pub open spec fn spec_write_total_bytes(s: Seq<u8>, total: u64) -> Seq<u8>
    recommends
        s.len() >= TOTAL_LEN,
{
    spec_u64_to_le_bytes(total) + s.skip(TOTAL_LEN as int)
}

/// Overwrites `dst[offset .. offset + src.len()]` with `src`.
fn write_bytes_at(dst: &mut Vec<u8>, offset: usize, src: &[u8])
    requires
        offset + src@.len() <= old(dst)@.len(),
    ensures
        final(dst)@.len() == old(dst)@.len(),
        forall|j: int|
            0 <= j < old(dst)@.len() ==> final(dst)@[j] == (if offset <= j < offset + src@.len() {
                src@[j - offset]
            } else {
                old(dst)@[j]
            }),
{
    let dst_len = dst.len();
    let mut i: usize = 0;
    while i < src.len()
        invariant
            i <= src@.len(),
            offset + src@.len() <= dst@.len(),
            dst@.len() == old(dst)@.len(),
            dst@.len() == dst_len,
            forall|j: int|
                0 <= j < dst@.len() ==> dst@[j] == (if offset <= j < offset + i {
                    src@[j - offset]
                } else {
                    old(dst)@[j]
                }),
        decreases src@.len() - i,
    {
        dst[offset + i] = src[i];
        i += 1;
    }
}

/// Decodes a derived-authority vault record.
///
/// Fails with `CorruptState` exactly when the buffer is shorter than the
/// schema; otherwise returns the three encoded fields.
pub fn read_state(buffer: &Vec<u8>) -> (r: Result<VaultState, VaultError>)
    ensures
        buffer@.len() < STATE_LEN ==> r == Err::<VaultState, VaultError>(VaultError::CorruptState),
        buffer@.len() >= STATE_LEN ==> (r matches Ok(st) && st.balance == spec_balance_of(buffer@)
            && st.owner@ == spec_owner_of(buffer@) && st.initialized == spec_initialized_of(
            buffer@,
        )),
{
    if buffer.len() < STATE_LEN {
        return Err(VaultError::CorruptState);
    }
    let balance = u64_from_le_bytes(&buffer[0..8]);
    let mut owner_bytes = [0u8; 32];
    let mut i: usize = 0;
    while i < 32
        invariant
            i <= 32,
            buffer@.len() >= STATE_LEN,
            forall|j: int| 0 <= j < i ==> owner_bytes@[j] == buffer@[8 + j],
        decreases 32 - i,
    {
        owner_bytes[i] = buffer[8 + i];
        i += 1;
    }
    let initialized = buffer[40] != 0;
    proof {
        assert(owner_bytes@ =~= spec_owner_of(buffer@));
    }
    Ok(VaultState { balance, owner: Identity::from_bytes(owner_bytes), initialized })
}

/// Encodes the given fields over the schema range of a record buffer.
///
/// Fails with `CorruptState` exactly when the buffer is shorter than the
/// schema, leaving it untouched; otherwise the whole field range is
/// replaced at once and bytes past it are kept.
pub fn write_state(buffer: &mut Vec<u8>, state: &VaultState) -> (r: Result<(), VaultError>)
    ensures
        old(buffer)@.len() < STATE_LEN ==> (r == Err::<(), VaultError>(VaultError::CorruptState)
            && final(buffer)@ == old(buffer)@),
        old(buffer)@.len() >= STATE_LEN ==> (r == Ok::<(), VaultError>(()) && final(buffer)@
            == spec_write_state_bytes(old(buffer)@, state.balance, state.owner@, state.initialized)),
{
    if buffer.len() < STATE_LEN {
        return Err(VaultError::CorruptState);
    }
    let rec = record_bytes(state);
    write_bytes_at(buffer, 0, rec.as_slice());
    proof {
        lemma_auto_spec_u64_to_from_le_bytes();
        assert(buffer@ =~= spec_write_state_bytes(old(buffer)@, state.balance, state.owner@,
            state.initialized));
    }
    Ok(())
}

/// Builds the 41 record bytes for the given fields.
pub fn record_bytes(state: &VaultState) -> (r: Vec<u8>)
    ensures
        r@ == spec_record_bytes(state.balance, state.owner@, state.initialized),
        r@.len() == STATE_LEN,
{
    proof {
        lemma_auto_spec_u64_to_from_le_bytes();
    }
    let mut rec = u64_to_le_bytes(state.balance);
    let mut i: usize = 0;
    while i < 32
        invariant
            i <= 32,
            rec@.len() == 8 + i,
            forall|j: int| 0 <= j < 8 ==> rec@[j] == spec_u64_to_le_bytes(state.balance)[j],
            forall|j: int| 0 <= j < i ==> rec@[8 + j] == state.owner@[j],
        decreases 32 - i,
    {
        rec.push(state.owner.bytes[i]);
        i += 1;
    }
    rec.push(if state.initialized { 1 } else { 0 });
    proof {
        assert(rec@ =~= spec_record_bytes(state.balance, state.owner@, state.initialized));
    }
    rec
}

/// Decodes a self-contained deposit record's running total.
///
/// Fails with `CorruptState` exactly when the buffer is shorter than the
/// schema.
pub fn read_total(buffer: &Vec<u8>) -> (r: Result<u64, VaultError>)
    ensures
        buffer@.len() < TOTAL_LEN ==> r == Err::<u64, VaultError>(VaultError::CorruptState),
        buffer@.len() >= TOTAL_LEN ==> r == Ok::<u64, VaultError>(spec_total_of(buffer@)),
{
    if buffer.len() < TOTAL_LEN {
        return Err(VaultError::CorruptState);
    }
    let total = u64_from_le_bytes(&buffer[0..8]);
    Ok(total)
}

/// Overwrites a self-contained deposit record's running total.
///
/// Fails with `CorruptState` exactly when the buffer is shorter than the
/// schema, leaving it untouched.
pub fn write_total(buffer: &mut Vec<u8>, total: u64) -> (r: Result<(), VaultError>)
    ensures
        old(buffer)@.len() < TOTAL_LEN ==> (r == Err::<(), VaultError>(VaultError::CorruptState)
            && final(buffer)@ == old(buffer)@),
        old(buffer)@.len() >= TOTAL_LEN ==> (r == Ok::<(), VaultError>(()) && final(buffer)@
            == spec_write_total_bytes(old(buffer)@, total)),
{
    if buffer.len() < TOTAL_LEN {
        return Err(VaultError::CorruptState);
    }
    proof {
        lemma_auto_spec_u64_to_from_le_bytes();
    }
    let enc = u64_to_le_bytes(total);
    write_bytes_at(buffer, 0, enc.as_slice());
    proof {
        assert(buffer@ =~= spec_write_total_bytes(old(buffer)@, total));
    }
    Ok(())
}

/// Writing fields and reading them back yields the same fields: the record
/// layout is a faithful codec.
pub proof fn lemma_state_write_read(s: Seq<u8>, balance: u64, owner: Seq<u8>, initialized: bool)
    requires
        s.len() >= STATE_LEN,
        owner.len() == 32,
    ensures
        spec_write_state_bytes(s, balance, owner, initialized).len() == s.len(),
        spec_balance_of(spec_write_state_bytes(s, balance, owner, initialized)) == balance,
        spec_owner_of(spec_write_state_bytes(s, balance, owner, initialized)) == owner,
        spec_initialized_of(spec_write_state_bytes(s, balance, owner, initialized)) == initialized,
{
    lemma_auto_spec_u64_to_from_le_bytes();
    let w = spec_write_state_bytes(s, balance, owner, initialized);
    assert(w.subrange(0, 8) =~= spec_u64_to_le_bytes(balance));
    assert(w.subrange(8, 40) =~= owner);
    assert(w[40] == (if initialized { 1u8 } else { 0u8 }));
}

/// Writing a total and reading it back yields the same total.
pub proof fn lemma_total_write_read(s: Seq<u8>, total: u64)
    requires
        s.len() >= TOTAL_LEN,
    ensures
        spec_write_total_bytes(s, total).len() == s.len(),
        spec_total_of(spec_write_total_bytes(s, total)) == total,
{
    lemma_auto_spec_u64_to_from_le_bytes();
    let w = spec_write_total_bytes(s, total);
    assert(w.subrange(0, 8) =~= spec_u64_to_le_bytes(total));
}

} // verus!
