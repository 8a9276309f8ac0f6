//! Checks on the payloads that a frame carries undecoded: awareness updates
//! and state vectors, whose client ids Yjs keeps within 53 bits.
use vstd::prelude::*;
use crate::lib0::{has_field_at, lemma_var_u32_reads_back, lemma_var_u64_reads_back, var_uint_bytes, lib0_var_u32, lib0_var_u64, read_string, read_var_u32, read_var_u64, unexpected_value, DecodeError};
use crate::sync::string_at;
use yrs::updates::decoder::Decode;

verus! {

/// Client ids of Yjs are 53-bit numbers.
pub open spec fn client_id_fits(id: u64) -> bool {
    id < 0x20_0000_0000_0000
}

/// From `pos` on, `n` awareness entries (client id, clock, JSON string) as
/// `yrs` reads them: every client id read before a read fails fits in 53 bits.
pub open spec fn awareness_entries_fit(data: Seq<u8>, pos: nat, n: nat) -> bool
    decreases n,
{
    if n == 0 {
        true
    } else {
        match lib0_var_u64(data, pos) {
            None => true,
            Some((id, p)) => client_id_fits(id) && match lib0_var_u32(data, p) {
                None => true,
                Some((_, q)) => match string_at(data, q) {
                    None => true,
                    Some((_, r)) => awareness_entries_fit(data, r, (n - 1) as nat),
                },
            },
        }
    }
}

/// An awareness update (an entry count, then the entries) names no client
/// id wider than 53 bits.
pub open spec fn awareness_ids_fit(update: Seq<u8>) -> bool {
    match lib0_var_u64(update, 0) {
        None => true,
        Some((n, p)) => awareness_entries_fit(update, p, n as nat),
    }
}

/// Whether an awareness update names no client id wider than 53 bits.
pub fn check_awareness_ids(update: &[u8]) -> (r: bool)
    ensures
        r == awareness_ids_fit(update@),
{
    let (n, p0) = match read_var_u64(update, 0) {
        Ok(x) => x,
        Err(_) => return true,
    };
    let mut pos: usize = p0;
    let mut i: u64 = 0;
    while i < n
        invariant
            i <= n,
            lib0_var_u64(update@, 0) == Some((n, p0 as nat)),
            awareness_ids_fit(update@) == awareness_entries_fit(update@, pos as nat, (n - i) as nat),
        decreases n - i,
    {
        let (id, p) = match read_var_u64(update, pos) {
            Ok(x) => x,
            Err(_) => return true,
        };
        if id >= 0x20_0000_0000_0000 {
            return false;
        }
        let (_, q) = match read_var_u32(update, p) {
            Ok(x) => x,
            Err(_) => return true,
        };
        let (_, r) = match read_string(update, q) {
            Ok(x) => x,
            Err(_) => return true,
        };
        pos = r;
        i = i + 1;
    }
    true
}

/// The clients named by an awareness update, as a set (`yrs` decoding of an
/// `AwarenessUpdate`, whose client ids are the keys of a map).
pub uninterp spec fn awareness_update_clients(update: Seq<u8>) -> Option<Set<u64>>;

/// Decodes an awareness update and lists its clients (`yrs`
/// `AwarenessUpdate::decode_v1`). The ids come from a hash map, so their order
/// is left open; each occurs once. Only updates whose client ids fit in 53
/// bits are handed in: `yrs` asserts that of every id it builds.
#[verifier::external_body]
fn decode_awareness_clients(update: &[u8]) -> (r: Result<Vec<u64>, DecodeError>)
    requires
        awareness_ids_fit(update@),
    ensures
        r is Ok <==> awareness_update_clients(update@) is Some,
        r matches Ok(ids) ==> awareness_update_clients(update@) == Some(ids@.to_set())
            && ids@.no_duplicates(),
{
    match yrs::sync::AwarenessUpdate::decode_v1(update) {
        Ok(u) => {
            let mut ids = Vec::new();
            for c in u.clients.keys() {
                ids.push(c.get());
            }
            Ok(ids)
        },
        Err(e) => Err(e),
    }
}

/// An awareness update that decodes, with client ids of 53 bits.
pub open spec fn awareness_update_valid(update: Seq<u8>) -> bool {
    awareness_ids_fit(update) && awareness_update_clients(update) is Some
}

/// The clients named by an awareness update; refused when one of its client
/// ids is wider than 53 bits or when it does not decode.
pub fn awareness_clients(update: &[u8]) -> (r: Result<Vec<u64>, DecodeError>)
    ensures
        r is Ok <==> awareness_update_valid(update@),
        r matches Ok(ids) ==> awareness_update_clients(update@) == Some(ids@.to_set())
            && ids@.no_duplicates(),
{
    if !check_awareness_ids(update) {
        return Err(unexpected_value());
    }
    decode_awareness_clients(update)
}

/// From `pos` on, `n` state-vector entries (client id, clock), all there,
/// with client ids of 53 bits.
pub open spec fn state_vector_entries_valid(data: Seq<u8>, pos: nat, n: nat) -> bool
    decreases n,
{
    if n == 0 {
        true
    } else {
        match lib0_var_u64(data, pos) {
            None => false,
            Some((id, p)) => client_id_fits(id) && match lib0_var_u32(data, p) {
                None => false,
                Some((_, q)) => state_vector_entries_valid(data, q, (n - 1) as nat),
            },
        }
    }
}

/// An encoded state vector: an entry count, then that many (client id,
/// clock) entries, with client ids of 53 bits.
pub open spec fn state_vector_valid(sv: Seq<u8>) -> bool {
    match lib0_var_u32(sv, 0) {
        None => false,
        Some((n, p)) => state_vector_entries_valid(sv, p, n as nat),
    }
}

/// The entries of a state vector as Yjs writes them: each client id, then
/// its clock, as variable-length integers.
pub open spec fn state_vector_entries_bytes(entries: Seq<(u64, u32)>) -> Seq<u8>
    decreases entries.len(),
{
    if entries.len() == 0 {
        Seq::empty()
    } else {
        var_uint_bytes(entries[0].0 as nat) + var_uint_bytes(entries[0].1 as nat)
            + state_vector_entries_bytes(entries.drop_first())
    }
}

/// A state vector as Yjs writes it: the number of entries, then the entries.
pub open spec fn state_vector_bytes(entries: Seq<(u64, u32)>) -> Seq<u8> {
    var_uint_bytes(entries.len()) + state_vector_entries_bytes(entries)
}

/// Every client id of the entries is a 53-bit Yjs client id.
pub open spec fn entries_ids_fit(entries: Seq<(u64, u32)>) -> bool {
    forall|i: int| 0 <= i < entries.len() ==> client_id_fits(#[trigger] entries[i].0)
}

proof fn lemma_entries_valid(data: Seq<u8>, pos: int, entries: Seq<(u64, u32)>)
    requires
        has_field_at(data, pos, state_vector_entries_bytes(entries)),
        entries_ids_fit(entries),
    ensures
        state_vector_entries_valid(data, pos as nat, entries.len()),
    decreases entries.len(),
{
    if entries.len() > 0 {
        let (id, clock) = entries[0];
        let a = var_uint_bytes(id as nat);
        let c = var_uint_bytes(clock as nat);
        let rest = entries.drop_first();
        let tail = state_vector_entries_bytes(rest);
        let all = state_vector_entries_bytes(entries);
        assert(all == a + c + tail);
        assert(client_id_fits(entries[0].0));
        assert(has_field_at(data, pos, a)) by {
            assert(data.subrange(pos, pos + a.len()) =~= data.subrange(pos, pos + all.len()).subrange(0, a.len() as int));
            assert(all.subrange(0, a.len() as int) =~= a);
        }
        assert(has_field_at(data, pos + a.len(), c)) by {
            assert(data.subrange(pos + a.len(), pos + a.len() + c.len()) =~= data.subrange(pos, pos + all.len()).subrange(a.len() as int, (a.len() + c.len()) as int));
            assert(all.subrange(a.len() as int, (a.len() + c.len()) as int) =~= c);
        }
        assert(has_field_at(data, pos + a.len() + c.len(), tail)) by {
            assert(data.subrange(pos + a.len() + c.len(), pos + all.len()) =~= data.subrange(pos, pos + all.len()).subrange((a.len() + c.len()) as int, all.len() as int));
            assert(all.subrange((a.len() + c.len()) as int, all.len() as int) =~= tail);
        }
        lemma_var_u64_reads_back(data, pos, 0, 0, id as nat);
        lemma_var_u32_reads_back(data, pos + a.len(), 0, 0, clock as nat);
        assert(entries_ids_fit(rest)) by {
            assert forall|i: int| 0 <= i < rest.len() implies client_id_fits(#[trigger] rest[i].0) by {
                assert(rest[i] == entries[i + 1]);
            }
        }
        lemma_entries_valid(data, pos + a.len() + c.len(), rest);
    }
}

/// Every state vector that Yjs writes (up to 2^32 entries, client ids of 53
/// bits, any 32-bit clocks) passes the state-vector check.
pub proof fn law_written_state_vectors_are_valid(entries: Seq<(u64, u32)>)
    requires
        entries.len() < 0x1_0000_0000,
        entries_ids_fit(entries),
    ensures
        state_vector_valid(state_vector_bytes(entries)),
{
    let data = state_vector_bytes(entries);
    let h = var_uint_bytes(entries.len());
    let t = state_vector_entries_bytes(entries);
    assert(has_field_at(data, 0, h)) by {
        assert(data.subrange(0, h.len() as int) =~= h);
    }
    assert(has_field_at(data, h.len() as int, t)) by {
        assert(data.subrange(h.len() as int, (h.len() + t.len()) as int) =~= t);
    }
    lemma_var_u32_reads_back(data, 0, 0, 0, entries.len());
    lemma_entries_valid(data, h.len() as int, entries);
}

/// Whether `sv` is a well-formed state vector.
pub fn check_state_vector(sv: &[u8]) -> (r: bool)
    ensures
        r == state_vector_valid(sv@),
        forall|entries: Seq<(u64, u32)>|
            #![trigger state_vector_bytes(entries)]
            sv@ == state_vector_bytes(entries) && entries.len() < 0x1_0000_0000 && entries_ids_fit(entries) ==> r,
{
    proof {
        assert forall|entries: Seq<(u64, u32)>|
            #![trigger state_vector_bytes(entries)]
            sv@ == state_vector_bytes(entries) && entries.len() < 0x1_0000_0000 && entries_ids_fit(entries)
                implies state_vector_valid(sv@) by {
            law_written_state_vectors_are_valid(entries);
        }
    }
    let (n, p0) = match read_var_u32(sv, 0) {
        Ok(x) => x,
        Err(_) => return false,
    };
    let mut pos: usize = p0;
    let mut i: u32 = 0;
    while i < n
        invariant
            i <= n,
            state_vector_valid(sv@) == state_vector_entries_valid(sv@, pos as nat, (n - i) as nat),
            forall|entries: Seq<(u64, u32)>|
                #![trigger state_vector_bytes(entries)]
                sv@ == state_vector_bytes(entries) && entries.len() < 0x1_0000_0000 && entries_ids_fit(entries)
                    ==> state_vector_valid(sv@),
        decreases n - i,
    {
        let (id, p) = match read_var_u64(sv, pos) {
            Ok(x) => x,
            Err(_) => return false,
        };
        if id >= 0x20_0000_0000_0000 {
            return false;
        }
        let (_, q) = match read_var_u32(sv, p) {
            Ok(x) => x,
            Err(_) => return false,
        };
        pos = q;
        i = i + 1;
    }
    true
}

} // verus!
