//! Receive and transmit batch processing over the descriptor rings.
//!
//! Both rings are fixed-length circular arrays. Cursors always lie in
//! `[0, ring_length)` and advance modulo the ring length; each batch tracks a
//! monotonically increasing total and reduces it modulo the ring length once,
//! at batch end. Buffers move between the pool, the in-use tables and the
//! delivered / outbound / used queues; every transfer is a move of exactly
//! one owner.

use vstd::arithmetic::div_mod::{
    lemma_add_mod_noop_right, lemma_mod_add_multiples_vanish, lemma_mod_division_less_than_divisor,
    lemma_small_mod, lemma_sub_mod_noop, lemma_sub_mod_noop_right,
};
use vstd::prelude::*;

use crate::structs::{
    rx_wb_done, rx_wb_end_of_packet, rx_wb_length, tx_sta_done, AdvancedRxDescriptor,
    AdvancedTxDescriptor, PacketBufferS, RxQueueRegisters, TxQueueRegisters, TX_CMD_DEXT,
    TX_CMD_EOP, TX_CMD_IFCS, TX_CMD_RS, TX_DTYP_ADV, TX_PAYLEN_SHIFT,
};
use crate::vector_spec::VecWrapper;

verus! {

/// The slot reached after advancing `i` steps from `cur` around a ring of
/// `n` slots.
pub open spec fn ring_index(cur: int, i: int, n: int) -> int {
    (cur + i) % n
}

/// How many steps from `cur` a ring slot `j` is: the inverse of
/// `ring_index`, used to tell which slots a batch has touched.
pub open spec fn slot_offset(cur: int, j: int, n: int) -> int {
    (j - cur) % n
}

pub proof fn lemma_ring_index_range(cur: int, i: int, n: int)
    requires
        n > 0,
    ensures
        0 <= ring_index(cur, i, n) < n,
{
    lemma_mod_division_less_than_divisor(cur + i, n);
}

/// Advancing `k < n` steps lands on a slot whose offset from the start is
/// exactly `k`: distinct steps within one lap touch distinct slots.
pub proof fn lemma_slot_offset_of_ring_index(cur: int, k: int, n: int)
    requires
        n > 0,
        0 <= k < n,
    ensures
        slot_offset(cur, ring_index(cur, k, n), n) == k,
{
    let x = cur + k;
    lemma_sub_mod_noop_right(x % n, cur, n);
    lemma_sub_mod_noop(x, cur, n);
    lemma_small_mod(k as nat, n as nat);
}

/// Why a receive batch stopped short of `batch_size`.
#[derive(PartialEq, Eq, Structural, Clone, Copy, Debug)]
pub enum RxError {
    /// A completed slot without the end-of-packet bit: a multi-descriptor
    /// packet, which this driver rejects.
    UnsupportedPacket,
    /// The free pool had no buffer to recycle into the ring slot.
    PoolExhausted,
}

/// One step of the receive scan, starting `i` deliveries into the batch:
/// how many packets the batch delivers in total, and the error that stops
/// it, if any. The scan reads the ring as it was when the batch began: a
/// slot is consumed only if it is done with end-of-packet set and a pool
/// buffer is left to replace its buffer, and the batch ends quietly at the
/// batch size, at a not-yet-done slot, or after a whole lap of the ring
/// (a consumed slot's status is cleared, so its slot reads as not done).
pub open spec fn rx_progress(
    descs: Seq<AdvancedRxDescriptor>,
    cur: int,
    n: int,
    batch: int,
    pool: int,
    i: int,
) -> (int, Option<RxError>)
    decreases batch - i,
{
    if i >= batch || i >= n {
        (i, None)
    } else if !rx_wb_done(descs[ring_index(cur, i, n)].header_buffer_address@) {
        (i, None)
    } else if !rx_wb_end_of_packet(descs[ring_index(cur, i, n)].header_buffer_address@) {
        (i, Some(RxError::UnsupportedPacket))
    } else if i >= pool {
        (i, Some(RxError::PoolExhausted))
    } else {
        rx_progress(descs, cur, n, batch, pool, i + 1)
    }
}

/// The number of packets a receive batch delivers.
pub open spec fn rx_delivered_count(
    descs: Seq<AdvancedRxDescriptor>,
    cur: int,
    n: int,
    batch: int,
    pool: int,
) -> int {
    rx_progress(descs, cur, n, batch, pool, 0).0
}

/// The error a receive batch ends with, if any.
pub open spec fn rx_batch_outcome(
    descs: Seq<AdvancedRxDescriptor>,
    cur: int,
    n: int,
    batch: int,
    pool: int,
) -> Option<RxError> {
    rx_progress(descs, cur, n, batch, pool, 0).1
}

/// Processes at most `batch_size` receive ring slots in order from the
/// stored cursor. Each completed whole-packet slot gives up its buffer to
/// the delivered queue (its length set from the write-back word), takes a
/// fresh buffer from the pool, and is republished to the hardware. The batch
/// stops quietly at the first not-yet-done slot and aborts on a
/// multi-descriptor packet or an empty pool; in every case the slots already
/// advanced stay committed, the cursor moves past exactly the delivered
/// slots, and the tail register is written with the last slot advanced.
#[verifier::loop_isolation(false)]
pub fn rx_batch(
    rx_descs: &mut Vec<AdvancedRxDescriptor>,
    rx_cur_stored: &mut u16,
    rx_bufs_in_use: &mut VecWrapper<PacketBufferS>,
    regs: &mut RxQueueRegisters,
    num_rx_descs: u16,
    buffers: &mut VecWrapper<PacketBufferS>,
    batch_size: usize,
    pool: &mut VecWrapper<PacketBufferS>,
) -> (result: Result<u16, RxError>)
    requires
        num_rx_descs > 0,
        old(rx_descs)@.len() == num_rx_descs as int,
        old(rx_bufs_in_use)@.len() == num_rx_descs as int,
        *old(rx_cur_stored) < num_rx_descs,
    ensures
        ({
            let n = num_rx_descs as int;
            let cur0 = *old(rx_cur_stored) as int;
            let batch = batch_size as int;
            let pool0 = old(pool)@;
            let d = rx_delivered_count(old(rx_descs)@, cur0, n, batch, pool0.len() as int);
            &&& 0 <= d <= batch
            &&& d <= pool0.len()
            &&& d <= n
            // The returned count is the delivered count; the batch errs
            // exactly when the scan of the initial ring state errs.
            &&& (match rx_batch_outcome(old(rx_descs)@, cur0, n, batch, pool0.len() as int) {
                None => result == Ok::<u16, RxError>(d as u16),
                Some(e) => result == Err::<u16, RxError>(e),
            })
            // The delivered queue grows by exactly the delivered packets, in
            // consumed-slot order: the buffer delivered at position
            // `old_len + k` is the one that occupied slot `(cur0 + k) % n`,
            // carrying the length the hardware wrote back for that slot.
            &&& final(buffers)@.len() == old(buffers)@.len() + d
            &&& (forall|k: int|
                0 <= k < old(buffers)@.len() ==> final(buffers)@[k] == old(buffers)@[k])
            &&& (forall|k: int|
                0 <= k < d ==> {
                    let slot = #[trigger] ring_index(cur0, k, n);
                    let delivered = final(buffers)@[old(buffers)@.len() + k];
                    &&& delivered.phys_addr == old(rx_bufs_in_use)@[slot].phys_addr
                    &&& delivered.length as u64 == rx_wb_length(
                        old(rx_descs)@[slot].header_buffer_address@,
                    )
                })
            // The pool loses its last `d` buffers, which take over the
            // consumed slots of the in-use table, whose length is unchanged.
            &&& final(pool)@ == pool0.take(pool0.len() - d)
            &&& final(rx_bufs_in_use)@.len() == num_rx_descs as int
            &&& (forall|k: int|
                0 <= k < d ==> final(rx_bufs_in_use)@[#[trigger] ring_index(cur0, k, n)]
                    == pool0[pool0.len() - 1 - k])
            // The consumed ring slots are reprogrammed with the recycled
            // buffers' addresses and their write-back status cleared.
            &&& final(rx_descs)@.len() == n
            &&& (forall|k: int|
                0 <= k < d ==> {
                    let slot = #[trigger] ring_index(cur0, k, n);
                    &&& final(rx_descs)@[slot].packet_buffer_address@ == pool0[pool0.len() - 1
                        - k].phys_addr.value() as u64
                    &&& final(rx_descs)@[slot].header_buffer_address@ == 0
                })
            // Slots the batch did not consume are untouched, in both the
            // ring and the in-use table.
            &&& (forall|j: int|
                0 <= j < n && #[trigger] slot_offset(cur0, j, n) >= d ==> {
                    &&& final(rx_descs)@[j] == old(rx_descs)@[j]
                    &&& final(rx_bufs_in_use)@[j] == old(rx_bufs_in_use)@[j]
                })
            // buffers only move between owners: none is created or lost
            &&& final(pool)@.len() + final(rx_bufs_in_use)@.len() + final(buffers)@.len()
                == pool0.len() + old(rx_bufs_in_use)@.len() + old(buffers)@.len()
            // A batch that delivered moves the cursor past the delivered
            // slots and hands the hardware the last slot advanced; an empty
            // batch leaves cursor and registers untouched.
            &&& (d > 0 ==> {
                &&& *final(rx_cur_stored) as int == ring_index(cur0, d, n)
                &&& final(regs).spec_rdt() as int == ring_index(cur0, d - 1, n)
                &&& old(regs).eq_except_rdt(final(regs))
            })
            &&& (d == 0 ==> {
                &&& *final(rx_cur_stored) == *old(rx_cur_stored)
                &&& *final(regs) == *old(regs)
            })
            &&& *final(rx_cur_stored) < num_rx_descs
        }),
{
    let ghost n = num_rx_descs as int;
    let ghost cur0 = *old(rx_cur_stored) as int;
    let ghost pool0 = pool@;

    let mut rx_cur: u16 = *rx_cur_stored;
    let mut last_rx_cur: u16 = *rx_cur_stored;

    // the cursor advanced without the modulus, reduced once at batch end
    let mut rx_cur_total: usize = *rx_cur_stored as usize;

    let mut rcvd_pkts: u16 = 0;
    let mut i: usize = 0;
    let mut err: Option<RxError> = None;
    let mut stopped: bool = false;

    proof {
        lemma_small_mod(cur0 as nat, n as nat);
    }
    while !stopped && i < batch_size
        invariant
            !stopped ==> err is None,
            stopped ==> rx_progress(
                old(rx_descs)@,
                cur0,
                n,
                batch_size as int,
                pool0.len() as int,
                0,
            ) == (rcvd_pkts as int, err),
            rcvd_pkts as int == i as int,
            i <= batch_size,
            rcvd_pkts as int <= n,
            rcvd_pkts as int <= pool0.len(),
            rx_cur as int == ring_index(cur0, rcvd_pkts as int, n),
            rx_cur_total == cur0 + rcvd_pkts as int,
            last_rx_cur as int == if rcvd_pkts == 0 {
                cur0
            } else {
                ring_index(cur0, rcvd_pkts as int - 1, n)
            },
            *rx_cur_stored == *old(rx_cur_stored),
            *regs == *old(regs),
            rx_descs@.len() == n,
            rx_bufs_in_use@.len() == n,
            pool@ == pool0.take(pool0.len() - rcvd_pkts as int),
            buffers@.len() == old(buffers)@.len() + rcvd_pkts as int,
            forall|k: int|
                0 <= k < old(buffers)@.len() ==> buffers@[k] == old(buffers)@[k],
            forall|k: int|
                0 <= k < rcvd_pkts as int ==> {
                    let slot = #[trigger] ring_index(cur0, k, n);
                    let delivered = buffers@[old(buffers)@.len() + k];
                    &&& delivered.phys_addr == old(rx_bufs_in_use)@[slot].phys_addr
                    &&& delivered.length as u64 == rx_wb_length(
                        old(rx_descs)@[slot].header_buffer_address@,
                    )
                },
            forall|k: int|
                0 <= k < rcvd_pkts as int ==> rx_bufs_in_use@[#[trigger] ring_index(cur0, k, n)]
                    == pool0[pool0.len() - 1 - k],
            forall|k: int|
                0 <= k < rcvd_pkts as int ==> {
                    let slot = #[trigger] ring_index(cur0, k, n);
                    &&& rx_descs@[slot].packet_buffer_address@ == pool0[pool0.len() - 1
                        - k].phys_addr.value() as u64
                    &&& rx_descs@[slot].header_buffer_address@ == 0
                },
            forall|j: int|
                0 <= j < n && #[trigger] slot_offset(cur0, j, n) >= rcvd_pkts as int ==> {
                    &&& rx_descs@[j] == old(rx_descs)@[j]
                    &&& rx_bufs_in_use@[j] == old(rx_bufs_in_use)@[j]
                },
            rx_progress(old(rx_descs)@, cur0, n, batch_size as int, pool0.len() as int, 0)
                == rx_progress(
                old(rx_descs)@,
                cur0,
                n,
                batch_size as int,
                pool0.len() as int,
                rcvd_pkts as int,
            ),
        decreases (if stopped { 0int } else { 1int }), batch_size - i,
    {
        proof {
            lemma_ring_index_range(cur0, rcvd_pkts as int, n);
            if (rcvd_pkts as int) < n {
                lemma_slot_offset_of_ring_index(cur0, rcvd_pkts as int, n);
            } else {
                // after a whole lap the cursor is back on the first consumed
                // slot, whose cleared status stops the batch
                lemma_slot_offset_of_ring_index(cur0, 0, n);
                lemma_add_mod_noop_right(cur0, n, n);
                lemma_small_mod(cur0 as nat, n as nat);
                assert(ring_index(cur0, rcvd_pkts as int, n) == ring_index(cur0, 0, n));
                assert(!rx_wb_done(0)) by (bit_vector);
            }
        }
        if !rx_descs[rx_cur as usize].descriptor_done() {
            // the hardware has not produced this packet yet: stop quietly
            stopped = true;
        } else if !rx_descs[rx_cur as usize].end_of_packet() {
            // multi-descriptor packets are not supported
            err = Some(RxError::UnsupportedPacket);
            stopped = true;
        } else {
            let length = rx_descs[rx_cur as usize].length();
            proof {
                let wb = rx_descs@[rx_cur as int].header_buffer_address@;
                assert((wb >> 48) < 0x10000) by (bit_vector);
            }
            // This receive buffer leaves the ring for the upper layers, so a
            // fresh buffer must take its place before the slot is republished.
            match pool.pop() {
                Some(new_receive_buf) => {
                    proof {
                        assert forall|k: int| 0 <= k < rcvd_pkts as int implies #[trigger]
                            ring_index(cur0, k, n) != rx_cur as int by {
                            lemma_slot_offset_of_ring_index(cur0, k, n);
                        }
                    }
                    // move the old buffer out of the in-use table first;
                    // only then is the slot republished to the hardware
                    let new_address = new_receive_buf.phys_addr;
                    let mut current_rx_buf = rx_bufs_in_use.replace(
                        rx_cur as usize,
                        new_receive_buf,
                    );
                    // tell the hardware about the new receive buffer: it is ready for use now
                    rx_descs[rx_cur as usize].set_packet_address(new_address);
                    rx_descs[rx_cur as usize].reset_status();

                    // the delivered buffer's length is the received packet's
                    current_rx_buf.length = length as u16;
                    buffers.push(current_rx_buf);

                    proof {
                        assert(rx_progress(
                            old(rx_descs)@,
                            cur0,
                            n,
                            batch_size as int,
                            pool0.len() as int,
                            rcvd_pkts as int,
                        ) == rx_progress(
                            old(rx_descs)@,
                            cur0,
                            n,
                            batch_size as int,
                            pool0.len() as int,
                            rcvd_pkts as int + 1,
                        ));
                        assert(pool@ =~= pool0.take(pool0.len() - (rcvd_pkts as int + 1)));
                        lemma_add_mod_noop_right(1, cur0 + rcvd_pkts as int, n);
                    }
                    rcvd_pkts += 1;
                    rx_cur_total += 1;
                    last_rx_cur = rx_cur;
                    rx_cur = (rx_cur + 1) % num_rx_descs;
                    i += 1;
                },
                None => {
                    err = Some(RxError::PoolExhausted);
                    stopped = true;
                },
            }
        }
    }

    proof {
        if !stopped {
            assert(rx_progress(
                old(rx_descs)@,
                cur0,
                n,
                batch_size as int,
                pool0.len() as int,
                rcvd_pkts as int,
            ) == (rcvd_pkts as int, err));
        }
        assert(rx_progress(old(rx_descs)@, cur0, n, batch_size as int, pool0.len() as int, 0) == (
            rcvd_pkts as int,
            err,
        ));
        lemma_ring_index_range(cur0, rcvd_pkts as int, n);
    }
    if rcvd_pkts != 0 {
        *rx_cur_stored = (rx_cur_total % (num_rx_descs as usize)) as u16;
        regs.write_rdt(last_rx_cur as u32);
    }
    match err {
        None => Ok(rcvd_pkts),
        Some(e) => Err(e),
    }
}

/// Law: a receive batch consumes only completed whole packets, in order and
/// without gaps — every slot the scan counts was done with end-of-packet
/// set, within the batch and the ring's first lap, with a pool buffer left
/// for it.
pub proof fn lemma_rx_delivered_slots_complete(
    descs: Seq<AdvancedRxDescriptor>,
    cur: int,
    n: int,
    batch: int,
    pool: int,
    i: int,
)
    requires
        0 <= i,
    ensures
        forall|k: int|
            i <= k < rx_progress(descs, cur, n, batch, pool, i).0 ==> {
                &&& rx_wb_done(descs[ring_index(cur, k, n)].header_buffer_address@)
                &&& rx_wb_end_of_packet(descs[ring_index(cur, k, n)].header_buffer_address@)
                &&& k < batch
                &&& k < n
                &&& k < pool
            },
    decreases batch - i,
{
    if !(i >= batch || i >= n)
        && rx_wb_done(descs[ring_index(cur, i, n)].header_buffer_address@)
        && rx_wb_end_of_packet(descs[ring_index(cur, i, n)].header_buffer_address@)
        && i < pool {
        lemma_rx_delivered_slots_complete(descs, cur, n, batch, pool, i + 1);
    }
}

/// A full cleaning batch reclaims exactly this many transmit slots at once,
/// so that the hardware status poll is amortized.
pub const TX_CLEAN_BATCH: usize = 32;

/// How many completed transmit slots one cleaning pass reclaims, starting
/// with the clean cursor at `clean` and `in_use` buffers outstanding. A
/// batch of 32 slots is reclaimed only when at least 32 slots lie between
/// the clean cursor and the current cursor and the hardware has set the
/// done bit on the batch's last slot; fewer than 32 move only when the
/// in-use table runs out, which ends the pass.
pub open spec fn tx_clean_count(
    descs: Seq<AdvancedTxDescriptor>,
    clean: int,
    cur: int,
    n: int,
    in_use: int,
) -> int
    decreases slot_offset(clean, cur, n),
        via tx_clean_count_decreases
{
    if n <= 0 {
        0
    } else {
        let cleanable = slot_offset(clean, cur, n);
        if cleanable < TX_CLEAN_BATCH as int {
            0
        } else if !tx_sta_done(
            descs[ring_index(clean, TX_CLEAN_BATCH as int - 1, n)].paylen_popts_cc_idx_sta@,
        ) {
            0
        } else if in_use < TX_CLEAN_BATCH as int {
            in_use
        } else {
            TX_CLEAN_BATCH as int + tx_clean_count(
                descs,
                ring_index(clean, TX_CLEAN_BATCH as int, n),
                cur,
                n,
                in_use - TX_CLEAN_BATCH as int,
            )
        }
    }
}

#[via_fn]
proof fn tx_clean_count_decreases(
    descs: Seq<AdvancedTxDescriptor>,
    clean: int,
    cur: int,
    n: int,
    in_use: int,
) {
    if n > 0 && slot_offset(clean, cur, n) >= TX_CLEAN_BATCH as int {
        lemma_cleanable_after_batch(clean, cur, n);
    }
}

/// Advancing the clean cursor by a full batch shrinks the cleanable run by
/// exactly that batch.
pub proof fn lemma_cleanable_after_batch(clean: int, cur: int, n: int)
    requires
        n > 0,
        slot_offset(clean, cur, n) >= TX_CLEAN_BATCH as int,
    ensures
        slot_offset(ring_index(clean, TX_CLEAN_BATCH as int, n), cur, n) == slot_offset(
            clean,
            cur,
            n,
        ) - TX_CLEAN_BATCH as int,
{
    let b = TX_CLEAN_BATCH as int;
    let cleanable = slot_offset(clean, cur, n);
    lemma_mod_division_less_than_divisor(cur - clean, n);
    lemma_sub_mod_noop_right(cur, clean + b, n);
    lemma_sub_mod_noop(cur - clean, b, n);
    lemma_small_mod(b as nat, n as nat);
    lemma_small_mod((cleanable - b) as nat, n as nat);
}

/// Reclaims completed transmit slots in full batches of 32: while at least
/// 32 slots separate the clean cursor from the current cursor and the done
/// bit is set on the last slot of the candidate batch, moves up to 32
/// buffers from the front of the in-use table to the used queue (fewer than
/// 32 only when the table runs out, which ends the pass) and advances the
/// clean cursor by the number moved. Returns the total reclaimed; the used
/// queue receives the buffers in ring-slot order.
#[verifier::loop_isolation(false)]
pub fn tx_clean(
    tx_descs: &Vec<AdvancedTxDescriptor>,
    tx_bufs_in_use: &mut VecWrapper<PacketBufferS>,
    tx_clean_stored: &mut u16,
    tx_cur_stored: &u16,
    num_tx_descs: u16,
    used_buffers: &mut VecWrapper<PacketBufferS>,
) -> (pkts_removed: usize)
    requires
        num_tx_descs > 0,
        tx_descs@.len() == num_tx_descs as int,
        *old(tx_clean_stored) < num_tx_descs,
        *tx_cur_stored < num_tx_descs,
    ensures
        ({
            let n = num_tx_descs as int;
            let clean0 = *old(tx_clean_stored) as int;
            let cur = *tx_cur_stored as int;
            let r = tx_clean_count(tx_descs@, clean0, cur, n, old(tx_bufs_in_use)@.len() as int);
            &&& pkts_removed == r
            &&& 0 <= r <= old(tx_bufs_in_use)@.len()
            // nothing is reclaimed unless the done bit was observed set on
            // the first batch's boundary slot
            &&& (r > 0 ==> tx_sta_done(
                tx_descs@[ring_index(clean0, TX_CLEAN_BATCH as int - 1, n)].paylen_popts_cc_idx_sta@,
            ))
            // reclamation happens in whole batches of 32; only a final
            // partial batch that empties the in-use table may fall short
            &&& (r % (TX_CLEAN_BATCH as int) == 0 || final(tx_bufs_in_use)@.len() == 0)
            // reclaimed buffers leave the front of the in-use table and
            // append to the used queue in ring-slot order
            &&& final(tx_bufs_in_use)@ == old(tx_bufs_in_use)@.skip(r)
            &&& final(used_buffers)@ == old(used_buffers)@ + old(tx_bufs_in_use)@.take(r)
            // buffers only move between owners: none is created or lost
            &&& final(tx_bufs_in_use)@.len() + final(used_buffers)@.len()
                == old(tx_bufs_in_use)@.len() + old(used_buffers)@.len()
            // the clean cursor advances past exactly the reclaimed slots
            &&& *final(tx_clean_stored) as int == ring_index(clean0, r, n)
            &&& *final(tx_clean_stored) < num_tx_descs
        }),
{
    let ghost n = num_tx_descs as int;
    let ghost clean0 = *old(tx_clean_stored) as int;
    let ghost in_use0 = old(tx_bufs_in_use)@;
    let ghost used0 = old(used_buffers)@;

    let tx_cur: u16 = *tx_cur_stored;
    let mut clean_cur: u16 = *tx_clean_stored;
    let mut pkts_removed: usize = 0;
    let mut stopped: bool = false;
    let initial_in_use_len: usize = tx_bufs_in_use.len();

    proof {
        lemma_small_mod(clean0 as nat, n as nat);
        assert(tx_bufs_in_use@ =~= in_use0.skip(0));
        assert(used_buffers@ =~= used0 + in_use0.take(0));
    }
    while !stopped
        invariant
            in_use0.len() == initial_in_use_len as int,
            pkts_removed <= in_use0.len(),
            clean_cur as int == ring_index(clean0, pkts_removed as int, n),
            clean_cur < num_tx_descs,
            *tx_clean_stored == *old(tx_clean_stored),
            tx_bufs_in_use@ == in_use0.skip(pkts_removed as int),
            used_buffers@ == used0 + in_use0.take(pkts_removed as int),
            pkts_removed % TX_CLEAN_BATCH == 0 || tx_bufs_in_use@.len() == 0,
            !stopped ==> tx_clean_count(tx_descs@, clean0, tx_cur as int, n, in_use0.len() as int)
                == pkts_removed as int + tx_clean_count(
                tx_descs@,
                clean_cur as int,
                tx_cur as int,
                n,
                tx_bufs_in_use@.len() as int,
            ),
            stopped ==> tx_clean_count(tx_descs@, clean0, tx_cur as int, n, in_use0.len() as int)
                == pkts_removed as int,
        decreases (if stopped { 0int } else { 1int }), slot_offset(clean_cur as int, tx_cur as int, n),
    {
        proof {
            lemma_mod_division_less_than_divisor(tx_cur as int - clean_cur as int, n);
        }
        let mut cleanable: i32 = tx_cur as i32 - clean_cur as i32;
        if cleanable < 0 {
            cleanable += num_tx_descs as i32;
        }
        proof {
            if tx_cur >= clean_cur {
                lemma_small_mod((tx_cur - clean_cur) as nat, n as nat);
            } else {
                lemma_mod_add_multiples_vanish(tx_cur as int - clean_cur as int, n);
                lemma_small_mod((tx_cur as int - clean_cur as int + n) as nat, n as nat);
            }
            assert(cleanable as int == slot_offset(clean_cur as int, tx_cur as int, n));
        }

        if cleanable < TX_CLEAN_BATCH as i32 {
            stopped = true;
        } else {
            let mut cleanup_to: usize = clean_cur as usize + TX_CLEAN_BATCH - 1;
            if cleanup_to >= num_tx_descs as usize {
                cleanup_to -= num_tx_descs as usize;
            }
            proof {
                if clean_cur as int + TX_CLEAN_BATCH as int - 1 < n {
                    lemma_small_mod((clean_cur as int + TX_CLEAN_BATCH as int - 1) as nat, n as nat);
                } else {
                    lemma_mod_add_multiples_vanish(
                        clean_cur as int + TX_CLEAN_BATCH as int - 1 - n,
                        n,
                    );
                    lemma_small_mod(
                        (clean_cur as int + TX_CLEAN_BATCH as int - 1 - n) as nat,
                        n as nat,
                    );
                }
                assert(cleanup_to as int == ring_index(
                    clean_cur as int,
                    TX_CLEAN_BATCH as int - 1,
                    n,
                ));
            }
            if tx_descs[cleanup_to].desc_done() {
                let in_use_len = tx_bufs_in_use.len();
                let to_move: usize = if in_use_len < TX_CLEAN_BATCH {
                    in_use_len
                } else {
                    TX_CLEAN_BATCH
                };
                let ghost moved_base = pkts_removed as int;
                let mut k: usize = 0;
                while k < to_move
                    invariant
                        k <= to_move,
                        to_move <= TX_CLEAN_BATCH,
                        moved_base + to_move <= in_use0.len(),
                        tx_bufs_in_use@ == in_use0.skip(moved_base + k as int),
                        used_buffers@ == used0 + in_use0.take(moved_base + k as int),
                    decreases to_move - k,
                {
                    let buf = tx_bufs_in_use.remove_front();
                    used_buffers.push(buf);
                    proof {
                        assert(tx_bufs_in_use@ =~= in_use0.skip(moved_base + k as int + 1));
                        assert(used_buffers@ =~= used0 + in_use0.take(moved_base + k as int + 1));
                    }
                    k += 1;
                }
                proof {
                    lemma_cleanable_after_batch(clean_cur as int, tx_cur as int, n);
                    lemma_add_mod_noop_right(to_move as int, clean0 + pkts_removed as int, n);
                    lemma_ring_index_range(clean_cur as int, to_move as int, n);
                    lemma_add_mod_noop_right(clean_cur as int, to_move as int, n);
                    assert(ring_index(clean0, pkts_removed as int + to_move as int, n)
                        == ring_index(clean_cur as int, to_move as int, n));
                }
                pkts_removed += to_move;
                clean_cur = ((clean_cur as usize + to_move) % (num_tx_descs as usize)) as u16;
                if to_move < TX_CLEAN_BATCH {
                    // the in-use table ran dry: this partial batch ends the pass
                    stopped = true;
                }
            } else {
                stopped = true;
            }
        }
    }

    *tx_clean_stored = clean_cur;
    pkts_removed
}

/// The inverse of `lemma_slot_offset_of_ring_index`: a slot within the ring
/// is reached by advancing exactly its offset from the start.
pub proof fn lemma_ring_index_of_slot_offset(cur: int, j: int, n: int)
    requires
        n > 0,
        0 <= j < n,
    ensures
        ring_index(cur, slot_offset(cur, j, n), n) == j,
{
    lemma_add_mod_noop_right(cur, j - cur, n);
    lemma_small_mod(j as nat, n as nat);
}

/// Slots available for new outbound descriptors before the ring-full check
/// trips: the slot just before the clean cursor always stays unused, which
/// keeps a full ring distinguishable from an empty one.
pub open spec fn tx_free_slots(cur: int, clean: int, n: int) -> int {
    let o = slot_offset(cur, clean, n);
    if o == 0 {
        n - 1
    } else {
        o - 1
    }
}

/// The number of packets a transmit batch sends: bounded by the batch size,
/// by the outbound queue, and by the free ring slots, whichever runs out
/// first.
pub open spec fn tx_sent_count(batch: int, outbound: int, free: int) -> int {
    if batch <= outbound && batch <= free {
        batch
    } else if outbound <= free {
        outbound
    } else {
        free
    }
}

/// The outbound buffers a batch sends, in send order: popped from the back
/// of the outbound queue.
pub open spec fn tx_sent_seq(outbound: Seq<PacketBufferS>, s: int) -> Seq<PacketBufferS> {
    Seq::new(s as nat, |i: int| outbound[outbound.len() - 1 - i])
}

/// The ring-full check `next == clean` trips exactly when the batch has
/// used up every free slot.
pub proof fn lemma_tx_full_check(cur: int, clean: int, sent: int, n: int)
    requires
        n > 0,
        0 <= cur < n,
        0 <= clean < n,
        0 <= sent <= tx_free_slots(cur, clean, n),
    ensures
        ring_index(cur, sent + 1, n) == clean <==> sent == tx_free_slots(cur, clean, n),
{
    let o = slot_offset(cur, clean, n);
    lemma_mod_division_less_than_divisor(clean - cur, n);
    lemma_ring_index_of_slot_offset(cur, clean, n);
    lemma_ring_index_range(cur, sent + 1, n);
    lemma_small_mod(cur as nat, n as nat);
    assert(slot_offset(cur, cur, n) == 0) by {
        lemma_small_mod(0nat, n as nat);
    }
    if sent + 1 < n {
        lemma_slot_offset_of_ring_index(cur, sent + 1, n);
        if o == 0 {
            assert(clean == ring_index(cur, 0, n));
            lemma_slot_offset_of_ring_index(cur, 0, n);
        }
    } else {
        // sent + 1 == n: the next slot is the batch's own starting slot
        lemma_mod_add_multiples_vanish(cur, n);
        assert(ring_index(cur, sent + 1, n) == cur);
    }
}

/// First reclaims completed sends, then pops up to `batch_size` buffers
/// from the back of the outbound queue and programs one transmit descriptor
/// for each, stopping quietly when the queue runs out or when the ring is
/// full (the popped buffer is pushed back, preserving the queue). The
/// current cursor moves past exactly the programmed slots and the tail
/// register is always written with the final cursor, even when nothing was
/// sent. Returns `(packets_sent, packets_reclaimed)`; a full ring is
/// backpressure, never an error.
#[verifier::loop_isolation(false)]
pub fn tx_batch(
    tx_descs: &mut Vec<AdvancedTxDescriptor>,
    tx_bufs_in_use: &mut VecWrapper<PacketBufferS>,
    num_tx_descs: u16,
    tx_clean_stored: &mut u16,
    tx_cur_stored: &mut u16,
    regs: &mut TxQueueRegisters,
    batch_size: usize,
    buffers: &mut VecWrapper<PacketBufferS>,
    used_buffers: &mut VecWrapper<PacketBufferS>,
) -> (result: Result<(u16, usize), &'static str>)
    requires
        num_tx_descs > 0,
        old(tx_descs)@.len() == num_tx_descs as int,
        *old(tx_cur_stored) < num_tx_descs,
        *old(tx_clean_stored) < num_tx_descs,
    ensures
        ({
            let n = num_tx_descs as int;
            let cur0 = *old(tx_cur_stored) as int;
            let clean0 = *old(tx_clean_stored) as int;
            let in_use0 = old(tx_bufs_in_use)@;
            let bufs0 = old(buffers)@;
            let r = tx_clean_count(old(tx_descs)@, clean0, cur0, n, in_use0.len() as int);
            let clean1 = ring_index(clean0, r, n);
            let free = tx_free_slots(cur0, clean1, n);
            let s = tx_sent_count(batch_size as int, bufs0.len() as int, free);
            &&& 0 <= s <= batch_size
            &&& s <= bufs0.len()
            &&& s < n
            &&& 0 <= r <= in_use0.len()
            &&& result == Ok::<(u16, usize), &'static str>((s as u16, r as usize))
            // the current cursor moves past exactly the sent slots; the
            // clean cursor past exactly the reclaimed ones
            &&& *final(tx_cur_stored) as int == ring_index(cur0, s, n)
            &&& *final(tx_cur_stored) < num_tx_descs
            &&& *final(tx_clean_stored) as int == clean1
            &&& *final(tx_clean_stored) < num_tx_descs
            // the outbound queue loses its last `s` buffers and nothing else
            &&& final(buffers)@ == bufs0.take(bufs0.len() - s)
            // the used queue gains the reclaimed buffers in ring-slot order
            &&& final(used_buffers)@ == old(used_buffers)@ + in_use0.take(r)
            // the in-use table drops the `r` reclaimed buffers from its
            // front and appends the `s` sent buffers in send order
            &&& final(tx_bufs_in_use)@ == in_use0.skip(r) + tx_sent_seq(bufs0, s)
            &&& final(tx_bufs_in_use)@.len() == in_use0.len() - r + s
            // each sent slot is programmed as an advanced descriptor for
            // its buffer: address, length, payload length at its field
            // offset, and the end-of-packet, FCS, report-status and
            // descriptor-extension command bits
            &&& final(tx_descs)@.len() == n
            &&& (forall|k: int|
                0 <= k < s ==> {
                    let slot = #[trigger] ring_index(cur0, k, n);
                    let sent_buf = bufs0[bufs0.len() - 1 - k];
                    &&& final(tx_descs)@[slot].packet_buffer_address@
                        == sent_buf.phys_addr.value() as u64
                    &&& final(tx_descs)@[slot].data_len@ == sent_buf.length
                    &&& final(tx_descs)@[slot].dtyp_mac_rsv@ == TX_DTYP_ADV
                    &&& final(tx_descs)@[slot].paylen_popts_cc_idx_sta@ == (sent_buf.length
                        as u32) << (TX_PAYLEN_SHIFT as u32)
                    &&& final(tx_descs)@[slot].dcmd@ == TX_CMD_DEXT
                        | TX_CMD_RS | TX_CMD_IFCS
                        | TX_CMD_EOP
                })
            // slots the batch did not program are untouched
            &&& (forall|j: int|
                0 <= j < n && #[trigger] slot_offset(cur0, j, n) >= s ==> final(tx_descs)@[j]
                    == old(tx_descs)@[j])
            // buffers only move between owners: none is created or lost
            &&& final(buffers)@.len() + final(tx_bufs_in_use)@.len() + final(used_buffers)@.len()
                == bufs0.len() + in_use0.len() + old(used_buffers)@.len()
            // the tail register is always written with the final cursor
            &&& final(regs).spec_tdt() as int == ring_index(cur0, s, n)
            &&& old(regs).eq_except_tdt(final(regs))
        }),
{
    let ghost n = num_tx_descs as int;
    let ghost cur0 = *old(tx_cur_stored) as int;
    let ghost in_use0 = old(tx_bufs_in_use)@;
    let ghost bufs0 = buffers@;

    let pkts_removed = tx_clean(
        tx_descs,
        tx_bufs_in_use,
        tx_clean_stored,
        tx_cur_stored,
        num_tx_descs,
        used_buffers,
    );
    let ghost r = pkts_removed as int;

    let mut pkts_sent: u16 = 0;
    let tx_clean_cur: u16 = *tx_clean_stored;
    let mut tx_cur: u16 = *tx_cur_stored;

    // the cursor advanced without the modulus, reduced once at batch end
    let mut tx_cur_total: usize = tx_cur as usize;

    let ghost clean1 = tx_clean_cur as int;
    let ghost free = tx_free_slots(cur0, clean1, n);

    let mut i: usize = 0;
    let mut stopped: bool = false;

    proof {
        lemma_small_mod(cur0 as nat, n as nat);
        lemma_mod_division_less_than_divisor(clean1 - cur0, n);
        assert(buffers@ =~= bufs0.take(bufs0.len() - 0));
        assert(tx_bufs_in_use@ =~= in_use0.skip(r) + tx_sent_seq(bufs0, 0));
    }
    while !stopped && i < batch_size
        invariant
            pkts_sent as int == i as int,
            i <= batch_size,
            pkts_sent as int <= free,
            pkts_sent as int <= bufs0.len(),
            tx_cur as int == ring_index(cur0, pkts_sent as int, n),
            tx_cur < num_tx_descs,
            tx_cur_total == cur0 + pkts_sent as int,
            *tx_cur_stored == *old(tx_cur_stored),
            *tx_clean_stored as int == clean1,
            *regs == *old(regs),
            tx_descs@.len() == n,
            buffers@ == bufs0.take(bufs0.len() - pkts_sent as int),
            tx_bufs_in_use@ == in_use0.skip(r) + tx_sent_seq(bufs0, pkts_sent as int),
            used_buffers@ == old(used_buffers)@ + in_use0.take(r),
            forall|k: int|
                0 <= k < pkts_sent as int ==> {
                    let slot = #[trigger] ring_index(cur0, k, n);
                    let sent_buf = bufs0[bufs0.len() - 1 - k];
                    &&& tx_descs@[slot].packet_buffer_address@
                        == sent_buf.phys_addr.value() as u64
                    &&& tx_descs@[slot].data_len@ == sent_buf.length
                    &&& tx_descs@[slot].dtyp_mac_rsv@ == TX_DTYP_ADV
                    &&& tx_descs@[slot].paylen_popts_cc_idx_sta@ == (sent_buf.length as u32)
                        << (TX_PAYLEN_SHIFT as u32)
                    &&& tx_descs@[slot].dcmd@ == TX_CMD_DEXT
                        | TX_CMD_RS | TX_CMD_IFCS
                        | TX_CMD_EOP
                },
            forall|j: int|
                0 <= j < n && #[trigger] slot_offset(cur0, j, n) >= pkts_sent as int
                    ==> tx_descs@[j] == old(tx_descs)@[j],
            stopped ==> pkts_sent as int == tx_sent_count(
                batch_size as int,
                bufs0.len() as int,
                free,
            ),
        decreases (if stopped { 0int } else { 1int }), batch_size - i,
    {
        match buffers.pop() {
            Some(packet) => {
                let tx_next = (tx_cur + 1) % num_tx_descs;
                proof {
                    lemma_add_mod_noop_right(1, cur0 + pkts_sent as int, n);
                    lemma_ring_index_range(cur0, pkts_sent as int + 1, n);
                    lemma_tx_full_check(cur0, clean1, pkts_sent as int, n);
                }
                if tx_clean_cur == tx_next {
                    // the device's ring is full: push the packet back onto
                    // the queue of to-be-sent packets and stop
                    buffers.push(packet);
                    proof {
                        assert(buffers@ =~= bufs0.take(bufs0.len() - pkts_sent as int));
                    }
                    stopped = true;
                } else {
                    proof {
                        lemma_slot_offset_of_ring_index(cur0, pkts_sent as int, n);
                        assert forall|k: int| 0 <= k < pkts_sent as int implies #[trigger]
                            ring_index(cur0, k, n) != tx_cur as int by {
                            lemma_slot_offset_of_ring_index(cur0, k, n);
                        }
                    }
                    tx_descs[tx_cur as usize].send(packet.phys_addr, packet.length);
                    tx_bufs_in_use.push(packet);
                    proof {
                        assert(tx_bufs_in_use@ =~= in_use0.skip(r) + tx_sent_seq(
                            bufs0,
                            pkts_sent as int + 1,
                        ));
                        assert(buffers@ =~= bufs0.take(bufs0.len() - (pkts_sent as int + 1)));
                    }
                    tx_cur = tx_next;
                    pkts_sent += 1;
                    tx_cur_total += 1;
                    i += 1;
                }
            },
            None => {
                // the outbound queue is empty: nothing more to send
                stopped = true;
            },
        }
    }

    proof {
        lemma_ring_index_range(cur0, pkts_sent as int, n);
    }
    *tx_cur_stored = (tx_cur_total % (num_tx_descs as usize)) as u16;
    regs.write_tdt(tx_cur as u32);

    Ok((pkts_sent, pkts_removed))
}

} // verus!
