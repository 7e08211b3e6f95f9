use nic_dataplane::structs::{
    AdvancedRxDescriptor, AllocatedPages, Frame, MappedPages, PacketBufferS, PhysicalAddress,
    RangeInclusive, RxQueueRegisters, Volatile,
};
use nic_dataplane::tx_rx::{rx_batch, RxError};
use nic_dataplane::vector_spec::VecWrapper;

fn buf(addr: usize) -> PacketBufferS {
    PacketBufferS::new(
        MappedPages::new(Frame::new(0), AllocatedPages::new(RangeInclusive::new(0, 0))),
        PhysicalAddress::new(addr),
        0,
    )
}

/// A receive write-back word: bit 0 = done, bit 1 = end of packet, received
/// length in the upper 16 bits.
fn wb(done: bool, eop: bool, len: u16) -> u64 {
    (done as u64) | ((eop as u64) << 1) | ((len as u64) << 48)
}

fn desc(wb_word: u64) -> AdvancedRxDescriptor {
    let mut d = AdvancedRxDescriptor::new();
    d.header_buffer_address.write(wb_word);
    d
}

fn in_use_table(base_addr: usize, n: usize) -> VecWrapper<PacketBufferS> {
    let mut table = VecWrapper::new();
    for i in 0..n {
        table.push(buf(base_addr + i));
    }
    table
}

#[test]
fn rx_descriptor_write_back_fields() {
    let d = desc(wb(true, true, 1500));
    assert!(d.descriptor_done());
    assert!(d.end_of_packet());
    assert_eq!(d.length(), 1500);
    assert_eq!(d.get_pkt_len(), 1500);
    let (done, len) = d.rx_metadata();
    assert!(done);
    assert_eq!(len, 1500);

    let d = desc(wb(true, false, 60));
    assert!(d.descriptor_done());
    assert!(!d.end_of_packet());

    let d = desc(0);
    assert!(!d.descriptor_done());
    assert!(!d.end_of_packet());

    // the status field keeps only the low 20 bits
    let d = desc(0xFFFF_FFFF_FFFF_FFFF);
    assert_eq!(d.get_ext_status(), 0xFFFFF);
}

#[test]
fn rx_descriptor_programming() {
    let mut d = desc(wb(true, true, 64));
    d.set_packet_address(PhysicalAddress::new(0xABCD));
    assert_eq!(d.packet_buffer_address.read(), 0xABCD);
    assert!(d.descriptor_done());
    d.reset_status();
    assert!(!d.descriptor_done());
    assert_eq!(d.packet_buffer_address.read(), 0xABCD);

    let mut d2 = AdvancedRxDescriptor::new();
    d2.init(PhysicalAddress::new(0x1234));
    assert_eq!(d2.packet_buffer_address.read(), 0x1234);
    assert_eq!(d2.header_buffer_address.read(), 0);
}

#[test]
fn volatile_cell_returns_last_write() {
    let mut cell: Volatile<u32> = Volatile::new(7);
    assert_eq!(cell.read(), 7);
    cell.write(42);
    assert_eq!(cell.read(), 42);
}

#[test]
fn rx_batch_delivers_in_slot_order() {
    let mut descs = vec![
        desc(wb(true, true, 100)),
        desc(wb(true, true, 200)),
        desc(wb(true, true, 300)),
        desc(wb(true, true, 400)),
    ];
    let mut in_use = in_use_table(10, 4);
    let mut pool = in_use_table(100, 4);
    let mut delivered = VecWrapper::new();
    let mut regs = RxQueueRegisters::new(0);
    let mut cursor: u16 = 0;

    let result = rx_batch(
        &mut descs,
        &mut cursor,
        &mut in_use,
        &mut regs,
        4,
        &mut delivered,
        3,
        &mut pool,
    );
    assert_eq!(result, Ok(3));
    assert_eq!(cursor, 3);
    assert_eq!(regs.read_rdt(), 2);

    // delivered buffers are the old slot occupants, in slot order, with the
    // received lengths from the write-back words
    assert_eq!(delivered.len(), 3);
    assert_eq!(delivered.index(0).phys_addr.value(), 10);
    assert_eq!(delivered.index(1).phys_addr.value(), 11);
    assert_eq!(delivered.index(2).phys_addr.value(), 12);
    assert_eq!(delivered.index(0).length, 100);
    assert_eq!(delivered.index(1).length, 200);
    assert_eq!(delivered.index(2).length, 300);

    // pool buffers were recycled into the consumed slots, from the pool's back
    assert_eq!(pool.len(), 1);
    assert_eq!(in_use.len(), 4);
    assert_eq!(in_use.index(0).phys_addr.value(), 103);
    assert_eq!(in_use.index(1).phys_addr.value(), 102);
    assert_eq!(in_use.index(2).phys_addr.value(), 101);
    assert_eq!(in_use.index(3).phys_addr.value(), 13);

    // consumed slots were reprogrammed and republished
    assert_eq!(descs[0].packet_buffer_address.read(), 103);
    assert!(!descs[0].descriptor_done());
    assert!(descs[3].descriptor_done());
}

#[test]
fn rx_batch_stops_at_first_not_done_slot() {
    let mut descs = vec![
        desc(wb(true, true, 100)),
        desc(0),
        desc(wb(true, true, 300)),
        desc(0),
    ];
    let mut in_use = in_use_table(10, 4);
    let mut pool = in_use_table(100, 4);
    let mut delivered = VecWrapper::new();
    let mut regs = RxQueueRegisters::new(0);
    let mut cursor: u16 = 0;

    let result = rx_batch(
        &mut descs,
        &mut cursor,
        &mut in_use,
        &mut regs,
        4,
        &mut delivered,
        4,
        &mut pool,
    );
    assert_eq!(result, Ok(1));
    assert_eq!(cursor, 1);
    assert_eq!(regs.read_rdt(), 0);
    assert_eq!(delivered.len(), 1);
}

#[test]
fn rx_batch_with_nothing_done_leaves_everything_untouched() {
    let mut descs = vec![desc(0), desc(0), desc(0), desc(0)];
    let mut in_use = in_use_table(10, 4);
    let mut pool = in_use_table(100, 2);
    let mut delivered = VecWrapper::new();
    let mut regs = RxQueueRegisters::new(0);
    let mut cursor: u16 = 2;

    let result = rx_batch(
        &mut descs,
        &mut cursor,
        &mut in_use,
        &mut regs,
        4,
        &mut delivered,
        4,
        &mut pool,
    );
    assert_eq!(result, Ok(0));
    assert_eq!(cursor, 2);
    assert_eq!(regs.read_rdt(), 0);
    assert_eq!(delivered.len(), 0);
    assert_eq!(pool.len(), 2);
}

#[test]
fn rx_batch_rejects_multi_descriptor_packet() {
    let mut descs = vec![
        desc(wb(true, true, 100)),
        desc(wb(true, false, 200)),
        desc(wb(true, true, 300)),
        desc(0),
    ];
    let mut in_use = in_use_table(10, 4);
    let mut pool = in_use_table(100, 4);
    let mut delivered = VecWrapper::new();
    let mut regs = RxQueueRegisters::new(0);
    let mut cursor: u16 = 0;

    let result = rx_batch(
        &mut descs,
        &mut cursor,
        &mut in_use,
        &mut regs,
        4,
        &mut delivered,
        4,
        &mut pool,
    );
    assert_eq!(result, Err(RxError::UnsupportedPacket));
    // the packet delivered before the bad slot stays committed
    assert_eq!(delivered.len(), 1);
    assert_eq!(cursor, 1);
    assert_eq!(regs.read_rdt(), 0);
}

#[test]
fn rx_batch_pool_exhausted_keeps_partial_progress() {
    // ring of 8, cursor at 6, batch of 4, pool of 2, three consecutive done
    // slots from the cursor: two packets are delivered, then the pool runs
    // out; the two delivered buffers stay delivered and the cursor stands
    // past them
    let mut descs = vec![
        desc(wb(true, true, 500)),
        desc(0),
        desc(0),
        desc(0),
        desc(0),
        desc(0),
        desc(wb(true, true, 100)),
        desc(wb(true, true, 200)),
    ];
    let mut in_use = in_use_table(10, 8);
    let mut pool = in_use_table(100, 2);
    let mut delivered = VecWrapper::new();
    let mut regs = RxQueueRegisters::new(0);
    let mut cursor: u16 = 6;

    let result = rx_batch(
        &mut descs,
        &mut cursor,
        &mut in_use,
        &mut regs,
        8,
        &mut delivered,
        4,
        &mut pool,
    );
    assert_eq!(result, Err(RxError::PoolExhausted));
    assert_eq!(cursor, (6 + 2) % 8);
    assert_eq!(delivered.len(), 2);
    assert_eq!(delivered.index(0).phys_addr.value(), 16);
    assert_eq!(delivered.index(1).phys_addr.value(), 17);
    assert_eq!(regs.read_rdt(), 7);
    assert_eq!(pool.len(), 0);
}

#[test]
fn rx_batch_wraps_around_the_ring() {
    let mut descs = vec![
        desc(wb(true, true, 100)),
        desc(0),
        desc(0),
        desc(wb(true, true, 400)),
    ];
    let mut in_use = in_use_table(10, 4);
    let mut pool = in_use_table(100, 4);
    let mut delivered = VecWrapper::new();
    let mut regs = RxQueueRegisters::new(0);
    let mut cursor: u16 = 3;

    let result = rx_batch(
        &mut descs,
        &mut cursor,
        &mut in_use,
        &mut regs,
        4,
        &mut delivered,
        4,
        &mut pool,
    );
    assert_eq!(result, Ok(2));
    assert_eq!(cursor, 1);
    assert_eq!(delivered.index(0).phys_addr.value(), 13);
    assert_eq!(delivered.index(1).phys_addr.value(), 10);
    assert_eq!(regs.read_rdt(), 0);
}

#[test]
fn rx_batch_with_empty_pool_delivers_nothing() {
    let mut descs = vec![desc(wb(true, true, 100)), desc(0)];
    let mut in_use = in_use_table(10, 2);
    let mut pool = VecWrapper::new();
    let mut delivered = VecWrapper::new();
    let mut regs = RxQueueRegisters::new(0);
    let mut cursor: u16 = 0;

    let result = rx_batch(
        &mut descs,
        &mut cursor,
        &mut in_use,
        &mut regs,
        2,
        &mut delivered,
        4,
        &mut pool,
    );
    assert_eq!(result, Err(RxError::PoolExhausted));
    assert_eq!(delivered.len(), 0);
    assert_eq!(cursor, 0);
    assert_eq!(regs.read_rdt(), 0);
}

#[test]
fn rx_batch_of_zero_is_a_no_op() {
    let mut descs = vec![desc(wb(true, true, 100)), desc(wb(true, true, 200))];
    let mut in_use = in_use_table(10, 2);
    let mut pool = in_use_table(100, 2);
    let mut delivered = VecWrapper::new();
    let mut regs = RxQueueRegisters::new(0);
    let mut cursor: u16 = 1;

    let result = rx_batch(
        &mut descs,
        &mut cursor,
        &mut in_use,
        &mut regs,
        2,
        &mut delivered,
        0,
        &mut pool,
    );
    assert_eq!(result, Ok(0));
    assert_eq!(cursor, 1);
    assert_eq!(delivered.len(), 0);
    assert_eq!(pool.len(), 2);
}

#[test]
fn rx_length_reads_only_the_upper_sixteen_bits() {
    // stray bits between the status field and the length leave the length alone
    let word = wb(true, true, 1234) | (0x5A5A << 20);
    let d = desc(word);
    assert_eq!(d.length(), 1234);
    let (_, len) = d.rx_metadata();
    assert_eq!(len, 1234);
}

#[test]
fn packet_buffers_compare_by_physical_address() {
    let mut a = buf(0x1000);
    a.length = 64;
    let mut b = buf(0x1000);
    b.length = 1500;
    let c = buf(0x2000);
    assert!(a == b);
    assert!(a != c);
    assert!(PhysicalAddress::new(7) == PhysicalAddress::new(7));
    assert!(PhysicalAddress::new(7) != PhysicalAddress::new(8));
}
