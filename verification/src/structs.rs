//! Hardware-facing data model: register cells, receive and transmit
//! descriptors with their write-back bit layouts, physical addresses and
//! packet buffers, and the per-queue register files.

use vstd::prelude::*;

verus! {

/// A register or descriptor cell. Reads and writes go through explicit
/// methods so that every device-visible access is a distinct program point;
/// the cell's abstract value is the last value written.
pub struct Volatile<T: Copy> {
    inner: T,
}

impl<T: Copy> View for Volatile<T> {
    type V = T;

    closed spec fn view(&self) -> T {
        self.inner
    }
}

impl<T: Copy> Volatile<T> {
    pub fn new(val: T) -> (r: Self)
        ensures
            r@ == val,
    {
        Volatile { inner: val }
    }

    pub fn write(&mut self, val: T)
        ensures
            final(self)@ == val,
    {
        self.inner = val;
    }

    pub fn read(&self) -> (r: T)
        ensures
            r == self@,
    {
        self.inner
    }
}

/// Rx Status: Descriptor Done
pub const RX_STATUS_DD: u8 = 1 << 0;

/// Rx Status: End of Packet
pub const RX_STATUS_EOP: u8 = 1 << 1;

/// Whether the descriptor-done bit is set in a receive write-back word.
pub open spec fn rx_wb_done(wb: u64) -> bool {
    wb & (RX_STATUS_DD as u64) == (RX_STATUS_DD as u64)
}

/// Whether the end-of-packet bit is set in a receive write-back word.
pub open spec fn rx_wb_end_of_packet(wb: u64) -> bool {
    wb & (RX_STATUS_EOP as u64) == (RX_STATUS_EOP as u64)
}

/// The received packet length: the upper 16 bits of the write-back word.
pub open spec fn rx_wb_length(wb: u64) -> u64 {
    wb >> 48
}

/// One receive ring slot, in the advanced descriptor format. The driver
/// writes the buffer address; the hardware overwrites the second word
/// (write-back) with status bits and the received length.
pub struct AdvancedRxDescriptor {
    /// Starting physical address of the receive buffer for the packet.
    pub packet_buffer_address: Volatile<u64>,
    /// Starting physical address of the receive buffer for the header.
    /// Header splitting is not enabled, so after completion this word holds
    /// the write-back status and length instead.
    pub header_buffer_address: Volatile<u64>,
}

impl AdvancedRxDescriptor {
    pub fn new() -> (r: Self)
        ensures
            r.packet_buffer_address@ == 0,
            r.header_buffer_address@ == 0,
    {
        AdvancedRxDescriptor {
            packet_buffer_address: Volatile::new(0),
            header_buffer_address: Volatile::new(0),
        }
    }

    pub fn init(&mut self, packet_buffer_address: PhysicalAddress)
        ensures
            final(self).packet_buffer_address@ == packet_buffer_address.value() as u64,
            final(self).header_buffer_address@ == 0,
    {
        self.packet_buffer_address.write(packet_buffer_address.value() as u64);
        // header splitting is not enabled, so the header address stays zero
        self.header_buffer_address.write(0);
    }

    pub fn set_packet_address(&mut self, packet_buffer_address: PhysicalAddress)
        ensures
            final(self).packet_buffer_address@ == packet_buffer_address.value() as u64,
            final(self).header_buffer_address@ == old(self).header_buffer_address@,
    {
        self.packet_buffer_address.write(packet_buffer_address.value() as u64);
    }

    /// Republishes the slot to the hardware by clearing the write-back word,
    /// so the done bit reads as unset until the hardware completes the slot.
    pub fn reset_status(&mut self)
        ensures
            final(self).packet_buffer_address@ == old(self).packet_buffer_address@,
            final(self).header_buffer_address@ == 0,
    {
        self.header_buffer_address.write(0);
    }

    pub fn descriptor_done(&self) -> (r: bool)
        ensures
            r == rx_wb_done(self.header_buffer_address@),
    {
        let status = self.get_ext_status();
        let wb = self.header_buffer_address.read();
        assert((wb & 0xFFFFF) & (RX_STATUS_DD as u64) == wb & (RX_STATUS_DD as u64))
            by (bit_vector);
        (status & (RX_STATUS_DD as u64)) == (RX_STATUS_DD as u64)
    }

    pub fn end_of_packet(&self) -> (r: bool)
        ensures
            r == rx_wb_end_of_packet(self.header_buffer_address@),
    {
        let status = self.get_ext_status();
        let wb = self.header_buffer_address.read();
        assert((wb & 0xFFFFF) & (RX_STATUS_EOP as u64) == wb & (RX_STATUS_EOP as u64))
            by (bit_vector);
        (status & (RX_STATUS_EOP as u64)) == (RX_STATUS_EOP as u64)
    }

    pub fn length(&self) -> (r: u64)
        ensures
            r == rx_wb_length(self.header_buffer_address@),
    {
        self.get_pkt_len()
    }

    /// Returns (descriptor done, received packet length) from one read of the
    /// write-back word.
    pub fn rx_metadata(&self) -> (r: (bool, u16))
        ensures
            r.0 == rx_wb_done(self.header_buffer_address@),
            r.1 == rx_wb_length(self.header_buffer_address@) as u16,
    {
        let metadata = self.header_buffer_address.read();
        proof {
            let wb = self.header_buffer_address@;
            assert(wb >> 48 == ((wb >> 48) as u16) as u64) by (bit_vector);
        }
        (
            (metadata & (RX_STATUS_DD as u64)) == (RX_STATUS_DD as u64),
            (metadata >> 48) as u16,
        )
    }

    /// Write-back status field of the advanced receive descriptor: whether
    /// the slot has been used and whether its buffer ends a packet.
    pub fn get_ext_status(&self) -> (r: u64)
        ensures
            r == self.header_buffer_address@ & 0xFFFFF,
    {
        self.header_buffer_address.read() & 0xFFFFF
    }

    /// Write-back length field of the advanced receive descriptor: the number
    /// of bytes the hardware posted to the packet buffer.
    pub fn get_pkt_len(&self) -> (r: u64)
        ensures
            r == rx_wb_length(self.header_buffer_address@),
    {
        self.header_buffer_address.read() >> 48
    }
}

/// Tx Command: End of Packet
pub const TX_CMD_EOP: u8 = 1 << 0;

/// Tx Command: Insert MAC FCS
pub const TX_CMD_IFCS: u8 = 1 << 1;

/// Tx Command: Insert Checksum
pub const TX_CMD_IC: u8 = 1 << 2;

/// Tx Command: Report Status
pub const TX_CMD_RS: u8 = 1 << 3;

/// Tx Command: Report Packet Sent
pub const TX_CMD_RPS: u8 = 1 << 4;

/// Tx Command: Descriptor Extension (advanced format)
pub const TX_CMD_DEXT: u8 = 1 << 5;

/// Tx Command: VLAN Packet Enable
pub const TX_CMD_VLE: u8 = 1 << 6;

/// Tx Command: Interrupt Delay Enable
pub const TX_CMD_IDE: u8 = 1 << 7;

/// Tx Status: Descriptor Done
pub const TX_STATUS_DD: u8 = 1 << 0;

/// Tx Descriptor Type: advanced, in bits [7:4] of its byte.
pub const TX_DTYP_ADV: u8 = 0x3 << 4;

/// The payload length sits at bit 46 of the upper 64 bits of the advanced
/// transmit descriptor; within the upper 32-bit field that is bit 14.
pub const TX_PAYLEN_SHIFT: u8 = 46 - 32;

/// Whether the descriptor-done bit is set in a transmit status field.
pub open spec fn tx_sta_done(sta: u32) -> bool {
    (sta as u8) & TX_STATUS_DD == TX_STATUS_DD
}

/// One transmit ring slot, in the advanced descriptor format.
pub struct AdvancedTxDescriptor {
    /// Starting physical address of the buffer holding the packet to send.
    pub packet_buffer_address: Volatile<u64>,
    /// Length of the data buffer.
    pub data_len: Volatile<u16>,
    /// A multi-part field:
    /// * `dtyp`: descriptor type, occupies bits `[7:4]`,
    /// * `mac`: options to apply LinkSec and time stamp, occupies bits `[3:2]`.
    pub dtyp_mac_rsv: Volatile<u8>,
    /// Command bits.
    pub dcmd: Volatile<u8>,
    /// A multi-part field:
    /// * `paylen`: the size in bytes of the data buffer in host memory
    ///   (not including the fields that the hardware adds), occupies bits `[31:14]`,
    /// * `popts`: options to offload checksum calculation, occupies bits `[13:8]`,
    /// * `sta`: status of the descriptor (whether it is in use or not), occupies bits `[3:0]`.
    pub paylen_popts_cc_idx_sta: Volatile<u32>,
}

impl AdvancedTxDescriptor {
    pub fn new() -> (r: Self)
        ensures
            r.packet_buffer_address@ == 0,
            r.data_len@ == 0,
            r.dtyp_mac_rsv@ == 0,
            r.dcmd@ == 0,
            r.paylen_popts_cc_idx_sta@ == 0,
    {
        AdvancedTxDescriptor {
            packet_buffer_address: Volatile::new(0),
            data_len: Volatile::new(0),
            dtyp_mac_rsv: Volatile::new(0),
            dcmd: Volatile::new(0),
            paylen_popts_cc_idx_sta: Volatile::new(0),
        }
    }

    /// Programs the slot to send one whole packet: advanced descriptor type,
    /// payload length at its field offset, and the command bits for
    /// descriptor extension, report status, FCS insertion and end of packet.
    pub fn send(&mut self, transmit_buffer_addr: PhysicalAddress, transmit_buffer_length: u16)
        ensures
            final(self).packet_buffer_address@ == transmit_buffer_addr.value() as u64,
            final(self).data_len@ == transmit_buffer_length,
            final(self).dtyp_mac_rsv@ == TX_DTYP_ADV,
            final(self).paylen_popts_cc_idx_sta@ == (transmit_buffer_length as u32)
                << (TX_PAYLEN_SHIFT as u32),
            final(self).dcmd@ == TX_CMD_DEXT | TX_CMD_RS | TX_CMD_IFCS | TX_CMD_EOP,
    {
        self.packet_buffer_address.write(transmit_buffer_addr.value() as u64);
        self.data_len.write(transmit_buffer_length);
        self.dtyp_mac_rsv.write(TX_DTYP_ADV);
        self.paylen_popts_cc_idx_sta.write(
            (transmit_buffer_length as u32) << (TX_PAYLEN_SHIFT as u32),
        );
        self.dcmd.write(TX_CMD_DEXT | TX_CMD_RS | TX_CMD_IFCS | TX_CMD_EOP);
    }

    pub fn desc_done(&self) -> (r: bool)
        ensures
            r == tx_sta_done(self.paylen_popts_cc_idx_sta@),
    {
        (self.paylen_popts_cc_idx_sta.read() as u8 & TX_STATUS_DD) == TX_STATUS_DD
    }
}

/// An opaque handle to a physical memory address.
#[derive(Clone, Copy)]
pub struct PhysicalAddress(usize);

impl PhysicalAddress {
    pub closed spec fn spec_value(&self) -> usize {
        self.0
    }

    pub fn new(value: usize) -> (r: Self)
        ensures
            r.value() == value,
    {
        PhysicalAddress(value)
    }

    #[verifier::when_used_as_spec(spec_value)]
    pub fn value(&self) -> (r: usize)
        ensures
            r == self.spec_value(),
    {
        self.0
    }
}

impl PartialEq for PhysicalAddress {
    fn eq(&self, other: &Self) -> (r: bool) {
        self.0 == other.0
    }
}

impl vstd::std_specs::cmp::PartialEqSpecImpl for PhysicalAddress {
    open spec fn obeys_eq_spec() -> bool {
        true
    }

    open spec fn eq_spec(&self, other: &Self) -> bool {
        self.spec_value() == other.spec_value()
    }
}

/// A frame of physical memory, by frame number.
pub struct Frame(usize);

impl Frame {
    pub fn new(number: usize) -> Self {
        Frame(number)
    }
}

/// An inclusive range, generic over its index type.
pub struct RangeInclusive<Idx: Clone + PartialOrd> {
    start: Idx,
    end: Idx,
}

impl<Idx: Clone + PartialOrd> RangeInclusive<Idx> {
    pub fn new(start: Idx, end: Idx) -> Self {
        RangeInclusive { start, end }
    }
}

/// A range of allocated virtual pages.
pub struct AllocatedPages(RangeInclusive<usize>);

impl AllocatedPages {
    pub fn new(pages: RangeInclusive<usize>) -> Self {
        AllocatedPages(pages)
    }
}

/// Flags of a page-table entry.
pub struct EntryFlags(u64);

impl EntryFlags {
    pub fn new(flags: u64) -> Self {
        EntryFlags(flags)
    }
}

/// A virtually mapped region backing a packet buffer.
pub struct MappedPages {
    page_table_p4: Frame,
    pages: AllocatedPages,
}

impl MappedPages {
    pub fn new(page_table_p4: Frame, pages: AllocatedPages) -> Self {
        MappedPages { page_table_p4, pages }
    }
}

/// Owns a value whose backing memory is managed elsewhere, preventing the
/// contained registers from being dropped as ordinary heap memory.
pub struct Fragment<T> {
    pub ptr: Box<T>,
}

/// The memory-mapped register block of one receive queue.
pub struct RegistersRx {
    /// Receive Descriptor Base Address Low
    pub rdbal: Volatile<u32>,
    /// Receive Descriptor Base Address High
    pub rdbah: Volatile<u32>,
    /// Receive Descriptor Length
    pub rdlen: Volatile<u32>,
    /// Rx DCA Control Register
    pub dca_rxctrl: Volatile<u32>,
    /// Receive Descriptor Head
    pub rdh: Volatile<u32>,
    /// Split Receive Control Register
    pub srrctl: Volatile<u32>,
    /// Receive Descriptor Tail
    pub rdt: Volatile<u32>,
    /// Receive Descriptor Control
    pub rxdctl: Volatile<u32>,
}

impl RegistersRx {
    pub fn new() -> (r: Self)
        ensures
            r.rdt@ == 0,
    {
        RegistersRx {
            rdbal: Volatile::new(0),
            rdbah: Volatile::new(0),
            rdlen: Volatile::new(0),
            dca_rxctrl: Volatile::new(0),
            rdh: Volatile::new(0),
            srrctl: Volatile::new(0),
            rdt: Volatile::new(0),
            rxdctl: Volatile::new(0),
        }
    }
}

/// The registers that control one receive queue.
pub struct RxQueueRegisters {
    /// the ID of the rx queue that these registers control
    id: usize,
    /// The register block itself lives in device memory, not on the heap, so
    /// it is held through a `Fragment`.
    pub regs: Fragment<RegistersRx>,
}

impl RxQueueRegisters {
    /// The current value of the receive descriptor tail register.
    pub closed spec fn spec_rdt(&self) -> u32 {
        self.regs.ptr.rdt@
    }

    /// Every register other than the receive descriptor tail is the same in
    /// both register files.
    pub closed spec fn eq_except_rdt(&self, other: &Self) -> bool {
        &&& self.id == other.id
        &&& self.regs.ptr.rdbal == other.regs.ptr.rdbal
        &&& self.regs.ptr.rdbah == other.regs.ptr.rdbah
        &&& self.regs.ptr.rdlen == other.regs.ptr.rdlen
        &&& self.regs.ptr.dca_rxctrl == other.regs.ptr.dca_rxctrl
        &&& self.regs.ptr.rdh == other.regs.ptr.rdh
        &&& self.regs.ptr.srrctl == other.regs.ptr.srrctl
        &&& self.regs.ptr.rxdctl == other.regs.ptr.rxdctl
    }

    pub fn new(id: usize) -> (r: Self)
        ensures
            r.spec_rdt() == 0,
    {
        RxQueueRegisters { id, regs: Fragment { ptr: Box::new(RegistersRx::new()) } }
    }

    /// Writes the receive descriptor tail register: every slot up to (not
    /// including) that index is republished for hardware reuse.
    pub fn write_rdt(&mut self, val: u32)
        ensures
            final(self).spec_rdt() == val,
            old(self).eq_except_rdt(final(self)),
    {
        self.regs.ptr.rdt.write(val);
    }

    pub fn read_rdt(&self) -> (r: u32)
        ensures
            r == self.spec_rdt(),
    {
        self.regs.ptr.rdt.read()
    }
}

/// The memory-mapped register block of one transmit queue.
pub struct RegistersTx {
    /// Transmit Descriptor Base Address Low
    pub tdbal: Volatile<u32>,
    /// Transmit Descriptor Base Address High
    pub tdbah: Volatile<u32>,
    /// Transmit Descriptor Length
    pub tdlen: Volatile<u32>,
    /// Tx DCA Control Register
    pub dca_txctrl: Volatile<u32>,
    /// Transmit Descriptor Head
    pub tdh: Volatile<u32>,
    /// Transmit Descriptor Tail
    pub tdt: Volatile<u32>,
    /// Transmit Descriptor Control
    pub txdctl: Volatile<u32>,
    /// Transmit Descriptor Completion Write Back Address Low
    pub tdwbal: Volatile<u32>,
    /// Transmit Descriptor Completion Write Back Address High
    pub tdwbah: Volatile<u32>,
}

impl RegistersTx {
    pub fn new() -> (r: Self)
        ensures
            r.tdt@ == 0,
    {
        RegistersTx {
            tdbal: Volatile::new(0),
            tdbah: Volatile::new(0),
            tdlen: Volatile::new(0),
            dca_txctrl: Volatile::new(0),
            tdh: Volatile::new(0),
            tdt: Volatile::new(0),
            txdctl: Volatile::new(0),
            tdwbal: Volatile::new(0),
            tdwbah: Volatile::new(0),
        }
    }
}

/// The registers that control one transmit queue.
pub struct TxQueueRegisters {
    /// the ID of the tx queue that these registers control
    id: usize,
    /// The register block itself lives in device memory, not on the heap, so
    /// it is held through a `Fragment`.
    pub regs: Fragment<RegistersTx>,
}

impl TxQueueRegisters {
    /// The current value of the transmit descriptor tail register.
    pub closed spec fn spec_tdt(&self) -> u32 {
        self.regs.ptr.tdt@
    }

    /// Every register other than the transmit descriptor tail is the same in
    /// both register files.
    pub closed spec fn eq_except_tdt(&self, other: &Self) -> bool {
        &&& self.id == other.id
        &&& self.regs.ptr.tdbal == other.regs.ptr.tdbal
        &&& self.regs.ptr.tdbah == other.regs.ptr.tdbah
        &&& self.regs.ptr.tdlen == other.regs.ptr.tdlen
        &&& self.regs.ptr.dca_txctrl == other.regs.ptr.dca_txctrl
        &&& self.regs.ptr.tdh == other.regs.ptr.tdh
        &&& self.regs.ptr.txdctl == other.regs.ptr.txdctl
        &&& self.regs.ptr.tdwbal == other.regs.ptr.tdwbal
        &&& self.regs.ptr.tdwbah == other.regs.ptr.tdwbah
    }

    pub fn new(id: usize) -> (r: Self)
        ensures
            r.spec_tdt() == 0,
    {
        TxQueueRegisters { id, regs: Fragment { ptr: Box::new(RegistersTx::new()) } }
    }

    /// Writes the transmit descriptor tail register: the slot at that index
    /// is the next the hardware may be given, and every programmed slot below
    /// it is handed over for transmission.
    pub fn write_tdt(&mut self, val: u32)
        ensures
            final(self).spec_tdt() == val,
            old(self).eq_except_tdt(final(self)),
    {
        self.regs.ptr.tdt.write(val);
    }

    pub fn read_tdt(&self) -> (r: u32)
        ensures
            r == self.spec_tdt(),
    {
        self.regs.ptr.tdt.read()
    }
}

/// A packet buffer: a mapped region with its physical address and the length
/// in bytes of the packet it holds. Two buffers are the same buffer exactly
/// when their physical addresses are equal.
pub struct PacketBufferS {
    pub mp: MappedPages,
    pub phys_addr: PhysicalAddress,
    pub length: u16,
}

impl PacketBufferS {
    pub fn new(mp: MappedPages, phys_addr: PhysicalAddress, length: u16) -> (r: Self)
        ensures
            r.phys_addr == phys_addr,
            r.length == length,
    {
        PacketBufferS { mp, phys_addr, length }
    }
}

impl PartialEq for PacketBufferS {
    fn eq(&self, other: &Self) -> (r: bool) {
        self.phys_addr.value() == other.phys_addr.value()
    }
}

impl vstd::std_specs::cmp::PartialEqSpecImpl for PacketBufferS {
    open spec fn obeys_eq_spec() -> bool {
        true
    }

    open spec fn eq_spec(&self, other: &Self) -> bool {
        self.phys_addr.value() == other.phys_addr.value()
    }
}

} // verus!
