//! The network device that hands Ethernet frames to the bus and takes them from it.

use vstd::prelude::*;

use crate::wifi::bus::{BusModel, WifiBus, MAX_TX_QUEUE_LEN, VIF_NONE};
use crate::wifi::codec::has_room;
use crate::wifi::tx::enqueue_data_frame;

verus! {

/// Interrupt line that the card interrupt of the Wi-Fi module arrives on.
pub const CARD_IRQ: usize = 38;

/// Why the device does not do what it is asked for.
#[derive(Clone, Copy, Debug, PartialEq, Eq, Structural)]
pub enum DevError {
    /// Not now; it may be asked again.
    Again,
    /// There is no memory for it.
    NoMemory,
}

/// What a device is.
#[derive(Clone, Copy, Debug, PartialEq, Eq, Structural)]
pub enum DeviceType {
    /// A block storage device.
    Block,
    /// A character device.
    Char,
    /// A network device.
    Net,
    /// A graphics display.
    Display,
    /// An input device.
    Input,
    /// A socket to a virtual machine.
    Vsock,
}

/// A network device of the Wi-Fi module. `B` is how the bus is shared; who calls a
/// method that needs the bus holds its lock.
#[derive(Debug)]
pub struct AicWifiNetDev<B> {
    /// The bus.
    pub bus: B,
    /// Hardware address.
    pub mac: [u8; 6],
}

impl BusModel {
    /// A frame may be handed over: there is a connection, and room in the queue.
    pub open spec fn can_transmit(self) -> bool {
        self.connected() && self.pktcnt < MAX_TX_QUEUE_LEN
    }

    /// The bus without the frame that was received first.
    pub open spec fn without_received(self) -> BusModel {
        BusModel { received: self.received.drop_first(), ..self }
    }
}

/// A buffer of zeros. There is none of no bytes.
pub open spec fn buffer_of(size: nat) -> Option<Seq<u8>> {
    if size == 0 {
        None
    } else {
        Some(Seq::new(size, |i: int| 0u8))
    }
}

impl<B> AicWifiNetDev<B> {
    /// A device with a hardware address on a bus.
    pub fn new(bus: B, mac: [u8; 6]) -> (dev: AicWifiNetDev<B>)
        ensures
            dev == (AicWifiNetDev { bus, mac }),
    {
        AicWifiNetDev { bus, mac }
    }

    /// A buffer of zeros, where `size` is not zero.
    pub fn alloc_buf(size: usize) -> (buf: Option<Vec<u8>>)
        ensures
            match buf {
                Some(bytes) => buffer_of(size as nat) == Some(bytes@),
                None => buffer_of(size as nat) is None,
            },
            buf is None <==> size == 0,
            buf matches Some(bytes) ==> bytes@.len() == size && forall|i: int|
                0 <= i < size ==> #[trigger] bytes@[i] == 0,
    {
        if size == 0 {
            return None;
        }
        let mut buf: Vec<u8> = Vec::new();
        buf.resize(size, 0);
        assert(buf@ =~= Seq::new(size as nat, |i: int| 0u8));
        Some(buf)
    }

    /// What the device is.
    pub fn device_type(&self) -> (kind: DeviceType)
        ensures
            kind == DeviceType::Net,
    {
        DeviceType::Net
    }

    /// Name of the device.
    pub fn device_name(&self) -> (name: &'static str)
        ensures
            name@ == "aic8800-wifi"@,
    {
        "aic8800-wifi"
    }

    /// Interrupt line of the device.
    pub fn irq_num(&self) -> (irq: Option<usize>)
        ensures
            irq == Some(CARD_IRQ),
    {
        Some(CARD_IRQ)
    }

    /// Hardware address.
    pub fn mac_address(&self) -> (mac: [u8; 6])
        ensures
            mac == self.mac,
    {
        self.mac
    }

    /// A frame may be handed over.
    pub fn can_transmit(&self, bus: &WifiBus) -> (can: bool)
        ensures
            can == bus@.can_transmit(),
            can <==> bus@.conn.vif_idx != 255 && bus@.pktcnt < 128,
    {
        bus.conn.vif_idx != VIF_NONE && bus.tx.pktcnt < MAX_TX_QUEUE_LEN as u32
    }

    /// A frame has been received.
    pub fn can_receive(&self, bus: &WifiBus) -> (can: bool)
        ensures
            can == (bus@.received.len() > 0),
    {
        bus.rx.data_queue.len() > 0
    }

    /// Number of frames received.
    pub fn rx_queue_size(&self, bus: &WifiBus) -> (size: usize)
        ensures
            size == bus@.received.len(),
    {
        bus.rx.data_queue.len()
    }

    /// Number of frames that wait for transmission.
    pub fn tx_queue_size(&self, bus: &WifiBus) -> (size: usize)
        ensures
            size == bus@.pktcnt,
    {
        bus.tx.pktcnt as usize
    }

    /// A buffer for a frame to be handed over.
    pub fn alloc_tx_buffer(&mut self, size: usize) -> (buf: Result<Vec<u8>, DevError>)
        ensures
            *final(self) == *old(self),
            match buf {
                Ok(bytes) => buffer_of(size as nat) == Some(bytes@),
                Err(e) => buffer_of(size as nat) is None && e == DevError::NoMemory,
            },
    {
        match Self::alloc_buf(size) {
            Some(buf) => Ok(buf),
            None => Err(DevError::NoMemory),
        }
    }

    /// Hands a frame over. Where it is accepted, the transmit thread has to be woken.
    /// The buffer is gone either way.
    pub fn transmit(&mut self, bus: &mut WifiBus, tx_buf: Vec<u8>) -> (result: Result<(), DevError>)
        requires
            old(bus)@.wf(),
            has_room(tx_buf@.len() as int),
        ensures
            *final(self) == *old(self),
            final(bus)@.wf(),
            match result {
                Ok(_) => old(bus)@.queue.len() < MAX_TX_QUEUE_LEN && final(bus)@ == old(
                    bus,
                )@.with_frame(tx_buf@),
                Err(e) => old(bus)@.queue.len() >= MAX_TX_QUEUE_LEN && final(bus)@ == old(bus)@ && e
                    == DevError::Again,
            },
            old(bus)@.can_transmit() ==> result is Ok,
            old(bus)@.queue.len() < 128 <==> result is Ok,
            result is Ok ==> final(bus)@.queue.last().data == tx_buf@,
    {
        match enqueue_data_frame(bus, tx_buf) {
            Ok(_) => Ok(()),
            Err(_) => Err(DevError::Again),
        }
    }

    /// Takes back the buffers of frames that have been handed over. There are none: they
    /// are gone as soon as they are handed over.
    pub fn recycle_tx_buffers(&mut self) -> (result: Result<(), DevError>)
        ensures
            *final(self) == *old(self),
            result is Ok,
    {
        Ok(())
    }

    /// Takes the frame that was received first. An empty one is dropped.
    pub fn receive(&mut self, bus: &mut WifiBus) -> (result: Result<Vec<u8>, DevError>)
        ensures
            *final(self) == *old(self),
            match result {
                Ok(buf) => {
                    &&& old(bus)@.received.len() > 0
                    &&& old(bus)@.received[0].len() > 0
                    &&& buf@ == old(bus)@.received[0]
                    &&& final(bus)@ == old(bus)@.without_received()
                },
                Err(DevError::Again) => {
                    &&& old(bus)@.received.len() == 0
                    &&& final(bus)@ == old(bus)@
                },
                Err(DevError::NoMemory) => {
                    &&& old(bus)@.received.len() > 0
                    &&& old(bus)@.received[0].len() == 0
                    &&& final(bus)@ == old(bus)@.without_received()
                },
            },
            old(bus)@.wf() ==> final(bus)@.wf(),
            result is Ok <==> old(bus)@.received.len() > 0 && old(bus)@.received[0].len() > 0,
    {
        let ghost before = *bus;
        match bus.rx.data_queue.pop_front() {
            None => {
                assert(bus@.received =~= before@.received);
                Err(DevError::Again)
            },
            Some(frame) => {
                proof {
                    assert(before@.received[0] == before.rx.data_queue@[0]@);
                    assert(bus@.received =~= before@.received.drop_first());
                }
                if frame.len() == 0 {
                    return Err(DevError::NoMemory);
                }
                Ok(frame)
            },
        }
    }

    /// Gives the buffer of a received frame back.
    pub fn recycle_rx_buffer(&mut self, rx_buf: Vec<u8>) -> (result: Result<(), DevError>)
        ensures
            *final(self) == *old(self),
            result is Ok,
    {
        Ok(())
    }
}

/// What is in the slot once a device has been left there: that one, whatever was there.
pub open spec fn slot_stored<B>(
    slot: Option<AicWifiNetDev<B>>,
    bus: B,
    mac: [u8; 6],
) -> Option<AicWifiNetDev<B>> {
    Some(AicWifiNetDev { bus, mac })
}

/// What is taken from the slot, and what is there after.
pub open spec fn slot_taken<B>(slot: Option<AicWifiNetDev<B>>) -> (
    Option<AicWifiNetDev<B>>,
    Option<AicWifiNetDev<B>>,
) {
    (slot, None)
}

/// Leaves a device for whoever registers it, in place of one that was left before.
pub fn store_wifi_net_device<B>(slot: &mut Option<AicWifiNetDev<B>>, bus: B, mac: [u8; 6])
    ensures
        *final(slot) == slot_stored(*old(slot), bus, mac),
{
    *slot = Some(AicWifiNetDev::new(bus, mac));
}

/// Takes the device that was left. It is then gone.
pub fn take_wifi_net_device<B>(slot: &mut Option<AicWifiNetDev<B>>) -> (dev: Option<
    AicWifiNetDev<B>,
>)
    ensures
        (dev, *final(slot)) == slot_taken(*old(slot)),
{
    slot.take()
}

/// A device that is left is taken once: whoever comes first gets the one left last, whoever
/// comes next gets none.
pub proof fn law_device_is_taken_once<B>(slot: Option<AicWifiNetDev<B>>, bus: B, mac: [u8; 6])
    ensures
        slot_taken(slot_stored(slot, bus, mac)).0 == Some(AicWifiNetDev { bus, mac }),
        slot_taken(slot_taken(slot_stored(slot, bus, mac)).1).0 is None,
{
}

/// A device on a connected bus accepts a frame whenever it says that it can: the queue
/// then has room, and the frame is the last to wait there.
pub proof fn law_can_transmit_means_room(bus: BusModel, frame: Seq<u8>)
    requires
        bus.wf(),
    ensures
        bus.can_transmit() <==> bus.connected() && bus.queue.len() < MAX_TX_QUEUE_LEN,
        bus.can_transmit() ==> {
            let next = bus.with_frame(frame);
            &&& next.queue.len() == bus.queue.len() + 1
            &&& next.queue.last().data == frame
            &&& next.queue.drop_last() == bus.queue
            &&& next.received == bus.received
        },
{
    if bus.can_transmit() {
        assert(bus.with_frame(frame).queue.drop_last() =~= bus.queue);
    }
}

/// The bus after frames have been taken from what it received.
pub open spec fn received_after(bus: BusModel, taken: nat) -> BusModel
    decreases taken,
{
    if taken == 0 {
        bus
    } else {
        received_after(bus, (taken - 1) as nat).without_received()
    }
}

/// Frames are received in the order in which they came: after some have been taken, the
/// next to be taken is the one that came right behind them, and nothing else on the bus
/// has changed.
pub proof fn law_receive_keeps_order(bus: BusModel, taken: nat)
    requires
        taken <= bus.received.len(),
    ensures
        received_after(bus, taken) == (BusModel {
            received: bus.received.skip(taken as int),
            ..bus
        }),
        taken < bus.received.len() ==> received_after(bus, taken).received[0]
            == bus.received[taken as int],
    decreases taken,
{
    if taken == 0 {
        assert(bus.received.skip(0) =~= bus.received);
    } else {
        law_receive_keeps_order(bus, (taken - 1) as nat);
        assert(bus.received.skip(taken - 1).drop_first() =~= bus.received.skip(taken as int));
    }
}

/// A buffer has as many bytes as asked for, all zero; there is one of every size but none.
pub proof fn law_buffers_are_zeros(size: nat)
    ensures
        buffer_of(size) is Some <==> size > 0,
        buffer_of(size) matches Some(bytes) ==> bytes.len() == size && forall|i: int|
            0 <= i < size ==> #[trigger] bytes[i] == 0,
{
}

/// Taking a received frame takes the first one and leaves everything else on the bus alone.
pub proof fn law_receive_is_local(bus: BusModel)
    requires
        bus.received.len() > 0,
    ensures
        ({
            let next = bus.without_received();
            &&& next.received.len() == bus.received.len() - 1
            &&& forall|i: int|
                0 <= i < next.received.len() ==> #[trigger] next.received[i] == bus.received[i + 1]
            &&& next.state == bus.state
            &&& next.pending == bus.pending
            &&& next.pending_flag == bus.pending_flag
            &&& next.rsp_error == bus.rsp_error
            &&& next.queue == bus.queue
            &&& next.pktcnt == bus.pktcnt
            &&& next.conn == bus.conn
        }),
{
}

/// A frame may be handed over exactly where the interface has a number other than 255 and
/// fewer than 128 frames wait.
pub proof fn law_when_to_transmit(bus: BusModel)
    requires
        bus.wf(),
    ensures
        bus.can_transmit() <==> bus.conn.vif_idx != 255 && bus.queue.len() < 128,
        CARD_IRQ == 38,
{
}

} // verus!
