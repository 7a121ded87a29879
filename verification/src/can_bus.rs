//! The CAN side of the board: headers for outgoing frames, and the mailbox
//! that hands a received frame from the receive interrupt to the code that
//! waits for it.

use vstd::prelude::*;
use fdcan::frame::{FrameFormat, RxFrameInfo, TxFrameHeader};
use fdcan::id::{Id, StandardId};
use crate::motor_dm::MAX_STANDARD_ID;

verus! {

#[verifier::external_type_specification]
#[verifier::external_body]
pub struct ExTxFrameHeader(TxFrameHeader);

#[verifier::external_type_specification]
#[verifier::external_body]
pub struct ExRxFrameInfo(RxFrameInfo);

/// The two frame formats of an FDCAN controller.
#[derive(Debug, Clone, Copy, PartialEq, Eq, Structural)]
pub enum FrameKind {
    /// Classic CAN: at most eight data bytes at the nominal bit rate.
    Classic,
    /// CAN FD.
    Fd,
}

/// The header of an outgoing frame, as plain values: data length, 11-bit
/// identifier, frame format, bit-rate switching and the optional event marker.
#[derive(Debug, Clone, Copy, PartialEq, Eq, Structural)]
pub struct TxHeader {
    pub len: u8,
    pub id: u16,
    pub format: FrameKind,
    pub bit_rate_switching: bool,
    pub marker: Option<u8>,
}

/// The header of a classic data frame of `len` bytes to identifier `id`:
/// classic format, no bit-rate switching, no marker.
pub open spec fn classic_header(len: u8, id: u16) -> TxHeader {
    TxHeader { len, id, format: FrameKind::Classic, bit_rate_switching: false, marker: None }
}

/// The fdcan header that [`fdcan_header`] builds from `header`.
pub uninterp spec fn fdcan_header_of(header: TxHeader) -> TxFrameHeader;

/// Calls `fdcan::id::StandardId::new` on `header.id`, which gives an id
/// exactly for the values up to 0x7FF, and moves the fields of `header` into
/// an fdcan header, one for one (`FrameKind` to `FrameFormat` variant by
/// variant). The result is named by [`fdcan_header_of`]; an fdcan header is
/// declared here as an opaque type, so which fields it gets is written in
/// this conversion and not stated field by field.
#[verifier::external_body]
fn fdcan_header(header: TxHeader) -> (res: Option<TxFrameHeader>)
    ensures
        res == (if header.id <= 0x7FF {
            Some(fdcan_header_of(header))
        } else {
            None
        }),
{
    match StandardId::new(header.id) {
        Some(id) => Some(
            TxFrameHeader {
                len: header.len,
                frame_format: match header.format {
                    FrameKind::Classic => FrameFormat::Standard,
                    FrameKind::Fd => FrameFormat::Fdcan,
                },
                id: Id::Standard(id),
                bit_rate_switching: header.bit_rate_switching,
                marker: header.marker,
            },
        ),
        None => None,
    }
}

/// The header under which `data` goes on the bus to identifier `id`: a
/// classic data frame whose length is that of `data`, without bit-rate
/// switching or marker.
pub fn tx_header(id: u16, data: &[u8]) -> (header: TxHeader)
    requires
        id <= MAX_STANDARD_ID,
        data@.len() <= 8,
    ensures
        header == classic_header(data@.len() as u8, id),
        header.len == data@.len(),
        header.id == id,
        header.format == FrameKind::Classic,
        !header.bit_rate_switching,
        header.marker is None,
{
    TxHeader {
        len: data.len() as u8,
        id,
        format: FrameKind::Classic,
        bit_rate_switching: false,
        marker: None,
    }
}

/// The fdcan header with which `data` is handed to the controller for
/// identifier `id`: the one that [`tx_header`] gives, converted.
pub fn can_send_header(id: u16, data: &[u8]) -> (header: TxFrameHeader)
    requires
        id <= MAX_STANDARD_ID,
        data@.len() <= 8,
    ensures
        header == fdcan_header_of(classic_header(data@.len() as u8, id)),
{
    let h = tx_header(id, data);
    fdcan_header(h).unwrap()
}

/// What the receive mailbox holds: whether an unread frame is waiting, the
/// data bytes of the last frame stored, and the header of the unread frame.
pub struct MailboxView {
    pub pending: bool,
    pub data: Seq<u8>,
    pub info: Option<RxFrameInfo>,
}

/// The mailbox after a frame with `data` and header `info` was stored: the
/// frame is waiting, whatever the mailbox held before.
pub open spec fn stored(data: Seq<u8>, info: RxFrameInfo) -> MailboxView {
    MailboxView { pending: true, data, info: Some(info) }
}

/// The mailbox after a read: a waiting frame is no longer waiting and its
/// header is handed out; a mailbox with nothing waiting is left as it is.
pub open spec fn consumed(m: MailboxView) -> MailboxView {
    if m.pending {
        MailboxView { pending: false, data: m.data, info: None }
    } else {
        m
    }
}

/// `buffer` with its first bytes, up to eight, replaced by those of `data`.
pub open spec fn copy_into(buffer: Seq<u8>, data: Seq<u8>) -> Seq<u8> {
    Seq::new(buffer.len(), |j: int| if j < 8 { data[j] } else { buffer[j] })
}

/// The caller's buffer after a read of mailbox `m`.
pub open spec fn received_bytes(m: MailboxView, buffer: Seq<u8>) -> Seq<u8> {
    if m.pending {
        copy_into(buffer, m.data)
    } else {
        buffer
    }
}

/// The header that a read of mailbox `m` returns.
pub open spec fn received_info(m: MailboxView) -> Option<RxFrameInfo> {
    if m.pending {
        m.info
    } else {
        None
    }
}

/// The receive mailbox shared by the receive interrupt, which stores each
/// frame that arrives, and [`can_rcvd`], which reads it out once.
pub struct RxMailbox {
    flag: u8,
    data: [u8; 8],
    info: Option<RxFrameInfo>,
}

/// A mailbox is well formed when every waiting frame has its header: a read
/// that finds a frame waiting always hands out a header.
pub open spec fn mailbox_wf(m: MailboxView) -> bool {
    m.pending ==> m.info is Some
}

impl RxMailbox {
    #[verifier::type_invariant]
    spec fn waiting_has_header(self) -> bool {
        self.flag == 1 ==> self.info is Some
    }
}

impl View for RxMailbox {
    type V = MailboxView;

    closed spec fn view(&self) -> MailboxView {
        MailboxView { pending: self.flag == 1, data: self.data@, info: self.info }
    }
}

impl RxMailbox {
    /// An empty mailbox: nothing waiting, eight zero bytes.
    pub fn new() -> (m: Self)
        ensures
            !m@.pending,
            mailbox_wf(m@),
            m@.data == seq![0u8; 8],
            m@.info is None,
    {
        let m = RxMailbox { flag: 0, data: [0u8; 8], info: None };
        assert(m@.data =~= seq![0u8; 8]);
        m
    }

    /// The data bytes of the last frame stored (the receive interrupt reads
    /// a new frame over them, so bytes that a short frame does not carry keep
    /// their old value).
    pub fn data(&self) -> (data: [u8; 8])
        ensures
            data@ == self@.data,
            self@.data.len() == 8,
            mailbox_wf(self@),
    {
        proof {
            use_type_invariant(self);
        }
        self.data
    }

    /// Stores a frame that has just arrived; the frame is waiting until read.
    pub fn store(&mut self, data: [u8; 8], info: RxFrameInfo)
        ensures
            final(self)@ == stored(data@, info),
            final(self)@.data.len() == 8,
            mailbox_wf(final(self)@),
    {
        proof {
            use_type_invariant(&*self);
        }
        self.data = data;
        self.info = Some(info);
        self.flag = 1;
    }
}

/// Reads the mailbox: where a frame is waiting, copies its data bytes into
/// the first bytes of `buffer` (at most eight), marks it read and returns its
/// header; otherwise returns `None` and changes nothing.
pub fn can_rcvd(mailbox: &mut RxMailbox, buffer: &mut [u8]) -> (info: Option<RxFrameInfo>)
    ensures
        final(mailbox)@ == consumed(old(mailbox)@),
        old(mailbox)@.data.len() == 8,
        final(mailbox)@.data.len() == 8,
        mailbox_wf(old(mailbox)@),
        mailbox_wf(final(mailbox)@),
        old(mailbox)@.pending ==> info is Some,
        final(buffer)@ == received_bytes(old(mailbox)@, old(buffer)@),
        final(buffer)@.len() == old(buffer)@.len(),
        old(mailbox)@.pending ==> forall|j: int|
            0 <= j < old(buffer)@.len() && j < 8 ==> #[trigger] final(buffer)@[j]
                == old(mailbox)@.data[j],
        forall|j: int| 8 <= j < old(buffer)@.len() ==> #[trigger] final(buffer)@[j] == old(buffer)@[j],
        info == received_info(old(mailbox)@),
{
    proof {
        use_type_invariant(&*mailbox);
    }
    if mailbox.flag == 1 {
        let len: usize = if buffer.len() < 8 {
            buffer.len()
        } else {
            8
        };
        let ghost before = buffer@;
        let mut i: usize = 0;
        while i < len
            invariant
                len <= 8,
                len <= before.len(),
                len == before.len() || len == 8,
                i <= len,
                buffer@.len() == before.len(),
                forall|j: int| 0 <= j < i ==> buffer@[j] == mailbox.data@[j],
                forall|j: int| i <= j < before.len() ==> buffer@[j] == before[j],
            decreases len - i,
        {
            buffer[i] = mailbox.data[i];
            i = i + 1;
        }
        assert(buffer@ =~= copy_into(before, mailbox.data@));
        mailbox.flag = 0;
        let info = mailbox.info;
        mailbox.info = None;
        info
    } else {
        None
    }
}

/// Each frame stored is read exactly once: a read right after a store hands
/// out the stored header and bytes, and a second read finds nothing, leaves
/// the caller's buffer as it was and the mailbox unchanged.
pub proof fn lemma_stored_frame_read_once(
    data: Seq<u8>,
    info: RxFrameInfo,
    first: Seq<u8>,
    second: Seq<u8>,
)
    ensures
        received_info(stored(data, info)) == Some(info),
        received_bytes(stored(data, info), first) == copy_into(first, data),
        received_info(consumed(stored(data, info))) is None,
        received_bytes(consumed(stored(data, info)), second) == second,
        consumed(consumed(stored(data, info))) == consumed(stored(data, info)),
{
}


/// One step of the mailbox's life: the receive interrupt stores a frame, or
/// the waiting code reads.
pub enum MailboxEvent {
    Store(Seq<u8>, RxFrameInfo),
    Read,
}

/// The mailbox after one event.
pub open spec fn step(m: MailboxView, e: MailboxEvent) -> MailboxView {
    match e {
        MailboxEvent::Store(data, info) => stored(data, info),
        MailboxEvent::Read => consumed(m),
    }
}

/// The mailbox after a sequence of events, starting from `m`.
pub open spec fn run(m: MailboxView, events: Seq<MailboxEvent>) -> MailboxView
    decreases events.len(),
{
    if events.len() == 0 {
        m
    } else {
        step(run(m, events.drop_last()), events.last())
    }
}

/// Some event before position `i` stored a frame, and no read came between
/// that store and position `i`.
pub open spec fn stored_since_last_read(events: Seq<MailboxEvent>, i: int) -> bool {
    exists|j: int|
        0 <= j < i && #[trigger] events[j] is Store && forall|k: int|
            j < k < i ==> !(#[trigger] events[k] is Read)
}

proof fn lemma_run_prefix(m: MailboxView, events: Seq<MailboxEvent>, i: int)
    requires
        !m.pending,
        0 <= i <= events.len(),
    ensures
        run(m, events.take(i)).pending == stored_since_last_read(events, i),
        run(m, events.take(i)).pending ==> run(m, events.take(i)).info is Some,
    decreases i,
{
    if i == 0 {
        assert(events.take(0) =~= Seq::<MailboxEvent>::empty());
    } else {
        lemma_run_prefix(m, events, i - 1);
        assert(events.take(i).drop_last() =~= events.take(i - 1));
        assert(events.take(i).last() == events[i - 1]);
        match events[i - 1] {
            MailboxEvent::Store(d, info) => {
                assert(stored_since_last_read(events, i)) by {
                    assert(events[i - 1] is Store);
                }
            },
            MailboxEvent::Read => {
                assert(!stored_since_last_read(events, i)) by {
                    assert forall|j: int|
                        0 <= j < i && #[trigger] events[j] is Store implies exists|k: int|
                        j < k < i && #[trigger] events[k] is Read by {
                        assert(events[i - 1] is Read);
                    }
                }
            },
        }
    }
}

/// Over any interleaving of stores and reads on a mailbox that starts with
/// nothing waiting, a read hands out a frame exactly when a frame was stored
/// since the previous read: so no frame is handed out twice, and every read
/// after a store finds one.
pub proof fn lemma_reads_follow_stores(m: MailboxView, events: Seq<MailboxEvent>)
    requires
        !m.pending,
    ensures
        forall|i: int|
            0 <= i < events.len() && #[trigger] events[i] is Read ==> (received_info(
                run(m, events.take(i)),
            ) is Some <==> stored_since_last_read(events, i)),
{
    assert forall|i: int|
        0 <= i < events.len() && #[trigger] events[i] is Read implies (received_info(
        run(m, events.take(i)),
    ) is Some <==> stored_since_last_read(events, i)) by {
        lemma_run_prefix(m, events, i);
    }
}


/// Every header is that of a classic data frame: for any 11-bit id and any
/// payload length up to 8, it keeps the id and the length, uses the classic
/// format, and has neither bit-rate switching nor a marker.
pub proof fn lemma_headers_are_classic(len: u8, id: u16)
    requires
        len <= 8,
        id <= MAX_STANDARD_ID,
    ensures
        classic_header(len, id).len == len,
        classic_header(len, id).id == id,
        classic_header(len, id).format == FrameKind::Classic,
        !classic_header(len, id).bit_rate_switching,
        classic_header(len, id).marker is None,
{
}

/// A read that finds a frame waiting overwrites the first bytes of the
/// caller's buffer, up to eight, with the stored frame's bytes, whatever
/// they and the buffer hold, and leaves the rest of the buffer alone.
pub proof fn lemma_read_copies_frame(m: MailboxView, buffer: Seq<u8>)
    requires
        m.pending,
        m.data.len() == 8,
    ensures
        received_bytes(m, buffer).len() == buffer.len(),
        forall|j: int|
            0 <= j < buffer.len() && j < 8 ==> #[trigger] received_bytes(m, buffer)[j] == m.data[j],
        forall|j: int| 8 <= j < buffer.len() ==> #[trigger] received_bytes(m, buffer)[j] == buffer[j],
{
}

/// The frame read right after a store is the one stored, byte for byte.
pub proof fn lemma_read_after_store(data: Seq<u8>, info: RxFrameInfo, buffer: Seq<u8>)
    requires
        data.len() == 8,
    ensures
        forall|j: int|
            0 <= j < buffer.len() && j < 8 ==> #[trigger] received_bytes(stored(data, info), buffer)[j]
                == data[j],
        received_info(stored(data, info)) == Some(info),
{
    lemma_read_copies_frame(stored(data, info), buffer);
}

} // verus!
