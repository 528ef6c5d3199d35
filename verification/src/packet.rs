//! Plain values that the dispatcher reads: connection IDs, decoded packet
//! headers, datagrams and the result of driving a connection.

use vstd::prelude::*;

verus! {

/// Compares two byte strings.
pub fn bytes_eq(a: &[u8], b: &[u8]) -> (r: bool)
    ensures
        r == (a@ == b@),
{
    if a.len() != b.len() {
        return false;
    }
    let mut i: usize = 0;
    while i < a.len()
        invariant
            a@.len() == b@.len(),
            0 <= i <= a@.len(),
            forall|j: int| 0 <= j < i ==> a@[j] == b@[j],
        decreases a@.len() - i,
    {
        if a[i] != b[i] {
            return false;
        }
        i += 1;
    }
    assert(a@ =~= b@);
    true
}

/// Copies a byte string into a new vector.
pub fn bytes_to_vec(a: &[u8]) -> (v: Vec<u8>)
    ensures
        v@ == a@,
{
    let mut v: Vec<u8> = Vec::new();
    let mut i: usize = 0;
    while i < a.len()
        invariant
            0 <= i <= a@.len(),
            v@ == a@.subrange(0, i as int),
        decreases a@.len() - i,
    {
        v.push(a[i]);
        assert(a@.subrange(0, i as int + 1) =~= a@.subrange(0, i as int).push(a@[i as int]));
        i += 1;
    }
    assert(a@.subrange(0, a@.len() as int) =~= a@);
    v
}

/// A connection identifier: an opaque byte string, compared byte by byte.
#[derive(Clone, Debug, PartialEq, Eq, Hash)]
pub struct ConnectionId {
    cid: Vec<u8>,
}

impl View for ConnectionId {
    type V = Seq<u8>;

    closed spec fn view(&self) -> Seq<u8> {
        self.cid@
    }
}

impl ConnectionId {
    /// The connection ID made of the bytes of `cid`.
    pub fn new(cid: Vec<u8>) -> (r: ConnectionId)
        ensures
            r@ == cid@,
    {
        ConnectionId { cid }
    }

    /// The connection ID made of a copy of `bytes`.
    pub fn from_bytes(bytes: &[u8]) -> (r: ConnectionId)
        ensures
            r@ == bytes@,
    {
        ConnectionId { cid: bytes_to_vec(bytes) }
    }

    pub fn as_bytes(&self) -> (r: &[u8])
        ensures
            r@ == self@,
    {
        self.cid.as_slice()
    }

    pub fn len(&self) -> (r: usize)
        ensures
            r == self@.len(),
    {
        self.cid.len()
    }

    pub fn is_empty(&self) -> (r: bool)
        ensures
            r == (self@.len() == 0),
    {
        self.cid.len() == 0
    }

    /// Byte-exact equality.
    pub fn same(&self, other: &ConnectionId) -> (r: bool)
        ensures
            r == (self@ == other@),
    {
        bytes_eq(self.cid.as_slice(), other.cid.as_slice())
    }

    /// A copy with the same bytes.
    pub fn duplicate(&self) -> (r: ConnectionId)
        ensures
            r@ == self@,
    {
        ConnectionId { cid: bytes_to_vec(self.cid.as_slice()) }
    }
}

/// The address of one end of a datagram's path.
#[allow(inconsistent_fields)]
#[derive(Clone, Copy, Debug, PartialEq, Eq, Hash, Structural)]
pub enum Address {
    V4 { ip: u32, port: u16 },
    V6 { ip: u128, port: u16, flowinfo: u32, scope_id: u32 },
}

/// What kind of packet a header announces, with the fields that only that
/// kind carries.
#[derive(Clone, Debug, PartialEq, Eq)]
pub enum PacketType {
    Short,
    ZeroRTT,
    Handshake,
    VN(Vec<u32>),
    Initial(Vec<u8>),
    Retry { odcid: ConnectionId, token: Vec<u8> },
}

/// The mathematical value of a `PacketType`.
pub ghost enum PacketTypeView {
    Short,
    ZeroRTT,
    Handshake,
    VN(Seq<u32>),
    Initial(Seq<u8>),
    Retry { odcid: Seq<u8>, token: Seq<u8> },
}

impl View for PacketType {
    type V = PacketTypeView;

    open spec fn view(&self) -> PacketTypeView {
        match self {
            PacketType::Short => PacketTypeView::Short,
            PacketType::ZeroRTT => PacketTypeView::ZeroRTT,
            PacketType::Handshake => PacketTypeView::Handshake,
            PacketType::VN(versions) => PacketTypeView::VN(versions@),
            PacketType::Initial(token) => PacketTypeView::Initial(token@),
            PacketType::Retry { odcid, token } => PacketTypeView::Retry {
                odcid: odcid@,
                token: token@,
            },
        }
    }
}

/// The first header of a datagram, decoded.
#[derive(Clone, Debug, PartialEq, Eq)]
pub struct PacketHdr {
    pub tbyte: u8,
    pub tipe: PacketType,
    pub version: Option<u32>,
    pub dcid: ConnectionId,
    pub scid: Option<ConnectionId>,
    pub pn: u64,
    pub epoch: u16,
}

/// The mathematical value of a `PacketHdr`.
pub ghost struct PacketHdrView {
    pub tbyte: u8,
    pub tipe: PacketTypeView,
    pub version: Option<u32>,
    pub dcid: Seq<u8>,
    pub scid: Option<Seq<u8>>,
    pub pn: u64,
    pub epoch: u16,
}

impl View for PacketHdr {
    type V = PacketHdrView;

    open spec fn view(&self) -> PacketHdrView {
        PacketHdrView {
            tbyte: self.tbyte,
            tipe: self.tipe@,
            version: self.version,
            dcid: self.dcid@,
            scid: match self.scid {
                Some(cid) => Some(cid@),
                None => None,
            },
            pn: self.pn,
            epoch: self.epoch,
        }
    }
}

impl PacketHdr {
    pub fn new(
        tbyte: u8,
        tipe: PacketType,
        version: Option<u32>,
        dcid: ConnectionId,
        scid: Option<ConnectionId>,
        pn: u64,
        epoch: u16,
    ) -> (hdr: PacketHdr)
        ensures
            hdr == (PacketHdr { tbyte, tipe, version, dcid, scid, pn, epoch }),
    {
        PacketHdr { tbyte, tipe, version, dcid, scid, pn, epoch }
    }
}

/// A UDP datagram: where it came from, where it was sent to, and its payload.
/// It does not change once it is made.
#[derive(Clone, Debug, PartialEq, Eq)]
pub struct Datagram {
    src: Address,
    dst: Address,
    d: Vec<u8>,
}

/// The mathematical value of a `Datagram`.
pub ghost struct DatagramView {
    pub src: Address,
    pub dst: Address,
    pub d: Seq<u8>,
}

impl View for Datagram {
    type V = DatagramView;

    closed spec fn view(&self) -> DatagramView {
        DatagramView { src: self.src, dst: self.dst, d: self.d@ }
    }
}

impl Datagram {
    pub fn new(src: Address, dst: Address, d: Vec<u8>) -> (r: Datagram)
        ensures
            r@ == (DatagramView { src, dst, d: d@ }),
    {
        Datagram { src, dst, d }
    }

    pub fn source(&self) -> (r: Address)
        ensures
            r == self@.src,
    {
        self.src
    }

    pub fn destination(&self) -> (r: Address)
        ensures
            r == self@.dst,
    {
        self.dst
    }

    pub fn len(&self) -> (r: usize)
        ensures
            r == self@.d.len(),
    {
        self.d.len()
    }

    pub fn data(&self) -> (r: &[u8])
        ensures
            r@ == self@.d,
    {
        self.d.as_slice()
    }
}

/// What driving a connection, or the whole server, came to: a datagram to
/// send at once, a delay after which to come back, or nothing.
/// Delays and instants are counted in nanoseconds.
#[derive(Clone, Debug, PartialEq, Eq)]
pub enum Output {
    Nothing,
    Datagram(Datagram),
    Callback(u64),
}

/// The mathematical value of an `Output`.
pub ghost enum OutputView {
    Nothing,
    Datagram(DatagramView),
    Callback(u64),
}

impl View for Output {
    type V = OutputView;

    open spec fn view(&self) -> OutputView {
        match self {
            Output::Nothing => OutputView::Nothing,
            Output::Datagram(d) => OutputView::Datagram(d@),
            Output::Callback(delay) => OutputView::Callback(*delay),
        }
    }
}

/// The view of an optional datagram.
pub open spec fn dgram_view(d: Option<Datagram>) -> Option<DatagramView> {
    match d {
        Some(d) => Some(d@),
        None => None,
    }
}

impl Output {
    /// The datagram of `Output::Datagram`, and nothing for the other two.
    pub fn dgram(self) -> (r: Option<Datagram>)
        ensures
            r == match self {
                Output::Datagram(d) => Some(d),
                _ => None,
            },
    {
        match self {
            Output::Datagram(d) => Some(d),
            _ => None,
        }
    }
}

} // verus!
