//! Peer-addressed RDMA descriptors: remote memory regions tagged with the peer
//! they belong to, and work requests that carry the peer they target.
//!
//! The descriptors hold plain values (addresses, lengths, keys, immediate
//! data); posting them on a queue pair is the job of the transport.
use vstd::prelude::*;

verus! {

/// A region of a remote peer's registered memory: start address, length in
/// bytes and remote key. The region never wraps around the address space.
#[derive(Debug, Clone, Copy)]
pub struct RemoteMemoryRegion {
    addr: u64,
    length: usize,
    rkey: u32,
}

impl RemoteMemoryRegion {
    #[verifier::type_invariant]
    closed spec fn fits(&self) -> bool {
        self.addr + self.length <= u64::MAX
    }

    pub closed spec fn spec_addr(&self) -> u64 {
        self.addr
    }

    pub closed spec fn spec_length(&self) -> usize {
        self.length
    }

    pub closed spec fn spec_rkey(&self) -> u32 {
        self.rkey
    }

    /// The region of `length` bytes at `addr` accessed with `rkey`.
    pub fn new(addr: u64, length: usize, rkey: u32) -> (r: RemoteMemoryRegion)
        requires
            addr + length <= u64::MAX,
        ensures
            r.spec_addr() == addr,
            r.spec_length() == length,
            r.spec_rkey() == rkey,
    {
        RemoteMemoryRegion { addr, length, rkey }
    }

    /// Start address.
    pub fn addr(&self) -> (r: u64)
        ensures
            r == self.spec_addr(),
    {
        self.addr
    }

    /// Length in bytes.
    pub fn length(&self) -> (r: usize)
        ensures
            r == self.spec_length(),
    {
        self.length
    }

    /// Remote key.
    pub fn rkey(&self) -> (r: u32)
        ensures
            r == self.spec_rkey(),
    {
        self.rkey
    }

    /// The part of the region that starts `offset` bytes in, if the offset is
    /// within the region.
    pub fn sub_region(&self, offset: usize) -> (r: Option<RemoteMemoryRegion>)
        ensures
            offset <= self.spec_length() ==> (r matches Some(s) && s.spec_addr() == self.spec_addr()
                + offset && s.spec_length() == self.spec_length() - offset && s.spec_rkey()
                == self.spec_rkey()),
            offset > self.spec_length() ==> r is None,
    {
        if offset <= self.length {
            Some(self.sub_region_unchecked(offset))
        } else {
            None
        }
    }

    /// The part of the region that starts `offset` bytes in; the offset must
    /// lie within the region.
    pub fn sub_region_unchecked(&self, offset: usize) -> (r: RemoteMemoryRegion)
        requires
            offset <= self.spec_length(),
        ensures
            r.spec_addr() == self.spec_addr() + offset,
            r.spec_length() == self.spec_length() - offset,
            r.spec_rkey() == self.spec_rkey(),
    {
        proof {
            use_type_invariant(self);
        }
        RemoteMemoryRegion {
            addr: self.addr + offset as u64,
            length: self.length - offset,
            rkey: self.rkey,
        }
    }
}

/// A [`RemoteMemoryRegion`] associated with the remote peer it belongs to.
#[derive(Debug, Clone, Copy)]
pub struct PeerRemoteMemoryRegion {
    peer: usize,
    remote_mr: RemoteMemoryRegion,
}

impl PeerRemoteMemoryRegion {
    pub closed spec fn spec_peer(&self) -> usize {
        self.peer
    }

    pub closed spec fn spec_region(&self) -> RemoteMemoryRegion {
        self.remote_mr
    }

    /// Creates a peer-tagged region.
    pub fn new(peer: usize, remote_mr: RemoteMemoryRegion) -> (r: PeerRemoteMemoryRegion)
        ensures
            r.spec_peer() == peer,
            r.spec_region() == remote_mr,
    {
        Self { peer, remote_mr }
    }

    /// The peer this region belongs to.
    pub fn peer(&self) -> (r: usize)
        ensures
            r == self.spec_peer(),
    {
        self.peer
    }

    /// The underlying region.
    pub fn remote_mr(&self) -> (r: RemoteMemoryRegion)
        ensures
            r == self.spec_region(),
    {
        self.remote_mr
    }

    /// The sub-region at `offset`, tied to the same peer, if the offset is
    /// within bounds.
    pub fn sub_region(&self, offset: usize) -> (r: Option<PeerRemoteMemoryRegion>)
        ensures
            offset <= self.spec_region().spec_length() ==> (r matches Some(s) && s.spec_peer()
                == self.spec_peer() && s.spec_region().spec_addr() == self.spec_region().spec_addr()
                + offset && s.spec_region().spec_length() == self.spec_region().spec_length() - offset
                && s.spec_region().spec_rkey() == self.spec_region().spec_rkey()),
            offset > self.spec_region().spec_length() ==> r is None,
    {
        match self.remote_mr.sub_region(offset) {
            Some(remote_mr) => Some(PeerRemoteMemoryRegion { peer: self.peer, remote_mr }),
            None => None,
        }
    }

    /// Like [`sub_region`](Self::sub_region), without bounds checking: the
    /// offset must lie within the region.
    pub fn sub_region_unchecked(&self, offset: usize) -> (r: PeerRemoteMemoryRegion)
        requires
            offset <= self.spec_region().spec_length(),
        ensures
            r.spec_peer() == self.spec_peer(),
            r.spec_region().spec_addr() == self.spec_region().spec_addr() + offset,
            r.spec_region().spec_length() == self.spec_region().spec_length() - offset,
            r.spec_region().spec_rkey() == self.spec_region().spec_rkey(),
    {
        PeerRemoteMemoryRegion {
            peer: self.peer,
            remote_mr: self.remote_mr.sub_region_unchecked(offset),
        }
    }
}

/// A local buffer a send or write gathers from: address, length, local key.
#[derive(Debug, Clone, Copy, PartialEq, Eq, Structural)]
pub struct GatherElement {
    pub addr: u64,
    pub length: u32,
    pub lkey: u32,
}

/// A local buffer a receive or read scatters into: address, length, local key.
#[derive(Debug, Clone, Copy, PartialEq, Eq, Structural)]
pub struct ScatterElement {
    pub addr: u64,
    pub length: u32,
    pub lkey: u32,
}

/// A two-sided send: the gathered buffers and optional immediate data.
#[derive(Debug, Clone)]
pub struct SendWorkRequest {
    pub gather_elements: Vec<GatherElement>,
    pub imm_data: Option<u32>,
}

/// A two-sided receive: the buffers the message is scattered into.
#[derive(Debug, Clone)]
pub struct ReceiveWorkRequest {
    pub scatter_elements: Vec<ScatterElement>,
}

/// A one-sided RDMA write of the gathered buffers into a remote region.
#[derive(Debug, Clone)]
pub struct WriteWorkRequest {
    pub gather_elements: Vec<GatherElement>,
    pub remote_mr: RemoteMemoryRegion,
    pub imm_data: Option<u32>,
}

/// A one-sided RDMA read of a remote region into the scattered buffers.
#[derive(Debug, Clone)]
pub struct ReadWorkRequest {
    pub scatter_elements: Vec<ScatterElement>,
    pub remote_mr: RemoteMemoryRegion,
}

pub(crate) fn copy_gather(elements: &[GatherElement]) -> (r: Vec<GatherElement>)
    ensures
        r@ == elements@,
{
    let mut v: Vec<GatherElement> = Vec::new();
    let mut i: usize = 0;
    while i < elements.len()
        invariant
            i <= elements@.len(),
            v@ == elements@.take(i as int),
        decreases elements@.len() - i,
    {
        v.push(elements[i]);
        proof {
            assert(elements@.take(i + 1) =~= elements@.take(i as int).push(elements@[i as int]));
        }
        i = i + 1;
    }
    proof {
        assert(elements@.take(i as int) =~= elements@);
    }
    v
}

pub(crate) fn copy_scatter(elements: &[ScatterElement]) -> (r: Vec<ScatterElement>)
    ensures
        r@ == elements@,
{
    let mut v: Vec<ScatterElement> = Vec::new();
    let mut i: usize = 0;
    while i < elements.len()
        invariant
            i <= elements@.len(),
            v@ == elements@.take(i as int),
        decreases elements@.len() - i,
    {
        v.push(elements[i]);
        proof {
            assert(elements@.take(i + 1) =~= elements@.take(i as int).push(elements@[i as int]));
        }
        i = i + 1;
    }
    proof {
        assert(elements@.take(i as int) =~= elements@);
    }
    v
}

/// A [`SendWorkRequest`] targeted at a specific peer.
#[derive(Debug, Clone)]
pub struct PeerSendWorkRequest {
    peer: usize,
    wr: SendWorkRequest,
}

/// A [`ReceiveWorkRequest`] targeted at a specific peer.
#[derive(Debug, Clone)]
pub struct PeerReceiveWorkRequest {
    peer: usize,
    wr: ReceiveWorkRequest,
}

/// A [`WriteWorkRequest`] targeted at a specific peer.
#[derive(Debug, Clone)]
pub struct PeerWriteWorkRequest {
    peer: usize,
    wr: WriteWorkRequest,
}

/// A [`ReadWorkRequest`] targeted at a specific peer.
#[derive(Debug, Clone)]
pub struct PeerReadWorkRequest {
    peer: usize,
    wr: ReadWorkRequest,
}

impl PeerSendWorkRequest {
    pub closed spec fn spec_peer(&self) -> usize {
        self.peer
    }

    pub closed spec fn spec_wr(&self) -> SendWorkRequest {
        self.wr
    }

    /// A send of the given buffers to `peer`, without immediate data.
    pub fn new(peer: usize, gather_elements: &[GatherElement]) -> (r: PeerSendWorkRequest)
        ensures
            r.spec_peer() == peer,
            r.spec_wr().gather_elements@ == gather_elements@,
            r.spec_wr().imm_data is None,
    {
        Self {
            peer,
            wr: SendWorkRequest { gather_elements: copy_gather(gather_elements), imm_data: None },
        }
    }

    /// Wraps an existing send with a peer index.
    pub fn from_wr(peer: usize, wr: SendWorkRequest) -> (r: PeerSendWorkRequest)
        ensures
            r.spec_peer() == peer,
            r.spec_wr() == wr,
    {
        Self { peer, wr }
    }

    /// The same send, carrying the immediate value `imm_data`.
    pub fn with_immediate(self, imm_data: u32) -> (r: PeerSendWorkRequest)
        ensures
            r.spec_peer() == self.spec_peer(),
            r.spec_wr().gather_elements == self.spec_wr().gather_elements,
            r.spec_wr().imm_data == Some(imm_data),
    {
        let mut wr = self.wr;
        wr.imm_data = Some(imm_data);
        Self { peer: self.peer, wr }
    }

    /// A send that carries only immediate data and no payload.
    pub fn only_immediate(peer: usize, imm_data: u32) -> (r: PeerSendWorkRequest)
        ensures
            r.spec_peer() == peer,
            r.spec_wr().gather_elements@.len() == 0,
            r.spec_wr().imm_data == Some(imm_data),
    {
        Self { peer, wr: SendWorkRequest { gather_elements: Vec::new(), imm_data: Some(imm_data) } }
    }

    /// The target peer.
    pub fn peer(&self) -> (r: usize)
        ensures
            r == self.spec_peer(),
    {
        self.peer
    }

    /// The request without its peer.
    pub fn into_wr(self) -> (r: SendWorkRequest)
        ensures
            r == self.spec_wr(),
    {
        self.wr
    }
}

impl PeerReceiveWorkRequest {
    pub closed spec fn spec_peer(&self) -> usize {
        self.peer
    }

    pub closed spec fn spec_wr(&self) -> ReceiveWorkRequest {
        self.wr
    }

    /// A receive from `peer` into the given buffers.
    pub fn new(peer: usize, scatter_elements: &[ScatterElement]) -> (r: PeerReceiveWorkRequest)
        ensures
            r.spec_peer() == peer,
            r.spec_wr().scatter_elements@ == scatter_elements@,
    {
        Self { peer, wr: ReceiveWorkRequest { scatter_elements: copy_scatter(scatter_elements) } }
    }

    /// A receive that expects only immediate data and no payload.
    pub fn only_immediate(peer: usize) -> (r: PeerReceiveWorkRequest)
        ensures
            r.spec_peer() == peer,
            r.spec_wr().scatter_elements@.len() == 0,
    {
        Self { peer, wr: ReceiveWorkRequest { scatter_elements: Vec::new() } }
    }

    /// Wraps an existing receive with a peer index.
    pub fn from_wr(peer: usize, wr: ReceiveWorkRequest) -> (r: PeerReceiveWorkRequest)
        ensures
            r.spec_peer() == peer,
            r.spec_wr() == wr,
    {
        Self { peer, wr }
    }

    /// The source peer.
    pub fn peer(&self) -> (r: usize)
        ensures
            r == self.spec_peer(),
    {
        self.peer
    }

    /// The request without its peer.
    pub fn into_wr(self) -> (r: ReceiveWorkRequest)
        ensures
            r == self.spec_wr(),
    {
        self.wr
    }
}

impl PeerWriteWorkRequest {
    pub closed spec fn spec_peer(&self) -> usize {
        self.peer
    }

    pub closed spec fn spec_wr(&self) -> WriteWorkRequest {
        self.wr
    }

    /// An RDMA write of the given buffers into a peer's region; the peer is the
    /// one the region belongs to.
    pub fn new(gather_elements: &[GatherElement], peer_remote_mr: PeerRemoteMemoryRegion) -> (r:
        PeerWriteWorkRequest)
        ensures
            r.spec_peer() == peer_remote_mr.spec_peer(),
            r.spec_wr().gather_elements@ == gather_elements@,
            r.spec_wr().remote_mr == peer_remote_mr.spec_region(),
            r.spec_wr().imm_data is None,
    {
        Self {
            peer: peer_remote_mr.peer(),
            wr: WriteWorkRequest {
                gather_elements: copy_gather(gather_elements),
                remote_mr: peer_remote_mr.remote_mr(),
                imm_data: None,
            },
        }
    }

    /// The same write, carrying the immediate value `imm_data`.
    pub fn with_immediate(self, imm_data: u32) -> (r: PeerWriteWorkRequest)
        ensures
            r.spec_peer() == self.spec_peer(),
            r.spec_wr().gather_elements == self.spec_wr().gather_elements,
            r.spec_wr().remote_mr == self.spec_wr().remote_mr,
            r.spec_wr().imm_data == Some(imm_data),
    {
        let mut wr = self.wr;
        wr.imm_data = Some(imm_data);
        Self { peer: self.peer, wr }
    }

    /// The target peer.
    pub fn peer(&self) -> (r: usize)
        ensures
            r == self.spec_peer(),
    {
        self.peer
    }

    /// The request without its peer.
    pub fn into_wr(self) -> (r: WriteWorkRequest)
        ensures
            r == self.spec_wr(),
    {
        self.wr
    }
}

impl PeerReadWorkRequest {
    pub closed spec fn spec_peer(&self) -> usize {
        self.peer
    }

    pub closed spec fn spec_wr(&self) -> ReadWorkRequest {
        self.wr
    }

    /// An RDMA read of a peer's region into the given buffers; the peer is the
    /// one the region belongs to.
    pub fn new(scatter_elements: &[ScatterElement], peer_remote_mr: PeerRemoteMemoryRegion) -> (r:
        PeerReadWorkRequest)
        ensures
            r.spec_peer() == peer_remote_mr.spec_peer(),
            r.spec_wr().scatter_elements@ == scatter_elements@,
            r.spec_wr().remote_mr == peer_remote_mr.spec_region(),
    {
        Self {
            peer: peer_remote_mr.peer(),
            wr: ReadWorkRequest {
                scatter_elements: copy_scatter(scatter_elements),
                remote_mr: peer_remote_mr.remote_mr(),
            },
        }
    }

    /// The source peer.
    pub fn peer(&self) -> (r: usize)
        ensures
            r == self.spec_peer(),
    {
        self.peer
    }

    /// The request without its peer.
    pub fn into_wr(self) -> (r: ReadWorkRequest)
        ensures
            r == self.spec_wr(),
    {
        self.wr
    }
}

} // verus!
