//! Chrome EC host command structures (protocol version 3) and the
//! checksum that frames them.

use vstd::prelude::*;

verus! {

pub const EC_HOST_PARAM_SIZE: usize = 0xfc;
pub const HEADER_BYTES: usize = 8;
pub const MSG_HEADER: usize = 0xec;
pub const MSG_HEADER_BYTES: usize = 3;
pub const MSG_TRAILER_BYTES: usize = 2;
pub const MSG_PROTO_BYTES: usize = MSG_HEADER_BYTES + MSG_TRAILER_BYTES;
pub const MSG_BYTES: usize = EC_HOST_PARAM_SIZE + MSG_PROTO_BYTES;
pub const EC_HOST_REQUEST_HEADER_BYTES: usize = 8;
pub const EC_HOST_RESPONSE_HEADER_BYTES: usize = 8;
pub const EC_HOST_REQUEST_VERSION: u8 = 3;
pub const EC_HOST_RESPONSE_VERSION: u8 = 3;
/// Size of a whole version 3 packet: header and data area.
pub const EC_PACKET_BYTES: usize = EC_HOST_REQUEST_HEADER_BYTES + MSG_BYTES;

/// Failures of an EC host command.
#[derive(Debug, Clone, Copy, PartialEq, Eq, Structural)]
pub enum Error {
    ECResRequestTruncated,
    ECResResponseTooBig,
    ECResInvalidResponse,
    ECResInvalidChecksum,
    ECResResponse(i32),
    ECResError,
}

/// Sum of the bytes of `data`, modulo 256.
pub open spec fn byte_sum(data: Seq<u8>) -> int
    decreases data.len(),
{
    if data.len() == 0 {
        0
    } else {
        (byte_sum(data.drop_last()) + data.last()) % 256
    }
}

/// The 8-bit checksum of a data block: the sum of its bytes modulo 256.
pub fn cros_ec_calc_checksum(data: &[u8]) -> (r: u8)
    ensures
        r == byte_sum(data@),
{
    let mut csum: u8 = 0;
    let mut i: usize = 0;
    while i < data.len()
        invariant
            i <= data@.len(),
            csum == byte_sum(data@.subrange(0, i as int)),
        decreases data@.len() - i,
    {
        proof {
            assert(data@.subrange(0, i + 1).drop_last() =~= data@.subrange(0, i as int));
        }
        csum = csum.wrapping_add(data[i]);
        i = i + 1;
    }
    proof {
        assert(data@.subrange(0, i as int) =~= data@);
    }
    csum
}

/// Little-endian bytes of a 16-bit value.
pub open spec fn le16_bytes(v: u16) -> Seq<u8> {
    seq![(v % 0x100) as u8, (v / 0x100) as u8]
}

/// A command to send to the EC and the room for its response.
pub struct ChromeECCommand {
    /// command code in, status out
    cmd_code: u16,
    /// command version
    cmd_version: u8,
    /// command data, if any
    cmd_data_in: [u8; MSG_BYTES],
    /// command response, if any
    cmd_data_out: [u8; MSG_BYTES],
    /// size of command data
    cmd_size_in: u16,
    /// expected size of command response in, actual received size out
    cmd_size_out: u16,
    /// device index for passthru
    cmd_dev_index: i32,
}

/// The fields of a `ChromeECCommand`.
pub struct ChromeECCommandView {
    pub cmd_code: u16,
    pub cmd_version: u8,
    pub cmd_data_in: Seq<u8>,
    pub cmd_data_out: Seq<u8>,
    pub cmd_size_in: u16,
    pub cmd_size_out: u16,
    pub cmd_dev_index: i32,
}

impl View for ChromeECCommand {
    type V = ChromeECCommandView;

    closed spec fn view(&self) -> ChromeECCommandView {
        ChromeECCommandView {
            cmd_code: self.cmd_code,
            cmd_version: self.cmd_version,
            cmd_data_in: self.cmd_data_in@,
            cmd_data_out: self.cmd_data_out@,
            cmd_size_in: self.cmd_size_in,
            cmd_size_out: self.cmd_size_out,
            cmd_dev_index: self.cmd_dev_index,
        }
    }
}

impl ChromeECCommand {
    pub fn new() -> (r: Self)
        ensures
            r@ == (ChromeECCommandView {
                cmd_code: 0,
                cmd_version: 3,
                cmd_data_in: Seq::new(MSG_BYTES as nat, |_i: int| 0u8),
                cmd_data_out: Seq::new(MSG_BYTES as nat, |_i: int| 0u8),
                cmd_size_in: 0,
                cmd_size_out: 0,
                cmd_dev_index: 0,
            }),
    {
        let r = Self {
            cmd_code: 0,
            cmd_version: 3,
            cmd_data_in: [0u8; MSG_BYTES],
            cmd_data_out: [0u8; MSG_BYTES],
            cmd_size_in: 0,
            cmd_size_out: 0,
            cmd_dev_index: 0,
        };
        assert(r.cmd_data_in@ =~= Seq::new(MSG_BYTES as nat, |_i: int| 0u8));
        assert(r.cmd_data_out@ =~= Seq::new(MSG_BYTES as nat, |_i: int| 0u8));
        r
    }

    /// The command data: the first `size_in` bytes of the data area.
    pub fn data_in(&self) -> (r: &[u8])
        requires
            self@.cmd_size_in <= MSG_BYTES,
        ensures
            r@ == self@.cmd_data_in.subrange(0, self@.cmd_size_in as int),
    {
        self.cmd_data_in.as_slice().split_at(self.cmd_size_in as usize).0
    }

    pub fn data_in_mut(&mut self) -> (r: &mut [u8])
        requires
            old(self)@.cmd_size_in <= MSG_BYTES,
        ensures
            r@ == old(self)@.cmd_data_in.subrange(0, old(self)@.cmd_size_in as int),
    {
        let n = self.cmd_size_in as usize;
        let s: &mut [u8] = &mut self.cmd_data_in;
        s.split_at_mut(n).0
    }

    /// The response data: the first `size_out` bytes of the response area.
    pub fn data_out(&self) -> (r: &[u8])
        requires
            self@.cmd_size_out <= MSG_BYTES,
        ensures
            r@ == self@.cmd_data_out.subrange(0, self@.cmd_size_out as int),
    {
        self.cmd_data_out.as_slice().split_at(self.cmd_size_out as usize).0
    }

    pub fn data_out_mut(&mut self) -> (r: &mut [u8])
        requires
            old(self)@.cmd_size_out <= MSG_BYTES,
        ensures
            r@ == old(self)@.cmd_data_out.subrange(0, old(self)@.cmd_size_out as int),
    {
        let n = self.cmd_size_out as usize;
        let s: &mut [u8] = &mut self.cmd_data_out;
        s.split_at_mut(n).0
    }

    pub fn cmd_code(&self) -> (r: u16)
        ensures
            r == self@.cmd_code,
    {
        self.cmd_code
    }

    pub fn cmd_version(&self) -> (r: u8)
        ensures
            r == self@.cmd_version,
    {
        self.cmd_version
    }

    pub fn size_in(&self) -> (r: u16)
        ensures
            r == self@.cmd_size_in,
    {
        self.cmd_size_in
    }

    pub fn size_out(&self) -> (r: u16)
        ensures
            r == self@.cmd_size_out,
    {
        self.cmd_size_out
    }

    pub fn dev_index(&self) -> (r: i32)
        ensures
            r == self@.cmd_dev_index,
    {
        self.cmd_dev_index
    }

    pub fn set_cmd_code(&mut self, code: u16)
        ensures
            final(self)@ == (ChromeECCommandView { cmd_code: code, ..old(self)@ }),
    {
        self.cmd_code = code;
    }

    pub fn set_cmd_version(&mut self, version: u8)
        ensures
            final(self)@ == (ChromeECCommandView { cmd_version: version, ..old(self)@ }),
    {
        self.cmd_version = version;
    }

    pub fn set_size_in(&mut self, size: u16)
        ensures
            final(self)@ == (ChromeECCommandView { cmd_size_in: size, ..old(self)@ }),
    {
        self.cmd_size_in = size;
    }

    pub fn set_size_out(&mut self, size: u16)
        ensures
            final(self)@ == (ChromeECCommandView { cmd_size_out: size, ..old(self)@ }),
    {
        self.cmd_size_out = size;
    }

    pub fn set_dev_index(&mut self, idx: i32)
        ensures
            final(self)@ == (ChromeECCommandView { cmd_dev_index: idx, ..old(self)@ }),
    {
        self.cmd_dev_index = idx;
    }

}

/// Version 3 request header. The checksum makes the bytes of header and
/// data sum to zero.
pub struct ECHostRequest {
    /// Should be 3.
    struct_version: u8,
    checksum: u8,
    command: u16,
    command_version: u8,
    /// Unused; set to 0.
    reserved: u8,
    /// Length of the data that follows the header.
    data_len: u16,
}

/// The fields of a `ECHostRequest`.
pub struct ECHostRequestView {
    pub struct_version: u8,
    pub checksum: u8,
    pub command: u16,
    pub command_version: u8,
    pub reserved: u8,
    pub data_len: u16,
}

impl ECHostRequestView {
    /// The header as it goes on the wire.
    pub open spec fn wire(&self) -> Seq<u8> {
        seq![self.struct_version, self.checksum] + le16_bytes(self.command) + seq![
            self.command_version,
            self.reserved,
        ] + le16_bytes(self.data_len)
    }
}

impl View for ECHostRequest {
    type V = ECHostRequestView;

    closed spec fn view(&self) -> ECHostRequestView {
        ECHostRequestView {
            struct_version: self.struct_version,
            checksum: self.checksum,
            command: self.command,
            command_version: self.command_version,
            reserved: self.reserved,
            data_len: self.data_len,
        }
    }
}

impl ECHostRequest {
    pub fn new() -> (r: Self)
        ensures
            r@ == (ECHostRequestView {
                struct_version: EC_HOST_REQUEST_VERSION,
                checksum: 0,
                command: 0,
                command_version: 0,
                reserved: 0,
                data_len: 0,
            }),
    {
        Self {
            struct_version: EC_HOST_REQUEST_VERSION,
            checksum: 0,
            command: 0,
            command_version: 0,
            reserved: 0,
            data_len: 0,
        }
    }

    pub open spec fn new_view() -> ECHostRequestView {
        ECHostRequestView {
            struct_version: EC_HOST_REQUEST_VERSION,
            checksum: 0,
            command: 0,
            command_version: 0,
            reserved: 0,
            data_len: 0,
        }
    }

    /// The header as it goes on the wire.
    pub open spec fn spec_bytes(&self) -> Seq<u8> {
        self@.wire()
    }

    pub fn as_bytes(&self) -> (r: [u8; EC_HOST_REQUEST_HEADER_BYTES])
        ensures
            r@ == self.spec_bytes(),
    {
        let r = [
            self.struct_version,
            self.checksum,
            (self.command % 0x100) as u8,
            (self.command / 0x100) as u8,
            self.command_version,
            self.reserved,
            (self.data_len % 0x100) as u8,
            (self.data_len / 0x100) as u8,
        ];
        assert(r@ =~= self.spec_bytes());
        r
    }

    pub fn len(&self) -> (r: usize)
        ensures
            r == EC_HOST_REQUEST_HEADER_BYTES,
    {
        EC_HOST_REQUEST_HEADER_BYTES
    }

    pub fn struct_version(&self) -> (r: u8)
        ensures
            r == self@.struct_version,
    {
        self.struct_version
    }

    pub fn checksum(&self) -> (r: u8)
        ensures
            r == self@.checksum,
    {
        self.checksum
    }

    pub fn command(&self) -> (r: u16)
        ensures
            r == self@.command,
    {
        self.command
    }

    pub fn command_version(&self) -> (r: u8)
        ensures
            r == self@.command_version,
    {
        self.command_version
    }

    pub fn reserved(&self) -> (r: u8)
        ensures
            r == self@.reserved,
    {
        self.reserved
    }

    pub fn data_len(&self) -> (r: u16)
        ensures
            r == self@.data_len,
    {
        self.data_len
    }

    pub fn set_struct_version(&mut self, version: u8)
        ensures
            final(self)@ == (ECHostRequestView { struct_version: version, ..old(self)@ }),
    {
        self.struct_version = version;
    }

    pub fn set_checksum(&mut self, csum: u8)
        ensures
            final(self)@ == (ECHostRequestView { checksum: csum, ..old(self)@ }),
    {
        self.checksum = csum;
    }

    pub fn set_command(&mut self, cmd: u16)
        ensures
            final(self)@ == (ECHostRequestView { command: cmd, ..old(self)@ }),
    {
        self.command = cmd;
    }

    pub fn set_command_version(&mut self, version: u8)
        ensures
            final(self)@ == (ECHostRequestView { command_version: version, ..old(self)@ }),
    {
        self.command_version = version;
    }

    pub fn set_reserved(&mut self, rsv: u8)
        ensures
            final(self)@ == (ECHostRequestView { reserved: rsv, ..old(self)@ }),
    {
        self.reserved = rsv;
    }

    pub fn set_data_len(&mut self, len: u16)
        ensures
            final(self)@ == (ECHostRequestView { data_len: len, ..old(self)@ }),
    {
        self.data_len = len;
    }

}

/// Version 3 response header. The checksum makes the bytes of header and
/// data sum to zero.
pub struct ECHostResponse {
    /// Struct version (=3).
    struct_version: u8,
    checksum: u8,
    /// The EC's response to the command.
    result: u16,
    /// Length of the data that follows the header.
    data_len: u16,
    /// Unused; set to 0.
    reserved: u16,
}

/// The fields of a `ECHostResponse`.
pub struct ECHostResponseView {
    pub struct_version: u8,
    pub checksum: u8,
    pub result: u16,
    pub data_len: u16,
    pub reserved: u16,
}

impl ECHostResponseView {
    /// The header as it goes on the wire.
    pub open spec fn wire(&self) -> Seq<u8> {
        seq![self.struct_version, self.checksum] + le16_bytes(self.result) + le16_bytes(self.data_len)
            + le16_bytes(self.reserved)
    }
}

impl View for ECHostResponse {
    type V = ECHostResponseView;

    closed spec fn view(&self) -> ECHostResponseView {
        ECHostResponseView {
            struct_version: self.struct_version,
            checksum: self.checksum,
            result: self.result,
            data_len: self.data_len,
            reserved: self.reserved,
        }
    }
}

impl ECHostResponse {
    pub fn new() -> (r: Self)
        ensures
            r@ == (ECHostResponseView {
                struct_version: EC_HOST_RESPONSE_VERSION,
                checksum: 0,
                result: 0,
                data_len: 0,
                reserved: 0,
            }),
    {
        Self { struct_version: EC_HOST_RESPONSE_VERSION, checksum: 0, result: 0, data_len: 0, reserved: 0 }
    }

    pub open spec fn new_view() -> ECHostResponseView {
        ECHostResponseView {
            struct_version: EC_HOST_RESPONSE_VERSION,
            checksum: 0,
            result: 0,
            data_len: 0,
            reserved: 0,
        }
    }

    /// The header as it goes on the wire.
    pub open spec fn spec_bytes(&self) -> Seq<u8> {
        self@.wire()
    }

    pub fn as_bytes(&self) -> (r: [u8; EC_HOST_RESPONSE_HEADER_BYTES])
        ensures
            r@ == self.spec_bytes(),
    {
        let r = [
            self.struct_version,
            self.checksum,
            (self.result % 0x100) as u8,
            (self.result / 0x100) as u8,
            (self.data_len % 0x100) as u8,
            (self.data_len / 0x100) as u8,
            (self.reserved % 0x100) as u8,
            (self.reserved / 0x100) as u8,
        ];
        assert(r@ =~= self.spec_bytes());
        r
    }

    pub fn len(&self) -> (r: usize)
        ensures
            r == EC_HOST_RESPONSE_HEADER_BYTES,
    {
        EC_HOST_RESPONSE_HEADER_BYTES
    }

    pub fn struct_version(&self) -> (r: u8)
        ensures
            r == self@.struct_version,
    {
        self.struct_version
    }

    pub fn checksum(&self) -> (r: u8)
        ensures
            r == self@.checksum,
    {
        self.checksum
    }

    pub fn result(&self) -> (r: u16)
        ensures
            r == self@.result,
    {
        self.result
    }

    pub fn data_len(&self) -> (r: u16)
        ensures
            r == self@.data_len,
    {
        self.data_len
    }

    pub fn reserved(&self) -> (r: u16)
        ensures
            r == self@.reserved,
    {
        self.reserved
    }

    pub fn set_checksum(&mut self, csum: u8)
        ensures
            final(self)@ == (ECHostResponseView { checksum: csum, ..old(self)@ }),
    {
        self.checksum = csum;
    }

    pub fn set_result(&mut self, res: u16)
        ensures
            final(self)@ == (ECHostResponseView { result: res, ..old(self)@ }),
    {
        self.result = res;
    }

    pub fn set_data_len(&mut self, len: u16)
        ensures
            final(self)@ == (ECHostResponseView { data_len: len, ..old(self)@ }),
    {
        self.data_len = len;
    }

    pub fn set_reserved(&mut self, res: u16)
        ensures
            final(self)@ == (ECHostResponseView { reserved: res, ..old(self)@ }),
    {
        self.reserved = res;
    }

}


/// A whole version 3 request packet: header and data area.
pub struct ECCommandV3 {
    header: ECHostRequest,
    data: [u8; MSG_BYTES],
}

/// The parts of an `ECCommandV3`.
pub struct ECCommandV3View {
    pub header: ECHostRequestView,
    pub data: Seq<u8>,
}

impl View for ECCommandV3 {
    type V = ECCommandV3View;

    closed spec fn view(&self) -> ECCommandV3View {
        ECCommandV3View { header: self.header@, data: self.data@ }
    }
}

impl ECCommandV3 {
    pub fn new() -> (r: Self)
        ensures
            r@.header == ECHostRequest::new_view(),
            r@.data == Seq::new(MSG_BYTES as nat, |_i: int| 0u8),
    {
        let r = Self { header: ECHostRequest::new(), data: [0u8; MSG_BYTES] };
        assert(r.data@ =~= Seq::new(MSG_BYTES as nat, |_i: int| 0u8));
        r
    }

    /// Header and data area as they go on the wire.
    pub fn as_bytes(&self) -> (r: [u8; EC_PACKET_BYTES])
        ensures
            r@ == self@.header.wire() + self@.data,
    {
        let h = self.header.as_bytes();
        let mut out = [0u8; EC_PACKET_BYTES];
        let mut i: usize = 0;
        while i < EC_PACKET_BYTES
            invariant
                i <= EC_PACKET_BYTES,
                h@ == self@.header.wire(),
                out@.len() == EC_PACKET_BYTES,
                forall|j: int| 0 <= j < i ==> out@[j] == (h@ + self.data@)[j],
            decreases EC_PACKET_BYTES - i,
        {
            if i < EC_HOST_RESPONSE_HEADER_BYTES {
                out[i] = h[i];
            } else {
                out[i] = self.data[i - EC_HOST_RESPONSE_HEADER_BYTES];
            }
            i = i + 1;
        }
        assert(out@ =~= h@ + self.data@);
        out
    }

    pub fn len(&self) -> (r: usize)
        ensures
            r == EC_PACKET_BYTES,
    {
        self.header.len() + MSG_BYTES
    }

    pub fn header(&self) -> (r: &ECHostRequest)
        ensures
            r@ == self@.header,
    {
        &self.header
    }

    pub fn header_mut(&mut self) -> (r: &mut ECHostRequest)
        ensures
            r@ == old(self)@.header,
            final(self)@ == (ECCommandV3View { header: final(r)@, ..old(self)@ }),
    {
        &mut self.header
    }

    /// The first `data_len` bytes of the data area.
    pub fn data(&self) -> (r: &[u8])
        requires
            self@.header.data_len <= MSG_BYTES,
        ensures
            r@ == self@.data.subrange(0, self@.header.data_len as int),
    {
        self.data.as_slice().split_at(self.header.data_len as usize).0
    }

    pub fn data_mut(&mut self) -> (r: &mut [u8])
        requires
            old(self)@.header.data_len <= MSG_BYTES,
        ensures
            r@ == old(self)@.data.subrange(0, old(self)@.header.data_len as int),
    {
        let n = self.header.data_len as usize;
        let s: &mut [u8] = &mut self.data;
        s.split_at_mut(n).0
    }

    /// The whole data area.
    pub fn raw_data(&self) -> (r: &[u8; MSG_BYTES])
        ensures
            r@ == self@.data,
    {
        &self.data
    }
}

/// A whole version 3 response packet: header and data area.
pub struct ECResponseV3 {
    header: ECHostResponse,
    data: [u8; MSG_BYTES],
}

/// The parts of an `ECResponseV3`.
pub struct ECResponseV3View {
    pub header: ECHostResponseView,
    pub data: Seq<u8>,
}

impl View for ECResponseV3 {
    type V = ECResponseV3View;

    closed spec fn view(&self) -> ECResponseV3View {
        ECResponseV3View { header: self.header@, data: self.data@ }
    }
}

impl ECResponseV3 {
    pub fn new() -> (r: Self)
        ensures
            r@.header == ECHostResponse::new_view(),
            r@.data == Seq::new(MSG_BYTES as nat, |_i: int| 0u8),
    {
        let r = Self { header: ECHostResponse::new(), data: [0u8; MSG_BYTES] };
        assert(r.data@ =~= Seq::new(MSG_BYTES as nat, |_i: int| 0u8));
        r
    }

    /// Header and data area as they go on the wire.
    pub fn as_bytes(&self) -> (r: [u8; EC_PACKET_BYTES])
        ensures
            r@ == self@.header.wire() + self@.data,
    {
        let h = self.header.as_bytes();
        let mut out = [0u8; EC_PACKET_BYTES];
        let mut i: usize = 0;
        while i < EC_PACKET_BYTES
            invariant
                i <= EC_PACKET_BYTES,
                h@ == self@.header.wire(),
                out@.len() == EC_PACKET_BYTES,
                forall|j: int| 0 <= j < i ==> out@[j] == (h@ + self.data@)[j],
            decreases EC_PACKET_BYTES - i,
        {
            if i < EC_HOST_RESPONSE_HEADER_BYTES {
                out[i] = h[i];
            } else {
                out[i] = self.data[i - EC_HOST_RESPONSE_HEADER_BYTES];
            }
            i = i + 1;
        }
        assert(out@ =~= h@ + self.data@);
        out
    }

    pub fn len(&self) -> (r: usize)
        ensures
            r == EC_HOST_RESPONSE_HEADER_BYTES + self@.header.data_len,
    {
        self.header.len() + self.header.data_len as usize
    }

    pub fn header(&self) -> (r: &ECHostResponse)
        ensures
            r@ == self@.header,
    {
        &self.header
    }

    pub fn header_mut(&mut self) -> (r: &mut ECHostResponse)
        ensures
            r@ == old(self)@.header,
            final(self)@ == (ECResponseV3View { header: final(r)@, ..old(self)@ }),
    {
        &mut self.header
    }

    /// The first `data_len` bytes of the data area.
    pub fn data(&self) -> (r: &[u8])
        requires
            self@.header.data_len <= MSG_BYTES,
        ensures
            r@ == self@.data.subrange(0, self@.header.data_len as int),
    {
        self.data.as_slice().split_at(self.header.data_len as usize).0
    }

    pub fn data_mut(&mut self) -> (r: &mut [u8])
        requires
            old(self)@.header.data_len <= MSG_BYTES,
        ensures
            r@ == old(self)@.data.subrange(0, old(self)@.header.data_len as int),
    {
        let n = self.header.data_len as usize;
        let s: &mut [u8] = &mut self.data;
        s.split_at_mut(n).0
    }

    /// The whole data area.
    pub fn raw_data(&self) -> (r: &[u8; MSG_BYTES])
        ensures
            r@ == self@.data,
    {
        &self.data
    }
}

/// Context handed to the EC transport.
pub struct ECContext;

/// The request header for `cmd` with a zero checksum field.
pub open spec fn request_header(cmd: ChromeECCommandView, checksum: u8) -> ECHostRequestView {
    ECHostRequestView {
        struct_version: EC_HOST_REQUEST_VERSION,
        checksum,
        command: cmd.cmd_code,
        command_version: cmd.cmd_version,
        reserved: 0,
        data_len: cmd.cmd_size_in,
    }
}

/// The checksum that makes `bytes` and itself sum to zero modulo 256.
pub open spec fn zero_sum_checksum(bytes: Seq<u8>) -> u8 {
    ((256 - byte_sum(bytes)) % 256) as u8
}

/// Builds the version 3 request packet for `cec_command`: its header, its
/// data, and a checksum that makes header and data sum to zero. Fails with
/// `ECResRequestTruncated` when the data does not fit a packet.
pub fn create_proto3_request(cec_command: &ChromeECCommand) -> (r: Result<ECCommandV3, Error>)
    ensures
        r is Err <==> cec_command@.cmd_size_in + EC_HOST_REQUEST_HEADER_BYTES > EC_PACKET_BYTES,
        r is Err ==> r == Err::<ECCommandV3, Error>(Error::ECResRequestTruncated),
        r is Ok ==> ({
            let cmd = r->Ok_0;
            let n = cec_command@.cmd_size_in as int;
            &&& cmd@.header == request_header(
                cec_command@,
                zero_sum_checksum(
                    request_header(cec_command@, 0).wire() + cec_command@.cmd_data_in.subrange(0, n),
                ),
            )
            &&& cmd@.data == cec_command@.cmd_data_in.subrange(0, n) + Seq::new(
                (MSG_BYTES - n) as nat,
                |_i: int| 0u8,
            )
        }),
{
    let n = cec_command.cmd_size_in as usize;
    if n + EC_HOST_REQUEST_HEADER_BYTES > EC_PACKET_BYTES {
        return Err(Error::ECResRequestTruncated);
    }
    let mut cmd = ECCommandV3::new();
    cmd.header.checksum = 0;
    cmd.header.command = cec_command.cmd_code;
    cmd.header.command_version = cec_command.cmd_version;
    cmd.header.reserved = 0;
    cmd.header.data_len = cec_command.cmd_size_in;
    let mut i: usize = 0;
    while i < n
        invariant
            n == cec_command@.cmd_size_in,
            n <= MSG_BYTES,
            i <= n,
            cmd.data@.len() == MSG_BYTES,
            cmd.header@ == request_header(cec_command@, 0),
            forall|j: int| 0 <= j < i ==> cmd.data@[j] == cec_command@.cmd_data_in[j],
            forall|j: int| i <= j < MSG_BYTES ==> cmd.data@[j] == 0,
        decreases n - i,
    {
        cmd.data[i] = cec_command.cmd_data_in[i];
        i = i + 1;
    }
    let ghost data = cec_command@.cmd_data_in.subrange(0, n as int);
    let packet = cmd.as_bytes();
    let (head, _) = packet.as_slice().split_at(n + EC_HOST_REQUEST_HEADER_BYTES);
    proof {
        assert(head@ =~= request_header(cec_command@, 0).wire() + data);
    }
    let csum = cros_ec_calc_checksum(head);
    let neg: u8 = if csum == 0 {
        0
    } else {
        (256 - csum as u16) as u8
    };
    cmd.header.checksum = neg;
    proof {
        assert(cmd.data@ =~= data + Seq::new((MSG_BYTES - n) as nat, |_i: int| 0u8));
    }
    Ok(cmd)
}

/// The number of bytes a version 3 response to `cec_command` may take, or
/// `ECResResponseTooBig` when its expected size does not fit a packet.
pub fn prepare_proto3_response_buffer(cec_command: &ChromeECCommand, resp: &ECResponseV3) -> (r:
    Result<usize, Error>)
    ensures
        ({
            let in_bytes = cec_command@.cmd_size_out + EC_HOST_RESPONSE_HEADER_BYTES;
            let room = EC_HOST_RESPONSE_HEADER_BYTES + resp@.header.data_len;
            &&& r is Ok <==> in_bytes <= room
            &&& r is Ok ==> r->Ok_0 == in_bytes
            &&& r is Err ==> r == Err::<usize, Error>(Error::ECResResponseTooBig)
        }),
{
    let in_bytes = cec_command.size_out() as usize + resp.header().len();
    if in_bytes > resp.len() {
        return Err(Error::ECResResponseTooBig);
    }
    Ok(in_bytes)
}

/// The error a version 3 response raises, checked in this order: a header
/// version other than 3 or a nonzero reserved field, more data than the
/// packet or the command allow, a nonzero byte sum, then the EC's own
/// result code.
pub open spec fn response_error(resp: ECResponseV3View, size_out: u16) -> Option<Error> {
    let h = resp.header;
    if h.struct_version != EC_HOST_RESPONSE_VERSION || h.reserved != 0 {
        Some(Error::ECResInvalidResponse)
    } else if h.data_len > MSG_BYTES || h.data_len > size_out {
        Some(Error::ECResResponseTooBig)
    } else if byte_sum(h.wire() + resp.data.subrange(0, h.data_len as int)) != 0 {
        Some(Error::ECResInvalidChecksum)
    } else if h.result != 0 {
        Some(Error::ECResResponse((-(h.result as int)) as i32))
    } else {
        None
    }
}

/// Checks a version 3 response and hands its result code, data length and
/// whole data area to `cec_command`; returns the number of data bytes.
pub fn handle_proto3_response(resp: &ECResponseV3, cec_command: &mut ChromeECCommand) -> (r: Result<
    usize,
    Error,
>)
    ensures
        ({
            let e = response_error(resp@, old(cec_command)@.cmd_size_out);
            let h = resp@.header;
            let delivered = e is None || e == Some(Error::ECResResponse((-(h.result as int)) as i32));
            &&& (match e {
                None => r == Ok::<usize, Error>(h.data_len as usize),
                Some(x) => r == Err::<usize, Error>(x),
            })
            &&& delivered ==> final(cec_command)@ == (ChromeECCommandView {
                cmd_code: h.result,
                cmd_size_out: h.data_len,
                cmd_data_out: resp@.data,
                ..old(cec_command)@
            })
            &&& !delivered ==> final(cec_command)@ == old(cec_command)@
        }),
{
    let rs = &resp.header;
    if rs.struct_version != EC_HOST_RESPONSE_VERSION || rs.reserved != 0 {
        return Err(Error::ECResInvalidResponse);
    }
    if rs.data_len as usize > MSG_BYTES || rs.data_len > cec_command.cmd_size_out {
        return Err(Error::ECResResponseTooBig);
    }
    let n = rs.data_len as usize;
    let packet = resp.as_bytes();
    let (head, _) = packet.as_slice().split_at(EC_HOST_RESPONSE_HEADER_BYTES + n);
    proof {
        assert(head@ =~= rs@.wire() + resp@.data.subrange(0, n as int));
    }
    if cros_ec_calc_checksum(head) != 0 {
        return Err(Error::ECResInvalidChecksum);
    }
    cec_command.cmd_code = rs.result;
    cec_command.cmd_size_out = rs.data_len;
    let mut i: usize = 0;
    while i < MSG_BYTES
        invariant
            i <= MSG_BYTES,
            n <= MSG_BYTES,
            n == resp@.header.data_len,
            cec_command.cmd_data_out@.len() == MSG_BYTES,
            cec_command.cmd_code == resp@.header.result,
            cec_command.cmd_size_out == resp@.header.data_len,
            cec_command.cmd_version == old(cec_command).cmd_version,
            cec_command.cmd_data_in == old(cec_command).cmd_data_in,
            cec_command.cmd_size_in == old(cec_command).cmd_size_in,
            cec_command.cmd_dev_index == old(cec_command).cmd_dev_index,
            forall|j: int| 0 <= j < i ==> cec_command.cmd_data_out@[j] == resp@.data[j],
            resp@.data.len() == MSG_BYTES,
        decreases MSG_BYTES - i,
    {
        cec_command.cmd_data_out[i] = resp.data[i];
        i = i + 1;
    }
    proof {
        assert(cec_command.cmd_data_out@ =~= resp@.data);
    }
    if rs.result != 0 {
        return Err(Error::ECResResponse(-(rs.result as i32)));
    }
    Ok(n)
}

} // verus!
