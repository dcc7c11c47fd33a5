//! The hypervisor client: a single-shot HTTP/1.1 dialect spoken over a
//! per-VM Unix control socket. Request text, body text, header scanning and
//! the status check are verified; only the socket calls themselves go
//! through trusted wrappers over `nix`.
use crate::codec::{dec_rep, esc, push_dec_u64, push_esc};
use crate::models::{Vm, VmConfig};
use crate::text::{chars_to_string, push_str_chars};
use nix::sys::socket::{connect, socket, sockopt, AddressFamily, SockFlag, SockType, UnixAddr};
use nix::sys::time::{TimeVal, TimeValLike};
use vstd::prelude::*;
use vstd::string::{StrSliceExecFns, StringExecFns, StringSliceAdditionalSpecFns};

verus! {

/// Why a hypervisor interaction failed.
#[derive(Debug)]
pub enum FirecrackerError {
    /// Spawning the hypervisor process, or plain I/O on its socket, failed.
    ProcessStart(String),
    /// The control socket could not be reached or set up.
    SocketConnection(String),
    /// The hypervisor answered, but not with 200 or 204; carries the raw
    /// response text for diagnostics.
    ApiRequest(String),
}

impl FirecrackerError {
    pub open spec fn spec_message(self) -> Seq<char> {
        match self {
            FirecrackerError::ProcessStart(d) => "Failed to start Firecracker process: "@ + d@,
            FirecrackerError::SocketConnection(d) => "Failed to connect to Firecracker socket: "@
                + d@,
            FirecrackerError::ApiRequest(d) => "API request failed: "@ + d@,
        }
    }

    pub fn message(&self) -> (r: String)
        ensures
            r@ == self.spec_message(),
    {
        match self {
            FirecrackerError::ProcessStart(d) => {
                let mut s = String::from_str("Failed to start Firecracker process: ");
                s.append(d.as_str());
                s
            },
            FirecrackerError::SocketConnection(d) => {
                let mut s = String::from_str("Failed to connect to Firecracker socket: ");
                s.append(d.as_str());
                s
            },
            FirecrackerError::ApiRequest(d) => {
                let mut s = String::from_str("API request failed: ");
                s.append(d.as_str());
                s
            },
        }
    }
}

// ------------------------------------------------------------------
// trusted socket wrappers over nix
// ------------------------------------------------------------------

/// Relies on `nix::sys::socket::socket` with `AF_UNIX`/`SOCK_STREAM`:
/// returns a fresh stream socket descriptor.
#[verifier::external_body]
fn sock_stream_unix() -> (r: Result<i32, String>) {
    socket(AddressFamily::Unix, SockType::Stream, SockFlag::empty(), None).map_err(
        |e| e.to_string(),
    )
}

/// Relies on `nix::sys::socket::{UnixAddr::new, connect}`: connects the
/// descriptor to the Unix socket at `path`.
#[verifier::external_body]
fn sock_connect(fd: i32, path: &str) -> (r: Result<(), String>) {
    let addr = UnixAddr::new(path).map_err(|e| e.to_string())?;
    connect(fd, &addr).map_err(|e| e.to_string())
}

/// Relies on `nix::sys::socket::setsockopt` with `ReceiveTimeout` and
/// `TimeVal::seconds`: a read on the descriptor gives up after `secs`
/// seconds. `TimeVal::seconds` panics on values outside its representable
/// range, so the bound here keeps the call total.
#[verifier::external_body]
fn sock_set_recv_timeout(fd: i32, secs: i64) -> (r: Result<(), String>)
    requires
        0 <= secs <= 86400,
{
    nix::sys::socket::setsockopt(fd, sockopt::ReceiveTimeout, &TimeVal::seconds(secs)).map_err(
        |e| e.to_string(),
    )
}

/// Relies on `nix::unistd::write`: sends bytes of `buf` starting at `from`
/// and returns how many were accepted, at most the rest of the buffer.
#[verifier::external_body]
fn sock_send(fd: i32, buf: &Vec<u8>, from: usize) -> (r: Result<usize, String>)
    requires
        from <= buf@.len(),
    ensures
        r matches Ok(n) ==> n <= buf@.len() - from,
{
    nix::unistd::write(fd, &buf[from..]).map_err(|e| e.to_string())
}

/// Relies on `nix::unistd::read`: receives at most `max` bytes; an empty
/// result means end of stream.
#[verifier::external_body]
fn sock_recv(fd: i32, max: usize) -> (r: Result<Vec<u8>, String>)
    ensures
        r matches Ok(v) ==> v@.len() <= max,
{
    let mut buf = vec![0u8; max];
    match nix::unistd::read(fd, &mut buf) {
        Ok(n) => {
            buf.truncate(n);
            Ok(buf)
        },
        Err(e) => Err(e.to_string()),
    }
}

/// Relies on `nix::unistd::close`; a close failure is ignored, as the
/// descriptor is finished either way.
#[verifier::external_body]
fn sock_close(fd: i32) {
    let _ = nix::unistd::close(fd);
}

/// Relies on `String::from_utf8_lossy`; only used to turn raw response
/// bytes into diagnostic text.
#[verifier::external_body]
fn bytes_to_string_lossy(b: &Vec<u8>) -> (r: String) {
    String::from_utf8_lossy(b.as_slice()).into_owned()
}

// ------------------------------------------------------------------
// request text
// ------------------------------------------------------------------

/// The one-shot request: method and path, fixed headers, a Content-Length
/// counting the body's bytes, `Connection: close`, then the body.
pub open spec fn request_spec(method: Seq<char>, path: Seq<char>, body: Seq<char>, body_bytes: nat) -> Seq<
    char,
> {
    method + " "@ + path
        + " HTTP/1.1\r\nHost: localhost\r\nContent-Type: application/json\r\nContent-Length: "@
        + dec_rep(body_bytes) + "\r\nConnection: close\r\n\r\n"@ + body
}

/// Decimal text of `n`.
pub fn u64_to_string(n: u64) -> (r: String)
    ensures
        r@ == dec_rep(n as nat),
{
    let mut v: Vec<char> = Vec::new();
    push_dec_u64(&mut v, n);
    chars_to_string(&v)
}

pub fn build_request(method: &str, path: &str, body: &str) -> (r: String)
    ensures
        r@ == request_spec(method@, path@, body@, (body.spec_bytes().len() as usize) as nat),
{
    let mut s = String::new();
    s.append(method);
    s.append(" ");
    s.append(path);
    s.append(
        " HTTP/1.1\r\nHost: localhost\r\nContent-Type: application/json\r\nContent-Length: ",
    );
    let n = body.len();
    let num = u64_to_string(n as u64);
    s.append(num.as_str());
    s.append("\r\nConnection: close\r\n\r\n");
    s.append(body);
    proof {
        broadcast use crate::codec::lemma_seq_add_assoc;

        assert(s@ =~= request_spec(method@, path@, body@, (body.spec_bytes().len() as usize) as nat));
    }
    s
}

// ------------------------------------------------------------------
// body text
// ------------------------------------------------------------------

pub fn machine_config_body(vcpu_count: u8, mem_size_mib: u32) -> (r: String)
    ensures
        r@ == "{\"vcpu_count\":"@ + dec_rep(vcpu_count as nat) + ",\"mem_size_mib\":"@ + dec_rep(
            mem_size_mib as nat,
        ) + "}"@,
{
    let mut v: Vec<char> = Vec::new();
    push_str_chars(&mut v, "{\"vcpu_count\":");
    push_dec_u64(&mut v, vcpu_count as u64);
    push_str_chars(&mut v, ",\"mem_size_mib\":");
    push_dec_u64(&mut v, mem_size_mib as u64);
    push_str_chars(&mut v, "}");
    chars_to_string(&v)
}

pub fn boot_source_body(kernel_image_path: &str, boot_args: &str) -> (r: String)
    ensures
        r@ == "{\"kernel_image_path\":\""@ + esc(kernel_image_path@) + "\",\"boot_args\":\""@
            + esc(boot_args@) + "\"}"@,
{
    let mut v: Vec<char> = Vec::new();
    push_str_chars(&mut v, "{\"kernel_image_path\":\"");
    push_esc(&mut v, kernel_image_path);
    push_str_chars(&mut v, "\",\"boot_args\":\"");
    push_esc(&mut v, boot_args);
    push_str_chars(&mut v, "\"}");
    chars_to_string(&v)
}

pub fn root_drive_body(rootfs_path: &str) -> (r: String)
    ensures
        r@ == "{\"drive_id\":\"rootfs\",\"path_on_host\":\""@ + esc(rootfs_path@)
            + "\",\"is_root_device\":true,\"is_read_only\":false}"@,
{
    let mut v: Vec<char> = Vec::new();
    push_str_chars(&mut v, "{\"drive_id\":\"rootfs\",\"path_on_host\":\"");
    push_esc(&mut v, rootfs_path);
    push_str_chars(&mut v, "\",\"is_root_device\":true,\"is_read_only\":false}");
    chars_to_string(&v)
}

// ------------------------------------------------------------------
// response text
// ------------------------------------------------------------------

/// The call succeeded exactly when the status line opens with
/// `HTTP/1.1 200` or `HTTP/1.1 204`.
pub open spec fn status_ok(s: Seq<u8>) -> bool {
    &&& s.len() >= 12
    &&& s[0] == 'H' as u8
    &&& s[1] == 'T' as u8
    &&& s[2] == 'T' as u8
    &&& s[3] == 'P' as u8
    &&& s[4] == '/' as u8
    &&& s[5] == '1' as u8
    &&& s[6] == '.' as u8
    &&& s[7] == '1' as u8
    &&& s[8] == ' ' as u8
    &&& s[9] == '2' as u8
    &&& s[10] == '0' as u8
    &&& (s[11] == '0' as u8 || s[11] == '4' as u8)
}

pub fn response_is_success(resp: &Vec<u8>) -> (r: bool)
    ensures
        r == status_ok(resp@),
{
    if resp.len() < 12 {
        return false;
    }
    resp[0] == ('H' as u8) && resp[1] == ('T' as u8) && resp[2] == ('T' as u8) && resp[3] == ('P' as u8) && resp[4] == ('/' as u8)
        && resp[5] == ('1' as u8) && resp[6] == ('.' as u8) && resp[7] == ('1' as u8) && resp[8] == (' ' as u8) && resp[9]
        == ('2' as u8) && resp[10] == ('0' as u8) && (resp[11] == ('0' as u8) || resp[11] == ('4' as u8))
}

/// The byte string is one complete response: a header block ending at its
/// first blank line, followed by at least as many body bytes as its
/// `Content-Length` header declares.
pub open spec fn response_complete(s: Seq<u8>) -> bool {
    exists|h: int|
        #![auto]
        is_crlfcrlf(s, h) && (forall|j: int| 0 <= j < h ==> !is_crlfcrlf(s, j)) && s.len() >= h + 4
            + spec_content_length(s, 0, h)
}

/// A blank line (end of the headers) starts at `i`.
pub open spec fn is_crlfcrlf(s: Seq<u8>, i: int) -> bool {
    &&& 0 <= i
    &&& i + 4 <= s.len()
    &&& s[i] == 13u8
    &&& s[i + 1] == 10u8
    &&& s[i + 2] == 13u8
    &&& s[i + 3] == 10u8
}

/// First position where the headers end, if they do.
fn find_headers_end(s: &Vec<u8>) -> (r: Option<usize>)
    ensures
        match r {
            Some(i) => is_crlfcrlf(s@, i as int) && forall|j: int| 0 <= j < i ==> !is_crlfcrlf(
                s@,
                j,
            ),
            None => forall|j: int| !is_crlfcrlf(s@, j),
        },
{
    let n = s.len();
    if n < 4 {
        return None;
    }
    let mut i: usize = 0;
    while i <= n - 4
        invariant
            n == s@.len(),
            4 <= n,
            i <= n - 3,
            forall|j: int| 0 <= j < i ==> !is_crlfcrlf(s@, j),
        decreases n - i,
    {
        if s[i] == 13u8 && s[i + 1] == 10u8 && s[i + 2] == 13u8 && s[i + 3] == 10u8 {
            return Some(i);
        }
        assert(!is_crlfcrlf(s@, i as int));
        i = i + 1;
    }
    assert forall|j: int| !is_crlfcrlf(s@, j) by {
        if 0 <= j && j + 4 <= s@.len() {
            assert(j < i);
        }
    }
    None
}



pub open spec fn ascii_lower(b: u8) -> u8 {
    if 65 <= b <= 90 {
        (b + 32) as u8
    } else {
        b
    }
}

pub open spec fn cl_token() -> Seq<u8> {
    seq![
        'c' as u8,
        'o' as u8,
        'n' as u8,
        't' as u8,
        'e' as u8,
        'n' as u8,
        't' as u8,
        '-' as u8,
        'l' as u8,
        'e' as u8,
        'n' as u8,
        'g' as u8,
        't' as u8,
        'h' as u8,
        ':' as u8,
    ]
}

/// A line starts at `p`: the start of the text or right after a CRLF.
pub open spec fn line_start(s: Seq<u8>, p: int) -> bool {
    p == 0 || (p >= 2 && s[p - 2] == 13u8 && s[p - 1] == 10u8)
}

/// A `Content-Length:` header (any letter case) begins at `p`, wholly
/// inside the header region that ends at `end`.
pub open spec fn cl_here(s: Seq<u8>, p: int, end: int) -> bool {
    &&& line_start(s, p)
    &&& 0 <= p
    &&& p + 15 <= end <= s.len()
    &&& forall|t: int| 0 <= t < 15 ==> ascii_lower(s[p + t]) == cl_token()[t]
}

pub open spec fn is_byte_digit(b: u8) -> bool {
    48 <= b && b <= 57
}

/// Value of the digit run at `p`, folded onto `acc`; mirrors the scanning
/// loop of the executable reader.
pub open spec fn byte_digits_acc(s: Seq<u8>, p: int, end: int, acc: nat) -> nat
    decreases end - p,
{
    if p < end && 0 <= p < s.len() && is_byte_digit(s[p]) {
        byte_digits_acc(s, p + 1, end, (acc * 10 + (s[p] - 48)) as nat)
    } else {
        acc
    }
}

/// The declared length: optional spaces after the colon, then a decimal;
/// an oversized or missing number counts as zero.
pub open spec fn cl_value(s: Seq<u8>, p: int, end: int) -> u64
    decreases end - p,
{
    if p < end && 0 <= p < s.len() && s[p] == 32u8 {
        cl_value(s, p + 1, end)
    } else {
        if byte_digits_acc(s, p, end, 0) > u64::MAX {
            0
        } else {
            byte_digits_acc(s, p, end, 0) as u64
        }
    }
}

/// The value of the first `Content-Length` header before `end`, or zero.
pub open spec fn spec_content_length(s: Seq<u8>, p: int, end: int) -> u64
    decreases end - p,
{
    if 0 <= p < end {
        if cl_here(s, p, end) {
            cl_value(s, p + 15, end)
        } else {
            spec_content_length(s, p + 1, end)
        }
    } else {
        0
    }
}

/// Folding one more digit never shrinks the accumulated value.
proof fn lemma_byte_digits_acc_monotone(s: Seq<u8>, p: int, end: int, acc: nat)
    ensures
        byte_digits_acc(s, p, end, acc) >= acc,
    decreases end - p,
{
    if p < end && 0 <= p < s.len() && is_byte_digit(s[p]) {
        lemma_byte_digits_acc_monotone(s, p + 1, end, (acc * 10 + (s[p] - 48)) as nat);
    }
}

fn exec_cl_token(t: usize) -> (r: u8)
    requires
        t < 15,
    ensures
        r == cl_token()[t as int],
{
    if t == 0 {
        ('c' as u8)
    } else if t == 1 {
        ('o' as u8)
    } else if t == 2 {
        ('n' as u8)
    } else if t == 3 {
        ('t' as u8)
    } else if t == 4 {
        ('e' as u8)
    } else if t == 5 {
        ('n' as u8)
    } else if t == 6 {
        ('t' as u8)
    } else if t == 7 {
        ('-' as u8)
    } else if t == 8 {
        ('l' as u8)
    } else if t == 9 {
        ('e' as u8)
    } else if t == 10 {
        ('n' as u8)
    } else if t == 11 {
        ('g' as u8)
    } else if t == 12 {
        ('t' as u8)
    } else if t == 13 {
        ('h' as u8)
    } else {
        (':' as u8)
    }
}

fn exec_ascii_lower(b: u8) -> (r: u8)
    ensures
        r == ascii_lower(b),
{
    if 65 <= b && b <= 90 {
        b + 32
    } else {
        b
    }
}

fn cl_here_at(s: &Vec<u8>, p: usize, end: usize) -> (r: bool)
    requires
        p < end <= s@.len(),
    ensures
        r == cl_here(s@, p as int, end as int),
{
    if p != 0 {
        if p < 2 || !(s[p - 2] == 13u8 && s[p - 1] == 10u8) {
            assert(!line_start(s@, p as int));
            return false;
        }
    }
    if end - p < 15 {
        return false;
    }
    let mut t: usize = 0;
    while t < 15
        invariant
            t <= 15,
            p + 15 <= end <= s@.len(),
            forall|u: int| 0 <= u < t ==> ascii_lower(s@[p + u]) == cl_token()[u],
        decreases 15 - t,
    {
        let lb = exec_ascii_lower(s[p + t]);
        let tok = exec_cl_token(t);
        if lb != tok {
            assert(ascii_lower(s@[p + t]) != cl_token()[t as int]);
            return false;
        }
        t = t + 1;
    }
    assert(line_start(s@, p as int));
    true
}

/// Reads the declared length at `p` (after the header token).
fn read_cl_value(s: &Vec<u8>, p: usize, end: usize) -> (r: u64)
    requires
        p <= end <= s@.len(),
    ensures
        r == cl_value(s@, p as int, end as int),
    decreases end - p,
{
    if p < end && s[p] == 32u8 {
        return read_cl_value(s, p + 1, end);
    }
    let mut q = p;
    let mut acc: u64 = 0;
    while q < end && s[q] >= 48u8 && s[q] <= 57u8
        invariant
            p <= q <= end <= s@.len(),
            byte_digits_acc(s@, p as int, end as int, 0) == byte_digits_acc(
                s@,
                q as int,
                end as int,
                acc as nat,
            ),
        decreases end - q,
    {
        let d = s[q] - 48;
        let next = match acc.checked_mul(10) {
            Some(v) => v.checked_add(d as u64),
            None => None,
        };
        match next {
            Some(v) => {
                acc = v;
                q = q + 1;
            },
            None => {
                // the declared number does not fit: treated as zero
                proof {
                    lemma_byte_digits_acc_monotone(
                        s@,
                        q + 1,
                        end as int,
                        (acc * 10 + (s@[q as int] - 48)) as nat,
                    );
                }
                return 0;
            },
        }
    }
    acc
}

/// The value of the first `Content-Length` header in `s[..end]`, or zero
/// when none is present (mirroring a reader that defaults to no body).
fn content_length_of(s: &Vec<u8>, end: usize) -> (r: u64)
    requires
        end <= s@.len(),
    ensures
        r == spec_content_length(s@, 0, end as int),
{
    let mut p: usize = 0;
    while p < end
        invariant
            p <= end <= s@.len(),
            spec_content_length(s@, 0, end as int) == spec_content_length(
                s@,
                p as int,
                end as int,
            ),
        decreases end - p,
    {
        if cl_here_at(s, p, end) {
            return read_cl_value(s, p + 15, end);
        }
        assert(spec_content_length(s@, p as int, end as int) == spec_content_length(
            s@,
            p + 1,
            end as int,
        ));
        p = p + 1;
    }
    0
}

// ------------------------------------------------------------------
// the client
// ------------------------------------------------------------------

/// Largest response the client is willing to buffer.
pub const MAX_RESPONSE_BYTES: usize = 1048576;

/// Stateless client for one VM's control socket: each call connects, sends
/// one request, reads one full response, and disconnects.
pub struct FirecrackerClient {
    socket_path: String,
}

impl FirecrackerClient {
    pub closed spec fn path(self) -> Seq<char> {
        self.socket_path@
    }

    pub fn new(socket_path: &str) -> (r: FirecrackerClient)
        ensures
            r.path() == socket_path@,
    {
        FirecrackerClient { socket_path: socket_path.to_owned() }
    }

    /// One round trip: connect with a 30 s read timeout, send the request
    /// that `build_request` lays out, and read the full response: headers,
    /// then as many body bytes as the `Content-Length` header declares.
    /// What comes back is whatever the peer sent; its framing is checked
    /// here, and `ApiRequest` errors are left to the status check above.
    pub fn send_request(&self, method: &str, path: &str, body: &str) -> (r: Result<
        Vec<u8>,
        FirecrackerError,
    >)
        ensures
            r matches Ok(resp) ==> response_complete(resp@),
            r matches Err(e) ==> !(e is ApiRequest),
    {
        let fd = match sock_stream_unix() {
            Ok(fd) => fd,
            Err(e) => {
                return Err(FirecrackerError::SocketConnection(e));
            },
        };
        match sock_connect(fd, self.socket_path.as_str()) {
            Ok(_) => {},
            Err(e) => {
                sock_close(fd);
                return Err(FirecrackerError::SocketConnection(e));
            },
        }
        match sock_set_recv_timeout(fd, 30) {
            Ok(_) => {},
            Err(e) => {
                sock_close(fd);
                return Err(FirecrackerError::ProcessStart(e));
            },
        }
        let request = build_request(method, path, body);
        let req_bytes = request.as_str().as_bytes_vec();
        let total = req_bytes.len();
        let mut sent: usize = 0;
        while sent < total
            invariant
                sent <= total,
                total == req_bytes@.len(),
            decreases total - sent,
        {
            match sock_send(fd, &req_bytes, sent) {
                Ok(n) => {
                    if n == 0 {
                        sock_close(fd);
                        return Err(
                            FirecrackerError::ProcessStart(
                                String::from_str("socket write made no progress"),
                            ),
                        );
                    }
                    sent = sent + n;
                },
                Err(e) => {
                    sock_close(fd);
                    return Err(FirecrackerError::ProcessStart(e));
                },
            }
        }
        let mut resp: Vec<u8> = Vec::new();
        let mut done = false;
        while !done
            invariant
                resp@.len() <= MAX_RESPONSE_BYTES + 4096,
                done ==> response_complete(resp@),
            decreases
                    (if done {
                        0int
                    } else {
                        1int
                    }),
                    MAX_RESPONSE_BYTES + 4096 - resp@.len(),
        {
            let mut complete = false;
            match find_headers_end(&resp) {
                Some(h) => {
                    let cl = content_length_of(&resp, h);
                    if cl > 1048576 {
                        sock_close(fd);
                        return Err(
                            FirecrackerError::ProcessStart(
                                String::from_str("response declares an unreasonable body length"),
                            ),
                        );
                    }
                    if resp.len() >= h + 4 + (cl as usize) {
                        complete = true;
                        assert(response_complete(resp@));
                    }
                },
                None => {},
            }
            if complete {
                done = true;
            } else {
                if resp.len() >= MAX_RESPONSE_BYTES {
                    sock_close(fd);
                    return Err(
                        FirecrackerError::ProcessStart(String::from_str("response too large")),
                    );
                }
                match sock_recv(fd, 4096) {
                    Ok(chunk) => {
                        if chunk.len() == 0 {
                            sock_close(fd);
                            return Err(
                                FirecrackerError::ProcessStart(
                                    String::from_str(
                                        "connection closed before the response was complete",
                                    ),
                                ),
                            );
                        }
                        let mut c = chunk;
                        resp.append(&mut c);
                    },
                    Err(e) => {
                        sock_close(fd);
                        return Err(FirecrackerError::ProcessStart(e));
                    },
                }
            }
        }
        sock_close(fd);
        Ok(resp)
    }

    /// `PUT /machine-config` with the vCPU count and memory size. The
    /// exchanged response comes back as a ghost: the call succeeds exactly
    /// when that response opened with 200 or 204.
    pub fn configure_machine(&self, config: &VmConfig) -> (r: (
        Result<(), FirecrackerError>,
        Ghost<Seq<u8>>,
    ))
        ensures
            r.0 is Ok ==> response_complete(r.1@) && status_ok(r.1@),
            r.0 matches Err(e) && e is ApiRequest ==> response_complete(r.1@) && !status_ok(r.1@),
            r.0 matches Err(e) && !(e is ApiRequest) ==> r.1@ == Seq::<u8>::empty(),
    {
        let body = machine_config_body(config.vcpu_count, config.mem_size_mib);
        let resp = match self.send_request("PUT", "/machine-config", body.as_str()) {
            Ok(resp) => resp,
            Err(e) => {
                return (Err(e), Ghost(Seq::<u8>::empty()));
            },
        };
        let ghost bytes = resp@;
        (check_response("Failed to configure machine: ", resp), Ghost(bytes))
    }

    /// `PUT /boot-source` with the kernel image and its command line;
    /// success is exactly a 200/204 answer on the ghost response.
    pub fn set_boot_source(&self, config: &VmConfig) -> (r: (
        Result<(), FirecrackerError>,
        Ghost<Seq<u8>>,
    ))
        ensures
            r.0 is Ok ==> response_complete(r.1@) && status_ok(r.1@),
            r.0 matches Err(e) && e is ApiRequest ==> response_complete(r.1@) && !status_ok(r.1@),
            r.0 matches Err(e) && !(e is ApiRequest) ==> r.1@ == Seq::<u8>::empty(),
    {
        let body = boot_source_body(
            config.kernel_image_path.as_str(),
            config.kernel_args.as_str(),
        );
        let resp = match self.send_request("PUT", "/boot-source", body.as_str()) {
            Ok(resp) => resp,
            Err(e) => {
                return (Err(e), Ghost(Seq::<u8>::empty()));
            },
        };
        let ghost bytes = resp@;
        (check_response("Failed to set boot source: ", resp), Ghost(bytes))
    }

    /// `PUT /drives/rootfs` attaching the root filesystem image; success
    /// is exactly a 200/204 answer on the ghost response.
    pub fn add_root_drive(&self, rootfs_path: &str) -> (r: (
        Result<(), FirecrackerError>,
        Ghost<Seq<u8>>,
    ))
        ensures
            r.0 is Ok ==> response_complete(r.1@) && status_ok(r.1@),
            r.0 matches Err(e) && e is ApiRequest ==> response_complete(r.1@) && !status_ok(r.1@),
            r.0 matches Err(e) && !(e is ApiRequest) ==> r.1@ == Seq::<u8>::empty(),
    {
        let body = root_drive_body(rootfs_path);
        let resp = match self.send_request("PUT", "/drives/rootfs", body.as_str()) {
            Ok(resp) => resp,
            Err(e) => {
                return (Err(e), Ghost(Seq::<u8>::empty()));
            },
        };
        let ghost bytes = resp@;
        (check_response("Failed to add root drive: ", resp), Ghost(bytes))
    }

    /// `PUT /actions` with `InstanceStart`: boots the configured guest;
    /// success is exactly a 200/204 answer on the ghost response.
    pub fn start_instance(&self) -> (r: (Result<(), FirecrackerError>, Ghost<Seq<u8>>))
        ensures
            r.0 is Ok ==> response_complete(r.1@) && status_ok(r.1@),
            r.0 matches Err(e) && e is ApiRequest ==> response_complete(r.1@) && !status_ok(r.1@),
            r.0 matches Err(e) && !(e is ApiRequest) ==> r.1@ == Seq::<u8>::empty(),
    {
        let resp = match self.send_request(
            "PUT",
            "/actions",
            "{\"action_type\":\"InstanceStart\"}",
        ) {
            Ok(resp) => resp,
            Err(e) => {
                return (Err(e), Ghost(Seq::<u8>::empty()));
            },
        };
        let ghost bytes = resp@;
        (check_response("Failed to start instance: ", resp), Ghost(bytes))
    }

    /// `PATCH /vm` asking for state `Paused`; success is exactly a
    /// 200/204 answer on the ghost response.
    pub fn pause_instance(&self) -> (r: (Result<(), FirecrackerError>, Ghost<Seq<u8>>))
        ensures
            r.0 is Ok ==> response_complete(r.1@) && status_ok(r.1@),
            r.0 matches Err(e) && e is ApiRequest ==> response_complete(r.1@) && !status_ok(r.1@),
            r.0 matches Err(e) && !(e is ApiRequest) ==> r.1@ == Seq::<u8>::empty(),
    {
        let resp = match self.send_request("PATCH", "/vm", "{\"state\": \"Paused\"}") {
            Ok(resp) => resp,
            Err(e) => {
                return (Err(e), Ghost(Seq::<u8>::empty()));
            },
        };
        let ghost bytes = resp@;
        (check_response("Failed to pause instance: ", resp), Ghost(bytes))
    }

    /// `PATCH /vm` asking for state `Resumed`; success is exactly a
    /// 200/204 answer on the ghost response.
    pub fn resume_instance(&self) -> (r: (Result<(), FirecrackerError>, Ghost<Seq<u8>>))
        ensures
            r.0 is Ok ==> response_complete(r.1@) && status_ok(r.1@),
            r.0 matches Err(e) && e is ApiRequest ==> response_complete(r.1@) && !status_ok(r.1@),
            r.0 matches Err(e) && !(e is ApiRequest) ==> r.1@ == Seq::<u8>::empty(),
    {
        let resp = match self.send_request("PATCH", "/vm", "{\"state\": \"Resumed\"}") {
            Ok(resp) => resp,
            Err(e) => {
                return (Err(e), Ghost(Seq::<u8>::empty()));
            },
        };
        let ghost bytes = resp@;
        (check_response("Failed to resume instance: ", resp), Ghost(bytes))
    }
}

/// Accepts a response exactly when its status line says 200 or 204;
/// anything else becomes an `ApiRequest` error carrying `context` and the
/// raw response text.
pub fn check_response(context: &str, resp: Vec<u8>) -> (r: Result<(), FirecrackerError>)
    ensures
        r is Ok <==> status_ok(resp@),
        r matches Err(e) ==> e is ApiRequest,
{
    if response_is_success(&resp) {
        Ok(())
    } else {
        let mut msg = String::from_str(context);
        let text = bytes_to_string_lossy(&resp);
        msg.append(text.as_str());
        Err(FirecrackerError::ApiRequest(msg))
    }
}

/// Drives the three configuration calls a fresh hypervisor needs, in
/// order: machine shape, boot source, root drive. The three exchanged
/// responses come back as one ghost triple: the call succeeds exactly when
/// all three opened 200/204, and the sequence stops at the first failure
/// (a step that never ran leaves its response empty).
pub fn configure_vm(vm: &Vm) -> (r: (
    Result<(), FirecrackerError>,
    Ghost<(Seq<u8>, Seq<u8>, Seq<u8>)>,
))
    ensures
        r.0 is Ok ==> status_ok(r.1@.0) && status_ok(r.1@.1) && status_ok(r.1@.2),
        r.0 is Err ==> !(status_ok(r.1@.0) && status_ok(r.1@.1) && status_ok(r.1@.2)),
        !status_ok(r.1@.0) ==> r.1@.1 == Seq::<u8>::empty(),
        !status_ok(r.1@.1) ==> r.1@.2 == Seq::<u8>::empty(),
{
    let empty: Ghost<Seq<u8>> = Ghost(Seq::<u8>::empty());
    proof {
        assert(!status_ok(empty@));
    }
    let client = FirecrackerClient::new(vm.socket_path.as_str());
    let (r1, g1) = client.configure_machine(&vm.config);
    match r1 {
        Ok(_) => {},
        Err(e) => {
            return (Err(e), Ghost((g1@, empty@, empty@)));
        },
    }
    let (r2, g2) = client.set_boot_source(&vm.config);
    match r2 {
        Ok(_) => {},
        Err(e) => {
            return (Err(e), Ghost((g1@, g2@, empty@)));
        },
    }
    let (r3, g3) = client.add_root_drive(vm.config.rootfs_path.as_str());
    match r3 {
        Ok(_) => (Ok(()), Ghost((g1@, g2@, g3@))),
        Err(e) => (Err(e), Ghost((g1@, g2@, g3@))),
    }
}

/// Boots the configured guest of `vm`: succeeds exactly when the ghost
/// response opened 200/204.
pub fn start_vm(vm: &Vm) -> (r: (Result<(), FirecrackerError>, Ghost<Seq<u8>>))
    ensures
        r.0 is Ok ==> response_complete(r.1@) && status_ok(r.1@),
        r.0 is Err ==> !status_ok(r.1@),
{
    let client = FirecrackerClient::new(vm.socket_path.as_str());
    let r = client.start_instance();
    proof {
        assert(!status_ok(Seq::<u8>::empty()));
    }
    r
}

/// Pauses the running guest of `vm`: succeeds exactly when the ghost
/// response opened 200/204.
pub fn pause_vm(vm: &Vm) -> (r: (Result<(), FirecrackerError>, Ghost<Seq<u8>>))
    ensures
        r.0 is Ok ==> response_complete(r.1@) && status_ok(r.1@),
        r.0 is Err ==> !status_ok(r.1@),
{
    let client = FirecrackerClient::new(vm.socket_path.as_str());
    let r = client.pause_instance();
    proof {
        assert(!status_ok(Seq::<u8>::empty()));
    }
    r
}

/// Resumes the paused guest of `vm`: succeeds exactly when the ghost
/// response opened 200/204.
pub fn resume_vm(vm: &Vm) -> (r: (Result<(), FirecrackerError>, Ghost<Seq<u8>>))
    ensures
        r.0 is Ok ==> response_complete(r.1@) && status_ok(r.1@),
        r.0 is Err ==> !status_ok(r.1@),
{
    let client = FirecrackerClient::new(vm.socket_path.as_str());
    let r = client.resume_instance();
    proof {
        assert(!status_ok(Seq::<u8>::empty()));
    }
    r
}

/// What the spawn wait decides after one poll of the control socket: a
/// visible socket means ready; otherwise wait, for at most fifty polls (of
/// a hundred milliseconds each), then give up with a connection error.
#[derive(Clone, Copy, Debug, PartialEq, Eq, Structural)]
pub enum PollDecision {
    Ready,
    Wait,
    GiveUp,
}

pub fn spawn_poll_step(attempt: u64, socket_exists: bool) -> (r: PollDecision)
    ensures
        socket_exists ==> r == PollDecision::Ready,
        !socket_exists && attempt + 1 < 50 ==> r == PollDecision::Wait,
        !socket_exists && attempt + 1 >= 50 ==> r == PollDecision::GiveUp,
{
    if socket_exists {
        PollDecision::Ready
    } else if attempt < 49 {
        PollDecision::Wait
    } else {
        PollDecision::GiveUp
    }
}

} // verus!
