//! A frame of credentials that comes over the standard input and is wiped after use.

use vstd::prelude::*;
use vstd::string::*;
use crate::error::VncError;
use crate::local_username;
use crate::local_username::{trimmed, validate_local_username};
use crate::mvs_stream::owned_bytes;
use crate::wire::{read_be16, read_be32};
use crate::wire_cursor::is_all_zero;

verus! {

/// The bytes before the texts.
pub const HEADER_LEN: usize = 20;

/// The most bytes that a frame may have.
pub const MAX_FRAME_LEN: usize = 1554;

/// The bytes that are read at most: one more than a frame may have.
pub const READ_LIMIT: usize = 1555;

/// What a frame begins with.
pub open spec fn magic() -> Seq<u8> {
    seq![0x46u8, 0x52, 0x44, 0x53, 0x54, 0x44, 0x30, 0x31]
}

/// The texts and the number of a frame.
pub struct Credentials {
    pub host: Seq<char>,
    pub username: Seq<char>,
    pub password: Seq<char>,
    pub port: u16,
}

/// The texts and the number of a frame, for as long as it is lent.
pub struct CredentialSlices<'a> {
    pub host: &'a str,
    pub username: &'a str,
    pub password: &'a str,
    pub port: u16,
}

impl<'a> View for CredentialSlices<'a> {
    type V = Credentials;

    open spec fn view(&self) -> Credentials {
        Credentials {
            host: self.host@,
            username: self.username@,
            password: self.password@,
            port: self.port,
        }
    }
}

/// `std::str::from_utf8`: the text of bytes, where they are one.
#[verifier::external_body]
fn text_of(bytes: &[u8]) -> (r: Option<&str>)
    ensures
        match r {
            Some(text) => vstd::utf8::valid_utf8(bytes@) && vstd::utf8::encode_utf8(text@)
                == bytes@,
            None => !vstd::utf8::valid_utf8(bytes@),
        },
{
    std::str::from_utf8(bytes).ok()
}

/// `<[u8]>::fill`: every byte becomes zero, and there are as many as before.
#[verifier::external_body]
fn zeroed(bytes: &mut Vec<u8>)
    ensures
        final(bytes)@ == Seq::new(old(bytes)@.len(), |i: int| 0u8),
    opens_invariants none
    no_unwind
{
    bytes.fill(0);
}

/// `std::hint::black_box`: hands the bytes to where the compiler does not look, so that it takes
/// them as read. Nothing is claimed of it but that it does not panic.
#[verifier::external_body]
fn observed(bytes: &Vec<u8>)
    opens_invariants none
    no_unwind
{
    std::hint::black_box(bytes);
}

/// `std::sync::atomic::compiler_fence`: keeps what comes before it before what comes after it.
/// Nothing is claimed of it but that, with this ordering, it does not panic.
#[verifier::external_body]
fn fence()
    opens_invariants none
    no_unwind
{
    std::sync::atomic::compiler_fence(std::sync::atomic::Ordering::SeqCst);
}

/// Where the host ends.
pub open spec fn host_end(bytes: Seq<u8>) -> int {
    HEADER_LEN + crate::wire::be16(bytes, 12)
}

/// Where the user's name ends.
pub open spec fn username_end(bytes: Seq<u8>) -> int {
    host_end(bytes) + crate::wire::be16(bytes, 14)
}

/// Where the password ends.
pub open spec fn password_end(bytes: Seq<u8>) -> int {
    username_end(bytes) + crate::wire::be16(bytes, 16)
}

/// Whether bytes are a host: a text without control characters of a single byte and without white
/// space around it.
pub open spec fn is_host(bytes: Seq<u8>) -> bool {
    &&& vstd::utf8::valid_utf8(bytes)
    &&& forall|i: int| 0 <= i < bytes.len() ==> #[trigger] bytes[i] > 0x1f && bytes[i] != 0x7f
    &&& local_username::is_trimmed(vstd::utf8::decode_utf8(bytes))
}

/// Whether bytes are the name of a user.
pub open spec fn is_username(bytes: Seq<u8>) -> bool {
    &&& vstd::utf8::valid_utf8(bytes)
    &&& local_username::is_local_username(vstd::utf8::decode_utf8(bytes))
}

/// Whether bytes are a password: any text without a zero byte.
pub open spec fn is_password(bytes: Seq<u8>) -> bool {
    &&& vstd::utf8::valid_utf8(bytes)
    &&& forall|i: int| 0 <= i < bytes.len() ==> #[trigger] bytes[i] != 0
}

/// Why a frame is refused, where it is. What is told names a part of the frame and holds nothing
/// of it.
pub open spec fn frame_refusal(bytes: Seq<u8>) -> Option<VncError> {
    if bytes.len() >= READ_LIMIT {
        Some(VncError::Text("stdin frame extra"))
    } else if bytes.len() < HEADER_LEN {
        Some(VncError::Text("stdin frame header"))
    } else if bytes.take(8) != magic() {
        Some(VncError::Text("stdin frame magic"))
    } else if !(1 <= crate::wire::be16(bytes, 12) <= 255) {
        Some(VncError::Text("stdin frame host"))
    } else if !(1 <= crate::wire::be16(bytes, 14) <= 255) {
        Some(VncError::Text("stdin frame username"))
    } else if !(1 <= crate::wire::be16(bytes, 16) <= 1024) {
        Some(VncError::Text("stdin frame password"))
    } else if crate::wire::be16(bytes, 18) == 0 {
        Some(VncError::Text("stdin frame port"))
    } else if crate::wire::be32(bytes, 8) != password_end(bytes) - 12 {
        Some(VncError::Text("stdin frame payload"))
    } else if password_end(bytes) != bytes.len() {
        Some(VncError::Text("stdin frame payload"))
    } else if !is_host(bytes.subrange(20, host_end(bytes))) {
        Some(VncError::Text("stdin frame host"))
    } else if !is_username(bytes.subrange(host_end(bytes), username_end(bytes))) {
        Some(VncError::Text("stdin frame username"))
    } else if !is_password(bytes.subrange(username_end(bytes), password_end(bytes))) {
        Some(VncError::Text("stdin frame password"))
    } else {
        None
    }
}

/// What a frame holds.
pub open spec fn credentials_of(bytes: Seq<u8>) -> Credentials {
    Credentials {
        host: vstd::utf8::decode_utf8(bytes.subrange(20, host_end(bytes))),
        username: vstd::utf8::decode_utf8(bytes.subrange(host_end(bytes), username_end(bytes))),
        password: vstd::utf8::decode_utf8(bytes.subrange(username_end(bytes), password_end(bytes))),
        port: crate::wire::be16(bytes, 18),
    }
}

fn refused<T>(category: &'static str) -> (r: Result<T, VncError>)
    ensures
        r == Err::<T, VncError>(VncError::Text(category)),
{
    Err(VncError::Text(category))
}

fn valid_host(bytes: &[u8]) -> (r: bool)
    ensures
        r == is_host(bytes@),
{
    let text = match text_of(bytes) {
        Some(text) => text,
        None => {
            return false;
        },
    };
    proof {
        vstd::utf8::encode_utf8_decode_utf8(text@);
    }
    let mut i: usize = 0;
    while i < bytes.len()
        invariant
            i <= bytes@.len(),
            forall|k: int| 0 <= k < i ==> #[trigger] bytes@[k] > 0x1f && bytes@[k] != 0x7f,
        decreases bytes@.len() - i,
    {
        if bytes[i] <= 0x1f || bytes[i] == 0x7f {
            return false;
        }
        i = i + 1;
    }
    trimmed(text)
}

fn valid_username(bytes: &[u8]) -> (r: bool)
    ensures
        r == is_username(bytes@),
{
    let text = match text_of(bytes) {
        Some(text) => text,
        None => {
            return false;
        },
    };
    proof {
        vstd::utf8::encode_utf8_decode_utf8(text@);
    }
    validate_local_username(text).is_ok()
}

fn valid_password(bytes: &[u8]) -> (r: bool)
    ensures
        r == is_password(bytes@),
{
    if text_of(bytes).is_none() {
        return false;
    }
    let mut i: usize = 0;
    while i < bytes.len()
        invariant
            i <= bytes@.len(),
            vstd::utf8::valid_utf8(bytes@),
            forall|k: int| 0 <= k < i ==> #[trigger] bytes@[k] != 0,
        decreases bytes@.len() - i,
    {
        if bytes[i] == 0 {
            return false;
        }
        i = i + 1;
    }
    true
}

fn has_magic(bytes: &[u8]) -> (r: bool)
    requires
        bytes@.len() >= 8,
    ensures
        r == (bytes@.take(8) == magic()),
{
    let r: bool = bytes[0] == 0x46 && bytes[1] == 0x52 && bytes[2] == 0x44 && bytes[3] == 0x53
        && bytes[4] == 0x54 && bytes[5] == 0x44 && bytes[6] == 0x30 && bytes[7] == 0x31;
    proof {
        if r {
            assert(bytes@.take(8) =~= magic());
        } else {
            let front = bytes@.take(8);
            assert(front[0] == bytes@[0] && front[1] == bytes@[1] && front[2] == bytes@[2]
                && front[3] == bytes@[3] && front[4] == bytes@[4] && front[5] == bytes@[5]
                && front[6] == bytes@[6] && front[7] == bytes@[7]);
        }
    }
    r
}

/// Checks a frame: where its host and its user's name end, and its port.
fn frame_layout(all: &[u8]) -> (r: Result<(usize, usize, u16), VncError>)
    ensures
        match (frame_refusal(all@), r) {
            (Some(e), Err(f)) => e == f,
            (None, Ok((host, username, port))) => {
                &&& host == host_end(all@)
                &&& username == username_end(all@)
                &&& port == crate::wire::be16(all@, 18)
            },
            _ => false,
        },
{
    if all.len() >= READ_LIMIT {
        return refused("stdin frame extra");
    }
    if all.len() < HEADER_LEN {
        return refused("stdin frame header");
    }
    if !has_magic(all) {
        return refused("stdin frame magic");
    }
    let payload: u32 = read_be32(all, 8);
    let host_length: usize = read_be16(all, 12) as usize;
    let username_length: usize = read_be16(all, 14) as usize;
    let password_length: usize = read_be16(all, 16) as usize;
    let port: u16 = read_be16(all, 18);
    if host_length < 1 || host_length > 255 {
        return refused("stdin frame host");
    }
    if username_length < 1 || username_length > 255 {
        return refused("stdin frame username");
    }
    if password_length < 1 || password_length > 1024 {
        return refused("stdin frame password");
    }
    if port == 0 {
        return refused("stdin frame port");
    }
    let host_end: usize = HEADER_LEN + host_length;
    let username_end: usize = host_end + username_length;
    let password_end: usize = username_end + password_length;
    if payload as usize != password_end - 12 || password_end != all.len() {
        return refused("stdin frame payload");
    }
    if !valid_host(vstd::slice::slice_subrange(all, HEADER_LEN, host_end)) {
        return refused("stdin frame host");
    }
    if !valid_username(vstd::slice::slice_subrange(all, host_end, username_end)) {
        return refused("stdin frame username");
    }
    if !valid_password(vstd::slice::slice_subrange(all, username_end, password_end)) {
        return refused("stdin frame password");
    }
    Ok((host_end, username_end, port))
}

/// Sets every byte to zero.
pub fn wipe(bytes: &mut Vec<u8>)
    ensures
        final(bytes)@ == Seq::new(old(bytes)@.len(), |i: int| 0u8),
    opens_invariants none
    no_unwind
{
    zeroed(bytes);
    observed(bytes);
    fence();
}

/// A frame of credentials.
pub struct GuardedCredentialFrame {
    bytes: Vec<u8>,
    host_end: usize,
    username_end: usize,
    port: u16,
    cleared: bool,
}

impl GuardedCredentialFrame {
    #[verifier::type_invariant]
    spec fn inv(self) -> bool {
        !self.cleared ==> {
            &&& frame_refusal(self.bytes@) is None
            &&& self.host_end == host_end(self.bytes@)
            &&& self.username_end == username_end(self.bytes@)
            &&& self.port == crate::wire::be16(self.bytes@, 18)
        }
    }

    /// What the frame holds.
    pub closed spec fn credentials(self) -> Credentials {
        credentials_of(self.bytes@)
    }

    /// The bytes of the frame.
    pub closed spec fn stored(self) -> Seq<u8> {
        self.bytes@
    }

    /// Whether the frame has been wiped.
    pub closed spec fn wiped(self) -> bool {
        self.cleared
    }

    /// Reads a frame from all that the standard input gives.
    pub fn read_stdin_v1(input: &[u8]) -> (r: Result<Self, VncError>)
        ensures
            match (frame_refusal(input@), r) {
                (Some(e), Err(f)) => e == f,
                (None, Ok(frame)) => {
                    &&& !frame.wiped()
                    &&& frame.stored() == input@
                    &&& frame.credentials() == credentials_of(input@)
                },
                _ => false,
            },
    {
        if input.len() >= READ_LIMIT {
            return refused("stdin frame extra");
        }
        Self::parse(owned_bytes(input))
    }

    /// Reads a frame from its bytes. Those of a frame that is refused are wiped.
    pub fn parse(bytes: Vec<u8>) -> (r: Result<Self, VncError>)
        ensures
            match (frame_refusal(bytes@), r) {
                (Some(e), Err(f)) => e == f,
                (None, Ok(frame)) => {
                    &&& !frame.wiped()
                    &&& frame.stored() == bytes@
                    &&& frame.credentials() == credentials_of(bytes@)
                },
                _ => false,
            },
    {
        match frame_layout(bytes.as_slice()) {
            Ok((host_end, username_end, port)) => Ok(
                GuardedCredentialFrame { bytes, host_end, username_end, port, cleared: false },
            ),
            Err(e) => {
                let mut bytes = bytes;
                wipe(&mut bytes);
                Err(e)
            },
        }
    }

    fn slices(&self) -> (r: CredentialSlices<'_>)
        requires
            !self.wiped(),
        ensures
            r@ == self.credentials(),
    {
        proof {
            use_type_invariant(self);
        }
        let all = self.bytes.as_slice();
        let host = text_of(vstd::slice::slice_subrange(all, HEADER_LEN, self.host_end)).unwrap();
        let username = text_of(
            vstd::slice::slice_subrange(all, self.host_end, self.username_end),
        ).unwrap();
        let password = text_of(
            vstd::slice::slice_subrange(all, self.username_end, all.len()),
        ).unwrap();
        proof {
            vstd::utf8::encode_utf8_decode_utf8(host@);
            vstd::utf8::encode_utf8_decode_utf8(username@);
            vstd::utf8::encode_utf8_decode_utf8(password@);
        }
        CredentialSlices { host, username, password, port: self.port }
    }

    /// Lends what the frame holds.
    pub fn with_slices<T, F: FnOnce(CredentialSlices<'_>) -> T>(&self, f: F) -> (r: T)
        requires
            !self.wiped(),
            forall|lent: CredentialSlices<'_>| lent@ == self.credentials() ==> f.requires((lent,)),
        ensures
            exists|lent: CredentialSlices<'_>|
                lent@ == self.credentials() && #[trigger] f.ensures((lent,), r),
    {
        let lent = self.slices();
        f(lent)
    }

    /// Wipes the frame.
    pub fn clear(&mut self)
        ensures
            final(self).wiped(),
            old(self).wiped() ==> *final(self) == *old(self),
            !old(self).wiped() ==> final(self).stored() == Seq::new(
                old(self).stored().len(),
                |i: int| 0u8,
            ),
        opens_invariants none
        no_unwind
    {
        if self.cleared {
            return;
        }
        self.cleared = true;
        wipe(&mut self.bytes);
    }

    /// A frame of which nothing is left.
    fn wiped_away() -> (r: Self)
        ensures
            r.wiped(),
    {
        GuardedCredentialFrame {
            bytes: Vec::new(),
            host_end: 0,
            username_end: 0,
            port: 0,
            cleared: true,
        }
    }

    /// Lends what the frame holds, and wipes the frame before it gives back what came of that. What
    /// is lent is held here until then, so that a panic of `f` drops it, which wipes it too, and
    /// leaves a frame that counts as wiped.
    pub fn with_slices_then_clear<T, F: FnOnce(CredentialSlices<'_>) -> T>(&mut self, f: F) -> (r: T)
        requires
            !old(self).wiped(),
            forall|lent: CredentialSlices<'_>|
                lent@ == old(self).credentials() ==> f.requires((lent,)),
        ensures
            exists|lent: CredentialSlices<'_>|
                lent@ == old(self).credentials() && #[trigger] f.ensures((lent,), r),
            final(self).wiped(),
            final(self).stored() == Seq::new(old(self).stored().len(), |i: int| 0u8),
    {
        let mut held = Self::wiped_away();
        std::mem::swap(self, &mut held);
        let r = held.with_slices(f);
        held.clear();
        std::mem::swap(self, &mut held);
        r
    }

    /// Whether every byte of the frame is zero.
    pub fn is_zeroed(&self) -> (r: bool)
        ensures
            r == crate::wire_cursor::all_zero(self.stored()),
    {
        is_all_zero(self.bytes.as_slice())
    }

    /// The number of bytes of the frame.
    pub fn len(&self) -> (r: usize)
        ensures
            r == self.stored().len(),
    {
        self.bytes.len()
    }
}

/// A frame that goes out of scope is wiped, also where a panic ends that scope.
impl Drop for GuardedCredentialFrame {
    fn drop(&mut self)
        ensures
            final(self).wiped(),
            old(self).wiped() ==> *final(self) == *old(self),
            !old(self).wiped() ==> final(self).stored() == Seq::new(
                old(self).stored().len(),
                |i: int| 0u8,
            ),
        opens_invariants none
        no_unwind
    {
        self.clear();
    }
}

/// What came of an attempt to read from the standard input.
#[derive(Clone, Copy, Debug, PartialEq, Eq, Structural)]
pub enum ReadOutcome {
    /// So many bytes came.
    Count(usize),
    /// The attempt was interrupted and is to be made again.
    Interrupted,
    Failed,
}

/// What is to be done after an attempt to read.
#[derive(Clone, Copy, Debug, PartialEq, Eq, Structural)]
pub enum ReadNext {
    /// Read on, after so many bytes.
    More(usize),
    /// So many bytes are all that there is to the frame.
    Finished(usize),
}

/// What is to be done after an attempt to read, with `used` bytes read before it.
pub open spec fn after_read(used: int, outcome: ReadOutcome) -> Result<ReadNext, VncError> {
    match outcome {
        ReadOutcome::Failed => Err(VncError::Text("stdin frame input")),
        ReadOutcome::Interrupted => Ok(ReadNext::More(used as usize)),
        ReadOutcome::Count(count) => if used + count > usize::MAX {
            Err(VncError::Text("stdin frame input"))
        } else if count == 0 || used + count >= READ_LIMIT {
            Ok(ReadNext::Finished((used + count) as usize))
        } else {
            Ok(ReadNext::More((used + count) as usize))
        },
    }
}

/// Decides what is to be done after an attempt to read.
pub fn take_read(used: usize, outcome: ReadOutcome) -> (r: Result<ReadNext, VncError>)
    ensures
        r == after_read(used as int, outcome),
{
    match outcome {
        ReadOutcome::Failed => refused("stdin frame input"),
        ReadOutcome::Interrupted => Ok(ReadNext::More(used)),
        ReadOutcome::Count(count) => match used.checked_add(count) {
            None => refused("stdin frame input"),
            Some(total) => if count == 0 || total >= READ_LIMIT {
                Ok(ReadNext::Finished(total))
            } else {
                Ok(ReadNext::More(total))
            },
        },
    }
}

/// The frame of these credentials.
pub open spec fn frame_bytes(c: Credentials) -> Seq<u8> {
    let host = vstd::utf8::encode_utf8(c.host);
    let username = vstd::utf8::encode_utf8(c.username);
    let password = vstd::utf8::encode_utf8(c.password);
    magic() + crate::wire::be32_bytes((8 + host.len() + username.len() + password.len()) as u32)
        + crate::wire::be16_bytes(host.len() as u16) + crate::wire::be16_bytes(
        username.len() as u16,
    ) + crate::wire::be16_bytes(password.len() as u16) + crate::wire::be16_bytes(c.port) + host
        + username + password
}

/// Whether credentials can be put into a frame.
pub open spec fn frameable(c: Credentials) -> bool {
    let host = vstd::utf8::encode_utf8(c.host);
    let password = vstd::utf8::encode_utf8(c.password);
    &&& 1 <= host.len() <= 255
    &&& is_host(host)
    &&& local_username::is_local_username(c.username)
    &&& 1 <= password.len() <= 1024
    &&& is_password(password)
    &&& c.port != 0
}

/// What is told of a frame that is refused is one of a few fixed texts, so that nothing of the
/// frame is in it.
pub proof fn law_refusal_tells_only_its_category(bytes: Seq<u8>)
    ensures
        frame_refusal(bytes) matches Some(e) ==> {
            ||| e == VncError::Text("stdin frame extra")
            ||| e == VncError::Text("stdin frame header")
            ||| e == VncError::Text("stdin frame magic")
            ||| e == VncError::Text("stdin frame host")
            ||| e == VncError::Text("stdin frame username")
            ||| e == VncError::Text("stdin frame password")
            ||| e == VncError::Text("stdin frame port")
            ||| e == VncError::Text("stdin frame payload")
        },
{
}

/// A frame is accepted, and gives back the credentials that were put into it.
#[verifier::rlimit(30)]
pub proof fn law_frame_is_read_back(c: Credentials)
    requires
        frameable(c),
    ensures
        frame_refusal(frame_bytes(c)) is None,
        credentials_of(frame_bytes(c)) == c,
{
    let host = vstd::utf8::encode_utf8(c.host);
    let username = vstd::utf8::encode_utf8(c.username);
    let password = vstd::utf8::encode_utf8(c.password);
    let payload = (8 + host.len() + username.len() + password.len()) as u32;
    let bytes = frame_bytes(c);
    vstd::utf8::encode_utf8_valid_utf8(c.host);
    vstd::utf8::encode_utf8_valid_utf8(c.username);
    vstd::utf8::encode_utf8_valid_utf8(c.password);
    vstd::utf8::encode_utf8_decode_utf8(c.host);
    vstd::utf8::encode_utf8_decode_utf8(c.username);
    vstd::utf8::encode_utf8_decode_utf8(c.password);
    assert(bytes.take(8) =~= magic());
    assert(bytes.subrange(8, 12) =~= crate::wire::be32_bytes(payload));
    assert(bytes.subrange(12, 14) =~= crate::wire::be16_bytes(host.len() as u16));
    assert(bytes.subrange(14, 16) =~= crate::wire::be16_bytes(username.len() as u16));
    assert(bytes.subrange(16, 18) =~= crate::wire::be16_bytes(password.len() as u16));
    assert(bytes.subrange(18, 20) =~= crate::wire::be16_bytes(c.port));
    crate::wire::lemma_be32(bytes, 8, payload);
    crate::wire::lemma_be16(bytes, 12, host.len() as u16);
    crate::wire::lemma_be16(bytes, 14, username.len() as u16);
    crate::wire::lemma_be16(bytes, 16, password.len() as u16);
    crate::wire::lemma_be16(bytes, 18, c.port);
    assert(bytes.subrange(20, host_end(bytes)) =~= host);
    assert(bytes.subrange(host_end(bytes), username_end(bytes)) =~= username);
    assert(bytes.subrange(username_end(bytes), password_end(bytes)) =~= password);
}

} // verus!
