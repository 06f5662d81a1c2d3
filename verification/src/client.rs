//! What the client decides: which authentication to use, what an update may hold and what a
//! failure means.

use vstd::prelude::*;
use vstd::string::*;
use crate::error::VncError;
use crate::protocol;
use crate::protocol::limits::{MAX_FRAMEBUFFER_PIXELS, MAX_RECTS_PER_UPDATE, MAX_UPDATE_RAW_BYTES};

verus! {

/// The sentence of a failure: none of the server's kinds of authentication suits a Mac.
pub const APPLE_SECURITY_TYPE_UNAVAILABLE: &'static str = "Apple security type unavailable";

/// A kind of failure that decides what is done about it.
#[derive(Clone, Copy, Debug, PartialEq, Eq, Structural)]
pub enum FailureKind {
    TimedOut,
    PeerClosed,
    ColdDeadline,
}

/// Whether a failure is of a kind, its causes left aside.
pub open spec fn is_of(error: VncError, kind: FailureKind) -> bool {
    match kind {
        FailureKind::TimedOut => error is TimedOut,
        FailureKind::PeerClosed => error is PeerClosed,
        FailureKind::ColdDeadline => error is ColdDeadline,
    }
}

/// Whether a failure or one of its causes is of a kind.
pub open spec fn traced_to(error: VncError, kind: FailureKind) -> bool {
    exists|i: int| 0 <= i < error.links().len() && is_of(#[trigger] error.links()[i], kind)
}

fn is_traced_to(error: &VncError, kind: FailureKind) -> (r: bool)
    ensures
        r == traced_to(*error, kind),
    decreases error,
{
    let here: bool = match (kind, error) {
        (FailureKind::TimedOut, VncError::TimedOut(_)) => true,
        (FailureKind::PeerClosed, VncError::PeerClosed(_)) => true,
        (FailureKind::ColdDeadline, VncError::ColdDeadline) => true,
        _ => false,
    };
    assert(here == is_of(*error, kind));
    assert(error.links()[0] == *error);
    if here {
        return true;
    }
    match error.cause() {
        Some(cause) => {
            let r: bool = is_traced_to(cause, kind);
            proof {
                assert(error.links() == seq![*error] + cause.links());
                if r {
                    let i = choose|i: int|
                        0 <= i < cause.links().len() && is_of(#[trigger] cause.links()[i], kind);
                    assert(error.links()[i + 1] == cause.links()[i]);
                }
                assert forall|i: int| 0 <= i < error.links().len() && is_of(
                    #[trigger] error.links()[i],
                    kind,
                ) implies r by {
                    assert(i > 0);
                    assert(cause.links()[i - 1] == error.links()[i]);
                }
            }
            r
        },
        None => {
            assert(error.links() == seq![*error]);
            false
        },
    }
}

/// Whether a transfer took too long.
pub fn is_timeout(error: &VncError) -> (r: bool)
    ensures
        r == traced_to(*error, FailureKind::TimedOut),
{
    is_traced_to(error, FailureKind::TimedOut)
}

/// Whether the other side has closed the connection.
pub fn is_peer_closed(error: &VncError) -> (r: bool)
    ensures
        r == traced_to(*error, FailureKind::PeerClosed),
{
    is_traced_to(error, FailureKind::PeerClosed)
}

/// Whether the deadline of a cold capture has passed.
pub fn is_cold_deadline_error(error: &VncError) -> (r: bool)
    ensures
        r == traced_to(*error, FailureKind::ColdDeadline),
{
    is_traced_to(error, FailureKind::ColdDeadline)
}

/// Whether time has run out, in one way or the other.
pub open spec fn out_of_time(error: VncError) -> bool {
    traced_to(error, FailureKind::ColdDeadline) || traced_to(error, FailureKind::TimedOut)
}

/// What is told of a failure to connect: whether time has run out, and nothing else of it.
pub fn sanitize_cold_connect_error(error: VncError) -> (r: VncError)
    ensures
        r == (if out_of_time(error) {
            VncError::ColdDeadline
        } else {
            VncError::Text("cold connect")
        }),
{
    if is_cold_deadline_error(&error) || is_timeout(&error) {
        VncError::ColdDeadline
    } else {
        VncError::Text("cold connect")
    }
}

/// The failure itself, where it is that no kind of authentication suits.
pub fn stable_apple_security_type_error(error: &VncError) -> (r: Option<VncError>)
    ensures
        r == (if error.headline() == APPLE_SECURITY_TYPE_UNAVAILABLE@ {
            Some(VncError::Text(APPLE_SECURITY_TYPE_UNAVAILABLE))
        } else {
            None
        }),
{
    let message = error.message();
    let stable = String::from_str(APPLE_SECURITY_TYPE_UNAVAILABLE);
    if message == stable {
        Some(VncError::Text(APPLE_SECURITY_TYPE_UNAVAILABLE))
    } else {
        None
    }
}

/// What is told of a failure to authenticate: whether no kind of authentication suits, whether
/// time has run out, and nothing else of it.
pub fn sanitize_cold_authentication_error(error: VncError) -> (r: VncError)
    ensures
        r == (if error.headline() == APPLE_SECURITY_TYPE_UNAVAILABLE@ {
            VncError::Text(APPLE_SECURITY_TYPE_UNAVAILABLE)
        } else if out_of_time(error) {
            VncError::ColdDeadline
        } else {
            VncError::Text("cold authentication")
        }),
{
    match stable_apple_security_type_error(&error) {
        Some(stable) => stable,
        None => if is_cold_deadline_error(&error) || is_timeout(&error) {
            VncError::ColdDeadline
        } else {
            VncError::Text("cold authentication")
        },
    }
}

/// Whether an authentication succeeded.
pub fn security_result_is_ok(result: u32) -> (r: bool)
    ensures
        r == (result == protocol::RFB_SECURITY_RESULT_OK),
{
    result == protocol::RFB_SECURITY_RESULT_OK
}

/// The kind of authentication that the client uses, of those that the server offers.
pub open spec fn picked_security(types: Seq<u8>, with_password: bool) -> Result<u8, VncError> {
    if with_password && types.contains(protocol::security::VNC_AUTH) {
        Ok(protocol::security::VNC_AUTH)
    } else if types.contains(protocol::security::NONE) {
        Ok(protocol::security::NONE)
    } else if types.contains(protocol::security::VNC_AUTH) {
        Err(VncError::Text("服务器需要标准 VNC 密码，请通过 FRD_PASSWORD 环境变量提供"))
    } else {
        Err(
            VncError::Text(
                "标准 RFB 客户端没有可用的认证方式；Apple 私有认证必须使用 Apple 协议适配器",
            ),
        )
    }
}

fn offers_type(types: &[u8], wanted: u8) -> (r: bool)
    ensures
        r == types@.contains(wanted),
{
    let mut i: usize = 0;
    while i < types.len()
        invariant
            i <= types@.len(),
            forall|k: int| 0 <= k < i ==> types@[k] != wanted,
        decreases types@.len() - i,
    {
        if types[i] == wanted {
            assert(types@[i as int] == wanted);
            return true;
        }
        i = i + 1;
    }
    false
}

/// Picks the kind of authentication. The name of a user plays no part in it.
pub fn pick_standard_security(
    types: &[u8],
    _username: Option<&str>,
    password: Option<&str>,
) -> (r: Result<u8, VncError>)
    ensures
        r == picked_security(types@, password is Some),
{
    if password.is_some() && offers_type(types, protocol::security::VNC_AUTH) {
        Ok(protocol::security::VNC_AUTH)
    } else if offers_type(types, protocol::security::NONE) {
        Ok(protocol::security::NONE)
    } else if offers_type(types, protocol::security::VNC_AUTH) {
        Err(VncError::Text("服务器需要标准 VNC 密码，请通过 FRD_PASSWORD 环境变量提供"))
    } else {
        Err(
            VncError::Text(
                "标准 RFB 客户端没有可用的认证方式；Apple 私有认证必须使用 Apple 协议适配器",
            ),
        )
    }
}

/// Why an update of so many rectangles is refused, where it is.
pub open spec fn rectangle_count_refusal(count: int) -> Option<VncError> {
    if count > MAX_RECTS_PER_UPDATE {
        Some(
            VncError::Number {
                before: "FramebufferUpdate 矩形数量超过资源预算: ",
                value: count as u64,
                after: "",
            },
        )
    } else {
        None
    }
}

/// Accepts an update of so many rectangles where that is within the budget.
pub fn validate_update_rectangle_count(count: usize) -> (r: Result<(), VncError>)
    ensures
        r == crate::error::checked(rectangle_count_refusal(count as int)),
{
    if count > MAX_RECTS_PER_UPDATE {
        return Err(
            VncError::Number {
                before: "FramebufferUpdate 矩形数量超过资源预算: ",
                value: count as u64,
                after: "",
            },
        );
    }
    Ok(())
}

/// The pixels of a rectangle, where they are within the budget.
pub open spec fn rectangle_pixels(width: int, height: int) -> Result<usize, VncError> {
    if width * height > usize::MAX {
        Err(VncError::Text("矩形像素数量溢出"))
    } else if width * height > MAX_FRAMEBUFFER_PIXELS {
        Err(
            VncError::Numbers {
                before: "矩形尺寸超过资源预算: ",
                first: width as u64,
                between: "x",
                second: height as u64,
                after: "",
            },
        )
    } else {
        Ok((width * height) as usize)
    }
}

/// Counts the pixels of a rectangle.
pub fn checked_rectangle_pixel_count(width: usize, height: usize) -> (r: Result<usize, VncError>)
    ensures
        r == rectangle_pixels(width as int, height as int),
{
    let pixels: usize = match width.checked_mul(height) {
        Some(pixels) => pixels,
        None => {
            return Err(VncError::Text("矩形像素数量溢出"));
        },
    };
    if pixels > MAX_FRAMEBUFFER_PIXELS {
        return Err(
            VncError::Numbers {
                before: "矩形尺寸超过资源预算: ",
                first: width as u64,
                between: "x",
                second: height as u64,
                after: "",
            },
        );
    }
    Ok(pixels)
}

/// The bytes of an update after one more rectangle, where they are within the budget.
pub open spec fn update_raw_bytes(current: int, pixels: int, bytes_per_pixel: int) -> Result<
    usize,
    VncError,
> {
    if pixels * bytes_per_pixel > usize::MAX {
        Err(VncError::Text("Raw 矩形字节数溢出"))
    } else if current + pixels * bytes_per_pixel > usize::MAX {
        Err(VncError::Text("FramebufferUpdate 累计 Raw 字节数溢出"))
    } else if current + pixels * bytes_per_pixel > MAX_UPDATE_RAW_BYTES {
        Err(
            VncError::Number {
                before: "FramebufferUpdate 累计 Raw 数据超过资源预算: ",
                value: (current + pixels * bytes_per_pixel) as u64,
                after: " 字节",
            },
        )
    } else {
        Ok((current + pixels * bytes_per_pixel) as usize)
    }
}

/// Adds the bytes of a rectangle to those of its update.
pub fn checked_update_raw_bytes(
    current_bytes: usize,
    pixel_count: usize,
    bytes_per_pixel: usize,
) -> (r: Result<usize, VncError>)
    ensures
        r == update_raw_bytes(current_bytes as int, pixel_count as int, bytes_per_pixel as int),
{
    let rectangle: usize = match pixel_count.checked_mul(bytes_per_pixel) {
        Some(rectangle) => rectangle,
        None => {
            return Err(VncError::Text("Raw 矩形字节数溢出"));
        },
    };
    let total: usize = match current_bytes.checked_add(rectangle) {
        Some(total) => total,
        None => {
            return Err(VncError::Text("FramebufferUpdate 累计 Raw 字节数溢出"));
        },
    };
    if total > MAX_UPDATE_RAW_BYTES {
        return Err(
            VncError::Number {
                before: "FramebufferUpdate 累计 Raw 数据超过资源预算: ",
                value: total as u64,
                after: " 字节",
            },
        );
    }
    Ok(total)
}

/// The pixel in the four bytes at `at`, the low ones first.
pub open spec fn pixel_at(raw: Seq<u8>, at: int) -> u32 {
    (raw[at] + raw[at + 1] * 0x100 + raw[at + 2] * 0x1_0000 + raw[at + 3] * 0x100_0000) as u32
}

/// The pixels of plain bytes.
pub open spec fn pixels_of(raw: Seq<u8>) -> Seq<u32> {
    Seq::new((raw.len() / 4) as nat, |i: int| pixel_at(raw, 4 * i))
}

/// Reads plain pixels.
pub fn decode_raw_pixels(raw: &[u8]) -> (r: Result<Vec<u32>, VncError>)
    ensures
        crate::error::viewed(r) == (if raw@.len() % 4 != 0 {
            Err::<Seq<u32>, VncError>(VncError::Text("Raw 像素字节数不是完整像素宽度"))
        } else {
            Ok(pixels_of(raw@))
        }),
{
    if raw.len() % 4 != 0 {
        return Err(VncError::Text("Raw 像素字节数不是完整像素宽度"));
    }
    let mut pixels: Vec<u32> = Vec::new();
    let mut at: usize = 0;
    while at < raw.len()
        invariant
            raw@.len() % 4 == 0,
            at % 4 == 0,
            at <= raw@.len(),
            pixels@.len() == at / 4,
            forall|k: int| 0 <= k < pixels@.len() ==> pixels@[k] == pixel_at(raw@, 4 * k),
        decreases raw@.len() - at,
    {
        let pixel: u32 = raw[at] as u32 + raw[at + 1] as u32 * 0x100 + raw[at + 2] as u32 * 0x1_0000
            + raw[at + 3] as u32 * 0x100_0000;
        pixels.push(pixel);
        at = at + 4;
    }
    assert(pixels@ =~= pixels_of(raw@));
    Ok(pixels)
}

/// What is told around a failure does not change its kind, and a failure is of its own kind only.
pub proof fn law_kind_is_seen_through_its_contexts(
    text: &'static str,
    said: String,
    cause: VncError,
    kind: FailureKind,
)
    ensures
        traced_to(VncError::Context { text, cause: Box::new(cause) }, kind) == traced_to(
            cause,
            kind,
        ),
        traced_to(VncError::ColdDeadline, kind) <==> kind == FailureKind::ColdDeadline,
        traced_to(VncError::TimedOut(said), kind) <==> kind == FailureKind::TimedOut,
        traced_to(VncError::PeerClosed(said), kind) <==> kind == FailureKind::PeerClosed,
        !traced_to(VncError::Text(text), kind),
{
    let outer = VncError::Context { text, cause: Box::new(cause) };
    assert(outer.links() =~= seq![outer] + cause.links());
    if traced_to(cause, kind) {
        let i = choose|i: int|
            0 <= i < cause.links().len() && is_of(#[trigger] cause.links()[i], kind);
        assert(outer.links()[i + 1] == cause.links()[i]);
    }
    if traced_to(outer, kind) {
        let i = choose|i: int|
            0 <= i < outer.links().len() && is_of(#[trigger] outer.links()[i], kind);
        assert(cause.links()[i - 1] == outer.links()[i]);
    }
    assert(VncError::ColdDeadline.links()[0] is ColdDeadline);
    assert(VncError::TimedOut(said).links()[0] is TimedOut);
    assert(VncError::PeerClosed(said).links()[0] is PeerClosed);
}

/// What is picked is offered, and is the password or nothing; with a password that can be used it is
/// used, and without one it is not. Nothing is picked just where neither will do.
pub proof fn law_picked_security_is_offered(types: Seq<u8>, with_password: bool)
    ensures
        picked_security(types, with_password) matches Ok(t) ==> types.contains(t) && (t == 1 || t
            == 2) && (t == 2 <==> with_password && types.contains(2)),
        picked_security(types, with_password) is Ok <==> types.contains(1) || (with_password
            && types.contains(2)),
{
}

/// A rectangle may have as many pixels as a surface, 64 times 1024 times 1024, and an update as many
/// rectangles and bytes as its budget says; rectangles of an update add up, in whatever order they
/// come.
pub proof fn law_updates_stay_within_the_budget(
    width: int,
    height: int,
    current: int,
    first: int,
    second: int,
    bytes: int,
)
    requires
        0 <= width <= usize::MAX,
        0 <= height <= usize::MAX,
        0 <= current,
        0 <= first,
        0 <= second,
        0 <= bytes,
    ensures
        rectangle_pixels(width, height) is Ok <==> width * height <= 67_108_864,
        rectangle_pixels(width, height) matches Ok(pixels) ==> pixels == width * height,
        rectangle_count_refusal(first) is None <==> first <= 4096,
        update_raw_bytes(current, first, bytes) is Ok <==> current + first * bytes <= 134_217_728,
        update_raw_bytes(current, first, bytes) matches Ok(after) ==> after == current + first
            * bytes,
        (match update_raw_bytes(current, first, bytes) {
            Ok(after) => update_raw_bytes(after as int, second, bytes) is Ok,
            Err(_) => false,
        }) <==> (match update_raw_bytes(current, second, bytes) {
            Ok(after) => update_raw_bytes(after as int, first, bytes) is Ok,
            Err(_) => false,
        }),
{
    assert(0 <= first * bytes && 0 <= second * bytes && 0 <= width * height) by (nonlinear_arith)
        requires
            0 <= first,
            0 <= second,
            0 <= bytes,
            0 <= width,
            0 <= height,
    ;
}

/// Pixels are read one by one from their four bytes, of which the first counts least: what follows a
/// whole number of pixels does not change them.
pub proof fn law_pixels_are_read_one_by_one(front: Seq<u8>, a: u8, b: u8, c: u8, d: u8)
    requires
        front.len() % 4 == 0,
    ensures
        pixels_of(front + seq![a, b, c, d]) == pixels_of(front).push(
            (a + 256 * (b + 256 * (c + 256 * d))) as u32,
        ),
        pixels_of(Seq::empty()).len() == 0,
{
    let whole = front + seq![a, b, c, d];
    let n = front.len() as int;
    assert(whole[n] == a && whole[n + 1] == b && whole[n + 2] == c && whole[n + 3] == d);
    assert(pixel_at(whole, n) == (a + 256 * (b + 256 * (c + 256 * d))) as u32);
    assert forall|i: int| 0 <= i < n / 4 implies #[trigger] pixels_of(whole)[i] == pixels_of(
        front,
    )[i] by {
        assert(whole[4 * i] == front[4 * i] && whole[4 * i + 1] == front[4 * i + 1] && whole[4 * i
            + 2] == front[4 * i + 2] && whole[4 * i + 3] == front[4 * i + 3]);
    }
    assert(4 * (n / 4) == n);
    assert(pixels_of(whole) =~= pixels_of(front).push(
        (a + 256 * (b + 256 * (c + 256 * d))) as u32,
    ));
}

} // verus!
