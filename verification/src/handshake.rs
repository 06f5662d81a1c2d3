//! Opening a session: the version, the kind of authentication, the password and the surface.
//!
//! Each part is a machine. It tells how many bytes it needs next, takes them, and tells what to
//! send.

use vstd::prelude::*;
use vstd::string::*;
use crate::auth;
use crate::auth::vnc_des_challenge_response;
use crate::client;
use crate::client::{pick_standard_security, security_result_is_ok};
use crate::error::VncError;
use crate::framebuffer::validate_framebuffer_geometry;
use crate::mvs_stream::owned_bytes;
use crate::protocol;
use crate::protocol::{encode_rfb_banner, msg_fb_update_request, msg_set_encodings};
use crate::protocol::{msg_set_pixel_format, parse_rfb_banner, PixelFormat, SUPPORTED_ENCODINGS};
use crate::text::lossy;
use crate::wire::{push_bytes, read_be16, read_be32};

verus! {

/// A part of a version, at most what a byte holds.
pub open spec fn clipped(n: u16) -> u8 {
    if n > 255 {
        255
    } else {
        n as u8
    }
}

/// The version that the client speaks with a server of this version.
pub open spec fn spoken_version(major: u16, minor: u16) -> (u8, u8) {
    if minor >= 8 {
        protocol::RFB_VERSION_3_8
    } else if minor == 3 || minor == 7 {
        (clipped(major), clipped(minor))
    } else {
        protocol::RFB_VERSION_3_8
    }
}

/// The banner that the client answers a server of this version: its own banner where the version
/// is 3.8 or later, and otherwise that of the version that is spoken.
pub open spec fn answered_banner(major: u16, minor: u16) -> Seq<u8> {
    if minor >= 8 {
        protocol::banner_bytes(major, minor)
    } else {
        let spoken = spoken_version(major, minor);
        protocol::banner_bytes(spoken.0 as u16, spoken.1 as u16)
    }
}

/// What the negotiation came to.
#[derive(Debug)]
pub struct Negotiated {
    /// The server's banner, without its line end.
    pub banner: String,
    /// The version that is spoken.
    pub version: (u8, u8),
    /// The kinds of authentication that the server offers.
    pub security_types: Vec<u8>,
}

/// What the negotiation came to.
pub struct NegotiatedView {
    pub banner: Seq<char>,
    pub version: (u8, u8),
    pub security_types: Seq<u8>,
}

impl View for Negotiated {
    type V = NegotiatedView;

    open spec fn view(&self) -> NegotiatedView {
        NegotiatedView {
            banner: self.banner@,
            version: self.version,
            security_types: self.security_types@,
        }
    }
}

/// The piece of a negotiation that comes next.
#[derive(Clone, Copy, Debug, PartialEq, Eq, Structural)]
pub enum NegotiationStage {
    Banner,
    Types,
    TypeList { count: u16 },
    ReasonLength,
    Reason { length: u32 },
}

/// How far a negotiation has come.
pub struct NegotiationView {
    pub stage: NegotiationStage,
    pub banner: Seq<char>,
    pub version: (u8, u8),
}

/// What comes of a piece of a negotiation.
pub enum NegotiationStep {
    /// Nothing is to be sent.
    Continue,
    /// The banner that is to be sent.
    Reply([u8; 12]),
    Done(Negotiated),
}

/// What comes of a piece of a negotiation.
pub enum NegotiationStepView {
    Continue,
    Reply(Seq<u8>),
    Done(NegotiatedView),
}

impl View for NegotiationStep {
    type V = NegotiationStepView;

    open spec fn view(&self) -> NegotiationStepView {
        match *self {
            NegotiationStep::Continue => NegotiationStepView::Continue,
            NegotiationStep::Reply(bytes) => NegotiationStepView::Reply(bytes@),
            NegotiationStep::Done(negotiated) => NegotiationStepView::Done(negotiated@),
        }
    }
}

/// The bytes of the piece that comes next.
pub open spec fn negotiation_needs(v: NegotiationView) -> int {
    match v.stage {
        NegotiationStage::Banner => 12,
        NegotiationStage::Types => if v.version.1 == 3 {
            4
        } else if v.version.1 == 7 {
            2
        } else {
            1
        },
        NegotiationStage::TypeList { count } => count as int,
        NegotiationStage::ReasonLength => 4,
        NegotiationStage::Reason { length } => length as int,
    }
}

/// The piece is within its budget.
pub open spec fn negotiation_sound(v: NegotiationView) -> bool {
    v.stage matches NegotiationStage::Reason { length } ==> length
        <= protocol::SECURITY_FAILURE_REASON_MAX_BYTES
}

/// What was wrong with a banner, with where it came from.
pub open spec fn banner_refusal(origin: Option<Seq<char>>, e: VncError) -> bool {
    match origin {
        None => e == crate::error::within(
            "服务器返回了非法 RFB banner",
            VncError::Text("RFB banner 格式非法"),
        ),
        Some(origin) => e matches VncError::SaidContext { before, said, after, cause } && before@
            == ""@ && said@ == origin && after@ == " 返回了非法 RFB banner"@ && *cause
            == VncError::Text("RFB banner 格式非法"),
    }
}

/// What the number that stands for the kinds of authentication leads to.
pub open spec fn types_step(v: NegotiationView, bytes: Seq<u8>) -> Result<
    (NegotiationView, NegotiationStepView),
    VncError,
> {
    let count = if v.version.1 == 3 {
        crate::wire::be32(bytes, 0) as int
    } else if v.version.1 == 7 {
        crate::wire::be16(bytes, 0) as int
    } else {
        bytes[0] as int
    };
    if v.version.1 == 3 && count > 255 {
        Err(VncError::Number { before: "RFB 3.3 安全类型超出 u8: ", value: count as u64, after: "" })
    } else if count == 0 {
        Ok(
            (
                NegotiationView { stage: NegotiationStage::ReasonLength, ..v },
                NegotiationStepView::Continue,
            ),
        )
    } else if v.version.1 == 3 {
        Ok((v, NegotiationStepView::Done(negotiated_with(v, seq![count as u8]))))
    } else {
        Ok(
            (
                NegotiationView { stage: NegotiationStage::TypeList { count: count as u16 }, ..v },
                NegotiationStepView::Continue,
            ),
        )
    }
}

/// The outcome of a negotiation with these kinds of authentication.
pub open spec fn negotiated_with(v: NegotiationView, types: Seq<u8>) -> NegotiatedView {
    NegotiatedView { banner: v.banner, version: v.version, security_types: types }
}

/// What the length of a reason leads to.
pub open spec fn reason_length_refusal(length: u32) -> Option<VncError> {
    if length > protocol::SECURITY_FAILURE_REASON_MAX_BYTES {
        Some(
            VncError::Number {
                before: "RFB 安全失败原因长度超过资源预算: ",
                value: length as u64,
                after: "",
            },
        )
    } else {
        None
    }
}

/// Whether this is the failure that gives `reason` between the two texts.
pub open spec fn says(e: VncError, front: &'static str, reason: Seq<char>, back: &'static str) -> bool {
    e matches VncError::Said { before, said, after } && before == front && said@ == reason && after
        == back
}

/// Whether this is what a piece of a negotiation leads to.
pub open spec fn negotiates(
    v: NegotiationView,
    origin: Option<Seq<char>>,
    bytes: Seq<u8>,
    r: Result<NegotiationStep, VncError>,
    after: NegotiationView,
) -> bool {
    match v.stage {
        NegotiationStage::Banner => match r {
            Ok(step) => exists|major: u16, minor: u16|
                {
                    &&& major <= 999
                    &&& minor <= 999
                    &&& bytes == #[trigger] protocol::banner_bytes(major, minor)
                    &&& step@ == NegotiationStepView::Reply(answered_banner(major, minor))
                    &&& after == (NegotiationView {
                        stage: NegotiationStage::Types,
                        banner: protocol::banner_text(major, minor),
                        version: spoken_version(major, minor),
                    })
                },
            Err(e) => banner_refusal(origin, e) && forall|major: u16, minor: u16|
                major <= 999 && minor <= 999 ==> bytes != #[trigger] protocol::banner_bytes(
                    major,
                    minor,
                ),
        },
        NegotiationStage::Types => match (types_step(v, bytes), r) {
            (Ok((next, step)), Ok(done)) => after == next && done@ == step,
            (Err(e), Err(f)) => e == f,
            _ => false,
        },
        NegotiationStage::TypeList { count } => r matches Ok(step) && step@
            == NegotiationStepView::Done(negotiated_with(v, bytes)) && after == v,
        NegotiationStage::ReasonLength => {
            let length = crate::wire::be32(bytes, 0);
            match (reason_length_refusal(length), r) {
                (Some(e), Err(f)) => e == f,
                (None, Ok(step)) => step@ == NegotiationStepView::Continue && after == (
                NegotiationView { stage: NegotiationStage::Reason { length }, ..v }),
                _ => false,
            }
        },
        NegotiationStage::Reason { length } => r matches Err(e) && says(
            e,
            "服务器拒绝连接: ",
            crate::text::lossy_text(bytes),
            "",
        ),
    }
}

/// A negotiation that is under way.
pub struct Negotiation {
    pub stage: NegotiationStage,
    pub banner: String,
    pub version: (u8, u8),
    /// Where the server is, for what is told of its failures.
    pub origin: Option<String>,
}

impl View for Negotiation {
    type V = NegotiationView;

    open spec fn view(&self) -> NegotiationView {
        NegotiationView { stage: self.stage, banner: self.banner@, version: self.version }
    }
}

/// A text, where there is one.
pub open spec fn text_view(text: Option<String>) -> Option<Seq<char>> {
    match text {
        Some(text) => Some(text@),
        None => None,
    }
}

impl Negotiation {
    /// Nothing has been received.
    pub fn new(origin: Option<String>) -> (r: Self)
        ensures
            r@.stage == NegotiationStage::Banner,
            negotiation_sound(r@),
            r.origin == origin,
    {
        Negotiation {
            stage: NegotiationStage::Banner,
            banner: String::new(),
            version: protocol::RFB_VERSION_3_8,
            origin,
        }
    }

    /// The bytes of the piece that comes next.
    pub fn needed(&self) -> (r: usize)
        ensures
            r == negotiation_needs(self@),
    {
        match self.stage {
            NegotiationStage::Banner => 12,
            NegotiationStage::Types => if self.version.1 == 3 {
                4
            } else if self.version.1 == 7 {
                2
            } else {
                1
            },
            NegotiationStage::TypeList { count } => count as usize,
            NegotiationStage::ReasonLength => 4,
            NegotiationStage::Reason { length } => length as usize,
        }
    }

    fn take_banner(&mut self, bytes: &[u8]) -> (r: Result<NegotiationStep, VncError>)
        requires
            old(self)@.stage == NegotiationStage::Banner,
        ensures
            final(self).origin == old(self).origin,
            negotiates(old(self)@, text_view(old(self).origin), bytes@, r, final(self)@),
            r is Err ==> final(self)@ == old(self)@,
    {
        let banner = match parse_rfb_banner(bytes) {
            Ok(banner) => banner,
            Err(e) => {
                return match &self.origin {
                    None => Err(
                        VncError::Context { text: "服务器返回了非法 RFB banner", cause: Box::new(e) },
                    ),
                    Some(origin) => Err(
                        VncError::SaidContext {
                            before: "",
                            said: origin.clone(),
                            after: " 返回了非法 RFB banner",
                            cause: Box::new(e),
                        },
                    ),
                };
            },
        };
        let ghost (major, minor) = (banner.major, banner.minor);
        let reply: [u8; 12];
        if banner.minor >= 8 {
            self.version = protocol::RFB_VERSION_3_8;
            reply = banner.wire;
        } else {
            let spoken: (u8, u8) = if banner.minor == 3 || banner.minor == 7 {
                let major: u8 = if banner.major > 255 {
                    255
                } else {
                    banner.major as u8
                };
                (major, banner.minor as u8)
            } else {
                protocol::RFB_VERSION_3_8
            };
            self.version = spoken;
            reply = encode_rfb_banner(spoken.0 as u16, spoken.1 as u16)?;
        }
        self.banner = banner.display;
        self.stage = NegotiationStage::Types;
        assert(bytes@ == protocol::banner_bytes(major, minor));
        assert(reply@ == answered_banner(major, minor));
        Ok(NegotiationStep::Reply(reply))
    }

    fn take_types(&mut self, bytes: &[u8]) -> (r: Result<NegotiationStep, VncError>)
        requires
            old(self)@.stage == NegotiationStage::Types,
            bytes@.len() == negotiation_needs(old(self)@),
        ensures
            final(self).origin == old(self).origin,
            negotiates(old(self)@, text_view(old(self).origin), bytes@, r, final(self)@),
            r is Err ==> final(self)@ == old(self)@,
    {
        let count: u32 = if self.version.1 == 3 {
            read_be32(bytes, 0)
        } else if self.version.1 == 7 {
            read_be16(bytes, 0) as u32
        } else {
            bytes[0] as u32
        };
        if self.version.1 == 3 && count > 255 {
            return Err(
                VncError::Number {
                    before: "RFB 3.3 安全类型超出 u8: ",
                    value: count as u64,
                    after: "",
                },
            );
        }
        if count == 0 {
            self.stage = NegotiationStage::ReasonLength;
            return Ok(NegotiationStep::Continue);
        }
        if self.version.1 == 3 {
            let mut types: Vec<u8> = Vec::new();
            types.push(count as u8);
            assert(types@ =~= seq![count as u8]);
            return Ok(NegotiationStep::Done(self.outcome(types)));
        }
        self.stage = NegotiationStage::TypeList { count: count as u16 };
        Ok(NegotiationStep::Continue)
    }

    fn outcome(&self, security_types: Vec<u8>) -> (r: Negotiated)
        ensures
            r@ == negotiated_with(self@, security_types@),
    {
        Negotiated { banner: self.banner.clone(), version: self.version, security_types }
    }

    /// Takes the piece that comes next.
    pub fn feed(&mut self, bytes: &[u8]) -> (r: Result<NegotiationStep, VncError>)
        requires
            negotiation_sound(old(self)@),
            bytes@.len() == negotiation_needs(old(self)@),
        ensures
            final(self).origin == old(self).origin,
            negotiates(old(self)@, text_view(old(self).origin), bytes@, r, final(self)@),
            r is Ok ==> negotiation_sound(final(self)@),
            r is Err ==> final(self)@ == old(self)@,
    {
        match self.stage {
            NegotiationStage::Banner => self.take_banner(bytes),
            NegotiationStage::Types => self.take_types(bytes),
            NegotiationStage::TypeList { .. } => {
                let types = owned_bytes(bytes);
                Ok(NegotiationStep::Done(self.outcome(types)))
            },
            NegotiationStage::ReasonLength => {
                let length: u32 = take_reason_length(bytes)?;
                self.stage = NegotiationStage::Reason { length };
                Ok(NegotiationStep::Continue)
            },
            NegotiationStage::Reason { .. } => {
                let reason = lossy(bytes);
                Err(VncError::Said { before: "服务器拒绝连接: ", said: reason, after: "" })
            },
        }
    }
}

fn take_reason_length(bytes: &[u8]) -> (r: Result<u32, VncError>)
    requires
        bytes@.len() == 4,
    ensures
        r == (match reason_length_refusal(crate::wire::be32(bytes@, 0)) {
            Some(e) => Err::<u32, VncError>(e),
            None => Ok(crate::wire::be32(bytes@, 0)),
        }),
{
    let length: u32 = read_be32(bytes, 0);
    if length as usize > protocol::SECURITY_FAILURE_REASON_MAX_BYTES {
        return Err(
            VncError::Number {
                before: "RFB 安全失败原因长度超过资源预算: ",
                value: length as u64,
                after: "",
            },
        );
    }
    Ok(length)
}

/// A server whose version is 3.8 or later, be it one that no standard
/// knows, is answered its own banner, and 3.8 is spoken with it.
pub proof fn law_later_version_is_echoed(major: u16, minor: u16)
    requires
        major <= 999,
        8 <= minor <= 999,
    ensures
        answered_banner(major, minor) == protocol::banner_bytes(major, minor),
        spoken_version(major, minor) == protocol::RFB_VERSION_3_8,
{
}

/// A client that has been let in and has not opened its session. It holds neither the user's name
/// nor the password.
#[derive(Clone, Copy, Debug, PartialEq, Eq, Structural)]
pub struct AuthenticatedSecurity {
    /// The kind of authentication that was used.
    pub choice: u8,
}

/// The piece of an authentication that comes next.
#[derive(Clone, Copy, Debug, PartialEq, Eq, Structural)]
pub enum AuthenticationStage {
    Challenge,
    Outcome,
    ReasonLength,
    Reason { length: u32 },
    Done,
}

/// An authentication that is under way.
#[derive(Clone, Copy, Debug, PartialEq, Eq)]
pub struct Authentication {
    pub stage: AuthenticationStage,
    pub choice: u8,
    pub version: (u8, u8),
}

/// What the client sends to choose a kind of authentication.
pub open spec fn choice_bytes(version: (u8, u8), choice: u8) -> Seq<u8> {
    if version.1 == 3 {
        Seq::empty()
    } else {
        seq![choice]
    }
}

/// An authentication of this kind from its start.
pub open spec fn authentication_of(version: (u8, u8), choice: u8) -> Authentication {
    Authentication {
        stage: if choice == protocol::security::VNC_AUTH {
            AuthenticationStage::Challenge
        } else {
            AuthenticationStage::Done
        },
        choice,
        version,
    }
}

/// The bytes of the piece that comes next.
pub open spec fn authentication_needs(stage: AuthenticationStage) -> int {
    match stage {
        AuthenticationStage::Challenge => 16,
        AuthenticationStage::Outcome => 4,
        AuthenticationStage::ReasonLength => 4,
        AuthenticationStage::Reason { length } => length as int,
        AuthenticationStage::Done => 0,
    }
}

/// The piece is within its budget.
pub open spec fn authentication_sound(stage: AuthenticationStage) -> bool {
    stage matches AuthenticationStage::Reason { length } ==> length
        <= protocol::SECURITY_FAILURE_REASON_MAX_BYTES
}

/// Whether this is the failure of an authentication for this reason.
pub open spec fn is_denied(e: VncError, reason: Seq<char>) -> bool {
    says(e, "VNC 认证失败: ", reason, "（注意：标准 VNC 认证只使用密码的前 8 个字符）")
}

/// The bytes of a password, none where there is none.
pub open spec fn password_bytes(password: Option<&str>) -> Seq<u8> {
    match password {
        Some(password) => vstd::utf8::encode_utf8(password@),
        None => Seq::empty(),
    }
}

/// Whether this is what a piece of an authentication leads to: what is sent, and where the
/// authentication then stands.
pub open spec fn authenticates(
    a: Authentication,
    bytes: Seq<u8>,
    password: Option<&str>,
    r: Result<Vec<u8>, VncError>,
    after: Authentication,
) -> bool {
    match a.stage {
        AuthenticationStage::Challenge => r matches Ok(sent) && sent@ == auth::response_of(
            bytes,
            password_bytes(password),
        ) && after == (Authentication { stage: AuthenticationStage::Outcome, ..a }),
        AuthenticationStage::Outcome => if crate::wire::be32(bytes, 0)
            == protocol::RFB_SECURITY_RESULT_OK {
            r matches Ok(sent) && sent@.len() == 0 && after == (Authentication {
                stage: AuthenticationStage::Done,
                ..a
            })
        } else if a.version.1 >= 8 {
            r matches Ok(sent) && sent@.len() == 0 && after == (Authentication {
                stage: AuthenticationStage::ReasonLength,
                ..a
            })
        } else {
            r matches Err(e) && is_denied(e, "密码错误"@)
        },
        AuthenticationStage::ReasonLength => {
            let length = crate::wire::be32(bytes, 0);
            match (reason_length_refusal(length), r) {
                (Some(e), Err(f)) => e == f,
                (None, Ok(sent)) => sent@.len() == 0 && after == (Authentication {
                    stage: AuthenticationStage::Reason { length },
                    ..a
                }),
                _ => false,
            }
        },
        AuthenticationStage::Reason { length } => r matches Err(e) && is_denied(
            e,
            crate::text::lossy_text(bytes),
        ),
        AuthenticationStage::Done => r matches Ok(sent) && sent@.len() == 0 && after == a,
    }
}

fn denial(reason: String) -> (r: VncError)
    ensures
        is_denied(r, reason@),
{
    VncError::Said {
        before: "VNC 认证失败: ",
        said: reason,
        after: "（注意：标准 VNC 认证只使用密码的前 8 个字符）",
    }
}

impl Authentication {
    /// Chooses a kind of authentication: where the authentication then stands, and what is sent.
    pub fn begin(
        negotiated: &Negotiated,
        username: Option<&str>,
        password: Option<&str>,
    ) -> (r: Result<(Authentication, Vec<u8>), VncError>)
        ensures
            match (client::picked_security(negotiated@.security_types, password is Some), r) {
                (Ok(choice), Ok((authentication, sent))) => {
                    &&& authentication == authentication_of(negotiated@.version, choice)
                    &&& sent@ == choice_bytes(negotiated@.version, choice)
                    &&& authentication_sound(authentication.stage)
                },
                (Err(e), Err(f)) => e == f,
                _ => false,
            },
    {
        let choice: u8 = pick_standard_security(
            negotiated.security_types.as_slice(),
            username,
            password,
        )?;
        let mut sent: Vec<u8> = Vec::new();
        if negotiated.version.1 != 3 {
            sent.push(choice);
        }
        assert(sent@ =~= choice_bytes(negotiated@.version, choice));
        let stage = if choice == protocol::security::VNC_AUTH {
            AuthenticationStage::Challenge
        } else {
            AuthenticationStage::Done
        };
        Ok((Authentication { stage, choice, version: negotiated.version }, sent))
    }

    /// The bytes of the piece that comes next.
    pub fn needed(&self) -> (r: usize)
        ensures
            r == authentication_needs(self.stage),
    {
        match self.stage {
            AuthenticationStage::Challenge => 16,
            AuthenticationStage::Outcome => 4,
            AuthenticationStage::ReasonLength => 4,
            AuthenticationStage::Reason { length } => length as usize,
            AuthenticationStage::Done => 0,
        }
    }

    /// Takes the piece that comes next and tells what to send.
    pub fn feed(&mut self, bytes: &[u8], password: Option<&str>) -> (r: Result<Vec<u8>, VncError>)
        requires
            authentication_sound(old(self).stage),
            bytes@.len() == authentication_needs(old(self).stage),
        ensures
            authenticates(*old(self), bytes@, password, r, *final(self)),
            r is Ok ==> authentication_sound(final(self).stage),
            r is Err ==> *final(self) == *old(self),
    {
        match self.stage {
            AuthenticationStage::Challenge => {
                let mut challenge: [u8; 16] = [0u8; 16];
                let mut i: usize = 0;
                while i < 16
                    invariant
                        i <= 16,
                        bytes@.len() == 16,
                        forall|k: int| 0 <= k < i ==> challenge@[k] == bytes@[k],
                    decreases 16 - i,
                {
                    challenge[i] = bytes[i];
                    i = i + 1;
                }
                assert(challenge@ =~= bytes@);
                let response = match password {
                    Some(password) => vnc_des_challenge_response(&challenge, password),
                    None => {
                        proof {
                            reveal_strlit("");
                            assert(""@ =~= Seq::empty());
                            reveal_with_fuel(vstd::utf8::encode_utf8, 1);
                            assert(vstd::utf8::encode_utf8(""@) =~= Seq::empty());
                        }
                        vnc_des_challenge_response(&challenge, "")
                    },
                };
                self.stage = AuthenticationStage::Outcome;
                Ok(owned_bytes(response.as_slice()))
            },
            AuthenticationStage::Outcome => {
                let outcome: u32 = read_be32(bytes, 0);
                if security_result_is_ok(outcome) {
                    self.stage = AuthenticationStage::Done;
                    return Ok(Vec::new());
                }
                if self.version.1 >= 8 {
                    self.stage = AuthenticationStage::ReasonLength;
                    return Ok(Vec::new());
                }
                Err(denial(String::from_str("密码错误")))
            },
            AuthenticationStage::ReasonLength => {
                let length: u32 = take_reason_length(bytes)?;
                self.stage = AuthenticationStage::Reason { length };
                Ok(Vec::new())
            },
            AuthenticationStage::Reason { .. } => Err(denial(lossy(bytes))),
            AuthenticationStage::Done => Ok(Vec::new()),
        }
    }

    /// The client that has been let in, once it has.
    pub fn finished(&self) -> (r: Option<AuthenticatedSecurity>)
        ensures
            r == (if self.stage == AuthenticationStage::Done {
                Some(AuthenticatedSecurity { choice: self.choice })
            } else {
                None
            }),
    {
        if self.stage == AuthenticationStage::Done {
            Some(AuthenticatedSecurity { choice: self.choice })
        } else {
            None
        }
    }
}

/// The bytes of the server's opening before the name of its desktop.
pub const SERVER_INIT_HEADER_BYTES: usize = 24;

/// A session that has been opened.
#[derive(Debug)]
pub struct VncClient {
    /// The kind of authentication that was used.
    pub used_security: u8,
    pub width: u16,
    pub height: u16,
    /// How the server lays out pixels.
    pub server_pf: PixelFormat,
    /// The name of the server's desktop.
    pub name: String,
}

/// A session that has been opened.
pub struct VncClientView {
    pub used_security: u8,
    pub width: u16,
    pub height: u16,
    pub server_pf: PixelFormat,
    pub name: Seq<char>,
}

impl View for VncClient {
    type V = VncClientView;

    open spec fn view(&self) -> VncClientView {
        VncClientView {
            used_security: self.used_security,
            width: self.width,
            height: self.height,
            server_pf: self.server_pf,
            name: self.name@,
        }
    }
}

/// What is wrong with the size of a surface, where something is.
pub open spec fn surface_refusal(width: int, height: int) -> Option<VncError> {
    match crate::framebuffer::framebuffer_refusal(width, height) {
        None => None,
        Some(cause) => Some(
            VncError::Measured {
                before: "服务器返回了无效分辨率 ",
                across: width as u64,
                down: height as u64,
                cause: Box::new(cause),
            },
        ),
    }
}

fn check_surface(width: usize, height: usize) -> (r: Result<(), VncError>)
    ensures
        r == crate::error::checked(surface_refusal(width as int, height as int)),
{
    match validate_framebuffer_geometry(width, height) {
        Ok(()) => Ok(()),
        Err(cause) => Err(
            VncError::Measured {
                before: "服务器返回了无效分辨率 ",
                across: width as u64,
                down: height as u64,
                cause: Box::new(cause),
            },
        ),
    }
}

/// A client that has to answer a challenge is let in by nothing but the word that its answer was
/// right.
pub proof fn law_only_success_lets_in(
    a: Authentication,
    bytes: Seq<u8>,
    password: Option<&str>,
    r: Result<Vec<u8>, VncError>,
    after: Authentication,
)
    requires
        a.stage != AuthenticationStage::Done,
        authenticates(a, bytes, password, r, after),
        r is Err ==> after == a,
        after.stage == AuthenticationStage::Done,
    ensures
        a.stage == AuthenticationStage::Outcome,
        crate::wire::be32(bytes, 0) == protocol::RFB_SECURITY_RESULT_OK,
{
}

/// The opening of a session by a client that has been let in: what it sends, and what of the
/// server's opening it has received.
#[derive(Clone, Debug, PartialEq, Eq)]
pub struct SessionOpening {
    pub choice: u8,
    pub header: Vec<u8>,
}

/// The bytes of the piece that comes next: the header, and then the name.
pub open spec fn opening_needs(header: Seq<u8>) -> int {
    if header.len() == SERVER_INIT_HEADER_BYTES {
        crate::wire::be32(header, 20) as int
    } else {
        SERVER_INIT_HEADER_BYTES as int
    }
}

/// Whether this is what a piece of an opening leads to: the session, once the name is there.
pub open spec fn opens(
    choice: u8,
    header: Seq<u8>,
    bytes: Seq<u8>,
    r: Result<Option<VncClient>, VncError>,
    after: Seq<u8>,
) -> bool {
    if header.len() != SERVER_INIT_HEADER_BYTES {
        match (
            surface_refusal(crate::wire::be16(bytes, 0) as int, crate::wire::be16(bytes, 2) as int),
            r,
        ) {
            (Some(e), Err(f)) => e == f,
            (None, Ok(None)) => after == bytes,
            _ => false,
        }
    } else {
        r matches Ok(Some(session)) && after == header && session@ == (VncClientView {
            used_security: choice,
            width: crate::wire::be16(header, 0),
            height: crate::wire::be16(header, 2),
            server_pf: protocol::pixel_format_at(header, 4),
            name: crate::text::lossy_text(bytes),
        })
    }
}

impl SessionOpening {
    /// Opens a shared session: the opening, and what is sent.
    pub fn begin(authenticated: AuthenticatedSecurity) -> (r: (SessionOpening, [u8; 1]))
        ensures
            r.0.choice == authenticated.choice,
            r.0.header@ == Seq::<u8>::empty(),
            r.1@ == seq![protocol::apple_session::SHARED_CLIENT_INIT],
    {
        let sent: [u8; 1] = [protocol::apple_session::SHARED_CLIENT_INIT];
        assert(sent@ =~= seq![protocol::apple_session::SHARED_CLIENT_INIT]);
        (SessionOpening { choice: authenticated.choice, header: Vec::new() }, sent)
    }

    /// The bytes of the piece that comes next.
    pub fn needed(&self) -> (r: usize)
        ensures
            r == opening_needs(self.header@),
    {
        if self.header.len() == SERVER_INIT_HEADER_BYTES {
            read_be32(self.header.as_slice(), 20) as usize
        } else {
            SERVER_INIT_HEADER_BYTES
        }
    }

    /// Takes the piece that comes next.
    pub fn feed(&mut self, bytes: &[u8]) -> (r: Result<Option<VncClient>, VncError>)
        requires
            bytes@.len() == opening_needs(old(self).header@),
        ensures
            final(self).choice == old(self).choice,
            opens(old(self).choice, old(self).header@, bytes@, r, final(self).header@),
            r is Err ==> final(self).header@ == old(self).header@,
    {
        if self.header.len() != SERVER_INIT_HEADER_BYTES {
            check_surface(read_be16(bytes, 0) as usize, read_be16(bytes, 2) as usize)?;
            self.header = owned_bytes(bytes);
            return Ok(None);
        }
        let header = self.header.as_slice();
        Ok(
            Some(
                VncClient {
                    used_security: self.choice,
                    width: read_be16(header, 0),
                    height: read_be16(header, 2),
                    server_pf: PixelFormat::read(header, 4),
                    name: lossy(bytes),
                },
            ),
        )
    }
}

/// What is known of a session that was opened in the way of a Mac.
#[derive(Debug)]
pub struct AppleSessionMetadata {
    pub width: u32,
    pub height: u32,
    pub security_type: u8,
    pub pixel_format: PixelFormat,
    pub name: String,
}

/// Takes over a session that was opened in the way of a Mac.
pub fn from_apple_session(metadata: AppleSessionMetadata) -> (r: Result<VncClient, VncError>)
    ensures
        match (surface_refusal(metadata.width as int, metadata.height as int), r) {
            (Some(e), Err(f)) => e == f,
            (None, Err(e)) => if metadata.width > u16::MAX {
                e == VncError::Text("ServerInit 宽度超出 u16")
            } else {
                metadata.height > u16::MAX && e == VncError::Text("ServerInit 高度超出 u16")
            },
            (None, Ok(session)) => {
                &&& metadata.width <= u16::MAX
                &&& metadata.height <= u16::MAX
                &&& session@ == (VncClientView {
                    used_security: metadata.security_type,
                    width: metadata.width as u16,
                    height: metadata.height as u16,
                    server_pf: metadata.pixel_format,
                    name: metadata.name@,
                })
            },
            _ => false,
        },
{
    check_surface(metadata.width as usize, metadata.height as usize)?;
    if metadata.width > 0xffff {
        return Err(VncError::Text("ServerInit 宽度超出 u16"));
    }
    if metadata.height > 0xffff {
        return Err(VncError::Text("ServerInit 高度超出 u16"));
    }
    Ok(
        VncClient {
            used_security: metadata.security_type,
            width: metadata.width as u16,
            height: metadata.height as u16,
            server_pf: metadata.pixel_format,
            name: metadata.name,
        },
    )
}

/// What a client sends before it asks for its first update: how pixels shall be laid out, and the
/// encodings that it knows. An encrypted session has settled both.
pub open spec fn session_settings(encrypted: bool, ours: PixelFormat) -> Seq<u8> {
    if encrypted {
        Seq::empty()
    } else {
        seq![protocol::RfbClientMessageType::SetPixelFormat.byte(), 0u8, 0, 0]
            + protocol::pixel_format_bytes(ours) + protocol::set_encodings_bytes(
            seq![protocol::COPYRECT, protocol::RAW],
        )
    }
}

impl VncClient {
    /// What is sent before the first update is asked for.
    pub fn init_session(&self, encrypted: bool) -> (r: Result<Vec<u8>, VncError>)
        ensures
            r matches Ok(sent) && sent@ == session_settings(
                encrypted,
                (PixelFormat {
                    bits_per_pixel: 32,
                    depth: 24,
                    big_endian: false,
                    true_colour: true,
                    red_max: 255,
                    green_max: 255,
                    blue_max: 255,
                    red_shift: 16,
                    green_shift: 8,
                    blue_shift: 0,
                }),
            ),
    {
        let mut sent: Vec<u8> = Vec::new();
        if encrypted {
            assert(sent@ =~= Seq::empty());
            return Ok(sent);
        }
        let format = PixelFormat::ours();
        let message = msg_set_pixel_format(&format);
        push_bytes(&mut sent, message.as_slice());
        let encodings: [i32; 2] = SUPPORTED_ENCODINGS;
        assert(encodings@ =~= seq![protocol::COPYRECT, protocol::RAW]);
        let message = msg_set_encodings(encodings.as_slice())?;
        push_bytes(&mut sent, message.as_slice());
        assert(sent@ =~= session_settings(false, format));
        Ok(sent)
    }

    /// Asks for an update of the whole surface.
    pub fn request_update(&self, incremental: bool) -> (r: [u8;
        protocol::FRAMEBUFFER_UPDATE_REQUEST_MESSAGE_BYTES])
        ensures
            r@ == protocol::update_request_bytes(incremental, 0, 0, self.width, self.height),
    {
        msg_fb_update_request(incremental, 0, 0, self.width, self.height)
    }
}

/// The version that is spoken is 3.3, 3.7 or 3.8: a server of one of the first two is spoken to in
/// its own version and answered its own banner, and every other in 3.8.
pub proof fn law_spoken_versions(major: u16, minor: u16)
    requires
        major <= 255,
        minor <= 999,
    ensures
        minor == 3 || minor == 7 ==> spoken_version(major, minor) == (major as u8, minor as u8)
            && answered_banner(major, minor) == protocol::banner_bytes(major, minor),
        minor != 3 && minor != 7 ==> spoken_version(major, minor) == (3u8, 8u8),
        minor < 8 && minor != 3 && minor != 7 ==> answered_banner(major, minor)
            == protocol::banner_bytes(3, 8),
{
}

/// A server of 3.3 tells the one kind of authentication itself, in four bytes; later ones tell how
/// many they offer, and then each in a byte, which are taken as they stand. None at all is a refusal
/// whose reason follows.
pub proof fn law_offered_types_are_taken(
    v: NegotiationView,
    bytes: Seq<u8>,
    r: Result<NegotiationStep, VncError>,
    after: NegotiationView,
    origin: Option<Seq<char>>,
)
    requires
        negotiates(v, origin, bytes, r, after),
    ensures
        v.stage == NegotiationStage::Types && v.version.1 == 3 && bytes[0] == 0 && bytes[1] == 0
            && bytes[2] == 0 && bytes[3] != 0 ==> (r matches Ok(step) && (
        step@ matches NegotiationStepView::Done(done) && done.security_types == seq![bytes[3]]
            && done.version == v.version)),
        v.stage == NegotiationStage::Types && v.version.1 >= 8 && bytes[0] != 0 ==> r is Ok
            && after.stage == (NegotiationStage::TypeList { count: bytes[0] as u16 }),
        v.stage == NegotiationStage::Types && v.version.1 >= 8 && bytes[0] == 0 ==> r is Ok
            && after.stage == NegotiationStage::ReasonLength,
        v.stage is TypeList ==> (r matches Ok(step) && (
        step@ matches NegotiationStepView::Done(done) && done.security_types == bytes
            && done.version == v.version)),
        v.stage is Reason ==> r is Err,
        v.stage == NegotiationStage::Types ==> negotiation_needs(v) == (if v.version.1 == 3 {
            4int
        } else if v.version.1 == 7 {
            2
        } else {
            1
        }),
{
}

/// A password is asked for by a challenge of sixteen bytes and nothing else is; a kind is told to the
/// server in one byte, but in 3.3, where the server has settled it.
pub proof fn law_only_passwords_are_asked_for(version: (u8, u8), choice: u8)
    ensures
        authentication_of(version, choice).stage == (if choice == 2 {
            AuthenticationStage::Challenge
        } else {
            AuthenticationStage::Done
        }),
        authentication_of(version, choice).choice == choice,
        authentication_of(version, choice).version == version,
        version.1 == 3 ==> choice_bytes(version, choice).len() == 0,
        version.1 != 3 ==> choice_bytes(version, choice) =~= seq![choice],
        authentication_needs(AuthenticationStage::Challenge) == 16,
        authentication_needs(AuthenticationStage::Outcome) == 4,
{
}

/// An opening that a server wrote is read back: the size, the pixel format, and the name behind its
/// length.
pub proof fn law_opening_is_read_back(
    choice: u8,
    width: u16,
    height: u16,
    format: PixelFormat,
    name: Seq<u8>,
    r: Result<Option<VncClient>, VncError>,
    after: Seq<u8>,
)
    requires
        name.len() <= u32::MAX,
        opens(
            choice,
            crate::wire::be16_bytes(width) + crate::wire::be16_bytes(height)
                + protocol::pixel_format_bytes(format) + crate::wire::be32_bytes(name.len() as u32),
            name,
            r,
            after,
        ),
    ensures
        opening_needs(
            crate::wire::be16_bytes(width) + crate::wire::be16_bytes(height)
                + protocol::pixel_format_bytes(format) + crate::wire::be32_bytes(name.len() as u32),
        ) == name.len(),
        opening_needs(Seq::empty()) == 24,
        r matches Ok(Some(session)) && session@ == (VncClientView {
            used_security: choice,
            width,
            height,
            server_pf: format,
            name: crate::text::lossy_text(name),
        }),
{
    let w = crate::wire::be16_bytes(width);
    let h = crate::wire::be16_bytes(height);
    let f = protocol::pixel_format_bytes(format);
    let n = crate::wire::be32_bytes(name.len() as u32);
    let header = w + h + f + n;
    assert(header.len() == 24);
    assert(header.subrange(0, 2) =~= w);
    assert(header.subrange(2, 4) =~= h);
    assert(header.subrange(20, 24) =~= n);
    crate::wire::lemma_be16(header, 0, width);
    crate::wire::lemma_be16(header, 2, height);
    crate::wire::lemma_be32(header, 20, name.len() as u32);
    protocol::law_pixel_format_is_read_back(w + h, format, n);
    assert((w + h) + f + n =~= header);
}

} // verus!
