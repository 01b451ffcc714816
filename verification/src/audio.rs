//! The choices an audio session makes from the negotiated media: which
//! G.711 variant the RTP stream carries and which elements encode and
//! decode it, and what holding the call does to the sending side.

use vstd::prelude::*;

verus! {

/// The elements and RTP settings of one G.711 variant.
pub struct CodecPlan {
    /// RTP payload type, for the receive caps and the payloader.
    pub payload_type: u32,
    /// The `encoding-name` of the receive caps.
    pub encoding_name: &'static str,
    pub depayloader: &'static str,
    pub decoder: &'static str,
    pub encoder: &'static str,
    pub payloader: &'static str,
}

/// Payload type 8 is A-law (PCMA); anything else is sent and received as
/// µ-law (PCMU, payload type 0).
pub fn codec_plan(codec: u8) -> (p: CodecPlan)
    ensures
        codec == 8 ==> p.payload_type == 8 && p.encoding_name@ == "PCMA"@
            && p.depayloader@ == "rtppcmadepay"@ && p.decoder@ == "alawdec"@
            && p.encoder@ == "alawenc"@ && p.payloader@ == "rtppcmapay"@,
        codec != 8 ==> p.payload_type == 0 && p.encoding_name@ == "PCMU"@
            && p.depayloader@ == "rtppcmudepay"@ && p.decoder@ == "mulawdec"@
            && p.encoder@ == "mulawenc"@ && p.payloader@ == "rtppcmupay"@,
{
    if codec == 8 {
        CodecPlan {
            payload_type: 8,
            encoding_name: "PCMA",
            depayloader: "rtppcmadepay",
            decoder: "alawdec",
            encoder: "alawenc",
            payloader: "rtppcmapay",
        }
    } else {
        CodecPlan {
            payload_type: 0,
            encoding_name: "PCMU",
            depayloader: "rtppcmudepay",
            decoder: "mulawdec",
            encoder: "mulawenc",
            payloader: "rtppcmupay",
        }
    }
}

/// The state of the sending pipeline.
#[derive(Debug, Clone, Copy, PartialEq, Eq, Structural)]
pub enum SendState {
    Playing,
    Paused,
}

/// Holding a call pauses the sending pipeline; resuming plays it again.
pub fn send_state(hold: bool) -> (s: SendState)
    ensures
        s == (if hold { SendState::Paused } else { SendState::Playing }),
{
    if hold { SendState::Paused } else { SendState::Playing }
}

} // verus!
