//! The companion's side of a firmware update: which request to send next,
//! given how the device answered the last one.
use vstd::prelude::*;
use crate::device::StateView;
use crate::processor::{effect_outcome, EffectView};
use crate::requests::{
    chunk_count, ota_begin_command, ota_begin_request, ota_chunk_count, ota_data_command,
    ota_data_request, opcode_command, reply_is,
};
use crate::wire::{
    COMMAND_OTA_END, RESPONSE_OTA_BEGIN_OK, RESPONSE_OTA_DATA_OK, RESPONSE_OTA_END_OK,
};

verus! {

pub const OTA_BEGIN_REJECTED: &'static str = "OTA begin rejected";
pub const OTA_DATA_REJECTED: &'static str = "OTA data rejected";
pub const OTA_END_REJECTED: &'static str = "OTA end rejected";
pub const DEVICE_REJECTED_BEGIN: &'static str = "Device rejected OTA begin command";
pub const DEVICE_REJECTED_CHUNK: &'static str = "Device rejected OTA data chunk";
pub const DEVICE_REJECTED_END: &'static str = "Device rejected OTA end command";

/// Where an upload stands.
#[derive(Debug, Clone, Copy, PartialEq, Eq, Structural)]
pub enum UploadStage {
    /// The request that begins the update was sent.
    AwaitBegin,
    /// The request carrying this chunk was sent.
    AwaitChunk(usize),
    /// The request that ends the update was sent.
    AwaitEnd,
    /// The device accepted the end of the update.
    Done,
    /// The device refused a request.
    Failed,
}

/// What the companion does after a reply.
#[derive(Debug, Clone, PartialEq, Eq)]
pub enum UploadAction {
    /// Send this request and hand back the device's reply.
    Send(Vec<u8>),
    /// The update is complete.
    Complete,
    /// The device refused a request: `message` is the error, `context`
    /// labels it in the log.
    Rejected { context: &'static str, message: &'static str },
}

/// An upload of a firmware image in chunks of a fixed size.
pub struct OtaUpload {
    image: Vec<u8>,
    chunk_size: usize,
    total_chunks: usize,
    stage: UploadStage,
}

/// What an upload stands for.
pub struct UploadView {
    pub image: Seq<u8>,
    pub chunk_size: nat,
    pub total_chunks: nat,
    pub stage: UploadStage,
}

impl View for OtaUpload {
    type V = UploadView;

    closed spec fn view(&self) -> UploadView {
        UploadView {
            image: self.image@,
            chunk_size: self.chunk_size as nat,
            total_chunks: self.total_chunks as nat,
            stage: self.stage,
        }
    }
}

/// Whether a reply is still awaited in this stage.
pub open spec fn awaits_reply(stage: UploadStage) -> bool {
    stage is AwaitBegin || stage is AwaitChunk || stage is AwaitEnd
}

/// The opcode of the reply that accepts the request sent in a stage.
pub open spec fn accepting_opcode(stage: UploadStage) -> u8 {
    match stage {
        UploadStage::AwaitBegin => RESPONSE_OTA_BEGIN_OK,
        UploadStage::AwaitChunk(_) => RESPONSE_OTA_DATA_OK,
        _ => RESPONSE_OTA_END_OK,
    }
}

/// The stage after the request sent in `stage` was accepted: the chunks
/// follow the beginning one by one, and the end follows the last chunk (or
/// the beginning, for an empty image).
pub open spec fn stage_after_accept(stage: UploadStage, total_chunks: nat) -> UploadStage {
    match stage {
        UploadStage::AwaitBegin => if total_chunks > 0 {
            UploadStage::AwaitChunk(0)
        } else {
            UploadStage::AwaitEnd
        },
        UploadStage::AwaitChunk(k) => if k + 1 < total_chunks {
            UploadStage::AwaitChunk((k + 1) as usize)
        } else {
            UploadStage::AwaitEnd
        },
        _ => UploadStage::Done,
    }
}

/// The stage after a reply: onward when the reply accepts the request,
/// failed otherwise.
pub open spec fn next_stage(stage: UploadStage, total_chunks: nat, reply: Seq<u8>) -> UploadStage {
    if reply.len() > 0 && reply[0] == accepting_opcode(stage) {
        stage_after_accept(stage, total_chunks)
    } else {
        UploadStage::Failed
    }
}

/// The request sent on entering a stage that awaits a reply.
pub open spec fn stage_request(image: Seq<u8>, chunk_size: nat, stage: UploadStage) -> Seq<u8> {
    match stage {
        UploadStage::AwaitBegin => ota_begin_request(image.len() as usize),
        UploadStage::AwaitChunk(k) => ota_data_request(image, k, chunk_size as usize),
        _ => seq![COMMAND_OTA_END],
    }
}

/// The log label and message of a refusal of the request sent in a stage.
pub open spec fn refusal(stage: UploadStage) -> (&'static str, &'static str) {
    match stage {
        UploadStage::AwaitBegin => (OTA_BEGIN_REJECTED, DEVICE_REJECTED_BEGIN),
        UploadStage::AwaitChunk(_) => (OTA_DATA_REJECTED, DEVICE_REJECTED_CHUNK),
        _ => (OTA_END_REJECTED, DEVICE_REJECTED_END),
    }
}

/// What the companion does on entering `next` from `stage`.
pub open spec fn action_matches(
    r: UploadAction,
    image: Seq<u8>,
    chunk_size: nat,
    stage: UploadStage,
    next: UploadStage,
) -> bool {
    if next is Done {
        r is Complete
    } else if next is Failed {
        r == (UploadAction::Rejected { context: refusal(stage).0, message: refusal(stage).1 })
    } else {
        r matches UploadAction::Send(b) && b@ == stage_request(image, chunk_size, next)
    }
}

proof fn lemma_chunk_inside_image(len: int, chunk_size: int, k: int)
    requires
        len >= 0,
        chunk_size > 0,
        0 <= k < chunk_count(len, chunk_size),
    ensures
        k * chunk_size < len,
{
    let n = len + chunk_size - 1;
    vstd::arithmetic::div_mod::lemma_fundamental_div_mod(n, chunk_size);
    let q = n / chunk_size;
    assert(k * chunk_size < len) by (nonlinear_arith)
        requires
            n == chunk_size * q + n % chunk_size,
            0 <= n % chunk_size < chunk_size,
            n == len + chunk_size - 1,
            k + 1 <= q,
            chunk_size > 0,
    ;
}

impl OtaUpload {
    #[verifier::type_invariant]
    spec fn well_formed(self) -> bool {
        &&& self.chunk_size > 0
        &&& self.total_chunks == chunk_count(self.image@.len() as int, self.chunk_size as int)
        &&& self.stage matches UploadStage::AwaitChunk(k) ==> k < self.total_chunks
    }

    /// Where the upload stands.
    pub fn stage(&self) -> (r: UploadStage)
        ensures
            r == self@.stage,
    {
        self.stage
    }

    /// How many chunks the image is sent in.
    pub fn total_chunks(&self) -> (r: usize)
        ensures
            r == self@.total_chunks,
    {
        self.total_chunks
    }

    /// Whether the device's reply to a request is awaited.
    pub fn awaiting_reply(&self) -> (r: bool)
        ensures
            r == awaits_reply(self@.stage),
    {
        match self.stage {
            UploadStage::AwaitBegin | UploadStage::AwaitChunk(_) | UploadStage::AwaitEnd => true,
            _ => false,
        }
    }
}

/// Starts uploading `image` in chunks of `chunk_size` bytes: the first
/// request begins an update of the image's size.
pub fn ota_upload_start(image: Vec<u8>, chunk_size: usize) -> (r: (OtaUpload, Vec<u8>))
    requires
        chunk_size > 0,
    ensures
        r.0@ == (UploadView {
            image: image@,
            chunk_size: chunk_size as nat,
            total_chunks: chunk_count(image@.len() as int, chunk_size as int) as nat,
            stage: UploadStage::AwaitBegin,
        }),
        r.1@ == stage_request(image@, chunk_size as nat, UploadStage::AwaitBegin),
{
    let total_chunks = ota_chunk_count(image.len(), chunk_size);
    let request = ota_begin_command(image.len());
    (OtaUpload { image, chunk_size, total_chunks, stage: UploadStage::AwaitBegin }, request)
}

/// Takes the device's reply to the last request: when it accepts the
/// request, the next one is sent (the chunks in order, then the end) or the
/// update is complete; otherwise the upload stops with the refusal of that
/// request.
pub fn ota_upload_step(upload: &mut OtaUpload, reply: &[u8]) -> (r: UploadAction)
    requires
        awaits_reply(old(upload)@.stage),
    ensures
        final(upload)@ == (UploadView {
            stage: next_stage(old(upload)@.stage, old(upload)@.total_chunks, reply@),
            ..old(upload)@
        }),
        action_matches(
            r,
            old(upload)@.image,
            old(upload)@.chunk_size,
            old(upload)@.stage,
            final(upload)@.stage,
        ),
{
    proof {
        use_type_invariant(&*upload);
    }
    let stage = upload.stage;
    let accepted = match stage {
        UploadStage::AwaitBegin => reply_is(reply, RESPONSE_OTA_BEGIN_OK),
        UploadStage::AwaitChunk(_) => reply_is(reply, RESPONSE_OTA_DATA_OK),
        _ => reply_is(reply, RESPONSE_OTA_END_OK),
    };
    if !accepted {
        upload.stage = UploadStage::Failed;
        return match stage {
            UploadStage::AwaitBegin => UploadAction::Rejected {
                context: OTA_BEGIN_REJECTED,
                message: DEVICE_REJECTED_BEGIN,
            },
            UploadStage::AwaitChunk(_) => UploadAction::Rejected {
                context: OTA_DATA_REJECTED,
                message: DEVICE_REJECTED_CHUNK,
            },
            _ => UploadAction::Rejected { context: OTA_END_REJECTED, message: DEVICE_REJECTED_END },
        };
    }
    let next = match stage {
        UploadStage::AwaitBegin => if upload.total_chunks > 0 {
            UploadStage::AwaitChunk(0)
        } else {
            UploadStage::AwaitEnd
        },
        UploadStage::AwaitChunk(k) => if k + 1 < upload.total_chunks {
            UploadStage::AwaitChunk(k + 1)
        } else {
            UploadStage::AwaitEnd
        },
        _ => UploadStage::Done,
    };
    upload.stage = next;
    match next {
        UploadStage::AwaitChunk(k) => {
            proof {
                lemma_chunk_inside_image(
                    upload.image@.len() as int,
                    upload.chunk_size as int,
                    k as int,
                );
            }
            UploadAction::Send(ota_data_command(upload.image.as_slice(), k, upload.chunk_size))
        },
        UploadStage::AwaitEnd => UploadAction::Send(opcode_command(COMMAND_OTA_END)),
        _ => UploadAction::Complete,
    }
}

/// The stage after `i` accepted replies to an upload of `total_chunks`
/// chunks: the beginning, each chunk in order, the end, then done.
pub open spec fn stage_after_accepts(total_chunks: nat, i: nat) -> UploadStage {
    if i == 0 {
        UploadStage::AwaitBegin
    } else if i <= total_chunks {
        UploadStage::AwaitChunk((i - 1) as usize)
    } else if i == total_chunks + 1 {
        UploadStage::AwaitEnd
    } else {
        UploadStage::Done
    }
}

/// When the device accepts every request, the upload begins the update,
/// sends chunk 0, 1, ... up to the last chunk in that order, ends the
/// update only after the last chunk, and is done after the end is accepted.
/// Any reply that does not accept the request stops the upload at once.
pub proof fn lemma_upload_order(total_chunks: nat, i: nat, reply: Seq<u8>)
    requires
        total_chunks <= usize::MAX,
        i <= total_chunks + 1,
    ensures
        reply.len() > 0 && reply[0] == accepting_opcode(stage_after_accepts(total_chunks, i))
            ==> next_stage(stage_after_accepts(total_chunks, i), total_chunks, reply)
            == stage_after_accepts(total_chunks, i + 1),
        !(reply.len() > 0 && reply[0] == accepting_opcode(stage_after_accepts(total_chunks, i)))
            ==> next_stage(stage_after_accepts(total_chunks, i), total_chunks, reply)
            == UploadStage::Failed,
        forall|k: usize|
            stage_after_accepts(total_chunks, i) == UploadStage::AwaitChunk(k) ==> k == i - 1,
        stage_after_accepts(total_chunks, i) == UploadStage::AwaitEnd ==> i == total_chunks + 1,
{
}

/// Every stage that awaits a reply is left either onward, as
/// `stage_after_accept` orders, or to a failure; the end is only asked for
/// after the last chunk (or at once, for an empty image); nothing follows a
/// failure or the end.
pub proof fn lemma_no_stage_skipped(stage: UploadStage, total_chunks: nat, reply: Seq<u8>)
    requires
        awaits_reply(stage),
    ensures
        next_stage(stage, total_chunks, reply) == stage_after_accept(stage, total_chunks)
            || next_stage(stage, total_chunks, reply) == UploadStage::Failed,
        next_stage(stage, total_chunks, reply) is AwaitEnd ==> (stage is AwaitBegin
            && total_chunks == 0) || (stage matches UploadStage::AwaitChunk(k) && k + 1
            >= total_chunks),
        !awaits_reply(UploadStage::Done) && !awaits_reply(UploadStage::Failed),
{
}

/// The device's answer to each step of a firmware update, once its flash
/// work is done, is what the companion's upload takes: a successful begin,
/// chunk write or end moves the upload on to its next stage, a failed one
/// stops it; and the answer leaves the device's state as it was.
pub proof fn lemma_device_replies_drive_upload(
    s: StateView,
    total_size: int,
    payload: Seq<u8>,
    k: usize,
    total_chunks: nat,
    succeeded: bool,
)
    ensures
        effect_outcome(s, EffectView::OtaBegin { total_size }, succeeded).0 == s,
        effect_outcome(s, EffectView::OtaData { payload }, succeeded).0 == s,
        effect_outcome(s, EffectView::OtaEnd, succeeded).0 == s,
        effect_outcome(s, EffectView::OtaBegin { total_size }, succeeded).1.len() == 1,
        effect_outcome(s, EffectView::OtaData { payload }, succeeded).1.len() == 1,
        effect_outcome(s, EffectView::OtaEnd, succeeded).1.len() == 1,
        succeeded ==> effect_outcome(s, EffectView::OtaData { payload }, succeeded).1 == seq![
            accepting_opcode(UploadStage::AwaitChunk(k)),
        ],
        next_stage(
            UploadStage::AwaitBegin,
            total_chunks,
            effect_outcome(s, EffectView::OtaBegin { total_size }, succeeded).1,
        ) == if succeeded {
            stage_after_accept(UploadStage::AwaitBegin, total_chunks)
        } else {
            UploadStage::Failed
        },
        next_stage(
            UploadStage::AwaitChunk(k),
            total_chunks,
            effect_outcome(s, EffectView::OtaData { payload }, succeeded).1,
        ) == if succeeded {
            stage_after_accept(UploadStage::AwaitChunk(k), total_chunks)
        } else {
            UploadStage::Failed
        },
        next_stage(
            UploadStage::AwaitEnd,
            total_chunks,
            effect_outcome(s, EffectView::OtaEnd, succeeded).1,
        ) == if succeeded {
            UploadStage::Done
        } else {
            UploadStage::Failed
        },
{
}

} // verus!
