//! Book-keeping of a firmware update on the device: whether one is under
//! way, how large it is, and which bytes have gone to flash so far.
use vstd::prelude::*;

verus! {

pub const OTA_NOT_INITIALIZED: &'static str = "OTA not initialized; send BEGIN first";
pub const OTA_WRITE_FAILED: &'static str = "Failed to write OTA data to flash";
pub const OTA_VALIDATION_FAILED: &'static str = "OTA image validation failed";

/// The state of a firmware update.
pub struct OtaSession {
    active: bool,
    bytes_written: usize,
    total_size: usize,
    /// The bytes handed to flash since the update began, in order.
    image: Ghost<Seq<u8>>,
}

/// What an update session stands for.
pub struct OtaView {
    pub active: bool,
    pub bytes_written: nat,
    pub total_size: nat,
    pub image: Seq<u8>,
}

impl View for OtaSession {
    type V = OtaView;

    closed spec fn view(&self) -> OtaView {
        OtaView {
            active: self.active,
            bytes_written: self.bytes_written as nat,
            total_size: self.total_size as nat,
            image: self.image@,
        }
    }
}

/// No update under way, nothing written.
pub open spec fn idle_session() -> OtaView {
    OtaView { active: false, bytes_written: 0, total_size: 0, image: Seq::empty() }
}

/// An update of `total_size` bytes that has just begun.
pub open spec fn begun_session(total_size: nat) -> OtaView {
    OtaView { active: true, bytes_written: 0, total_size, image: Seq::empty() }
}

/// What a write answers: refused without an update under way, refused when
/// flash failed, accepted otherwise.
pub open spec fn write_outcome(s: OtaView, flash_ok: bool) -> Result<(), &'static str> {
    if !s.active {
        Err(OTA_NOT_INITIALIZED)
    } else if !flash_ok {
        Err(OTA_WRITE_FAILED)
    } else {
        Ok(())
    }
}

/// The session after a write: only an accepted write counts its bytes and
/// adds them to the image.
pub open spec fn write_step(s: OtaView, data: Seq<u8>, flash_ok: bool) -> OtaView {
    if write_outcome(s, flash_ok) is Ok {
        OtaView { bytes_written: s.bytes_written + data.len(), image: s.image + data, ..s }
    } else {
        s
    }
}

/// The session after an end: an update under way is over either way.
pub open spec fn ended_session(s: OtaView) -> OtaView {
    OtaView { active: false, ..s }
}

/// What an end answers: refused without an update under way, the number of
/// bytes written for a valid image, refused for an invalid one.
pub open spec fn end_outcome(s: OtaView, image_valid: bool) -> Result<nat, &'static str> {
    if !s.active {
        Err(OTA_NOT_INITIALIZED)
    } else if !image_valid {
        Err(OTA_VALIDATION_FAILED)
    } else {
        Ok(s.bytes_written)
    }
}

impl OtaSession {
    /// No update under way.
    pub fn new() -> (r: OtaSession)
        ensures
            r@ == idle_session(),
    {
        OtaSession { active: false, bytes_written: 0, total_size: 0, image: Ghost(Seq::empty()) }
    }

    /// Whether an update is under way.
    pub fn is_active(&self) -> (r: bool)
        ensures
            r == self@.active,
    {
        self.active
    }

    /// How many bytes of the current update went to flash.
    pub fn bytes_written(&self) -> (r: usize)
        ensures
            r == self@.bytes_written,
    {
        self.bytes_written
    }

    /// The size announced for the current update.
    pub fn total_size(&self) -> (r: usize)
        ensures
            r == self@.total_size,
    {
        self.total_size
    }
}

/// Starts an update of `total_size` bytes, once the device has initiated
/// it; an update already under way is replaced.
pub fn begin(session: &mut OtaSession, total_size: usize)
    ensures
        final(session)@ == begun_session(total_size as nat),
{
    *session = OtaSession {
        active: true,
        bytes_written: 0,
        total_size,
        image: Ghost(Seq::empty()),
    };
}

/// Records a piece of the image: refused when no update is under way;
/// otherwise counted when it was written to flash (`flash_ok`), and
/// refused when writing failed.
pub fn write_data(session: &mut OtaSession, data: &[u8], flash_ok: bool) -> (r: Result<
    (),
    &'static str,
>)
    requires
        old(session)@.active && flash_ok ==> old(session)@.bytes_written + data@.len()
            <= usize::MAX,
    ensures
        r == write_outcome(old(session)@, flash_ok),
        final(session)@ == write_step(old(session)@, data@, flash_ok),
{
    if !session.active {
        return Err(OTA_NOT_INITIALIZED);
    }
    if !flash_ok {
        return Err(OTA_WRITE_FAILED);
    }
    let ghost image = session.image@ + data@;
    *session = OtaSession {
        active: session.active,
        bytes_written: session.bytes_written + data.len(),
        total_size: session.total_size,
        image: Ghost(image),
    };
    Ok(())
}

/// Finishes the update: refused when none is under way; otherwise the
/// update is over either way, and the result is the number of bytes
/// written when the image was valid (`image_valid`).
pub fn end(session: &mut OtaSession, image_valid: bool) -> (r: Result<usize, &'static str>)
    ensures
        r matches Ok(n) ==> end_outcome(old(session)@, image_valid) == Ok::<nat, &'static str>(
            n as nat,
        ),
        r matches Err(e) ==> end_outcome(old(session)@, image_valid) == Err::<nat, &'static str>(
            e,
        ),
        final(session)@ == (if old(session)@.active {
            ended_session(old(session)@)
        } else {
            old(session)@
        }),
{
    if !session.active {
        return Err(OTA_NOT_INITIALIZED);
    }
    session.active = false;
    if !image_valid {
        return Err(OTA_VALIDATION_FAILED);
    }
    Ok(session.bytes_written)
}

/// The pieces laid end to end.
pub open spec fn joined(pieces: Seq<Seq<u8>>) -> Seq<u8>
    decreases pieces.len(),
{
    if pieces.len() == 0 {
        Seq::empty()
    } else {
        joined(pieces.drop_last()) + pieces.last()
    }
}

/// The session after writing the pieces in order, each one to flash without
/// failure.
pub open spec fn after_writes(s: OtaView, pieces: Seq<Seq<u8>>) -> OtaView
    decreases pieces.len(),
{
    if pieces.len() == 0 {
        s
    } else {
        write_step(after_writes(s, pieces.drop_last()), pieces.last(), true)
    }
}

/// Once an update of `total_size` bytes has begun, pieces that all reach
/// flash are each accepted, and afterwards the update is still under way with
/// its announced size, has counted exactly the bytes of the pieces, and its
/// image is the pieces laid end to end in the order they came.
pub proof fn lemma_writes_build_image(total_size: nat, pieces: Seq<Seq<u8>>)
    ensures
        after_writes(begun_session(total_size), pieces) == (OtaView {
            active: true,
            bytes_written: joined(pieces).len(),
            total_size,
            image: joined(pieces),
        }),
        forall|k: int|
            0 <= k < pieces.len() ==> write_outcome(
                #[trigger] after_writes(begun_session(total_size), pieces.take(k)),
                true,
            ) is Ok,
    decreases pieces.len(),
{
    if pieces.len() > 0 {
        let shorter = pieces.drop_last();
        lemma_writes_build_image(total_size, shorter);
        assert forall|k: int| 0 <= k < pieces.len() implies write_outcome(
            #[trigger] after_writes(begun_session(total_size), pieces.take(k)),
            true,
        ) is Ok by {
            if k < shorter.len() {
                assert(pieces.take(k) =~= shorter.take(k));
            } else {
                assert(pieces.take(k) =~= shorter);
            }
        }
    }
}

/// Without an update under way (a fresh session, or one that has ended),
/// a write is refused as uninitialised and changes nothing, whatever flash
/// would have done.
pub proof fn lemma_write_needs_session(s: OtaView, data: Seq<u8>, flash_ok: bool)
    requires
        !s.active,
    ensures
        write_outcome(s, flash_ok) == Err::<(), &'static str>(OTA_NOT_INITIALIZED),
        write_step(s, data, flash_ok) == s,
        write_outcome(idle_session(), flash_ok) == Err::<(), &'static str>(OTA_NOT_INITIALIZED),
        write_outcome(ended_session(s), flash_ok) == Err::<(), &'static str>(OTA_NOT_INITIALIZED),
{
}

/// A write whose flash write failed is refused and changes nothing.
pub proof fn lemma_failed_write_changes_nothing(s: OtaView, data: Seq<u8>)
    ensures
        s.active ==> write_outcome(s, false) == Err::<(), &'static str>(OTA_WRITE_FAILED),
        write_step(s, data, false) == s,
{
}

} // verus!
