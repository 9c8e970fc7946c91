//! Uploads in parts: how a file is cut up, and what follows what.
use vstd::pervasive::unreached;
use vstd::prelude::*;

use crate::digest::{sha256_text, RunningDigest, MAX_DIGEST_BYTES};
use crate::error::{other, Error, ErrorView};
use crate::text::{decimal, decimal_text, join2, join3};

verus! {

/// A part of a file, to be sent to the store.
#[derive(Debug, Clone, PartialEq, Eq)]
pub struct Part {
    /// Counted from 1.
    pub number: i32,
    pub body: Vec<u8>,
}

/// A part that the store has taken.
#[derive(Debug, Clone, PartialEq, Eq)]
pub struct CompletedPart {
    pub part_number: i32,
    /// What the store knows the part by, where it said so.
    pub e_tag: Option<String>,
}

/// Byte strings, one behind the other.
pub open spec fn joint(parts: Seq<Seq<u8>>) -> Seq<u8>
    decreases parts.len(),
{
    if parts.len() == 0 {
        Seq::empty()
    } else {
        joint(parts.drop_last()) + parts.last()
    }
}

/// Cuts a file up as it is read. No more than a part of it is held at a time.
pub struct PartStream {
    part_size: usize,
    buf: Vec<u8>,
    digest: RunningDigest,
    completed: Vec<CompletedPart>,
    ended: bool,
    bodies: Ghost<Seq<Seq<u8>>>,
}

impl PartStream {
    /// The size of all parts but the last.
    pub closed spec fn part_size(&self) -> nat {
        self.part_size as nat
    }

    /// The bodies of the parts cut so far.
    pub closed spec fn bodies(&self) -> Seq<Seq<u8>> {
        self.bodies@
    }

    /// What was read behind the last part.
    pub closed spec fn pending(&self) -> Seq<u8> {
        self.buf@
    }

    /// The parts that the store has taken.
    pub closed spec fn completed(&self) -> Seq<CompletedPart> {
        self.completed@
    }

    /// Whether the end of the file was seen.
    pub closed spec fn ended(&self) -> bool {
        self.ended
    }

    /// All that was read of the file.
    pub open spec fn contents(&self) -> Seq<u8> {
        joint(self.bodies()) + self.pending()
    }

    /// What holds at all times: parts are of full size but for the last, and
    /// that is short only at the end of the file; the digest is of what was
    /// cut; and parts are taken by the store in order.
    pub closed spec fn wf(&self) -> bool {
        &&& self.part_size > 0
        &&& self.pending().len() < self.part_size
        &&& self.ended ==> self.pending().len() == 0
        &&& self.digest.wf()
        &&& self.digest@ == joint(self.bodies())
        &&& self.contents().len() <= MAX_DIGEST_BYTES
        &&& self.bodies().len() <= i32::MAX
        &&& forall|i: int|
            0 <= i < self.bodies().len() ==> 0 < (#[trigger] self.bodies()[i]).len()
                <= self.part_size
        &&& forall|i: int|
            0 <= i < self.bodies().len() && (i < self.bodies().len() - 1 || !self.ended) ==> (
            #[trigger] self.bodies()[i]).len() == self.part_size
        &&& self.completed@.len() <= self.bodies().len()
        &&& forall|i: int|
            0 <= i < self.completed@.len() ==> (#[trigger] self.completed@[i]).part_number == i + 1
    }

    /// Starts on a file that is cut into parts of the given size.
    pub fn new(part_size: usize) -> (stream: Self)
        requires
            part_size > 0,
        ensures
            stream.wf(),
            stream.part_size() == part_size,
            stream.bodies() == Seq::<Seq<u8>>::empty(),
            stream.pending() == Seq::<u8>::empty(),
            stream.completed() == Seq::<CompletedPart>::empty(),
            !stream.ended(),
    {
        let stream = PartStream {
            part_size: part_size,
            buf: Vec::new(),
            digest: RunningDigest::new(),
            completed: Vec::new(),
            ended: false,
            bodies: Ghost(Seq::empty()),
        };
        assert(stream.contents() =~= Seq::<u8>::empty());
        stream
    }

    /// How much to read at most.
    pub fn room(&self) -> (n: usize)
        requires
            self.wf(),
        ensures
            n == self.part_size() - self.pending().len(),
            n > 0,
    {
        self.part_size - self.buf.len()
    }

    /// How much was read.
    pub fn read_so_far(&self) -> (n: u64)
        requires
            self.wf(),
        ensures
            n == self.contents().len(),
            n <= MAX_DIGEST_BYTES,
    {
        assert(self.contents().len() == joint(self.bodies()).len() + self.buf@.len());
        self.digest.count() + self.buf.len() as u64
    }

    /// Whether the end of the file was seen.
    pub fn is_ended(&self) -> (ended: bool)
        ensures
            ended == self.ended(),
    {
        self.ended
    }

    /// Cuts a part of what is pending.
    fn cut(&mut self) -> (part: Part)
        requires
            old(self).part_size > 0,
            0 < old(self).buf@.len() <= old(self).part_size,
            old(self).ended || old(self).buf@.len() == old(self).part_size,
            old(self).digest.wf(),
            old(self).digest@ == joint(old(self).bodies()),
            old(self).contents().len() <= MAX_DIGEST_BYTES,
            old(self).bodies().len() < i32::MAX,
            forall|i: int|
                0 <= i < old(self).bodies().len() ==> (#[trigger] old(self).bodies()[i]).len()
                    == old(self).part_size,
            old(self).completed@.len() == old(self).bodies().len(),
            forall|i: int|
                0 <= i < old(self).completed@.len() ==> (#[trigger] old(
                    self,
                ).completed@[i]).part_number == i + 1,
        ensures
            final(self).wf(),
            final(self).part_size() == old(self).part_size(),
            final(self).bodies() == old(self).bodies().push(old(self).buf@),
            final(self).pending() == Seq::<u8>::empty(),
            final(self).contents() == old(self).contents(),
            final(self).completed() == old(self).completed(),
            final(self).ended() == old(self).ended(),
            part.number == old(self).bodies().len() + 1,
            part.body@ == old(self).buf@,
    {
        let number: i32 = self.completed.len() as i32 + 1;
        let mut body: Vec<u8> = Vec::new();
        body.append(&mut self.buf);
        assert(body@ =~= old(self).buf@);
        self.digest.absorb(body.as_slice());
        let ghost before = self.bodies@;
        self.bodies = Ghost(before.push(body@));
        proof {
            assert(self.bodies().drop_last() =~= before);
            assert(joint(self.bodies()) == joint(before) + body@);
            assert(self.contents() =~= old(self).contents());
            assert(self.buf@ =~= Seq::<u8>::empty());
            assert forall|i: int| 0 <= i < self.bodies().len() implies 0 < (
            #[trigger] self.bodies()[i]).len() <= self.part_size by {
                if i < before.len() {
                    assert(self.bodies()[i] == before[i]);
                }
            }
            assert forall|i: int|
                0 <= i < self.bodies().len() && (i < self.bodies().len() - 1
                    || !self.ended) implies (#[trigger] self.bodies()[i]).len()
                == self.part_size by {
                if i < before.len() {
                    assert(self.bodies()[i] == before[i]);
                }
            }
        }
        Part { number: number, body: body }
    }

    /// Takes what was read of the file, nothing at its end, and cuts a part
    /// once there is enough for one. At the end of the file the rest is a part
    /// too; where there is none, the last part was full.
    pub fn take(&mut self, data: &[u8]) -> (part: Option<Part>)
        requires
            old(self).wf(),
            !old(self).ended(),
            old(self).completed().len() == old(self).bodies().len(),
            old(self).bodies().len() < i32::MAX,
            data@.len() <= old(self).part_size() - old(self).pending().len(),
            old(self).contents().len() + data@.len() <= MAX_DIGEST_BYTES,
        ensures
            final(self).wf(),
            final(self).part_size() == old(self).part_size(),
            final(self).completed() == old(self).completed(),
            final(self).contents() == old(self).contents() + data@,
            final(self).ended() == (data@.len() == 0),
            ({
                let held = old(self).pending() + data@;
                let full = held.len() == old(self).part_size();
                let cut = full || (data@.len() == 0 && held.len() > 0);
                match part {
                    Some(part) => {
                        &&& cut
                        &&& part.number == old(self).bodies().len() + 1
                        &&& part.body@ == held
                        &&& final(self).bodies() == old(self).bodies().push(held)
                        &&& final(self).pending() == Seq::<u8>::empty()
                    },
                    None => {
                        &&& !cut
                        &&& final(self).bodies() == old(self).bodies()
                        &&& final(self).pending() == held
                    },
                }
            }),
    {
        if data.len() == 0 {
            assert(old(self).pending() + data@ =~= old(self).pending());
            assert(old(self).contents() + data@ =~= old(self).contents());
            self.ended = true;
            if self.buf.len() == 0 {
                return None;
            }
            assert(self.contents() == old(self).contents());
            return Some(self.cut());
        }
        self.buf.extend_from_slice(data);
        assert(self.buf@ =~= old(self).buf@ + data@);
        assert(self.contents() =~= old(self).contents() + data@);
        if self.buf.len() < self.part_size {
            return None;
        }
        Some(self.cut())
    }

    /// Takes note that the store has taken the part that was cut last.
    pub fn sent(&mut self, e_tag: Option<String>)
        requires
            old(self).wf(),
            old(self).completed().len() + 1 == old(self).bodies().len(),
        ensures
            final(self).wf(),
            final(self).part_size() == old(self).part_size(),
            final(self).bodies() == old(self).bodies(),
            final(self).pending() == old(self).pending(),
            final(self).ended() == old(self).ended(),
            final(self).completed() == old(self).completed().push(
                (CompletedPart {
                    part_number: old(self).bodies().len() as i32,
                    e_tag: e_tag,
                }),
            ),
    {
        let part_number: i32 = self.completed.len() as i32 + 1;
        self.completed.push(CompletedPart { part_number: part_number, e_tag: e_tag });
        assert(self.contents() == old(self).contents());
    }

    /// The parts that the store has taken, and the digest of the file.
    pub fn finish(self) -> (done: (Vec<CompletedPart>, String))
        requires
            self.wf(),
            self.ended(),
            self.completed().len() == self.bodies().len(),
        ensures
            done.0@ == self.completed(),
            done.1@ == sha256_text(self.contents()),
    {
        assert(self.contents() =~= joint(self.bodies()));
        (self.completed, self.digest.finish())
    }
}

/// Once the end of a file was seen, the parts that were cut make it up, none
/// is empty, and all of them but the last are of full size.
pub proof fn law_parts_make_up_the_file(stream: PartStream)
    requires
        stream.wf(),
        stream.ended(),
    ensures
        joint(stream.bodies()) == stream.contents(),
        forall|i: int|
            0 <= i < stream.bodies().len() ==> 0 < (#[trigger] stream.bodies()[i]).len()
                <= stream.part_size(),
        forall|i: int|
            0 <= i < stream.bodies().len() - 1 ==> (#[trigger] stream.bodies()[i]).len()
                == stream.part_size(),
{
    assert(stream.contents() =~= joint(stream.bodies()));
}

/// The parts that the store has taken are numbered from 1 on, in order and
/// without a gap.
pub proof fn law_parts_are_numbered_in_order(stream: PartStream)
    requires
        stream.wf(),
    ensures
        stream.completed().len() <= stream.bodies().len(),
        forall|i: int|
            0 <= i < stream.completed().len() ==> (#[trigger] stream.completed()[i]).part_number
                == i + 1,
{
}

/// How far an upload in parts has come.
#[derive(Debug, Clone, PartialEq, Eq)]
pub enum MultipartStage {
    /// The store was asked to open it.
    Opening,
    /// The store has opened it under this id, and parts are being sent.
    Sending(String),
    /// All parts were sent, and the store was asked to put them together.
    Closing(String),
    /// It is over.
    Over,
}

/// A `MultipartStage`, over mathematical text.
pub enum MultipartStageView {
    Opening,
    Sending(Seq<char>),
    Closing(Seq<char>),
    Over,
}

impl View for MultipartStage {
    type V = MultipartStageView;

    open spec fn view(&self) -> MultipartStageView {
        match *self {
            MultipartStage::Opening => MultipartStageView::Opening,
            MultipartStage::Sending(id) => MultipartStageView::Sending(id@),
            MultipartStage::Closing(id) => MultipartStageView::Closing(id@),
            MultipartStage::Over => MultipartStageView::Over,
        }
    }
}

/// What happens in an upload in parts. Failures of the store are in its words.
#[derive(Debug, Clone, PartialEq, Eq)]
pub enum MultipartEvent {
    /// The store opened it, and gave its id, or did not.
    Opened(Option<String>),
    OpenFailed(String),
    /// All parts were sent.
    PartsSent,
    /// A part could not be read or sent.
    PartsFailed(Error),
    /// The store put the parts together.
    Closed,
    CloseFailed(String),
}

/// What is to be done next in an upload in parts.
#[derive(Debug, Clone, PartialEq, Eq)]
pub enum MultipartAction {
    /// Send the parts under this id.
    SendParts(String),
    /// Ask the store to put the parts together under this id.
    Close(String),
    /// Nothing: the file is in the store.
    Done,
    /// Nothing: the upload was never opened.
    Fail(Error),
    /// Ask the store to drop the parts under this id, so that they are not
    /// left behind, and fail whatever it answers.
    AbortAndFail(String, Error),
}

/// A `MultipartAction`, over mathematical text.
pub enum MultipartActionView {
    SendParts(Seq<char>),
    Close(Seq<char>),
    Done,
    Fail(ErrorView),
    AbortAndFail(Seq<char>, ErrorView),
}

impl View for MultipartAction {
    type V = MultipartActionView;

    open spec fn view(&self) -> MultipartActionView {
        match *self {
            MultipartAction::SendParts(id) => MultipartActionView::SendParts(id@),
            MultipartAction::Close(id) => MultipartActionView::Close(id@),
            MultipartAction::Done => MultipartActionView::Done,
            MultipartAction::Fail(e) => MultipartActionView::Fail(e@),
            MultipartAction::AbortAndFail(id, e) => MultipartActionView::AbortAndFail(id@, e@),
        }
    }
}

/// Whether an event can come at a stage.
pub open spec fn fits(stage: MultipartStageView, event: MultipartEvent) -> bool {
    match stage {
        MultipartStageView::Opening => event is Opened || event is OpenFailed,
        MultipartStageView::Sending(_) => event is PartsSent || event is PartsFailed,
        MultipartStageView::Closing(_) => event is Closed || event is CloseFailed,
        MultipartStageView::Over => false,
    }
}

/// What an event at a stage leads to, and what is to be done.
pub open spec fn next(stage: MultipartStageView, event: MultipartEvent) -> (
    MultipartStageView,
    MultipartActionView,
) {
    match (stage, event) {
        (MultipartStageView::Opening, MultipartEvent::Opened(Some(id))) => (
            MultipartStageView::Sending(id@),
            MultipartActionView::SendParts(id@),
        ),
        (MultipartStageView::Opening, MultipartEvent::Opened(None)) => (
            MultipartStageView::Over,
            MultipartActionView::Fail(
                ErrorView::Other("create_multipart_upload: missing upload_id"@),
            ),
        ),
        (MultipartStageView::Opening, MultipartEvent::OpenFailed(e)) => (
            MultipartStageView::Over,
            MultipartActionView::Fail(ErrorView::Other("create_multipart_upload: "@ + e@)),
        ),
        (MultipartStageView::Sending(id), MultipartEvent::PartsSent) => (
            MultipartStageView::Closing(id),
            MultipartActionView::Close(id),
        ),
        (MultipartStageView::Sending(id), MultipartEvent::PartsFailed(e)) => (
            MultipartStageView::Over,
            MultipartActionView::AbortAndFail(id, e@),
        ),
        (MultipartStageView::Closing(_), MultipartEvent::Closed) => (
            MultipartStageView::Over,
            MultipartActionView::Done,
        ),
        (MultipartStageView::Closing(id), MultipartEvent::CloseFailed(e)) => (
            MultipartStageView::Over,
            MultipartActionView::AbortAndFail(
                id,
                ErrorView::Other("complete_multipart_upload: "@ + e@),
            ),
        ),
        _ => arbitrary(),
    }
}

impl MultipartStage {
    /// An upload that is about to be opened.
    pub fn start() -> (stage: Self)
        ensures
            stage@ == MultipartStageView::Opening,
    {
        MultipartStage::Opening
    }

    /// Takes note of an event and says what is to be done.
    pub fn step(self, event: MultipartEvent) -> (r: (MultipartStage, MultipartAction))
        requires
            fits(self@, event),
        ensures
            (r.0@, r.1@) == next(self@, event),
    {
        match (self, event) {
            (MultipartStage::Opening, MultipartEvent::Opened(Some(id))) => {
                let copy = id.clone();
                (MultipartStage::Sending(copy), MultipartAction::SendParts(id))
            },
            (MultipartStage::Opening, MultipartEvent::Opened(None)) => (
                MultipartStage::Over,
                MultipartAction::Fail(other("create_multipart_upload: missing upload_id")),
            ),
            (MultipartStage::Opening, MultipartEvent::OpenFailed(e)) => (
                MultipartStage::Over,
                MultipartAction::Fail(
                    other(join2("create_multipart_upload: ", e.as_str()).as_str()),
                ),
            ),
            (MultipartStage::Sending(id), MultipartEvent::PartsSent) => {
                let copy = id.clone();
                (MultipartStage::Closing(copy), MultipartAction::Close(id))
            },
            (MultipartStage::Sending(id), MultipartEvent::PartsFailed(e)) => (
                MultipartStage::Over,
                MultipartAction::AbortAndFail(id, e),
            ),
            (MultipartStage::Closing(id), MultipartEvent::CloseFailed(e)) => (
                MultipartStage::Over,
                MultipartAction::AbortAndFail(
                    id,
                    other(join2("complete_multipart_upload: ", e.as_str()).as_str()),
                ),
            ),
            (MultipartStage::Closing(_), MultipartEvent::Closed) => (
                MultipartStage::Over,
                MultipartAction::Done,
            ),
            _ => unreached(),
        }
    }
}

/// The error of a part that could not be sent, from the store's words.
pub fn part_failed(number: i32, error: &str) -> (e: Error)
    requires
        number >= 0,
    ensures
        e@ == ErrorView::Other("upload_part("@ + decimal(number as nat) + "): "@ + error@),
{
    let front = join3("upload_part(", decimal_text(number as u64).as_str(), "): ");
    other(join2(front.as_str(), error).as_str())
}

/// An upload that the store has opened is never left behind: it ends with the
/// file in the store, or with the store asked to drop what it has.
pub proof fn law_opened_upload_is_closed_or_aborted(
    stage: MultipartStageView,
    event: MultipartEvent,
)
    requires
        fits(stage, event),
        stage is Sending || stage is Closing,
        next(stage, event).0 is Over,
    ensures
        next(stage, event).1 is Done || next(stage, event).1 is AbortAndFail,
        next(stage, event).1 is AbortAndFail <==> event is PartsFailed || event is CloseFailed,
        next(stage, event).1 is AbortAndFail ==> next(stage, event).1->AbortAndFail_0 == (
        match stage {
            MultipartStageView::Sending(id) => id,
            MultipartStageView::Closing(id) => id,
            _ => Seq::empty(),
        }),
{
}

/// Parts that are put together stand one behind the other, each of them whole.
pub proof fn law_joint_is_one_behind_the_other(parts: Seq<Seq<u8>>)
    ensures
        joint(parts) == parts.flatten(),
    decreases parts.len(),
{
    if parts.len() > 0 {
        law_joint_is_one_behind_the_other(parts.drop_last());
        assert(parts =~= parts.drop_last().push(parts.last()));
        parts.drop_last().lemma_flatten_push(parts.last());
    }
}

/// What an upload in parts goes through: it is opened under an id, which it keeps
/// to the end; it is done exactly where the store put the parts together; and a
/// failure is told in the words of the store, behind what was asked of it.
pub proof fn law_upload_keeps_its_id(
    stage: MultipartStage,
    event: MultipartEvent,
    r: (MultipartStage, MultipartAction),
)
    requires
        fits(stage@, event),
        call_ensures(MultipartStage::step, (stage, event), r),
    ensures
        r.1 is Done <==> event is Closed,
        event matches MultipartEvent::Opened(Some(id)) ==> {
            &&& r.1 matches MultipartAction::SendParts(under)
            &&& under@ == id@
            &&& r.0 matches MultipartStage::Sending(kept)
            &&& kept@ == id@
        },
        event is PartsSent ==> {
            &&& r.1 matches MultipartAction::Close(under)
            &&& under@ == stage->Sending_0@
            &&& r.0 matches MultipartStage::Closing(kept)
            &&& kept@ == stage->Sending_0@
        },
        event matches MultipartEvent::PartsFailed(e) ==> {
            &&& r.1 matches MultipartAction::AbortAndFail(under, why)
            &&& under@ == stage->Sending_0@
            &&& why@ == e@
        },
        event matches MultipartEvent::CloseFailed(words) ==> {
            &&& r.1 matches MultipartAction::AbortAndFail(under, why)
            &&& under@ == stage->Closing_0@
            &&& why matches Error::Other(m)
            &&& m@ == "complete_multipart_upload: "@ + words@
        },
        event matches MultipartEvent::OpenFailed(words) ==> {
            &&& r.1 matches MultipartAction::Fail(why)
            &&& why matches Error::Other(m)
            &&& m@ == "create_multipart_upload: "@ + words@
        },
        event matches MultipartEvent::Opened(None) ==> {
            &&& r.1 matches MultipartAction::Fail(why)
            &&& why matches Error::Other(m)
            &&& m@ == "create_multipart_upload: missing upload_id"@
        },
        event is Closed || event is PartsFailed || event is CloseFailed || event is OpenFailed
            || event == MultipartEvent::Opened(None) ==> r.0 is Over,
{
    assert(stage@ is Opening <==> stage is Opening);
    assert(stage@ is Sending <==> stage is Sending);
    assert(stage@ is Closing <==> stage is Closing);
    assert(r.1@ is Done <==> r.1 is Done);
    assert(r.1@ is SendParts <==> r.1 is SendParts);
    assert(r.1@ is Close <==> r.1 is Close);
    assert(r.1@ is Fail <==> r.1 is Fail);
    assert(r.1@ is AbortAndFail <==> r.1 is AbortAndFail);
    assert(r.0@ is Sending <==> r.0 is Sending);
    assert(r.0@ is Closing <==> r.0 is Closing);
    assert(r.0@ is Over <==> r.0 is Over);
}

/// What can happen at each stage of an upload in parts.
pub proof fn law_when_upload_events_come(stage: MultipartStageView, event: MultipartEvent)
    ensures
        event is Opened || event is OpenFailed ==> (fits(stage, event) <==> stage is Opening),
        event is PartsSent || event is PartsFailed ==> (fits(stage, event) <==> stage is Sending),
        event is Closed || event is CloseFailed ==> (fits(stage, event) <==> stage is Closing),
{
}

/// A part is cut as soon as there is enough for one, and at the end of the file of
/// what is left; it holds all that was read since the last one, and is numbered
/// behind it. Nothing that was read is lost.
pub proof fn law_parts_hold_all_that_was_read(data: &[u8], part: Option<Part>)
    ensures
        forall|stream: &mut PartStream| #[trigger]
            call_ensures(PartStream::take, (stream, data), part) ==> {
                let held = stream.pending() + data@;
                &&& part is Some <==> held.len() == stream.part_size() || (data@.len() == 0
                    && held.len() > 0)
                &&& part matches Some(p) ==> p.body@ == held && p.number == stream.bodies().len()
                    + 1
                &&& part is Some ==> final(stream).bodies() == stream.bodies().push(held)
                &&& part is Some ==> final(stream).pending().len() == 0
                &&& part is None ==> final(stream).bodies() == stream.bodies()
                &&& part is None ==> final(stream).pending() == held
                &&& final(stream).ended() <==> data@.len() == 0
                &&& final(stream).completed() == stream.completed()
                &&& final(stream).part_size() == stream.part_size()
            },
{
}

/// The store is told of the parts in order, each with the mark it gave for it, and
/// the digest is of the whole file.
pub proof fn law_upload_reports_parts_and_digest(
    e_tag: Option<String>,
    stream: PartStream,
    done: (Vec<CompletedPart>, String),
)
    requires
        stream.wf(),
        stream.ended(),
        call_ensures(PartStream::finish, (stream,), done),
    ensures
        done.0@ == stream.completed(),
        done.1@ == sha256_text(stream.bodies().flatten()),
        forall|open: &mut PartStream| #[trigger]
            call_ensures(PartStream::sent, (open, e_tag), ()) ==> {
                &&& final(open).completed().len() == open.completed().len() + 1
                &&& final(open).completed().drop_last() == open.completed()
                &&& final(open).completed().last().e_tag == e_tag
                &&& final(open).bodies() == open.bodies()
            },
{
    law_parts_make_up_the_file(stream);
    law_joint_is_one_behind_the_other(stream.bodies());
    assert forall|open: &mut PartStream| #[trigger]
        call_ensures(PartStream::sent, (open, e_tag), ()) implies {
        &&& final(open).completed().len() == open.completed().len() + 1
        &&& final(open).completed().drop_last() == open.completed()
        &&& final(open).completed().last().e_tag == e_tag
        &&& final(open).bodies() == open.bodies()
    } by {
        assert(final(open).completed().drop_last() =~= open.completed());
    }
}

/// A part that could not be sent is named by its number.
pub proof fn law_failed_part_is_named(number: i32, error: &str, e: Error)
    requires
        number >= 0,
        call_ensures(part_failed, (number, error), e),
    ensures
        e matches Error::Other(m) && m@ == "upload_part("@ + decimal(number as nat) + "): "@
            + error@,
{
}

/// An upload starts with nothing read and nothing sent, and at every time there is
/// room for what is missing of a part.
pub proof fn law_upload_starts_with_nothing(
    part_size: usize,
    fresh: PartStream,
    stage: MultipartStage,
    stream: &PartStream,
    room: usize,
    read: u64,
    ended: bool,
)
    requires
        call_ensures(PartStream::new, (part_size,), fresh),
        call_ensures(MultipartStage::start, (), stage),
        call_ensures(PartStream::room, (stream,), room),
        call_ensures(PartStream::read_so_far, (stream,), read),
        call_ensures(PartStream::is_ended, (stream,), ended),
    ensures
        fresh.part_size() == part_size,
        fresh.bodies().len() == 0,
        fresh.pending().len() == 0,
        fresh.completed().len() == 0,
        !fresh.ended(),
        stage is Opening,
        room + stream.pending().len() == stream.part_size(),
        read == stream.bodies().flatten().len() + stream.pending().len(),
        ended == stream.ended(),
{
    law_joint_is_one_behind_the_other(stream.bodies());
    assert(stage@ is Opening <==> stage is Opening);
}

} // verus!
