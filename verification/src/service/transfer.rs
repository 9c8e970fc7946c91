//! Transfers of files and directories into and out of a workspace.
use vstd::prelude::*;

use crate::digest::{sha256_text, RunningDigest};
use crate::error::{answer, status_of, Code, ErrorView, Status, StatusView};
use crate::messages::{
    ExportHeader, ExportMessage, ExportWorkspaceObjectRequest, ImportHeader, ImportMessage,
    ImportWorkspaceObjectResponse, WorkspaceObjectEncoding,
};
use crate::multipart::{joint, law_joint_is_one_behind_the_other};
use crate::oss::{content_type_of, guess_content_type};
use crate::service::archive::{base_name_or, name_or, parent_dir, parent_or_here, PathFound};
use crate::text::{blank, is_blank, join2};
use crate::workspace::{resolved, valid_id, WorkspaceManager};

verus! {

/// The content type of what is gzipped.
pub const GZIP: &'static str = "application/gzip";

/// A refusal of a request, with the given words.
pub open spec fn invalid(message: Seq<char>) -> StatusView {
    StatusView { code: Code::InvalidArgument, message }
}

/// A refusal of a request, with the given words.
fn refuse(message: &str) -> (status: Status)
    ensures
        status@ == invalid(message@),
{
    Status::new(Code::InvalidArgument, message)
}

/// A transfer into a workspace under way.
#[derive(Debug, Clone, PartialEq, Eq)]
pub struct Import {
    pub workspace_id: String,
    /// Where the transfer goes.
    pub target: String,
    /// The directory of the target, which has to be there.
    pub target_dir: String,
    pub encoding: WorkspaceObjectEncoding,
    pub content_type: String,
    pub bytes_written: u64,
    pub phase: ImportPhase,
}

/// How far a transfer into a workspace has come.
#[derive(Debug, Clone, Copy, PartialEq, Eq, Structural)]
pub enum ImportPhase {
    /// Messages are coming, and are kept beside the target.
    Receiving,
    /// All of them came, and are put into place.
    Placing,
    /// It is over.
    Over,
}

/// An `Import`, over mathematical text.
pub struct ImportView {
    pub workspace_id: Seq<char>,
    pub target: Seq<char>,
    pub target_dir: Seq<char>,
    pub encoding: WorkspaceObjectEncoding,
    pub content_type: Seq<char>,
    pub bytes_written: u64,
    pub phase: ImportPhase,
}

impl View for Import {
    type V = ImportView;

    open spec fn view(&self) -> ImportView {
        ImportView {
            workspace_id: self.workspace_id@,
            target: self.target@,
            target_dir: self.target_dir@,
            encoding: self.encoding,
            content_type: self.content_type@,
            bytes_written: self.bytes_written,
            phase: self.phase,
        }
    }
}

/// What the first message of a transfer leads to: it has to be a header, and
/// to name a place in a workspace.
pub open spec fn import_start(root: Seq<char>, first: Option<ImportMessage>) -> std::result::Result<
    ImportView,
    StatusView,
> {
    match first {
        None => Err(invalid("import_workspace_object requires a header"@)),
        Some(ImportMessage::Chunk(_)) => Err(
            invalid("import_workspace_object header must be the first message"@),
        ),
        Some(ImportMessage::Empty) => Err(
            invalid("import_workspace_object first message is empty"@),
        ),
        Some(ImportMessage::Header(header)) => match resolved(
            root,
            header.workspace_id@,
            header.target_path@,
        ) {
            Err(e) => Err(status_of(e)),
            Ok(target) => Ok(
                ImportView {
                    workspace_id: header.workspace_id@,
                    target,
                    target_dir: parent_or_here(target),
                    encoding: header.encoding,
                    content_type: header.content_type@,
                    bytes_written: 0,
                    phase: ImportPhase::Receiving,
                },
            ),
        },
    }
}

/// What came of starting a transfer, over mathematical text.
pub open spec fn import_answer(r: std::result::Result<Import, Status>) -> std::result::Result<
    ImportView,
    StatusView,
> {
    match r {
        Ok(import) => Ok(import@),
        Err(status) => Err(status@),
    }
}

/// Why a further message of a transfer is refused, where it is: all of them
/// have to be chunks.
pub open spec fn import_refusal(message: ImportMessage) -> Option<StatusView> {
    match message {
        ImportMessage::Chunk(_) => None,
        ImportMessage::Header(_) => Some(
            invalid("import_workspace_object header may only appear once"@),
        ),
        ImportMessage::Empty => Some(
            invalid("import_workspace_object received an empty message"@),
        ),
    }
}

/// A sum in 64 bits; the largest number where it does not fit.
pub open spec fn clamped_sum(a: nat, b: nat) -> nat {
    if a + b <= u64::MAX {
        a + b
    } else {
        u64::MAX as nat
    }
}

/// How a transfer is put into place once it is complete.
#[derive(Debug, Clone, Copy, PartialEq, Eq, Structural)]
pub enum Placement {
    /// What came becomes the target.
    File,
    /// What came is an archive, and its contents become the target.
    Archive,
}

/// The content type that a transfer is reported with.
pub open spec fn reported_type(encoding: WorkspaceObjectEncoding, content_type: Seq<char>) -> Seq<
    char,
> {
    if encoding == WorkspaceObjectEncoding::TarGz {
        GZIP@
    } else if is_blank(content_type) {
        "application/octet-stream"@
    } else {
        content_type
    }
}

/// What happens in a transfer into a workspace.
#[derive(Debug, Clone, PartialEq, Eq)]
pub enum ImportEvent {
    /// A further message came.
    Message(ImportMessage),
    /// There are no more messages.
    Ended,
    /// What came was put into place.
    Placed,
}

/// What is to be done next in a transfer into a workspace.
#[derive(Debug, Clone, PartialEq, Eq)]
pub enum ImportAction {
    /// Write these bytes behind those that came before.
    Write(Vec<u8>),
    /// Put what came into place.
    Place(Placement),
    /// Refuse the transfer.
    Refuse(Status),
    /// Drop what came, and refuse the transfer.
    DropAndRefuse(Status),
    /// Drop what is left of what came, and answer with this.
    Answer(ImportWorkspaceObjectResponse),
}

/// An `ImportAction`, over mathematical text.
pub enum ImportActionView {
    Write(Seq<u8>),
    Place(Placement),
    Refuse(StatusView),
    DropAndRefuse(StatusView),
    Answer { bytes_written: u64, content_type: Seq<char> },
}

impl View for ImportAction {
    type V = ImportActionView;

    open spec fn view(&self) -> ImportActionView {
        match *self {
            ImportAction::Write(data) => ImportActionView::Write(data@),
            ImportAction::Place(placement) => ImportActionView::Place(placement),
            ImportAction::Refuse(status) => ImportActionView::Refuse(status@),
            ImportAction::DropAndRefuse(status) => ImportActionView::DropAndRefuse(status@),
            ImportAction::Answer(response) => ImportActionView::Answer {
                bytes_written: response.bytes_written,
                content_type: response.content_type@,
            },
        }
    }
}

/// Whether an event can come in a phase.
pub open spec fn import_fits(phase: ImportPhase, event: ImportEvent) -> bool {
    match event {
        ImportEvent::Message(_) => phase == ImportPhase::Receiving,
        ImportEvent::Ended => phase == ImportPhase::Receiving,
        ImportEvent::Placed => phase == ImportPhase::Placing,
    }
}

/// A transfer after an event.
pub open spec fn import_after(import: ImportView, event: ImportEvent) -> ImportView {
    match event {
        ImportEvent::Message(ImportMessage::Chunk(chunk)) => ImportView {
            bytes_written: clamped_sum(import.bytes_written as nat, chunk@.len()) as u64,
            ..import
        },
        ImportEvent::Message(_) => ImportView { phase: ImportPhase::Over, ..import },
        ImportEvent::Ended => ImportView {
            phase: if import.encoding == WorkspaceObjectEncoding::Unspecified {
                ImportPhase::Over
            } else {
                ImportPhase::Placing
            },
            ..import
        },
        ImportEvent::Placed => ImportView { phase: ImportPhase::Over, ..import },
    }
}

/// What is to be done about an event in a transfer.
pub open spec fn import_action(import: ImportView, event: ImportEvent) -> ImportActionView {
    match event {
        ImportEvent::Message(message) => match import_refusal(message) {
            None => ImportActionView::Write(message->Chunk_0@),
            Some(status) => ImportActionView::Refuse(status),
        },
        ImportEvent::Ended => match import.encoding {
            WorkspaceObjectEncoding::Raw => ImportActionView::Place(Placement::File),
            WorkspaceObjectEncoding::TarGz => ImportActionView::Place(Placement::Archive),
            WorkspaceObjectEncoding::Unspecified => ImportActionView::DropAndRefuse(
                invalid("import_workspace_object encoding is required"@),
            ),
        },
        ImportEvent::Placed => ImportActionView::Answer {
            bytes_written: import.bytes_written,
            content_type: reported_type(import.encoding, import.content_type),
        },
    }
}

impl Import {
    /// Starts a transfer with its first message, where there was one.
    pub fn start(workspaces: &WorkspaceManager, first: Option<ImportMessage>) -> (r:
        std::result::Result<Self, Status>)
        ensures
            import_answer(r) == import_start(workspaces.cfg.root@, first),
    {
        let header: ImportHeader = match first {
            None => {
                return Err(refuse("import_workspace_object requires a header"));
            },
            Some(ImportMessage::Chunk(_)) => {
                return Err(refuse("import_workspace_object header must be the first message"));
            },
            Some(ImportMessage::Empty) => {
                return Err(refuse("import_workspace_object first message is empty"));
            },
            Some(ImportMessage::Header(header)) => header,
        };
        let target = match workspaces.resolve_path(
            header.workspace_id.as_str(),
            header.target_path.as_str(),
        ) {
            Ok(target) => target,
            Err(e) => {
                return Err(e.status());
            },
        };
        let target_dir = parent_dir(target.as_str());
        Ok(
            Import {
                workspace_id: header.workspace_id,
                target: target,
                target_dir: target_dir,
                encoding: header.encoding,
                content_type: header.content_type,
                bytes_written: 0,
                phase: ImportPhase::Receiving,
            },
        )
    }

    /// Takes note of an event and says what is to be done. All messages behind
    /// the header have to be chunks, and what came is put into place once there
    /// are no more, where it was said how.
    pub fn step(&mut self, event: ImportEvent) -> (action: ImportAction)
        requires
            import_fits(old(self).phase, event),
        ensures
            final(self)@ == import_after(old(self)@, event),
            action@ == import_action(old(self)@, event),
    {
        match event {
            ImportEvent::Message(ImportMessage::Chunk(chunk)) => {
                self.bytes_written = self.bytes_written.saturating_add(chunk.len() as u64);
                ImportAction::Write(chunk)
            },
            ImportEvent::Message(ImportMessage::Header(_)) => {
                self.phase = ImportPhase::Over;
                ImportAction::Refuse(refuse("import_workspace_object header may only appear once"))
            },
            ImportEvent::Message(ImportMessage::Empty) => {
                self.phase = ImportPhase::Over;
                ImportAction::Refuse(refuse("import_workspace_object received an empty message"))
            },
            ImportEvent::Ended => match self.encoding {
                WorkspaceObjectEncoding::Raw => {
                    self.phase = ImportPhase::Placing;
                    ImportAction::Place(Placement::File)
                },
                WorkspaceObjectEncoding::TarGz => {
                    self.phase = ImportPhase::Placing;
                    ImportAction::Place(Placement::Archive)
                },
                WorkspaceObjectEncoding::Unspecified => {
                    self.phase = ImportPhase::Over;
                    ImportAction::DropAndRefuse(
                        refuse("import_workspace_object encoding is required"),
                    )
                },
            },
            ImportEvent::Placed => {
                self.phase = ImportPhase::Over;
                ImportAction::Answer(self.response())
            },
        }
    }

    /// What a transfer that was put into place is answered with.
    fn response(&self) -> (response: ImportWorkspaceObjectResponse)
        ensures
            response.bytes_written == self.bytes_written,
            response.content_type@ == reported_type(self.encoding, self.content_type@),
    {
        let content_type: String = match self.encoding {
            WorkspaceObjectEncoding::TarGz => GZIP.to_string(),
            _ => {
                if blank(self.content_type.as_str()) {
                    "application/octet-stream".to_string()
                } else {
                    self.content_type.clone()
                }
            },
        };
        ImportWorkspaceObjectResponse {
            bytes_written: self.bytes_written,
            content_type: content_type,
        }
    }
}

/// What the messages behind the header of a transfer bring: the bytes of the
/// chunks, one behind the other, or the refusal of the first that is none.
pub open spec fn received(messages: Seq<ImportMessage>) -> std::result::Result<Seq<u8>, StatusView>
    decreases messages.len(),
{
    if messages.len() == 0 {
        Ok(Seq::empty())
    } else {
        match received(messages.drop_last()) {
            Err(status) => Err(status),
            Ok(bytes) => match messages.last() {
                ImportMessage::Chunk(chunk) => Ok(bytes + chunk@),
                other => Err(import_refusal(other)->0),
            },
        }
    }
}

/// A transfer after some messages, one behind the other.
pub open spec fn import_after_all(import: ImportView, messages: Seq<ImportMessage>) -> ImportView
    decreases messages.len(),
{
    if messages.len() == 0 {
        import
    } else {
        import_after(
            import_after_all(import, messages.drop_last()),
            ImportEvent::Message(messages.last()),
        )
    }
}

/// A transfer is accepted exactly where all messages behind the header are
/// chunks.
pub proof fn law_only_chunks_follow_the_header(messages: Seq<ImportMessage>)
    ensures
        received(messages) is Ok <==> forall|i: int|
            0 <= i < messages.len() ==> #[trigger] messages[i] is Chunk,
    decreases messages.len(),
{
    if messages.len() > 0 {
        let front = messages.drop_last();
        law_only_chunks_follow_the_header(front);
        if received(messages) is Ok {
            assert forall|i: int| 0 <= i < messages.len() implies #[trigger] messages[i] is Chunk by {
                if i < front.len() {
                    assert(front[i] == messages[i]);
                }
            }
        }
        if forall|i: int| 0 <= i < messages.len() ==> #[trigger] messages[i] is Chunk {
            assert forall|i: int| 0 <= i < front.len() implies #[trigger] front[i] is Chunk by {
                assert(messages[i] == front[i]);
            }
            assert(messages[messages.len() - 1] is Chunk);
        }
    }
}

/// A transfer whose messages are all accepted goes on, says where it goes as it
/// did before, and counts the bytes that came, up to the largest number there
/// is. Once there are no more messages it is put into place, where it was said
/// how, and answered with that number.
pub proof fn law_complete_import_is_placed(import: ImportView, messages: Seq<ImportMessage>)
    requires
        import.phase == ImportPhase::Receiving,
        received(messages) is Ok,
    ensures
        ({
            let end = import_after_all(import, messages);
            let placed = import_after(end, ImportEvent::Ended);
            &&& end == (ImportView {
                bytes_written: clamped_sum(
                    import.bytes_written as nat,
                    received(messages)->Ok_0.len(),
                ) as u64,
                ..import
            })
            &&& import_action(end, ImportEvent::Ended) is Place <==> import.encoding
                != WorkspaceObjectEncoding::Unspecified
            &&& import_action(placed, ImportEvent::Placed) == (ImportActionView::Answer {
                bytes_written: end.bytes_written,
                content_type: reported_type(import.encoding, import.content_type),
            })
        }),
    decreases messages.len(),
{
    if messages.len() > 0 {
        law_complete_import_is_placed(import, messages.drop_last());
    }
}

/// A target is not touched before all messages were accepted: once a message is
/// refused, no event can come any more, and so nothing is put into place.
pub proof fn law_refused_import_is_never_placed(
    import: ImportView,
    messages: Seq<ImportMessage>,
    event: ImportEvent,
)
    requires
        import.phase == ImportPhase::Receiving,
        received(messages) is Err,
    ensures
        import_after_all(import, messages).phase == ImportPhase::Over,
        !import_fits(import_after_all(import, messages).phase, event),
    decreases messages.len(),
{
    if messages.len() > 0 {
        let front = messages.drop_last();
        if received(front) is Err {
            law_refused_import_is_never_placed(import, front, event);
        } else {
            law_complete_import_is_placed(import, front);
        }
    }
}

/// What came of looking for something that a request names: whether it is a
/// directory.
pub open spec fn found_answer(source_path: Seq<char>, found: PathFound) -> std::result::Result<
    bool,
    StatusView,
> {
    match found {
        PathFound::Directory => Ok(true),
        PathFound::File => Ok(false),
        PathFound::Missing => Err(
            StatusView { code: Code::NotFound, message: "no such path: "@ + source_path },
        ),
        PathFound::Failed(e) => Err(status_of(ErrorView::Io(e@))),
    }
}

/// Whether what a request names is a directory, or that it is not there.
pub fn check_found(source_path: &str, found: PathFound) -> (r: std::result::Result<bool, Status>)
    ensures
        answer(r) == found_answer(source_path@, found),
{
    match found {
        PathFound::Directory => Ok(true),
        PathFound::File => Ok(false),
        PathFound::Missing => Err(
            Status::new(Code::NotFound, join2("no such path: ", source_path).as_str()),
        ),
        PathFound::Failed(e) => Err(crate::error::Error::Io(e).status()),
    }
}

/// The host path of what a request names in a workspace, which has to be named
/// too.
pub open spec fn source_of(root: Seq<char>, workspace_id: Seq<char>, source_path: Seq<char>) -> std::result::Result<
    Seq<char>,
    StatusView,
> {
    if workspace_id.len() == 0 {
        Err(invalid("workspace_id is required"@))
    } else {
        match resolved(root, workspace_id, source_path) {
            Ok(path) => Ok(path),
            Err(e) => Err(status_of(e)),
        }
    }
}

/// A text or a status, over mathematical text.
pub open spec fn text_answer(r: std::result::Result<String, Status>) -> std::result::Result<
    Seq<char>,
    StatusView,
> {
    match r {
        Ok(text) => Ok(text@),
        Err(status) => Err(status@),
    }
}

/// The host path of what a request names in a workspace.
pub fn find_source(workspaces: &WorkspaceManager, workspace_id: &str, source_path: &str) -> (r:
    std::result::Result<String, Status>)
    ensures
        text_answer(r) == source_of(workspaces.cfg.root@, workspace_id@, source_path@),
{
    if workspace_id.is_empty() {
        return Err(refuse("workspace_id is required"));
    }
    match workspaces.resolve_path(workspace_id, source_path) {
        Ok(path) => Ok(path),
        Err(e) => Err(e.status()),
    }
}

/// What is done to something before it is sent out of a workspace.
#[derive(Debug, Clone, Copy, PartialEq, Eq, Structural)]
pub enum PackingForm {
    /// It is sent as it is.
    AsIs,
    /// It is gzipped.
    Gzip,
    /// It is packed into a gzipped tar archive.
    Archive,
}

/// How something is sent out of a workspace.
#[derive(Debug, Clone, PartialEq, Eq)]
pub struct Packing {
    pub form: PackingForm,
    /// What it is called.
    pub basename: String,
    pub content_type: String,
}

/// A `Packing`, over mathematical text.
pub struct PackingView {
    pub form: PackingForm,
    pub basename: Seq<char>,
    pub content_type: Seq<char>,
}

impl View for Packing {
    type V = PackingView;

    open spec fn view(&self) -> PackingView {
        PackingView {
            form: self.form,
            basename: self.basename@,
            content_type: self.content_type@,
        }
    }
}

/// Something as it is.
pub open spec fn as_is(source: Seq<char>) -> PackingView {
    PackingView {
        form: PackingForm::AsIs,
        basename: name_or(source, "artifact"@),
        content_type: content_type_of(source),
    }
}

/// A file that is gzipped on its own.
pub open spec fn gzipped(source: Seq<char>) -> PackingView {
    PackingView {
        form: PackingForm::Gzip,
        basename: name_or(source, "artifact"@) + ".gz"@,
        content_type: GZIP@,
    }
}

/// Something packed into an archive.
pub open spec fn archived(source: Seq<char>) -> PackingView {
    PackingView {
        form: PackingForm::Archive,
        basename: name_or(source, "workspace"@) + ".tar.gz"@,
        content_type: GZIP@,
    }
}

/// Something as it is.
pub fn pack_as_is(source: &str) -> (packing: Packing)
    ensures
        packing@ == as_is(source@),
{
    Packing {
        form: PackingForm::AsIs,
        basename: base_name_or(source, "artifact"),
        content_type: guess_content_type(source).to_string(),
    }
}

/// A file that is gzipped on its own.
pub fn pack_gzipped(source: &str) -> (packing: Packing)
    ensures
        packing@ == gzipped(source@),
{
    Packing {
        form: PackingForm::Gzip,
        basename: join2(base_name_or(source, "artifact").as_str(), ".gz"),
        content_type: GZIP.to_string(),
    }
}

/// Something packed into an archive.
pub fn pack_archived(source: &str) -> (packing: Packing)
    ensures
        packing@ == archived(source@),
{
    Packing {
        form: PackingForm::Archive,
        basename: join2(base_name_or(source, "workspace").as_str(), ".tar.gz"),
        content_type: GZIP.to_string(),
    }
}

/// How something is sent out of a workspace with the encoding asked for: files
/// go as they are, and directories as archives.
pub open spec fn export_packing(
    source: Seq<char>,
    encoding: WorkspaceObjectEncoding,
    is_dir: bool,
) -> std::result::Result<PackingView, StatusView> {
    match encoding {
        WorkspaceObjectEncoding::Raw => if is_dir {
            Err(invalid("export_workspace_object raw encoding expects a file"@))
        } else {
            Ok(as_is(source))
        },
        WorkspaceObjectEncoding::TarGz => if is_dir {
            Ok(archived(source))
        } else {
            Err(invalid("export_workspace_object tar_gz encoding expects a directory"@))
        },
        WorkspaceObjectEncoding::Unspecified => Err(
            invalid("export_workspace_object encoding is required"@),
        ),
    }
}

/// A packing or a status, over mathematical text.
pub open spec fn packing_answer(r: std::result::Result<Packing, Status>) -> std::result::Result<
    PackingView,
    StatusView,
> {
    match r {
        Ok(packing) => Ok(packing@),
        Err(status) => Err(status@),
    }
}

/// How something is sent out of a workspace with the encoding asked for.
pub fn plan_export(source: &str, encoding: WorkspaceObjectEncoding, is_dir: bool) -> (r:
    std::result::Result<Packing, Status>)
    ensures
        packing_answer(r) == export_packing(source@, encoding, is_dir),
{
    match encoding {
        WorkspaceObjectEncoding::Raw => {
            if is_dir {
                return Err(refuse("export_workspace_object raw encoding expects a file"));
            }
            Ok(pack_as_is(source))
        },
        WorkspaceObjectEncoding::TarGz => {
            if !is_dir {
                return Err(refuse("export_workspace_object tar_gz encoding expects a directory"));
            }
            Ok(pack_archived(source))
        },
        WorkspaceObjectEncoding::Unspecified => Err(
            refuse("export_workspace_object encoding is required"),
        ),
    }
}

/// Whether `header` announces a payload with the given bytes, packed like this,
/// in answer to `req`.
pub open spec fn announces(
    header: ExportHeader,
    req: ExportWorkspaceObjectRequest,
    packing: PackingView,
    payload: Seq<u8>,
) -> bool {
    &&& header.source_path@ == req.source_path@
    &&& header.basename@ == packing.basename
    &&& header.encoding == req.encoding
    &&& header.content_type@ == packing.content_type
    &&& header.size_bytes == payload.len()
    &&& header.sha256_hex@ == sha256_text(payload)
}

/// The header of a transfer out of a workspace, for the payload that the digest
/// took in.
pub fn export_header(
    req: ExportWorkspaceObjectRequest,
    packing: Packing,
    payload: RunningDigest,
) -> (message: ExportMessage)
    requires
        payload.wf(),
    ensures
        message is Header,
        announces(message->Header_0, req, packing@, payload@),
{
    let size_bytes: u64 = payload.count();
    ExportMessage::Header(
        ExportHeader {
            source_path: req.source_path,
            basename: packing.basename,
            encoding: req.encoding,
            content_type: packing.content_type,
            size_bytes: size_bytes,
            sha256_hex: payload.finish(),
        },
    )
}

/// The message with what was read of the payload; none at its end.
pub fn export_chunk(data: Vec<u8>) -> (message: Option<ExportMessage>)
    ensures
        message == (if data@.len() == 0 {
            None
        } else {
            Some(ExportMessage::Chunk(data))
        }),
{
    if data.len() == 0 {
        None
    } else {
        Some(ExportMessage::Chunk(data))
    }
}

/// What is read of a payload, up to its end.
pub open spec fn pieces_read(reads: Seq<Vec<u8>>) -> Seq<Seq<u8>> {
    reads.map_values(|r: Vec<u8>| r@)
}

/// The chunks that are sent of what was read.
pub open spec fn chunks_sent(reads: Seq<Vec<u8>>) -> Seq<ImportMessage> {
    reads.map_values(|r: Vec<u8>| ImportMessage::Chunk(r))
}

/// What is sent out of one workspace arrives unchanged in another: chunks that
/// are passed on bring the payload they were read from, byte for byte.
pub proof fn law_transfer_keeps_the_bytes(reads: Seq<Vec<u8>>)
    ensures
        received(chunks_sent(reads)) == Ok::<Seq<u8>, StatusView>(joint(pieces_read(reads))),
    decreases reads.len(),
{
    if reads.len() == 0 {
        assert(chunks_sent(reads) =~= Seq::empty());
    } else {
        law_transfer_keeps_the_bytes(reads.drop_last());
        assert(chunks_sent(reads).drop_last() =~= chunks_sent(reads.drop_last()));
        assert(pieces_read(reads).drop_last() =~= pieces_read(reads.drop_last()));
    }
}

/// All that is sent of a payload that was read in pieces: the header, and a
/// chunk for each piece.
pub open spec fn export_sent(header: ExportHeader, reads: Seq<Vec<u8>>) -> Seq<ExportMessage> {
    seq![ExportMessage::Header(header)] + reads.map_values(
        |r: Vec<u8>| ExportMessage::Chunk(r),
    )
}

/// The bytes in the chunks of a transfer out of a workspace.
pub open spec fn exported(messages: Seq<ExportMessage>) -> Seq<u8>
    decreases messages.len(),
{
    if messages.len() == 0 {
        Seq::empty()
    } else {
        match messages.last() {
            ExportMessage::Chunk(chunk) => exported(messages.drop_last()) + chunk@,
            _ => exported(messages.drop_last()),
        }
    }
}

/// The chunks of a transfer out of a workspace bring what was read.
proof fn lemma_export_sends_the_payload(header: ExportHeader, reads: Seq<Vec<u8>>)
    ensures
        exported(export_sent(header, reads)) == joint(pieces_read(reads)),
    decreases reads.len(),
{
    let sent = export_sent(header, reads);
    if reads.len() == 0 {
        reveal_with_fuel(exported, 2);
        assert(sent.last() == ExportMessage::Header(header));
        assert(sent.drop_last() =~= Seq::empty());
    } else {
        lemma_export_sends_the_payload(header, reads.drop_last());
        assert(sent.drop_last() =~= export_sent(header, reads.drop_last()));
        assert(sent.last() == ExportMessage::Chunk(reads.last()));
        assert(pieces_read(reads).drop_last() =~= pieces_read(reads.drop_last()));
    }
}

/// A file that was sent into a workspace comes out of it again. Whoever asks
/// for the place it was sent to is led to that place and allowed to have it as
/// it is; and where the file was not changed in between, the chunks bring the
/// bytes that came in, and the header tells how many there are, as the answer
/// to the one who sent them did, and their digest.
pub proof fn law_import_comes_out_again(
    root: Seq<char>,
    header: ImportHeader,
    messages: Seq<ImportMessage>,
    req: ExportWorkspaceObjectRequest,
    reads: Seq<Vec<u8>>,
    announced: ExportHeader,
)
    requires
        import_start(root, Some(ImportMessage::Header(header))) is Ok,
        received(messages) is Ok,
        header.encoding == WorkspaceObjectEncoding::Raw,
        req.encoding == WorkspaceObjectEncoding::Raw,
        req.workspace_id@ == header.workspace_id@,
        req.source_path@ == header.target_path@,
        joint(pieces_read(reads)) == received(messages)->Ok_0,
        announces(
            announced,
            req,
            as_is(import_start(root, Some(ImportMessage::Header(header)))->Ok_0.target),
            joint(pieces_read(reads)),
        ),
    ensures
        ({
            let start = import_start(root, Some(ImportMessage::Header(header)))->Ok_0;
            let end = import_after_all(start, messages);
            let bytes = received(messages)->Ok_0;
            &&& import_action(end, ImportEvent::Ended) == ImportActionView::Place(Placement::File)
            &&& source_of(root, req.workspace_id@, req.source_path@) == Ok::<Seq<char>, StatusView>(
                start.target,
            )
            &&& export_packing(start.target, req.encoding, false) == Ok::<PackingView, StatusView>(
                as_is(start.target),
            )
            &&& exported(export_sent(announced, reads)) == bytes
            &&& announced.size_bytes == bytes.len()
            &&& announced.size_bytes == end.bytes_written
            &&& announced.sha256_hex@ == sha256_text(bytes)
        }),
{
    let start = import_start(root, Some(ImportMessage::Header(header)))->Ok_0;
    law_complete_import_is_placed(start, messages);
    lemma_export_sends_the_payload(announced, reads);
    assert(valid_id(header.workspace_id@));
}

/// Every chunk is written whole, as it came, and counted; nothing else is ever
/// written.
pub proof fn law_chunks_are_written_whole(event: ImportEvent, action: ImportAction)
    ensures
        forall|import: &mut Import| #[trigger]
            call_ensures(Import::step, (import, event), action) ==> {
                &&& action is Write <==> (event is Message && event->Message_0 is Chunk)
                &&& match event {
                    ImportEvent::Message(ImportMessage::Chunk(chunk)) => {
                        &&& action->Write_0@ == chunk@
                        &&& import.bytes_written + chunk@.len() <= u64::MAX
                            ==> final(import).bytes_written as int == import.bytes_written
                            + chunk@.len()
                        &&& import.bytes_written + chunk@.len() > u64::MAX
                            ==> final(import).bytes_written == u64::MAX
                        &&& final(import).phase == import.phase
                    },
                    _ => final(import).bytes_written == import.bytes_written,
                }
                &&& final(import).workspace_id@ == import.workspace_id@
                &&& final(import).target@ == import.target@
                &&& final(import).target_dir@ == import.target_dir@
                &&& final(import).encoding == import.encoding
                &&& final(import).content_type@ == import.content_type@
            },
{
    assert forall|import: &mut Import| #[trigger]
        call_ensures(Import::step, (import, event), action) implies {
        &&& action is Write <==> (event is Message && event->Message_0 is Chunk)
        &&& match event {
            ImportEvent::Message(ImportMessage::Chunk(chunk)) => {
                &&& action->Write_0@ == chunk@
                &&& import.bytes_written + chunk@.len() <= u64::MAX
                            ==> final(import).bytes_written as int == import.bytes_written
                            + chunk@.len()
                &&& import.bytes_written + chunk@.len() > u64::MAX ==> final(import).bytes_written
                    == u64::MAX
                &&& final(import).phase == import.phase
            },
            _ => final(import).bytes_written == import.bytes_written,
        }
        &&& final(import).workspace_id@ == import.workspace_id@
        &&& final(import).target@ == import.target@
        &&& final(import).target_dir@ == import.target_dir@
        &&& final(import).encoding == import.encoding
        &&& final(import).content_type@ == import.content_type@
    } by {
        assert(final(import)@.bytes_written == final(import).bytes_written);
    }
}

/// What is written in answer to some messages, one behind the other.
pub open spec fn written(import: ImportView, messages: Seq<ImportMessage>) -> Seq<u8>
    decreases messages.len(),
{
    if messages.len() == 0 {
        Seq::empty()
    } else {
        let front = messages.drop_last();
        written(import, front) + (match import_action(
            import_after_all(import, front),
            ImportEvent::Message(messages.last()),
        ) {
            ImportActionView::Write(data) => data,
            _ => Seq::empty(),
        })
    }
}

/// What is written of a transfer that is accepted is what was sent: the bytes of
/// its chunks, each of them whole, one behind the other.
pub proof fn law_what_is_written_is_what_was_sent(import: ImportView, messages: Seq<ImportMessage>)
    requires
        received(messages) is Ok,
    ensures
        written(import, messages) == received(messages)->Ok_0,
        written(import, messages) == messages.map_values(
            |m: ImportMessage|
                match m {
                    ImportMessage::Chunk(chunk) => chunk@,
                    _ => Seq::empty(),
                },
        ).flatten(),
    decreases messages.len(),
{
    let bytes = messages.map_values(
        |m: ImportMessage|
            match m {
                ImportMessage::Chunk(chunk) => chunk@,
                _ => Seq::empty(),
            },
    );
    if messages.len() > 0 {
        let front = messages.drop_last();
        law_what_is_written_is_what_was_sent(import, front);
        let less = front.map_values(
            |m: ImportMessage|
                match m {
                    ImportMessage::Chunk(chunk) => chunk@,
                    _ => Seq::empty(),
                },
        );
        assert(bytes =~= less.push(bytes.last()));
        less.lemma_flatten_push(bytes.last());
    } else {
        assert(bytes =~= Seq::empty());
    }
}

/// Messages behind the header bring their bytes one behind the other, as long as
/// they are chunks; the first that is none is refused, and then nothing counts
/// any more.
pub proof fn law_messages_bring_their_bytes(messages: Seq<ImportMessage>, message: ImportMessage)
    ensures
        received(Seq::empty()) == Ok::<Seq<u8>, StatusView>(Seq::empty()),
        received(messages) is Err ==> received(messages.push(message)) == received(messages),
        received(messages) is Ok ==> match message {
            ImportMessage::Chunk(chunk) => received(messages.push(message)) == Ok::<
                Seq<u8>,
                StatusView,
            >(received(messages)->Ok_0 + chunk@),
            _ => received(messages.push(message)) is Err && received(
                messages.push(message),
            )->Err_0.code == Code::InvalidArgument,
        },
{
    assert(messages.push(message).drop_last() =~= messages);
    assert(messages.push(message).last() == message);
}

/// A second header and an empty message are each refused, and in words that tell
/// them apart; that ends the transfer.
pub proof fn law_other_messages_are_refused(message: ImportMessage, action: ImportAction)
    requires
        !(message is Chunk),
    ensures
        forall|import: &mut Import| #[trigger]
            call_ensures(Import::step, (import, ImportEvent::Message(message)), action) ==> {
                &&& action is Refuse
                &&& action->Refuse_0.code == Code::InvalidArgument
                &&& action->Refuse_0.message@ == (if message is Header {
                    "import_workspace_object header may only appear once"@
                } else {
                    "import_workspace_object received an empty message"@
                })
                &&& final(import).phase == ImportPhase::Over
            },
{
    assert forall|import: &mut Import| #[trigger]
        call_ensures(Import::step, (import, ImportEvent::Message(message)), action) implies {
        &&& action is Refuse
        &&& action->Refuse_0.code == Code::InvalidArgument
        &&& action->Refuse_0.message@ == (if message is Header {
            "import_workspace_object header may only appear once"@
        } else {
            "import_workspace_object received an empty message"@
        })
        &&& final(import).phase == ImportPhase::Over
    } by {
        assert(final(import)@.phase == final(import).phase);
        assert(action@ is Refuse);
    }
}

/// A complete transfer is put into place as its encoding says: as the file that
/// came, or as what the archive holds. Where the encoding is not said, it is
/// dropped and refused.
pub proof fn law_encoding_decides_how_it_is_placed(action: ImportAction)
    ensures
        forall|import: &mut Import| #[trigger]
            call_ensures(Import::step, (import, ImportEvent::Ended), action) ==> match import.encoding {
                WorkspaceObjectEncoding::Raw => action == ImportAction::Place(Placement::File)
                    && final(import).phase == ImportPhase::Placing,
                WorkspaceObjectEncoding::TarGz => action == ImportAction::Place(Placement::Archive)
                    && final(import).phase == ImportPhase::Placing,
                WorkspaceObjectEncoding::Unspecified => {
                    &&& action is DropAndRefuse
                    &&& action->DropAndRefuse_0.code == Code::InvalidArgument
                    &&& action->DropAndRefuse_0.message@
                        == "import_workspace_object encoding is required"@
                    &&& final(import).phase == ImportPhase::Over
                },
            },
{
    assert forall|import: &mut Import| #[trigger]
        call_ensures(Import::step, (import, ImportEvent::Ended), action) implies match import.encoding {
        WorkspaceObjectEncoding::Raw => action == ImportAction::Place(Placement::File)
            && final(import).phase == ImportPhase::Placing,
        WorkspaceObjectEncoding::TarGz => action == ImportAction::Place(Placement::Archive)
            && final(import).phase == ImportPhase::Placing,
        WorkspaceObjectEncoding::Unspecified => {
            &&& action is DropAndRefuse
            &&& action->DropAndRefuse_0.code == Code::InvalidArgument
            &&& action->DropAndRefuse_0.message@ == "import_workspace_object encoding is required"@
            &&& final(import).phase == ImportPhase::Over
        },
    } by {
        assert(final(import)@.phase == final(import).phase);
        assert(import.encoding == import@.encoding);
    }
}

/// A transfer that is in place is answered with the number of bytes that were
/// counted and the type that it was announced with; an archive is always
/// gzipped, and a type that says nothing stands for plain bytes.
pub proof fn law_import_is_answered_with_what_came(action: ImportAction)
    ensures
        forall|import: &mut Import| #[trigger]
            call_ensures(Import::step, (import, ImportEvent::Placed), action) ==> {
                &&& action is Answer
                &&& action->Answer_0.bytes_written == import.bytes_written
                &&& import.encoding == WorkspaceObjectEncoding::TarGz
                    ==> action->Answer_0.content_type@ == "application/gzip"@
                &&& import.encoding != WorkspaceObjectEncoding::TarGz && is_blank(
                    import.content_type@,
                ) ==> action->Answer_0.content_type@ == "application/octet-stream"@
                &&& import.encoding != WorkspaceObjectEncoding::TarGz && !is_blank(
                    import.content_type@,
                ) ==> action->Answer_0.content_type@ == import.content_type@
            },
{
    assert forall|import: &mut Import| #[trigger]
        call_ensures(Import::step, (import, ImportEvent::Placed), action) implies {
        &&& action is Answer
        &&& action->Answer_0.bytes_written == import.bytes_written
        &&& import.encoding == WorkspaceObjectEncoding::TarGz ==> action->Answer_0.content_type@
            == "application/gzip"@
        &&& import.encoding != WorkspaceObjectEncoding::TarGz && is_blank(import.content_type@)
            ==> action->Answer_0.content_type@ == "application/octet-stream"@
        &&& import.encoding != WorkspaceObjectEncoding::TarGz && !is_blank(import.content_type@)
            ==> action->Answer_0.content_type@ == import.content_type@
    } by {
        assert(action@ is Answer);
        assert(import.encoding == import@.encoding);
        assert(import.content_type@ == import@.content_type);
    }
}

/// A transfer starts with its header and goes to the place that it names; it has
/// written nothing yet. Without a header, or without such a place, it does not
/// start.
pub proof fn law_import_starts_with_its_header(
    workspaces: &WorkspaceManager,
    first: Option<ImportMessage>,
    r: std::result::Result<Import, Status>,
)
    requires
        call_ensures(Import::start, (workspaces, first), r),
    ensures
        r matches Err(status) ==> status.code == Code::InvalidArgument,
        match first {
            Some(ImportMessage::Header(header)) => {
                let place = resolved(
                    workspaces.cfg.root@,
                    header.workspace_id@,
                    header.target_path@,
                );
                &&& r is Ok <==> place is Ok
                &&& r matches Ok(import) ==> {
                    &&& Ok::<Seq<char>, ErrorView>(import.target@) == place
                    &&& import.target_dir@ == parent_or_here(import.target@)
                    &&& import.workspace_id@ == header.workspace_id@
                    &&& import.encoding == header.encoding
                    &&& import.content_type@ == header.content_type@
                    &&& import.bytes_written == 0
                    &&& import.phase == ImportPhase::Receiving
                }
                &&& r is Err && header.workspace_id@.len() > 0 ==> r->Err_0.message@ == (
                if valid_id(header.workspace_id@) {
                    "path escapes workspace root: "@ + header.target_path@
                } else {
                    "workspace_id is empty or invalid"@
                })
            },
            Some(ImportMessage::Chunk(_)) => r is Err && r->Err_0.message@
                == "import_workspace_object header must be the first message"@,
            Some(ImportMessage::Empty) => r is Err && r->Err_0.message@
                == "import_workspace_object first message is empty"@,
            None => r is Err && r->Err_0.message@ == "import_workspace_object requires a header"@,
        },
{
    match r {
        Ok(import) => {
            assert(import@.target == import.target@);
            assert(import@.target_dir == import.target_dir@);
        },
        Err(status) => {
            assert(status@.code == status.code);
        },
    }
}

/// What was asked for is a file or a directory as it was found; where there is
/// nothing, it is said what was looked for.
pub proof fn law_what_was_found_is_told(
    path: &str,
    found: PathFound,
    r: std::result::Result<bool, Status>,
)
    requires
        call_ensures(check_found, (path, found), r),
    ensures
        r matches Ok(is_dir) ==> (is_dir <==> found is Directory) && (!is_dir <==> found is File),
        r matches Err(status) ==> (status.code == Code::NotFound <==> found is Missing) && (
        status.code == Code::Internal <==> found is Failed),
        found is Missing ==> r is Err && r->Err_0.message@ == "no such path: "@ + path@,
        found matches PathFound::Failed(e) ==> r is Err && r->Err_0.message@ == "io: "@ + e@,
        r is Ok <==> found is Directory || found is File,
{
}

/// A workspace has to be named, and what is asked for has to lie in it.
pub proof fn law_source_lies_in_the_workspace(
    workspaces: &WorkspaceManager,
    id: &str,
    path: &str,
    r: std::result::Result<String, Status>,
)
    requires
        call_ensures(find_source, (workspaces, id, path), r),
    ensures
        r is Ok <==> id@.len() > 0 && resolved(workspaces.cfg.root@, id@, path@) is Ok,
        r matches Ok(source) ==> Ok::<Seq<char>, ErrorView>(source@) == resolved(
            workspaces.cfg.root@,
            id@,
            path@,
        ),
        r matches Err(status) ==> status.code == Code::InvalidArgument,
        id@.len() == 0 ==> r is Err && r->Err_0.message@ == "workspace_id is required"@,
        id@.len() > 0 && r is Err ==> r->Err_0.message@ == (if valid_id(id@) {
            "path escapes workspace root: "@ + path@
        } else {
            "workspace_id is empty or invalid"@
        }),
{
}

/// A file is sent out as it is and a directory as an archive, each where that is
/// the encoding asked for; any other request is refused.
pub proof fn law_export_is_packed_as_asked_for(
    source: &str,
    encoding: WorkspaceObjectEncoding,
    is_dir: bool,
    r: std::result::Result<Packing, Status>,
)
    requires
        call_ensures(plan_export, (source, encoding, is_dir), r),
    ensures
        r is Ok <==> (encoding == WorkspaceObjectEncoding::Raw && !is_dir) || (encoding
            == WorkspaceObjectEncoding::TarGz && is_dir),
        r matches Ok(packing) ==> {
            &&& !is_dir ==> packing.form == PackingForm::AsIs && packing.basename@ == name_or(
                source@,
                "artifact"@,
            ) && packing.content_type@ == content_type_of(source@)
            &&& is_dir ==> packing.form == PackingForm::Archive && packing.basename@ == name_or(
                source@,
                "workspace"@,
            ) + ".tar.gz"@ && packing.content_type@ == "application/gzip"@
        },
        r matches Err(status) ==> status.code == Code::InvalidArgument && status.message@ == (
        match encoding {
            WorkspaceObjectEncoding::Raw =>
                "export_workspace_object raw encoding expects a file"@,
            WorkspaceObjectEncoding::TarGz =>
                "export_workspace_object tar_gz encoding expects a directory"@,
            WorkspaceObjectEncoding::Unspecified =>
                "export_workspace_object encoding is required"@,
        }),
{
}

/// The header of what is sent out tells the truth of it: as many bytes as there
/// are, and their digest; and it repeats what was asked for.
pub proof fn law_header_tells_the_truth(
    req: ExportWorkspaceObjectRequest,
    packing: Packing,
    payload: RunningDigest,
    message: ExportMessage,
)
    requires
        call_ensures(export_header, (req, packing, payload), message),
    ensures
        message matches ExportMessage::Header(header) && {
            &&& header.size_bytes as int == payload@.len()
            &&& header.sha256_hex@ == sha256_text(payload@)
            &&& header.source_path@ == req.source_path@
            &&& header.encoding == req.encoding
            &&& header.basename@ == packing.basename@
            &&& header.content_type@ == packing.content_type@
        },
{
}

/// What is read of a payload is sent whole, and nothing is sent at its end.
pub proof fn law_what_is_read_is_sent_whole(data: Vec<u8>, message: Option<ExportMessage>)
    requires
        call_ensures(export_chunk, (data,), message),
    ensures
        message is None <==> data@.len() == 0,
        message matches Some(m) ==> (m matches ExportMessage::Chunk(chunk) && chunk@ == data@),
{
}

/// The bytes that are sent out are those that were read, piece by piece and one
/// behind the other.
pub proof fn law_exported_bytes_are_those_read(header: ExportHeader, reads: Seq<Vec<u8>>)
    ensures
        exported(export_sent(header, reads)) == reads.map_values(|r: Vec<u8>| r@).flatten(),
{
    lemma_export_sends_the_payload(header, reads);
    law_joint_is_one_behind_the_other(pieces_read(reads));
    assert(pieces_read(reads) =~= reads.map_values(|r: Vec<u8>| r@));
}

/// Messages and their end can come as long as a transfer is being received, and
/// that it was put into place only once it is due to be.
pub proof fn law_when_import_events_come(phase: ImportPhase, message: ImportMessage)
    ensures
        import_fits(phase, ImportEvent::Message(message)) <==> phase == ImportPhase::Receiving,
        import_fits(phase, ImportEvent::Ended) <==> phase == ImportPhase::Receiving,
        import_fits(phase, ImportEvent::Placed) <==> phase == ImportPhase::Placing,
{
}

/// What is sent is called after its source, and by an ending that tells how it was
/// packed.
pub proof fn law_packings_are_called_after_their_source(
    source: &str,
    plain: Packing,
    zipped: Packing,
    whole: Packing,
)
    requires
        call_ensures(pack_as_is, (source,), plain),
        call_ensures(pack_gzipped, (source,), zipped),
        call_ensures(pack_archived, (source,), whole),
    ensures
        plain.form == PackingForm::AsIs,
        plain.content_type@ == content_type_of(source@),
        plain.basename@ == name_or(source@, "artifact"@),
        zipped.form == PackingForm::Gzip,
        zipped.content_type@ == "application/gzip"@,
        zipped.basename@ == plain.basename@ + ".gz"@,
        whole.form == PackingForm::Archive,
        whole.content_type@ == "application/gzip"@,
        whole.basename@ == name_or(source@, "workspace"@) + ".tar.gz"@,
{
}

} // verus!
