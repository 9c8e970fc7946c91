//! The object store: keys, content types, and how files get there.
use std::time::{Duration, SystemTime};

use aws_sdk_s3::presigning::PresigningConfig;
use vstd::arithmetic::power::pow;
use vstd::prelude::*;

use crate::calendar::{ymd, ymd_from_unix};
use crate::clock::{duration_nanos, nanos_since_epoch, shorter, unix_now, NANOS_PER_SECOND};
use crate::config::TosConfig;
use crate::digest::{hex_digits, sha256, sha256_hex, sha256_text, MAX_DIGEST_BYTES};
use crate::error::{other, outcome, Error, ErrorView, Result};
use crate::paths::{extension, extension_of};
use crate::text::{
    chars_of, decimal, decimal_text, hex_text, hexadecimal, join2, join3, law_numerals_read_back,
    lemma_leading_zeros, lemma_numeral_len, lemma_split_at_first, numeral_value, pad_zeros,
    same_text, text_of, zero_padded,
};

verus! {

/// The smallest part that the object store takes, but for the last one: 5 MiB.
pub const MIN_PART_SIZE: u64 = 5_242_880;

/// The largest payload that is delivered: 1 GiB.
pub const MAX_DELIVERY_BYTES: u64 = 1_073_741_824;

/// The longest lifetime of a signed URL, in nanoseconds: a week.
pub const MAX_SIGNED_NANOS: u64 = 604_800_000_000_000;

/// The settings of a signed URL.
#[verifier::external_type_specification]
#[verifier::external_body]
pub struct ExPresigningConfig(PresigningConfig);

/// The lifetime in the settings of a signed URL.
pub uninterp spec fn lifetime(config: PresigningConfig) -> Duration;

/// Calls `PresigningConfig::expires_in`, which takes a lifetime of up to a week
/// and refuses a longer one. The error is taken in its own words.
#[verifier::external_body]
fn presigning_config(expires_in: Duration) -> (r: std::result::Result<PresigningConfig, String>)
    ensures
        match r {
            Ok(config) => duration_nanos(expires_in) <= MAX_SIGNED_NANOS && lifetime(config)
                == expires_in,
            Err(error) => duration_nanos(expires_in) > MAX_SIGNED_NANOS && error@
                == "`expires_in` must be no longer than one week"@,
        },
{
    match PresigningConfig::expires_in(expires_in) {
        Ok(config) => Ok(config),
        Err(error) => Err(error.to_string()),
    }
}

/// Whether `c` may stand in a segment of an object key: `[A-Za-z0-9._-]`.
pub open spec fn is_key_char(c: char) -> bool {
    ||| 'A' <= c <= 'Z'
    ||| 'a' <= c <= 'z'
    ||| '0' <= c <= '9'
    ||| c == '-'
    ||| c == '_'
    ||| c == '.'
}

/// A text as a segment of an object key: an underscore in place of each
/// character that may not stand there, and for the empty text.
pub open spec fn sanitized(s: Seq<char>) -> Seq<char> {
    if s.len() == 0 {
        seq!['_']
    } else {
        s.map_values(
            |c: char|
                if is_key_char(c) {
                    c
                } else {
                    '_'
                },
        )
    }
}

/// A text as a segment of an object key.
pub fn sanitize_segment(s: &str) -> (segment: String)
    ensures
        segment@ == sanitized(s@),
{
    let chars: Vec<char> = chars_of(s);
    let mut out: Vec<char> = Vec::new();
    if chars.len() == 0 {
        out.push('_');
    }
    let mut i: usize = 0;
    while i < chars.len()
        invariant
            chars@ == s@,
            i <= chars@.len(),
            chars@.len() == 0 ==> out@ == sanitized(s@),
            chars@.len() > 0 ==> out@ == sanitized(s@).take(i as int),
        decreases chars.len() - i,
    {
        let c: char = chars[i];
        let keep: bool = ('A' <= c && c <= 'Z') || ('a' <= c && c <= 'z') || ('0' <= c && c <= '9')
            || c == '-' || c == '_' || c == '.';
        if keep {
            out.push(c);
        } else {
            out.push('_');
        }
        assert(sanitized(s@).take(i + 1) =~= sanitized(s@).take(i as int).push(
            sanitized(s@)[i as int],
        ));
        i = i + 1;
    }
    assert(sanitized(s@).take(sanitized(s@).len() as int) =~= sanitized(s@));
    text_of(out.as_slice())
}

/// The nonce of an object key: the low 32 bits of a number of nanoseconds, in
/// eight hexadecimal digits.
pub open spec fn key_nonce(nanos: nat) -> Seq<char> {
    zero_padded(hexadecimal(nanos % 0x1_0000_0000), 8)
}

/// The object key of an artifact:
/// `{prefix}{tenant}/{workspace}/{yyyy-mm-dd}/{nonce}-{basename}`.
pub open spec fn object_key(
    prefix: Seq<char>,
    tenant: Seq<char>,
    workspace: Seq<char>,
    basename: Seq<char>,
    nanos: nat,
) -> Seq<char> {
    prefix + sanitized(tenant) + "/"@ + sanitized(workspace) + "/"@ + ymd(
        nanos / (NANOS_PER_SECOND as nat),
    ) + "/"@ + key_nonce(nanos) + "-"@ + sanitized(basename)
}

/// Knows how artifacts are filed in the object store.
#[derive(Debug)]
pub struct OssClient {
    pub bucket: String,
    pub key_prefix: String,
    pub default_expires: Duration,
    pub max_expires: Duration,
    pub upload_timeout: Duration,
    pub part_size: u64,
    pub multipart_threshold: u64,
}

impl Clone for OssClient {
    fn clone(&self) -> (copy: Self)
        ensures
            copy.bucket@ == self.bucket@,
            copy.key_prefix@ == self.key_prefix@,
            copy.default_expires == self.default_expires,
            copy.max_expires == self.max_expires,
            copy.upload_timeout == self.upload_timeout,
            copy.part_size == self.part_size,
            copy.multipart_threshold == self.multipart_threshold,
    {
        OssClient {
            bucket: self.bucket.clone(),
            key_prefix: self.key_prefix.clone(),
            default_expires: self.default_expires,
            max_expires: self.max_expires,
            upload_timeout: self.upload_timeout,
            part_size: self.part_size,
            multipart_threshold: self.multipart_threshold,
        }
    }
}

/// How a file is sent to the object store.
#[derive(Debug, Clone, Copy, PartialEq, Eq, Structural)]
pub enum UploadRoute {
    /// At once.
    Single,
    /// In parts.
    Multipart,
}

/// What came of an upload.
#[derive(Debug, Clone, PartialEq, Eq)]
pub struct UploadOutcome {
    pub key: String,
    pub size_bytes: u64,
    pub content_type: String,
    pub sha256_hex: String,
}

impl OssClient {
    /// A client with the given settings. Both keys have to be there.
    pub fn connect(cfg: &TosConfig) -> (r: Result<Self>)
        ensures
            match r {
                Ok(oss) => {
                    &&& cfg.access_key@.len() > 0
                    &&& cfg.secret_key@.len() > 0
                    &&& oss.bucket@ == cfg.bucket@
                    &&& oss.key_prefix@ == cfg.key_prefix@
                    &&& duration_nanos(oss.default_expires) == cfg.signed_url_expires_seconds
                        * NANOS_PER_SECOND
                    &&& duration_nanos(oss.max_expires) == cfg.signed_url_max_seconds
                        * NANOS_PER_SECOND
                    &&& duration_nanos(oss.upload_timeout) == cfg.upload_timeout_seconds
                        * NANOS_PER_SECOND
                    &&& oss.part_size == (if cfg.part_size_bytes < MIN_PART_SIZE {
                        MIN_PART_SIZE
                    } else {
                        cfg.part_size_bytes
                    })
                    &&& oss.multipart_threshold == cfg.multipart_threshold_bytes
                },
                Err(e) => {
                    &&& cfg.access_key@.len() == 0 || cfg.secret_key@.len() == 0
                    &&& e@ == ErrorView::Other(
                        "tos.access_key and tos.secret_key must not be empty"@,
                    )
                },
            },
    {
        if cfg.access_key.as_str().is_empty() || cfg.secret_key.as_str().is_empty() {
            return Err(other("tos.access_key and tos.secret_key must not be empty"));
        }
        let part_size: u64 = if cfg.part_size_bytes < MIN_PART_SIZE {
            MIN_PART_SIZE
        } else {
            cfg.part_size_bytes
        };
        Ok(
            OssClient {
                bucket: cfg.bucket.clone(),
                key_prefix: cfg.key_prefix.clone(),
                default_expires: Duration::from_secs(cfg.signed_url_expires_seconds as u64),
                max_expires: Duration::from_secs(cfg.signed_url_max_seconds as u64),
                upload_timeout: Duration::from_secs(cfg.upload_timeout_seconds),
                part_size: part_size,
                multipart_threshold: cfg.multipart_threshold_bytes,
            },
        )
    }

    /// The lifetime of a signed URL where none is asked for.
    pub fn default_expires(&self) -> (d: Duration)
        ensures
            d == self.default_expires,
    {
        self.default_expires
    }

    /// The longest lifetime of a signed URL.
    pub fn max_expires(&self) -> (d: Duration)
        ensures
            d == self.max_expires,
    {
        self.max_expires
    }

    /// The object key of an artifact of a given moment, as the time since the
    /// Unix epoch.
    pub fn build_key_at(
        &self,
        tenant_id: &str,
        workspace_id: &str,
        basename: &str,
        now: &Duration,
    ) -> (key: String)
        ensures
            key@ == object_key(
                self.key_prefix@,
                tenant_id@,
                workspace_id@,
                basename@,
                duration_nanos(*now),
            ),
    {
        let date = ymd_from_unix(now.as_secs());
        let nanos: u128 = now.as_nanos();
        let low: u64 = (nanos % 0x1_0000_0000) as u64;
        let nonce = pad_zeros(hex_text(low).as_str(), 8);
        let tenant = join3(
            self.key_prefix.as_str(),
            sanitize_segment(tenant_id).as_str(),
            "/",
        );
        let workspace = join3(tenant.as_str(), sanitize_segment(workspace_id).as_str(), "/");
        let dated = join3(workspace.as_str(), date.as_str(), "/");
        let numbered = join3(dated.as_str(), nonce.as_str(), "-");
        join2(numbered.as_str(), sanitize_segment(basename).as_str())
    }

    /// The object key of an artifact of this moment.
    pub fn build_key(&self, tenant_id: &str, workspace_id: &str, basename: &str) -> (key: String)
        ensures
            exists|t: SystemTime|
                key@ == object_key(
                    self.key_prefix@,
                    tenant_id@,
                    workspace_id@,
                    basename@,
                    #[trigger] nanos_since_epoch(t),
                ),
    {
        self.build_key_at(tenant_id, workspace_id, basename, &unix_now())
    }

    /// How a file of a given size is sent, where it is not too large. A small
    /// one is held in memory as a whole; of a larger one never more than a part
    /// is.
    pub fn upload_route(&self, size_bytes: u64) -> (r: Result<UploadRoute>)
        ensures
            outcome(r) == (if size_bytes > MAX_DELIVERY_BYTES {
                Err::<UploadRoute, ErrorView>(too_large(size_bytes))
            } else if size_bytes > self.multipart_threshold {
                Ok(UploadRoute::Multipart)
            } else {
                Ok(UploadRoute::Single)
            }),
    {
        match check_payload_size(size_bytes) {
            Ok(_) => {},
            Err(e) => {
                return Err(e);
            },
        }
        if size_bytes > self.multipart_threshold {
            Ok(UploadRoute::Multipart)
        } else {
            Ok(UploadRoute::Single)
        }
    }

    /// The size of a part in memory; the largest there is where it does not
    /// fit.
    pub fn part_len(&self) -> (len: usize)
        ensures
            len == (if self.part_size <= usize::MAX {
                self.part_size as int
            } else {
                usize::MAX as int
            }),
    {
        if self.part_size <= usize::MAX as u64 {
            self.part_size as usize
        } else {
            usize::MAX
        }
    }

    /// The error of an upload that took too long.
    pub fn upload_timed_out(&self) -> (e: Error)
        ensures
            e@ == ErrorView::Other(
                "upload timed out after "@ + decimal(
                    duration_nanos(self.upload_timeout) / (NANOS_PER_SECOND as nat),
                ) + "s"@,
            ),
    {
        let seconds = decimal_text(self.upload_timeout.as_secs());
        other(join3("upload timed out after ", seconds.as_str(), "s").as_str())
    }

    /// The lifetime that a signed URL gets where `ttl` is asked for.
    pub fn effective_expires(&self, ttl: Duration) -> (d: Duration)
        ensures
            d == (if duration_nanos(self.max_expires) < duration_nanos(ttl) {
                self.max_expires
            } else {
                ttl
            }),
    {
        shorter(ttl, self.max_expires)
    }

    /// The settings of a signed URL for which `ttl` is asked.
    pub fn presigning(&self, ttl: Duration) -> (r: Result<PresigningConfig>)
        ensures
            ({
                let granted = if duration_nanos(self.max_expires) < duration_nanos(ttl) {
                    self.max_expires
                } else {
                    ttl
                };
                match r {
                    Ok(config) => duration_nanos(granted) <= MAX_SIGNED_NANOS && lifetime(config)
                        == granted,
                    Err(e) => duration_nanos(granted) > MAX_SIGNED_NANOS && e@ == ErrorView::Other(
                        "presigning config: "@ + "`expires_in` must be no longer than one week"@,
                    ),
                }
            }),
    {
        match presigning_config(self.effective_expires(ttl)) {
            Ok(config) => Ok(config),
            Err(e) => Err(other(join2("presigning config: ", e.as_str()).as_str())),
        }
    }
}

/// The error of a payload that is too large to be delivered.
pub open spec fn too_large(size_bytes: u64) -> ErrorView {
    ErrorView::Other(
        "payload too large to deliver: "@ + decimal(size_bytes as nat) + " bytes (max 1073741824)"@,
    )
}

/// Whether a payload of a given size, packed as it is sent, can be delivered.
pub fn check_payload_size(size_bytes: u64) -> (r: Result<()>)
    ensures
        r is Err <==> size_bytes > MAX_DELIVERY_BYTES,
        r is Err ==> r->Err_0@ == too_large(size_bytes),
{
    if size_bytes > MAX_DELIVERY_BYTES {
        let size = decimal_text(size_bytes);
        let message = join3(
            "payload too large to deliver: ",
            size.as_str(),
            " bytes (max 1073741824)",
        );
        Err(other(message.as_str()))
    } else {
        Ok(())
    }
}

/// The error of a URL that could not be signed, from the store's words.
pub fn presign_failed(error: &str) -> (e: Error)
    ensures
        e@ == ErrorView::Other("presign: "@ + error@),
{
    other(join2("presign: ", error).as_str())
}

/// What came of an upload at once of a file with the given contents.
pub fn single_outcome(key: &str, size_bytes: u64, content_type: &str, data: &[u8]) -> (outcome:
    UploadOutcome)
    requires
        data@.len() <= MAX_DIGEST_BYTES,
    ensures
        outcome.key@ == key@,
        outcome.size_bytes == size_bytes,
        outcome.content_type@ == content_type@,
        outcome.sha256_hex@ == sha256_text(data@),
{
    outcome_with_digest(key, size_bytes, content_type, sha256_hex(data))
}

/// What came of an upload of a file with the given digest.
pub fn outcome_with_digest(
    key: &str,
    size_bytes: u64,
    content_type: &str,
    sha256_hex: String,
) -> (outcome: UploadOutcome)
    ensures
        outcome.key@ == key@,
        outcome.size_bytes == size_bytes,
        outcome.content_type@ == content_type@,
        outcome.sha256_hex@ == sha256_hex@,
{
    UploadOutcome {
        key: key.to_string(),
        size_bytes: size_bytes,
        content_type: content_type.to_string(),
        sha256_hex: sha256_hex,
    }
}

/// The error of an upload at once that failed, from the store's words.
pub fn put_failed(error: &str) -> (e: Error)
    ensures
        e@ == ErrorView::Other("put_object: "@ + error@),
{
    other(join2("put_object: ", error).as_str())
}

/// The content type of anything that is not known better.
pub const OCTET_STREAM: &'static str = "application/octet-stream";

/// The content type of files with a given extension.
pub open spec fn type_of_extension(ext: Seq<char>) -> Seq<char> {
    if ext == "json"@ {
        "application/json"@
    } else if ext == "txt"@ {
        "text/plain; charset=utf-8"@
    } else if ext == "html"@ || ext == "htm"@ {
        "text/html; charset=utf-8"@
    } else if ext == "css"@ {
        "text/css; charset=utf-8"@
    } else if ext == "js"@ || ext == "mjs"@ {
        "application/javascript"@
    } else if ext == "csv"@ {
        "text/csv; charset=utf-8"@
    } else if ext == "md"@ {
        "text/markdown; charset=utf-8"@
    } else if ext == "xml"@ {
        "application/xml"@
    } else if ext == "yaml"@ || ext == "yml"@ {
        "application/yaml"@
    } else if ext == "png"@ {
        "image/png"@
    } else if ext == "jpg"@ || ext == "jpeg"@ {
        "image/jpeg"@
    } else if ext == "gif"@ {
        "image/gif"@
    } else if ext == "webp"@ {
        "image/webp"@
    } else if ext == "svg"@ {
        "image/svg+xml"@
    } else if ext == "pdf"@ {
        "application/pdf"@
    } else if ext == "zip"@ {
        "application/zip"@
    } else if ext == "gz"@ || ext == "tgz"@ {
        "application/gzip"@
    } else if ext == "tar"@ {
        "application/x-tar"@
    } else if ext == "mp3"@ {
        "audio/mpeg"@
    } else if ext == "wav"@ {
        "audio/wav"@
    } else if ext == "mp4"@ {
        "video/mp4"@
    } else if ext == "webm"@ {
        "video/webm"@
    } else if ext == "xlsx"@ {
        "application/vnd.openxmlformats-officedocument.spreadsheetml.sheet"@
    } else if ext == "docx"@ {
        "application/vnd.openxmlformats-officedocument.wordprocessingml.document"@
    } else if ext == "pptx"@ {
        "application/vnd.openxmlformats-officedocument.presentationml.presentation"@
    } else {
        OCTET_STREAM@
    }
}

/// The content type of a file, by its name.
pub open spec fn content_type_of(path: Seq<char>) -> Seq<char> {
    match extension(path) {
        Some(ext) => type_of_extension(ext),
        None => OCTET_STREAM@,
    }
}

/// The content type of files with a given extension.
fn extension_type(ext: &str) -> (content_type: &'static str)
    ensures
        content_type@ == type_of_extension(ext@),
{
    if same_text(ext, "json") {
        "application/json"
    } else if same_text(ext, "txt") {
        "text/plain; charset=utf-8"
    } else if same_text(ext, "html") || same_text(ext, "htm") {
        "text/html; charset=utf-8"
    } else if same_text(ext, "css") {
        "text/css; charset=utf-8"
    } else if same_text(ext, "js") || same_text(ext, "mjs") {
        "application/javascript"
    } else if same_text(ext, "csv") {
        "text/csv; charset=utf-8"
    } else if same_text(ext, "md") {
        "text/markdown; charset=utf-8"
    } else if same_text(ext, "xml") {
        "application/xml"
    } else if same_text(ext, "yaml") || same_text(ext, "yml") {
        "application/yaml"
    } else if same_text(ext, "png") {
        "image/png"
    } else if same_text(ext, "jpg") || same_text(ext, "jpeg") {
        "image/jpeg"
    } else if same_text(ext, "gif") {
        "image/gif"
    } else if same_text(ext, "webp") {
        "image/webp"
    } else if same_text(ext, "svg") {
        "image/svg+xml"
    } else if same_text(ext, "pdf") {
        "application/pdf"
    } else if same_text(ext, "zip") {
        "application/zip"
    } else if same_text(ext, "gz") || same_text(ext, "tgz") {
        "application/gzip"
    } else if same_text(ext, "tar") {
        "application/x-tar"
    } else if same_text(ext, "mp3") {
        "audio/mpeg"
    } else if same_text(ext, "wav") {
        "audio/wav"
    } else if same_text(ext, "mp4") {
        "video/mp4"
    } else if same_text(ext, "webm") {
        "video/webm"
    } else if same_text(ext, "xlsx") {
        "application/vnd.openxmlformats-officedocument.spreadsheetml.sheet"
    } else if same_text(ext, "docx") {
        "application/vnd.openxmlformats-officedocument.wordprocessingml.document"
    } else if same_text(ext, "pptx") {
        "application/vnd.openxmlformats-officedocument.presentationml.presentation"
    } else {
        OCTET_STREAM
    }
}

/// The content type of a file, guessed from the extension of its name. Where
/// that says nothing it is `application/octet-stream`: a caller who knows
/// better says so.
pub fn guess_content_type(path: &str) -> (content_type: &'static str)
    ensures
        content_type@ == content_type_of(path@),
{
    match extension_of(path) {
        Some(ext) => extension_type(ext.as_str()),
        None => OCTET_STREAM,
    }
}

/// Whether an extension says what a file holds.
pub open spec fn is_known_extension(ext: Seq<char>) -> bool {
    ||| ext == "json"@
    ||| ext == "txt"@
    ||| ext == "html"@
    ||| ext == "htm"@
    ||| ext == "css"@
    ||| ext == "js"@
    ||| ext == "mjs"@
    ||| ext == "csv"@
    ||| ext == "md"@
    ||| ext == "xml"@
    ||| ext == "yaml"@
    ||| ext == "yml"@
    ||| ext == "png"@
    ||| ext == "jpg"@
    ||| ext == "jpeg"@
    ||| ext == "gif"@
    ||| ext == "webp"@
    ||| ext == "svg"@
    ||| ext == "pdf"@
    ||| ext == "zip"@
    ||| ext == "gz"@
    ||| ext == "tgz"@
    ||| ext == "tar"@
    ||| ext == "mp3"@
    ||| ext == "wav"@
    ||| ext == "mp4"@
    ||| ext == "webm"@
    ||| ext == "xlsx"@
    ||| ext == "docx"@
    ||| ext == "pptx"@
}

/// Whether two extensions are spellings of one and the same.
pub open spec fn same_extension(a: Seq<char>, b: Seq<char>) -> bool {
    ||| a == b
    ||| a == "html"@ && b == "htm"@
    ||| a == "htm"@ && b == "html"@
    ||| a == "js"@ && b == "mjs"@
    ||| a == "mjs"@ && b == "js"@
    ||| a == "yaml"@ && b == "yml"@
    ||| a == "yml"@ && b == "yaml"@
    ||| a == "jpg"@ && b == "jpeg"@
    ||| a == "jpeg"@ && b == "jpg"@
    ||| a == "gz"@ && b == "tgz"@
    ||| a == "tgz"@ && b == "gz"@
}

/// What tells the known extensions apart: the length, the first two characters
/// and the last one.
spec fn extension_mark(ext: Seq<char>) -> (nat, char, char, char) {
    (ext.len(), ext[0], ext[1], ext[ext.len() - 1])
}

/// What tells the content types apart: the length and three of the characters.
spec fn type_mark(content_type: Seq<char>) -> (nat, char, char, char) {
    let n = content_type.len();
    (n, content_type[7], content_type[n - 4], content_type[n - 1])
}

/// Two extensions that say what a file holds have the same content type exactly
/// where they are spellings of one and the same; and the content type of all
/// that is not known better is that of none of them.
pub proof fn law_content_types_tell_extensions_apart(a: Seq<char>, b: Seq<char>)
    ensures
        is_known_extension(a) && is_known_extension(b) ==> (type_of_extension(a)
            == type_of_extension(b) <==> same_extension(a, b)),
        type_of_extension(a) == OCTET_STREAM@ <==> !is_known_extension(a),
{
    reveal_strlit("json");
    assert(extension_mark("json"@) == (4nat, 'j', 's', 'n'));
    reveal_strlit("txt");
    assert(extension_mark("txt"@) == (3nat, 't', 'x', 't'));
    reveal_strlit("html");
    assert(extension_mark("html"@) == (4nat, 'h', 't', 'l'));
    reveal_strlit("htm");
    assert(extension_mark("htm"@) == (3nat, 'h', 't', 'm'));
    reveal_strlit("css");
    assert(extension_mark("css"@) == (3nat, 'c', 's', 's'));
    reveal_strlit("js");
    assert(extension_mark("js"@) == (2nat, 'j', 's', 's'));
    reveal_strlit("mjs");
    assert(extension_mark("mjs"@) == (3nat, 'm', 'j', 's'));
    reveal_strlit("csv");
    assert(extension_mark("csv"@) == (3nat, 'c', 's', 'v'));
    reveal_strlit("md");
    assert(extension_mark("md"@) == (2nat, 'm', 'd', 'd'));
    reveal_strlit("xml");
    assert(extension_mark("xml"@) == (3nat, 'x', 'm', 'l'));
    reveal_strlit("yaml");
    assert(extension_mark("yaml"@) == (4nat, 'y', 'a', 'l'));
    reveal_strlit("yml");
    assert(extension_mark("yml"@) == (3nat, 'y', 'm', 'l'));
    reveal_strlit("png");
    assert(extension_mark("png"@) == (3nat, 'p', 'n', 'g'));
    reveal_strlit("jpg");
    assert(extension_mark("jpg"@) == (3nat, 'j', 'p', 'g'));
    reveal_strlit("jpeg");
    assert(extension_mark("jpeg"@) == (4nat, 'j', 'p', 'g'));
    reveal_strlit("gif");
    assert(extension_mark("gif"@) == (3nat, 'g', 'i', 'f'));
    reveal_strlit("webp");
    assert(extension_mark("webp"@) == (4nat, 'w', 'e', 'p'));
    reveal_strlit("svg");
    assert(extension_mark("svg"@) == (3nat, 's', 'v', 'g'));
    reveal_strlit("pdf");
    assert(extension_mark("pdf"@) == (3nat, 'p', 'd', 'f'));
    reveal_strlit("zip");
    assert(extension_mark("zip"@) == (3nat, 'z', 'i', 'p'));
    reveal_strlit("gz");
    assert(extension_mark("gz"@) == (2nat, 'g', 'z', 'z'));
    reveal_strlit("tgz");
    assert(extension_mark("tgz"@) == (3nat, 't', 'g', 'z'));
    reveal_strlit("tar");
    assert(extension_mark("tar"@) == (3nat, 't', 'a', 'r'));
    reveal_strlit("mp3");
    assert(extension_mark("mp3"@) == (3nat, 'm', 'p', '3'));
    reveal_strlit("wav");
    assert(extension_mark("wav"@) == (3nat, 'w', 'a', 'v'));
    reveal_strlit("mp4");
    assert(extension_mark("mp4"@) == (3nat, 'm', 'p', '4'));
    reveal_strlit("webm");
    assert(extension_mark("webm"@) == (4nat, 'w', 'e', 'm'));
    reveal_strlit("xlsx");
    assert(extension_mark("xlsx"@) == (4nat, 'x', 'l', 'x'));
    reveal_strlit("docx");
    assert(extension_mark("docx"@) == (4nat, 'd', 'o', 'x'));
    reveal_strlit("pptx");
    assert(extension_mark("pptx"@) == (4nat, 'p', 'p', 'x'));
    reveal_strlit("application/json");
    assert(type_mark("application/json"@) == (16nat, 't', 'j', 'n'));
    reveal_strlit("text/plain; charset=utf-8");
    assert(type_mark("text/plain; charset=utf-8"@) == (25nat, 'a', 't', '8'));
    reveal_strlit("text/html; charset=utf-8");
    assert(type_mark("text/html; charset=utf-8"@) == (24nat, 'm', 't', '8'));
    reveal_strlit("text/css; charset=utf-8");
    assert(type_mark("text/css; charset=utf-8"@) == (23nat, 's', 't', '8'));
    reveal_strlit("application/javascript");
    assert(type_mark("application/javascript"@) == (22nat, 't', 'r', 't'));
    reveal_strlit("text/csv; charset=utf-8");
    assert(type_mark("text/csv; charset=utf-8"@) == (23nat, 'v', 't', '8'));
    reveal_strlit("text/markdown; charset=utf-8");
    assert(type_mark("text/markdown; charset=utf-8"@) == (28nat, 'r', 't', '8'));
    reveal_strlit("application/xml");
    assert(type_mark("application/xml"@) == (15nat, 't', '/', 'l'));
    reveal_strlit("application/yaml");
    assert(type_mark("application/yaml"@) == (16nat, 't', 'y', 'l'));
    reveal_strlit("image/png");
    assert(type_mark("image/png"@) == (9nat, 'n', '/', 'g'));
    reveal_strlit("image/jpeg");
    assert(type_mark("image/jpeg"@) == (10nat, 'p', 'j', 'g'));
    reveal_strlit("image/gif");
    assert(type_mark("image/gif"@) == (9nat, 'i', '/', 'f'));
    reveal_strlit("image/webp");
    assert(type_mark("image/webp"@) == (10nat, 'e', 'w', 'p'));
    reveal_strlit("image/svg+xml");
    assert(type_mark("image/svg+xml"@) == (13nat, 'v', '+', 'l'));
    reveal_strlit("application/pdf");
    assert(type_mark("application/pdf"@) == (15nat, 't', '/', 'f'));
    reveal_strlit("application/zip");
    assert(type_mark("application/zip"@) == (15nat, 't', '/', 'p'));
    reveal_strlit("application/gzip");
    assert(type_mark("application/gzip"@) == (16nat, 't', 'g', 'p'));
    reveal_strlit("application/x-tar");
    assert(type_mark("application/x-tar"@) == (17nat, 't', '-', 'r'));
    reveal_strlit("audio/mpeg");
    assert(type_mark("audio/mpeg"@) == (10nat, 'p', 'm', 'g'));
    reveal_strlit("audio/wav");
    assert(type_mark("audio/wav"@) == (9nat, 'a', '/', 'v'));
    reveal_strlit("video/mp4");
    assert(type_mark("video/mp4"@) == (9nat, 'p', '/', '4'));
    reveal_strlit("video/webm");
    assert(type_mark("video/webm"@) == (10nat, 'e', 'w', 'm'));
    reveal_strlit("application/vnd.openxmlformats-officedocument.spreadsheetml.sheet");
    assert(type_mark(
        "application/vnd.openxmlformats-officedocument.spreadsheetml.sheet"@,
    ) == (65nat, 't', 'h', 't'));
    reveal_strlit("application/vnd.openxmlformats-officedocument.wordprocessingml.document");
    assert(type_mark(
        "application/vnd.openxmlformats-officedocument.wordprocessingml.document"@,
    ) == (71nat, 't', 'm', 't'));
    reveal_strlit("application/vnd.openxmlformats-officedocument.presentationml.presentation");
    assert(type_mark(
        "application/vnd.openxmlformats-officedocument.presentationml.presentation"@,
    ) == (73nat, 't', 't', 'n'));
    reveal_strlit("application/octet-stream");
    assert(type_mark("application/octet-stream"@) == (24nat, 't', 'r', 'm'));
}

/// The extension of a file decides on its content type and nothing else does:
/// it is `application/octet-stream` exactly where there is none, or one that
/// says nothing.
pub proof fn law_extension_decides_on_the_content_type(path: Seq<char>, other_path: Seq<char>)
    ensures
        extension(path) == extension(other_path) ==> content_type_of(path) == content_type_of(
            other_path,
        ),
        content_type_of(path) == OCTET_STREAM@ <==> match extension(path) {
            Some(ext) => !is_known_extension(ext),
            None => true,
        },
{
    match extension(path) {
        Some(ext) => law_content_types_tell_extensions_apart(ext, ext),
        None => {},
    }
}

/// A segment of an object key is never empty and holds nothing but
/// `[A-Za-z0-9._-]`; in particular it holds no slash. A text that is such a
/// segment already stays as it is.
pub proof fn law_segments_are_safe(s: Seq<char>)
    ensures
        sanitized(s).len() > 0,
        forall|i: int| 0 <= i < sanitized(s).len() ==> is_key_char(#[trigger] sanitized(s)[i]),
        !sanitized(s).contains('/'),
        s.len() > 0 && (forall|i: int| 0 <= i < s.len() ==> is_key_char(#[trigger] s[i]))
            ==> sanitized(s) == s,
        sanitized(sanitized(s)) == sanitized(s),
{
    assert(is_key_char('_'));
    assert forall|i: int| 0 <= i < sanitized(s).len() implies is_key_char(
        #[trigger] sanitized(s)[i],
    ) by {}
    if sanitized(s).contains('/') {
        let i = choose|i: int| 0 <= i < sanitized(s).len() && sanitized(s)[i] == '/';
        assert(is_key_char(sanitized(s)[i]));
    }
    if s.len() > 0 && (forall|i: int| 0 <= i < s.len() ==> is_key_char(#[trigger] s[i])) {
        assert(sanitized(s) =~= s);
    }
    assert(sanitized(sanitized(s)) =~= sanitized(s));
}

/// Where the first slash stands in a text, the text in front of it and the one
/// behind it are fixed.
proof fn lemma_slash(a: Seq<char>, x: Seq<char>, b: Seq<char>, y: Seq<char>)
    requires
        a + "/"@ + x == b + "/"@ + y,
        !a.contains('/'),
        !b.contains('/'),
    ensures
        a == b,
        x == y,
{
    reveal_strlit("/");
    assert(a + "/"@ + x =~= a.push('/') + x);
    assert(b + "/"@ + y =~= b.push('/') + y);
    lemma_split_at_first(a, x, b, y, '/');
}

/// What stands in an object key behind the workspace.
spec fn key_tail(basename: Seq<char>, nanos: nat) -> Seq<char> {
    ymd(nanos / (NANOS_PER_SECOND as nat)) + "/"@ + key_nonce(nanos) + "-"@ + sanitized(basename)
}

/// Concatenation of ten texts, grouped in another way.
proof fn lemma_regroup(
    p: Seq<char>,
    a: Seq<char>,
    s: Seq<char>,
    b: Seq<char>,
    d: Seq<char>,
    n: Seq<char>,
    h: Seq<char>,
    z: Seq<char>,
)
    ensures
        (p + a + s + b + s + d + s + n + h + z).skip(p.len() as int) == a + s + (b + s + (d + s + n
            + h + z)),
{
    let tail = d + s + n + h + z;
    assert(p + a + s + b + s + d + s + n + h + z =~= (p + a + s + b + s) + tail);
    assert(((p + a + s + b + s) + tail).skip(p.len() as int) =~= a + s + (b + s + tail));
}

/// An object key behind its prefix: the tenant, the workspace and the rest.
proof fn lemma_key_parts(
    prefix: Seq<char>,
    tenant: Seq<char>,
    workspace: Seq<char>,
    basename: Seq<char>,
    nanos: nat,
)
    ensures
        object_key(prefix, tenant, workspace, basename, nanos).skip(prefix.len() as int)
            == sanitized(tenant) + "/"@ + (sanitized(workspace) + "/"@ + key_tail(basename, nanos)),
{
    lemma_regroup(
        prefix,
        sanitized(tenant),
        "/"@,
        sanitized(workspace),
        ymd(nanos / (NANOS_PER_SECOND as nat)),
        key_nonce(nanos),
        "-"@,
        sanitized(basename),
    );
}

/// Object keys keep tenants and workspaces apart: two keys under the same
/// prefix are the same only where the segments of both are.
pub proof fn law_keys_keep_tenants_apart(
    prefix: Seq<char>,
    tenant: Seq<char>,
    workspace: Seq<char>,
    basename: Seq<char>,
    nanos: nat,
    other_tenant: Seq<char>,
    other_workspace: Seq<char>,
    other_basename: Seq<char>,
    other_nanos: nat,
)
    requires
        object_key(prefix, tenant, workspace, basename, nanos) == object_key(
            prefix,
            other_tenant,
            other_workspace,
            other_basename,
            other_nanos,
        ),
    ensures
        sanitized(tenant) == sanitized(other_tenant),
        sanitized(workspace) == sanitized(other_workspace),
{
    law_segments_are_safe(tenant);
    law_segments_are_safe(workspace);
    law_segments_are_safe(other_tenant);
    law_segments_are_safe(other_workspace);
    let x = key_tail(basename, nanos);
    let y = key_tail(other_basename, other_nanos);
    let inner = sanitized(workspace) + "/"@ + x;
    let other_inner = sanitized(other_workspace) + "/"@ + y;
    lemma_key_parts(prefix, tenant, workspace, basename, nanos);
    lemma_key_parts(prefix, other_tenant, other_workspace, other_basename, other_nanos);
    lemma_slash(sanitized(tenant), inner, sanitized(other_tenant), other_inner);
    lemma_slash(sanitized(workspace), x, sanitized(other_workspace), y);
}

/// An object key is filed under its prefix, its tenant and its workspace.
pub proof fn law_keys_are_filed_by_tenant_and_workspace(
    prefix: Seq<char>,
    tenant: Seq<char>,
    workspace: Seq<char>,
    basename: Seq<char>,
    nanos: nat,
)
    ensures
        (prefix + sanitized(tenant) + "/"@ + sanitized(workspace) + "/"@).is_prefix_of(
            object_key(prefix, tenant, workspace, basename, nanos),
        ),
{
    let front = prefix + sanitized(tenant) + "/"@ + sanitized(workspace) + "/"@;
    let key = object_key(prefix, tenant, workspace, basename, nanos);
    assert(front =~= key.subrange(0, front.len() as int));
}

/// A segment of an object key is its text, character by character: letters,
/// digits, dashes, underscores and dots stay, and each other character is an
/// underscore, as is a text that has none.
pub proof fn law_segments_keep_their_characters(s: &str, segment: String)
    requires
        call_ensures(sanitize_segment, (s,), segment),
    ensures
        s@.len() == 0 ==> segment@ == seq!['_'],
        s@.len() > 0 ==> segment@.len() == s@.len(),
        forall|i: int|
            0 <= i < s@.len() ==> {
                let n = s@[i] as int;
                let stays = 48 <= n <= 57 || 65 <= n <= 90 || 97 <= n <= 122 || n == 45 || n == 46
                    || n == 95;
                #[trigger] segment@[i] == if stays {
                    s@[i]
                } else {
                    '_'
                }
            },
        segment@ == sanitized(s@),
{
    assert forall|i: int| 0 <= i < s@.len() implies {
        let n = s@[i] as int;
        let stays = 48 <= n <= 57 || 65 <= n <= 90 || 97 <= n <= 122 || n == 45 || n == 46 || n
            == 95;
        #[trigger] segment@[i] == if stays {
            s@[i]
        } else {
            '_'
        }
    } by {
        assert(sanitized(s@)[i] == segment@[i]);
    }
}

/// The nonce of an object key is eight digits, which read back as the low 32 bits
/// of the nanoseconds.
pub proof fn law_key_nonce_reads_back(nanos: nat)
    ensures
        key_nonce(nanos).len() == 8,
        numeral_value(key_nonce(nanos), 16) == nanos % 0x1_0000_0000,
        forall|i: int|
            0 <= i < key_nonce(nanos).len() ==> {
                let c = #[trigger] key_nonce(nanos)[i];
                '0' <= c <= '9' || 'a' <= c <= 'f'
            },
{
    let low = nanos % 0x1_0000_0000;
    let s = hexadecimal(low);
    assert(low < pow(16, 8)) by {
        reveal_with_fuel(pow, 9);
    }
    lemma_numeral_len(low, 16, 8);
    law_numerals_read_back(low, 16);
    if s.len() < 8 {
        lemma_leading_zeros((8 - s.len()) as nat, s, 16);
    }
}

/// An object key tells whose an artifact is, of what day and which it is, in this
/// order, between slashes.
pub proof fn law_keys_tell_whose_and_when(
    oss: &OssClient,
    tenant_id: &str,
    workspace_id: &str,
    basename: &str,
    now: &Duration,
    key: String,
)
    requires
        call_ensures(OssClient::build_key_at, (oss, tenant_id, workspace_id, basename, now), key),
    ensures
        key@ == oss.key_prefix@ + sanitized(tenant_id@) + seq!['/'] + sanitized(workspace_id@)
            + seq!['/'] + ymd(duration_nanos(*now) / 1_000_000_000nat) + seq!['/'] + key_nonce(
            duration_nanos(*now),
        ) + seq!['-'] + sanitized(basename@),
{
    reveal_strlit("/");
    reveal_strlit("-");
    assert("/"@ =~= seq!['/']);
    assert("-"@ =~= seq!['-']);
}

/// A key of this moment is the key of some moment.
pub proof fn law_keys_are_of_some_moment(
    oss: &OssClient,
    tenant_id: &str,
    workspace_id: &str,
    basename: &str,
    key: String,
)
    requires
        call_ensures(OssClient::build_key, (oss, tenant_id, workspace_id, basename), key),
    ensures
        (oss.key_prefix@ + sanitized(tenant_id@) + "/"@ + sanitized(workspace_id@)
            + "/"@).is_prefix_of(key@),
        ("-"@ + sanitized(basename@)).is_suffix_of(key@),
{
    let t = choose|t: SystemTime|
        key@ == object_key(
            oss.key_prefix@,
            tenant_id@,
            workspace_id@,
            basename@,
            #[trigger] nanos_since_epoch(t),
        );
    law_keys_are_filed_by_tenant_and_workspace(
        oss.key_prefix@,
        tenant_id@,
        workspace_id@,
        basename@,
        nanos_since_epoch(t),
    );
    let end = "-"@ + sanitized(basename@);
    assert(end =~= key@.subrange(key@.len() - end.len(), key@.len() as int));
}

/// The size of a file decides how it is sent: not at all above 1 GiB, in parts
/// above the size that is set, and at once otherwise.
pub proof fn law_size_decides_on_the_route(
    oss: &OssClient,
    size_bytes: u64,
    r: Result<UploadRoute>,
    checked: Result<()>,
)
    requires
        call_ensures(OssClient::upload_route, (oss, size_bytes), r),
        call_ensures(check_payload_size, (size_bytes,), checked),
    ensures
        r is Ok <==> size_bytes <= 1_073_741_824,
        checked is Ok <==> size_bytes <= 1_073_741_824,
        r matches Ok(route) ==> {
            &&& route == UploadRoute::Multipart <==> size_bytes > oss.multipart_threshold
            &&& route == UploadRoute::Single <==> size_bytes <= oss.multipart_threshold
        },
        r is Err ==> r->Err_0@ == checked->Err_0@,
        checked matches Err(e) ==> (e matches Error::Other(m) && m@
            == "payload too large to deliver: "@ + decimal(size_bytes as nat)
            + " bytes (max 1073741824)"@),
{
}

/// A client works with the settings as they are, but that parts are never smaller
/// than 5 MiB; and there is one exactly where both keys are.
pub proof fn law_client_is_as_configured(cfg: &TosConfig, r: Result<OssClient>)
    requires
        call_ensures(OssClient::connect, (cfg,), r),
    ensures
        r is Ok <==> cfg.access_key@.len() > 0 && cfg.secret_key@.len() > 0,
        r matches Err(e) ==> (e matches Error::Other(m) && m@
            == "tos.access_key and tos.secret_key must not be empty"@),
        r matches Ok(oss) ==> {
            &&& oss.bucket@ == cfg.bucket@
            &&& oss.key_prefix@ == cfg.key_prefix@
            &&& duration_nanos(oss.default_expires) == cfg.signed_url_expires_seconds
                * 1_000_000_000
            &&& duration_nanos(oss.max_expires) == cfg.signed_url_max_seconds * 1_000_000_000
            &&& duration_nanos(oss.upload_timeout) == cfg.upload_timeout_seconds * 1_000_000_000
            &&& oss.multipart_threshold == cfg.multipart_threshold_bytes
            &&& oss.part_size >= 5_242_880
            &&& oss.part_size == cfg.part_size_bytes || oss.part_size == 5_242_880
            &&& oss.part_size >= cfg.part_size_bytes
        },
{
}

/// A signed URL lives as long as was asked for, and never longer than is set nor
/// longer than a week.
pub proof fn law_signed_urls_live_as_asked_for(
    oss: &OssClient,
    ttl: Duration,
    granted: Duration,
    signed: Result<PresigningConfig>,
)
    requires
        call_ensures(OssClient::effective_expires, (oss, ttl), granted),
        call_ensures(OssClient::presigning, (oss, ttl), signed),
    ensures
        granted == ttl || granted == oss.max_expires,
        duration_nanos(granted) <= duration_nanos(ttl),
        duration_nanos(granted) <= duration_nanos(oss.max_expires),
        signed is Ok <==> duration_nanos(granted) <= 604_800_000_000_000,
        signed matches Ok(config) ==> duration_nanos(lifetime(config)) == duration_nanos(granted),
        signed matches Err(e) ==> (e matches Error::Other(m) && m@ == "presigning config: "@
            + "`expires_in` must be no longer than one week"@),
{
}

/// What is held in memory of a file is a part, as far as there is room.
pub proof fn law_part_fits_in_memory(oss: &OssClient, len: usize)
    requires
        call_ensures(OssClient::part_len, (oss,), len),
    ensures
        len <= oss.part_size,
        len < oss.part_size ==> len == usize::MAX,
{
}

/// What came of an upload is reported as it is, with the digest of the contents.
pub proof fn law_upload_is_reported_as_it_is(
    key: &str,
    size_bytes: u64,
    content_type: &str,
    data: &[u8],
    digest: String,
    at_once: UploadOutcome,
    in_parts: UploadOutcome,
)
    requires
        call_ensures(single_outcome, (key, size_bytes, content_type, data), at_once),
        call_ensures(outcome_with_digest, (key, size_bytes, content_type, digest), in_parts),
    ensures
        at_once.key@ == key@,
        at_once.size_bytes == size_bytes,
        at_once.content_type@ == content_type@,
        at_once.sha256_hex@ == hex_digits(sha256(data@)),
        in_parts.key@ == key@,
        in_parts.size_bytes == size_bytes,
        in_parts.content_type@ == content_type@,
        in_parts.sha256_hex@ == digest@,
{
}

/// A failure of the store is told in its words, behind what was asked of it, and a
/// late upload by its limit in whole seconds.
pub proof fn law_store_failures_are_told(
    oss: &OssClient,
    error: &str,
    put: Error,
    presign: Error,
    late: Error,
)
    requires
        call_ensures(put_failed, (error,), put),
        call_ensures(presign_failed, (error,), presign),
        call_ensures(OssClient::upload_timed_out, (oss,), late),
    ensures
        put matches Error::Other(m) && m@ == "put_object: "@ + error@,
        presign matches Error::Other(m) && m@ == "presign: "@ + error@,
        late matches Error::Other(m) && m@ == "upload timed out after "@ + decimal(
            duration_nanos(oss.upload_timeout) / 1_000_000_000nat,
        ) + "s"@,
{
}

/// A file whose name has no extension can hold anything; of any other the
/// extension alone says what it holds.
pub proof fn law_guessed_type_goes_by_the_extension(
    path: &str,
    guessed: &'static str,
    other_path: &str,
    other_guessed: &'static str,
)
    requires
        call_ensures(guess_content_type, (path,), guessed),
        call_ensures(guess_content_type, (other_path,), other_guessed),
    ensures
        guessed@ == content_type_of(path@),
        extension(path@) is None ==> guessed@ == "application/octet-stream"@,
        extension(path@) matches Some(ext) ==> guessed@ == type_of_extension(ext),
        extension(path@) == extension(other_path@) ==> guessed@ == other_guessed@,
{
}

/// A copy of a client works with the same settings, and a client tells the
/// lifetimes that are set.
pub proof fn law_client_tells_its_settings(
    oss: &OssClient,
    copy: OssClient,
    default: Duration,
    max: Duration,
)
    requires
        call_ensures(OssClient::clone, (oss,), copy),
        call_ensures(OssClient::default_expires, (oss,), default),
        call_ensures(OssClient::max_expires, (oss,), max),
    ensures
        copy.bucket@ == oss.bucket@,
        copy.key_prefix@ == oss.key_prefix@,
        copy.default_expires == oss.default_expires,
        copy.max_expires == oss.max_expires,
        copy.upload_timeout == oss.upload_timeout,
        copy.part_size == oss.part_size,
        copy.multipart_threshold == oss.multipart_threshold,
        duration_nanos(default) == duration_nanos(oss.default_expires),
        duration_nanos(max) == duration_nanos(oss.max_expires),
{
}

} // verus!
