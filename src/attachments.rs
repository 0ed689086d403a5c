//! The attachment pipeline: classifying attachments, the size policy, and the
//! text blocks that stand in for PDFs.
use vstd::prelude::*;
use base64::Engine;
use crate::text::{
    decimal_seq, ends_with_seq, from_chars, from_chars_range, join, join_seq, lower_of, owned,
    push_decimal, push_str, str_ends_with, str_is, to_chars, to_lower, trim, trim_seq, views,
};

verus! {

/// The largest image, in bytes, that a paste accepts.
pub const MAX_IMAGE_BYTES: u64 = 8388608;

/// The largest PDF, in bytes, that is forwarded.
pub const MAX_PDF_BYTES: u64 = 26214400;

/// The most characters of extracted PDF text that are forwarded.
pub const MAX_PDF_TEXT_CHARS: usize = 100000;

/// An attachment as the user interface hands it over.
#[derive(Clone, Debug)]
pub struct ChatAttachment {
    pub mime: String,
    pub b64: String,
    pub path: String,
}

/// The image types that the providers accept.
#[derive(Clone, Copy, Debug, PartialEq, Eq, Structural)]
pub enum ImageMediaType {
    Jpeg,
    Png,
    Webp,
    Heic,
    Heif,
}

/// What base64's standard engine decodes from `s`, or `None` where `s` is no
/// padded standard base64.
pub uninterp spec fn b64_decoded_of(s: Seq<char>) -> Option<Seq<u8>>;

/// What base64's standard engine encodes `b` as.
pub uninterp spec fn b64_encoded_of(b: Seq<u8>) -> Seq<char>;

/// Relies on `base64::engine::general_purpose::STANDARD.decode`: the bytes
/// that `s` encodes, or an error.
#[verifier::external_body]
fn b64_decode(s: &str) -> (r: Option<Vec<u8>>)
    ensures
        b64_decoded_of(s@) == (match r {
            Some(b) => Some(b@),
            None => None::<Seq<u8>>,
        }),
{
    base64::engine::general_purpose::STANDARD.decode(s.as_bytes()).ok()
}

/// Relies on `base64::engine::general_purpose::STANDARD.encode`: padded
/// standard base64, four characters for each started group of three bytes.
/// It panics only where that length overflows `usize`.
#[verifier::external_body]
fn b64_encode(b: &[u8]) -> (r: String)
    requires
        b@.len() <= usize::MAX / 2,
    ensures
        r@ == b64_encoded_of(b@),
        r@.len() == 4 * ((b@.len() + 2) / 3),
{
    base64::engine::general_purpose::STANDARD.encode(b)
}

/// A string compared case-insensitively: trimmed and lowercased.
pub open spec fn normalized(s: Seq<char>) -> Seq<char> {
    lower_of(trim_seq(s))
}

/// The media type that a normalized MIME type names.
pub open spec fn media_type_of(m: Seq<char>) -> Option<ImageMediaType> {
    if m == "image/jpeg"@ || m == "image/jpg"@ {
        Some(ImageMediaType::Jpeg)
    } else if m == "image/png"@ {
        Some(ImageMediaType::Png)
    } else if m == "image/webp"@ {
        Some(ImageMediaType::Webp)
    } else if m == "image/heic"@ {
        Some(ImageMediaType::Heic)
    } else if m == "image/heif"@ {
        Some(ImageMediaType::Heif)
    } else {
        None
    }
}

/// The media type of a MIME string as it is given.
pub open spec fn mime_media_type(mime: Seq<char>) -> Option<ImageMediaType> {
    media_type_of(normalized(mime))
}

/// An attachment is a PDF by its MIME type or by its path's extension.
pub open spec fn is_pdf(mime: Seq<char>, path: Seq<char>) -> bool {
    is_pdf_of_normalized(normalized(mime), normalized(path))
}

/// The image media type named by `mime`, ignoring case and surrounding space.
pub fn image_media_type_from_mime(mime: &str) -> (r: Option<ImageMediaType>)
    ensures
        r == mime_media_type(mime@),
{
    let m = to_lower(trim(mime).as_str());
    media_type_of_normalized(m.as_str())
}

/// The image media type named by a MIME type already trimmed and lowercased.
pub fn media_type_of_normalized(m: &str) -> (r: Option<ImageMediaType>)
    ensures
        r == media_type_of(m@),
{
    if str_is(m, "image/jpeg") || str_is(m, "image/jpg") {
        Some(ImageMediaType::Jpeg)
    } else if str_is(m, "image/png") {
        Some(ImageMediaType::Png)
    } else if str_is(m, "image/webp") {
        Some(ImageMediaType::Webp)
    } else if str_is(m, "image/heic") {
        Some(ImageMediaType::Heic)
    } else if str_is(m, "image/heif") {
        Some(ImageMediaType::Heif)
    } else {
        None
    }
}

/// Whether an attachment is a PDF: its MIME type is `application/pdf`, or its
/// path ends in `.pdf`, either ignoring case and surrounding space.
pub fn looks_like_pdf_attachment(a: &ChatAttachment) -> (r: bool)
    ensures
        r == is_pdf(a.mime@, a.path@),
{
    let mime = to_lower(trim(a.mime.as_str()).as_str());
    let path = to_lower(trim(a.path.as_str()).as_str());
    is_pdf_normalized(mime.as_str(), path.as_str())
}

/// A PDF by its normalized MIME type and path.
pub open spec fn is_pdf_of_normalized(mime: Seq<char>, path: Seq<char>) -> bool {
    mime == "application/pdf"@ || ends_with_seq(path, ".pdf"@)
}

/// Whether a MIME type and path, both already trimmed and lowercased, mark a PDF.
pub fn is_pdf_normalized(mime: &str, path: &str) -> (r: bool)
    ensures
        r == is_pdf_of_normalized(mime@, path@),
{
    str_is(mime, "application/pdf") || str_ends_with(path, ".pdf")
}

/// The note that replaces a PDF over the size limit.
pub open spec fn pdf_too_large_note(label: Seq<char>, size: nat) -> Seq<char> {
    "PDF ("@ + label + ") was too large to attach ("@ + decimal_seq(size) + " bytes; max "@
        + decimal_seq(MAX_PDF_BYTES as nat) + ")."@
}

/// The note for a PDF of `size` bytes, where it is over the limit.
pub fn pdf_size_note(label: &str, size: u64) -> (r: Option<String>)
    ensures
        size > MAX_PDF_BYTES ==> r is Some && r->0@ == pdf_too_large_note(label@, size as nat),
        size <= MAX_PDF_BYTES ==> r is None,
{
    if size > MAX_PDF_BYTES {
        let mut s = String::new();
        push_str(&mut s, "PDF (");
        push_str(&mut s, label);
        push_str(&mut s, ") was too large to attach (");
        push_decimal(&mut s, size);
        push_str(&mut s, " bytes; max ");
        push_decimal(&mut s, MAX_PDF_BYTES);
        push_str(&mut s, ").");
        Some(s)
    } else {
        None
    }
}

/// Extracted PDF text, cut to the character limit with a marker.
pub open spec fn limited_text(t: Seq<char>) -> Seq<char> {
    if t.len() > MAX_PDF_TEXT_CHARS {
        t.subrange(0, MAX_PDF_TEXT_CHARS as int) + "\n\n[PDF text truncated]"@
    } else {
        t
    }
}

/// The text block that stands for a PDF, given what extraction produced.
pub open spec fn pdf_block(label: Seq<char>, extracted: Result<Seq<char>, Seq<char>>) -> Seq<char> {
    match extracted {
        Ok(t) => "PDF ("@ + label + ") contents:\n\n```text\n"@ + trim_seq(limited_text(t))
            + "\n```"@,
        Err(e) => "PDF ("@ + label + ") could not be converted to text: "@ + e,
    }
}

pub open spec fn result_view(r: Result<String, String>) -> Result<Seq<char>, Seq<char>> {
    match r {
        Ok(t) => Ok(t@),
        Err(e) => Err(e@),
    }
}

/// The labelled text block for a PDF: its text, cut to the limit, in a fenced
/// block; or the reason it could not be converted.
pub fn pdf_text_part(label: &str, extracted: Result<String, String>) -> (r: String)
    ensures
        r@ == pdf_block(label@, result_view(extracted)),
{
    let mut s = String::new();
    push_str(&mut s, "PDF (");
    push_str(&mut s, label);
    match extracted {
        Ok(text) => {
            let chars = to_chars(text.as_str());
            let limited = if chars.len() > MAX_PDF_TEXT_CHARS {
                let mut cut = from_chars_range(&chars, 0, MAX_PDF_TEXT_CHARS);
                push_str(&mut cut, "\n\n[PDF text truncated]");
                cut
            } else {
                from_chars(&chars)
            };
            push_str(&mut s, ") contents:\n\n```text\n");
            let body = trim(limited.as_str());
            push_str(&mut s, body.as_str());
            push_str(&mut s, "\n```");
        },
        Err(e) => {
            push_str(&mut s, ") could not be converted to text: ");
            push_str(&mut s, e.as_str());
        },
    }
    s
}

/// What the request builder does with one attachment.
pub enum AttachmentPlan {
    /// A PDF on disk, to be size-checked and extracted.
    PdfFile { path: String },
    /// A PDF given inline, decoded and within the limit, to be extracted.
    PdfBytes { bytes: Vec<u8> },
    /// A note that stands in for the attachment.
    Note { text: String },
    /// An image part.
    Image { b64: String, media: Option<ImageMediaType> },
    /// Dropped without a word.
    Skip,
}

/// The label that a PDF given inline carries.
pub open spec fn inline_pdf_label() -> Seq<char> {
    "document.pdf"@
}

/// The plan for an attachment with these fields, for the Gemini provider or not.
pub open spec fn plan_agrees(
    r: AttachmentPlan,
    mime: Seq<char>,
    b64: Seq<char>,
    path: Seq<char>,
    gemini: bool,
) -> bool {
    if is_pdf(mime, path) {
        let p = trim_seq(path);
        let b = trim_seq(b64);
        if p.len() > 0 {
            r matches AttachmentPlan::PdfFile { path: q } && q@ == p
        } else if b.len() == 0 || b64_decoded_of(b) is None {
            r is Skip
        } else if b64_decoded_of(b)->0.len() > MAX_PDF_BYTES {
            r matches AttachmentPlan::Note { text } && text@ == pdf_too_large_note(
                inline_pdf_label(),
                b64_decoded_of(b)->0.len(),
            )
        } else {
            r matches AttachmentPlan::PdfBytes { bytes } && bytes@ == b64_decoded_of(b)->0
        }
    } else {
        let m = trim_seq(mime);
        let b = trim_seq(b64);
        if m.len() == 0 || b.len() == 0 {
            r is Skip
        } else if gemini && mime_media_type(m) is None {
            r is Skip
        } else {
            r matches AttachmentPlan::Image { b64: c, media } && c@ == b && media
                == mime_media_type(m)
        }
    }
}

/// Decides what happens to one attachment: a PDF is read from its path, or
/// decoded from its payload and held to the size limit; an image with a
/// payload becomes an image part (for Gemini only with a known media type);
/// anything else is dropped.
pub fn plan_attachment(a: &ChatAttachment, gemini: bool) -> (r: AttachmentPlan)
    ensures
        plan_agrees(r, a.mime@, a.b64@, a.path@, gemini),
{
    if looks_like_pdf_attachment(a) {
        let p = trim(a.path.as_str());
        if !p.as_str().is_empty() {
            return AttachmentPlan::PdfFile { path: p };
        }
        let b = trim(a.b64.as_str());
        if b.as_str().is_empty() {
            return AttachmentPlan::Skip;
        }
        match b64_decode(b.as_str()) {
            None => AttachmentPlan::Skip,
            Some(bytes) => {
                let n = bytes.len() as u64;
                match pdf_size_note("document.pdf", n) {
                    Some(text) => AttachmentPlan::Note { text },
                    None => AttachmentPlan::PdfBytes { bytes },
                }
            },
        }
    } else {
        let m = trim(a.mime.as_str());
        let b = trim(a.b64.as_str());
        if m.as_str().is_empty() || b.as_str().is_empty() {
            return AttachmentPlan::Skip;
        }
        let media = image_media_type_from_mime(m.as_str());
        if gemini && media.is_none() {
            return AttachmentPlan::Skip;
        }
        AttachmentPlan::Image { b64: b, media }
    }
}

/// How an attachment is counted in the conversation's summary.
pub open spec fn kind_of(a: ChatAttachment) -> int {
    if is_pdf(a.mime@, a.path@) {
        1
    } else if mime_media_type(trim_seq(a.mime@)) is Some && trim_seq(a.b64@).len() > 0 {
        0
    } else {
        2
    }
}

/// The number of attachments in `s` of kind `k`.
pub open spec fn count_kind(s: Seq<ChatAttachment>, k: int) -> nat
    decreases s.len(),
{
    if s.len() == 0 {
        0
    } else {
        count_kind(s.drop_last(), k) + if kind_of(s.last()) == k {
            1nat
        } else {
            0nat
        }
    }
}

/// `n` and a word, the word in the plural unless `n` is one.
pub open spec fn plural(n: nat, word: Seq<char>) -> Seq<char> {
    decimal_seq(n) + " "@ + word + if n == 1 {
        ""@
    } else {
        "s"@
    }
}

pub open spec fn part_if(n: nat, word: Seq<char>) -> Seq<Seq<char>> {
    if n > 0 {
        seq![plural(n, word)]
    } else {
        Seq::empty()
    }
}

/// The counted parts of the summary of `s`.
pub open spec fn summary_parts(s: Seq<ChatAttachment>) -> Seq<Seq<char>> {
    let parts = part_if(count_kind(s, 0), "image"@) + part_if(count_kind(s, 1), "pdf"@) + part_if(
        count_kind(s, 2),
        "file"@,
    );
    if parts.len() == 0 {
        seq![plural(s.len(), "attachment"@)]
    } else {
        parts
    }
}

/// The marker that the conversation shows for the attachments `s`.
pub open spec fn attachment_summary(s: Seq<ChatAttachment>) -> Seq<char> {
    "[Attached "@ + join_seq(summary_parts(s), ", "@) + "]"@
}

/// The body that the conversation stores for a message with attachments.
pub open spec fn stored_body_of(input: Seq<char>, s: Seq<ChatAttachment>) -> Seq<char> {
    if s.len() == 0 {
        input
    } else if input.len() > 0 {
        input + "\n\n"@ + attachment_summary(s)
    } else {
        attachment_summary(s)
    }
}

fn kind_exec(a: &ChatAttachment) -> (r: u8)
    ensures
        r as int == kind_of(*a),
{
    if looks_like_pdf_attachment(a) {
        return 1;
    }
    let m = trim(a.mime.as_str());
    let b = trim(a.b64.as_str());
    if image_media_type_from_mime(m.as_str()).is_some() && !b.as_str().is_empty() {
        0
    } else {
        2
    }
}

fn plural_exec(n: usize, word: &str) -> (r: String)
    ensures
        r@ == plural(n as nat, word@),
{
    let mut s = String::new();
    push_decimal(&mut s, n as u64);
    push_str(&mut s, " ");
    push_str(&mut s, word);
    if n != 1 {
        push_str(&mut s, "s");
    } else {
        proof {
            reveal_strlit("");
            assert(s@ + ""@ == s@);
        }
    }
    s
}

/// The body stored in the conversation for `input` sent with `attachments`:
/// the text, then a marker such as "[Attached 2 images, 1 pdf]".
pub fn stored_body(input: &str, attachments: &Vec<ChatAttachment>) -> (r: String)
    ensures
        r@ == stored_body_of(input@, attachments@),
{
    let mut body = from_chars(&to_chars(input));
    if attachments.len() == 0 {
        return body;
    }
    let mut images: usize = 0;
    let mut pdfs: usize = 0;
    let mut others: usize = 0;
    let mut i: usize = 0;
    while i < attachments.len()
        invariant
            i <= attachments@.len(),
            images == count_kind(attachments@.subrange(0, i as int), 0),
            pdfs == count_kind(attachments@.subrange(0, i as int), 1),
            others == count_kind(attachments@.subrange(0, i as int), 2),
            images + pdfs + others == i,
        decreases attachments@.len() - i,
    {
        let k = kind_exec(&attachments[i]);
        assert(attachments@.subrange(0, i + 1).drop_last() == attachments@.subrange(0, i as int));
        if k == 0 {
            images = images + 1;
        } else if k == 1 {
            pdfs = pdfs + 1;
        } else {
            others = others + 1;
        }
        i = i + 1;
    }
    assert(attachments@.subrange(0, attachments@.len() as int) == attachments@);
    let mut parts: Vec<String> = Vec::new();
    if images > 0 {
        parts.push(plural_exec(images, "image"));
    }
    if pdfs > 0 {
        parts.push(plural_exec(pdfs, "pdf"));
    }
    if others > 0 {
        parts.push(plural_exec(others, "file"));
    }
    if parts.len() == 0 {
        parts.push(plural_exec(attachments.len(), "attachment"));
    }
    let ghost s = attachments@;
    assert(views(parts@) == summary_parts(s));
    let ghost head = body@;
    if !body.as_str().is_empty() {
        push_str(&mut body, "\n\n");
    }
    let ghost prefix = body@;
    push_str(&mut body, "[Attached ");
    let joined = join(&parts, ", ");
    push_str(&mut body, joined.as_str());
    push_str(&mut body, "]");
    assert(body@ == prefix + attachment_summary(s));
    body
}

/// Plans every attachment of a request, each on its own.
pub fn plan_attachments(attachments: &Vec<ChatAttachment>, gemini: bool) -> (r: Vec<AttachmentPlan>)
    ensures
        r@.len() == attachments@.len(),
        forall|i: int|
            0 <= i < r@.len() ==> plan_agrees(
                #[trigger] r@[i],
                attachments@[i].mime@,
                attachments@[i].b64@,
                attachments@[i].path@,
                gemini,
            ),
{
    let mut out: Vec<AttachmentPlan> = Vec::new();
    let mut i: usize = 0;
    while i < attachments.len()
        invariant
            i <= attachments@.len(),
            out@.len() == i,
            forall|j: int|
                0 <= j < i ==> plan_agrees(
                    #[trigger] out@[j],
                    attachments@[j].mime@,
                    attachments@[j].b64@,
                    attachments@[j].path@,
                    gemini,
                ),
        decreases attachments@.len() - i,
    {
        let p = plan_attachment(&attachments[i], gemini);
        out.push(p);
        i = i + 1;
    }
    out
}

/// Where a pasted image came from; the note over the limit names it.
#[derive(Clone, Copy, Debug, PartialEq, Eq, Structural)]
pub enum PasteSource {
    Clipboard,
    File,
}

/// The note that replaces a pasted image over the size limit.
pub open spec fn image_too_large_note(source: PasteSource, size: nat) -> Seq<char> {
    (if source == PasteSource::Clipboard {
        "Clipboard image too large ("@
    } else {
        "Image file too large ("@
    }) + decimal_seq(size) + " bytes; max "@ + decimal_seq(MAX_IMAGE_BYTES as nat) + ")."@
}

/// An attachment for pasted image bytes: refused with a note over the size
/// limit, otherwise carried as base64 with its MIME type and path.
pub fn pasted_image_attachment(source: PasteSource, mime: &str, path: &str, bytes: &Vec<u8>) -> (r: Result<ChatAttachment, String>)
    ensures
        bytes@.len() > MAX_IMAGE_BYTES ==> (r matches Err(note) && note@ == image_too_large_note(
            source,
            bytes@.len(),
        )),
        bytes@.len() <= MAX_IMAGE_BYTES ==> (r matches Ok(a) && a.mime@ == mime@ && a.path@ == path@
            && a.b64@ == b64_encoded_of(bytes@)),
{
    let n = bytes.len();
    if n as u64 > MAX_IMAGE_BYTES {
        let mut note = String::new();
        match source {
            PasteSource::Clipboard => push_str(&mut note, "Clipboard image too large ("),
            PasteSource::File => push_str(&mut note, "Image file too large ("),
        }
        push_decimal(&mut note, n as u64);
        push_str(&mut note, " bytes; max ");
        push_decimal(&mut note, MAX_IMAGE_BYTES);
        push_str(&mut note, ").");
        return Err(note);
    }
    let b64 = b64_encode(bytes.as_slice());
    Ok(ChatAttachment { mime: owned(mime), b64, path: owned(path) })
}

/// What a pasted file is, by its extension.
pub enum PastedFileKind {
    Pdf,
    Image { mime: String },
    Unsupported,
}

/// The kind of a pasted file by its lowercased path.
pub open spec fn pasted_kind_agrees(r: PastedFileKind, path: Seq<char>) -> bool {
    pasted_kind_agrees_lowered(r, lower_of(path))
}

/// The kind of a pasted file by its path, already lowercased.
pub open spec fn pasted_kind_agrees_lowered(r: PastedFileKind, lp: Seq<char>) -> bool {
    if ends_with_seq(lp, ".pdf"@) {
        r is Pdf
    } else if ends_with_seq(lp, ".png"@) {
        r matches PastedFileKind::Image { mime } && mime@ == "image/png"@
    } else if ends_with_seq(lp, ".jpg"@) || ends_with_seq(lp, ".jpeg"@) {
        r matches PastedFileKind::Image { mime } && mime@ == "image/jpeg"@
    } else if ends_with_seq(lp, ".webp"@) {
        r matches PastedFileKind::Image { mime } && mime@ == "image/webp"@
    } else {
        r is Unsupported
    }
}

/// Classifies a pasted file by its extension, ignoring case.
pub fn pasted_file_kind(path: &str) -> (r: PastedFileKind)
    ensures
        pasted_kind_agrees(r, path@),
{
    let lp = to_lower(path);
    pasted_file_kind_lowered(lp.as_str())
}

/// Classifies a pasted file by the extension of its lowercased path.
pub fn pasted_file_kind_lowered(lp: &str) -> (r: PastedFileKind)
    ensures
        pasted_kind_agrees_lowered(r, lp@),
{
    if str_ends_with(lp, ".pdf") {
        PastedFileKind::Pdf
    } else if str_ends_with(lp, ".png") {
        PastedFileKind::Image { mime: owned("image/png") }
    } else if str_ends_with(lp, ".jpg") || str_ends_with(lp, ".jpeg") {
        PastedFileKind::Image { mime: owned("image/jpeg") }
    } else if str_ends_with(lp, ".webp") {
        PastedFileKind::Image { mime: owned("image/webp") }
    } else {
        PastedFileKind::Unsupported
    }
}

/// The attachment for a pasted PDF: its path, read later.
pub fn pasted_pdf_attachment(path: &str) -> (r: ChatAttachment)
    ensures
        r.mime@ == "application/pdf"@,
        r.b64@.len() == 0,
        r.path@ == path@,
{
    ChatAttachment { mime: owned("application/pdf"), b64: String::new(), path: owned(path) }
}

/// An inline PDF over the size limit is never forwarded: its plan is the note
/// that names its size; and every attachment of a list is planned on its own,
/// so the others are forwarded as they would be alone.
pub proof fn lemma_oversized_pdf_becomes_note(
    plans: Seq<AttachmentPlan>,
    atts: Seq<ChatAttachment>,
    gemini: bool,
    i: int,
)
    requires
        plans.len() == atts.len(),
        forall|j: int|
            0 <= j < plans.len() ==> plan_agrees(
                #[trigger] plans[j],
                atts[j].mime@,
                atts[j].b64@,
                atts[j].path@,
                gemini,
            ),
        0 <= i < atts.len(),
        is_pdf(atts[i].mime@, atts[i].path@),
        trim_seq(atts[i].path@).len() == 0,
        trim_seq(atts[i].b64@).len() > 0,
        b64_decoded_of(trim_seq(atts[i].b64@)) matches Some(b) && b.len() > MAX_PDF_BYTES,
    ensures
        plans[i] matches AttachmentPlan::Note { text } && text@ == pdf_too_large_note(
            inline_pdf_label(),
            b64_decoded_of(trim_seq(atts[i].b64@))->0.len(),
        ),
        !(plans[i] is PdfBytes),
        !(plans[i] is Image),
{
    assert(plan_agrees(plans[i], atts[i].mime@, atts[i].b64@, atts[i].path@, gemini));
}

/// What `Path::file_name` gives for `path`, where it is valid UTF-8.
pub uninterp spec fn file_name_of(path: Seq<char>) -> Option<Seq<char>>;

/// Relies on `std::path::Path::file_name` and `OsStr::to_str`: the final
/// component of the path, if it has one.
#[verifier::external_body]
fn file_name(path: &str) -> (r: Option<String>)
    ensures
        file_name_of(path@) == (match r {
            Some(s) => Some(s@),
            None => None::<Seq<char>>,
        }),
{
    let name = std::path::Path::new(path).file_name()?;
    let s = name.to_str()?;
    Some(s.to_string())
}

/// The label of a PDF in the prompt: its file name, or "document.pdf".
pub open spec fn pdf_label(path: Seq<char>) -> Seq<char> {
    match file_name_of(path) {
        Some(n) => n,
        None => inline_pdf_label(),
    }
}

/// The label of a PDF in the prompt: its file name, or "document.pdf".
pub fn pdf_label_from_path(path: &str) -> (r: String)
    ensures
        r@ == pdf_label(path@),
{
    match file_name(path) {
        Some(n) => n,
        None => owned("document.pdf"),
    }
}

/// One part of the prompt sent to a provider.
pub enum PromptPart {
    Text(String),
    Image { b64: String, media: Option<ImageMediaType> },
}

/// The number of leading text parts that a prompt contributes: one unless it is blank.
pub open spec fn prompt_count(prompt: Seq<char>) -> int {
    if trim_seq(prompt).len() > 0 {
        1
    } else {
        0
    }
}

/// The content of the user turn: the prompt text first where it is not blank,
/// then the parts the attachments resolved to, in order; an error where
/// nothing is left to send.
pub fn prompt_parts(prompt: &str, resolved: Vec<PromptPart>) -> (r: Result<Vec<PromptPart>, String>)
    ensures
        prompt_count(prompt@) + resolved@.len() == 0 ==> (r matches Err(e) && e@
            == "No valid attachments to send."@),
        prompt_count(prompt@) + resolved@.len() > 0 ==> (r matches Ok(v) && v@.len()
            == prompt_count(prompt@) + resolved@.len() && (prompt_count(prompt@) == 1 ==> (
        v@[0] matches PromptPart::Text(t) && t@ == prompt@)) && v@.subrange(
            prompt_count(prompt@),
            v@.len() as int,
        ) == resolved@),
{
    let t = trim(prompt);
    let mut out: Vec<PromptPart> = Vec::new();
    if !t.as_str().is_empty() {
        out.push(PromptPart::Text(owned(prompt)));
    }
    let ghost first = out@;
    let mut rest = resolved;
    out.append(&mut rest);
    if out.len() == 0 {
        return Err(owned("No valid attachments to send."));
    }
    assert(out@.subrange(first.len() as int, out@.len() as int) =~= resolved@);
    Ok(out)
}

/// The file extension under which a pasted image of type `mime` is kept.
pub open spec fn paste_extension_of(mime: Seq<char>) -> Seq<char> {
    if mime == "image/png"@ {
        "png"@
    } else if mime == "image/jpeg"@ {
        "jpg"@
    } else {
        "img"@
    }
}

/// The file extension under which a pasted image of type `mime` is kept.
pub fn paste_extension(mime: &str) -> (r: String)
    ensures
        r@ == paste_extension_of(mime@),
{
    if str_is(mime, "image/png") {
        owned("png")
    } else if str_is(mime, "image/jpeg") {
        owned("jpg")
    } else {
        owned("img")
    }
}

/// The image type that a pasted file's lowercased path names by its extension.
pub open spec fn pasted_image_mime(lp: Seq<char>) -> Option<Seq<char>> {
    if ends_with_seq(lp, ".png"@) {
        Some("image/png"@)
    } else if ends_with_seq(lp, ".jpg"@) || ends_with_seq(lp, ".jpeg"@) {
        Some("image/jpeg"@)
    } else if ends_with_seq(lp, ".webp"@) {
        Some("image/webp"@)
    } else {
        None
    }
}

/// The fields of an attachment.
pub open spec fn attachment_fields(a: ChatAttachment) -> (Seq<char>, Seq<char>, Seq<char>) {
    (a.mime@, a.b64@, a.path@)
}

pub open spec fn bytes_view(c: Option<Vec<u8>>) -> Option<Seq<u8>> {
    match c {
        Some(b) => Some(b@),
        None => None,
    }
}

/// The attachments (as their fields) and the notes that pasting the files
/// `paths` gives, where `contents[i]` is what reading an image at `paths[i]` gave.
pub open spec fn pasted_of(paths: Seq<Seq<char>>, contents: Seq<Option<Seq<u8>>>) -> (
    Seq<(Seq<char>, Seq<char>, Seq<char>)>,
    Seq<Seq<char>>,
)
    decreases paths.len(),
{
    if paths.len() == 0 || contents.len() != paths.len() {
        (Seq::empty(), Seq::empty())
    } else {
        let (a, n) = pasted_of(paths.drop_last(), contents.drop_last());
        let p = paths.last();
        let lp = lower_of(p);
        if ends_with_seq(lp, ".pdf"@) {
            (a.push(("application/pdf"@, Seq::empty(), p)), n)
        } else {
            match pasted_image_mime(lp) {
                None => (a, n),
                Some(m) => match contents.last() {
                    None => (a, n),
                    Some(b) => if b.len() > MAX_IMAGE_BYTES {
                        (a, n.push(image_too_large_note(PasteSource::File, b.len())))
                    } else {
                        (a.push((m, b64_encoded_of(b), p)), n)
                    },
                },
            }
        }
    }
}

/// What pasting a list of files gives: the attachments, in order, and a note
/// for each image over the size limit.
pub struct PastedFiles {
    pub attachments: Vec<ChatAttachment>,
    pub notes: Vec<String>,
}

/// Turns pasted files into attachments: PDFs by path, images by content (read
/// by the caller into `contents[i]` for an image at `paths[i]`, `None` where
/// the read failed), over-sized images into notes, anything else dropped.
pub fn collect_pasted_files(paths: &Vec<String>, contents: &Vec<Option<Vec<u8>>>) -> (r: PastedFiles)
    requires
        paths@.len() == contents@.len(),
    ensures
        r.attachments@.map_values(|a: ChatAttachment| attachment_fields(a)) == pasted_of(
            views(paths@),
            contents@.map_values(|c: Option<Vec<u8>>| bytes_view(c)),
        ).0,
        views(r.notes@) == pasted_of(
            views(paths@),
            contents@.map_values(|c: Option<Vec<u8>>| bytes_view(c)),
        ).1,
{
    let ghost ps = views(paths@);
    let ghost cs = contents@.map_values(|c: Option<Vec<u8>>| bytes_view(c));
    let mut atts: Vec<ChatAttachment> = Vec::new();
    let mut notes: Vec<String> = Vec::new();
    let mut i: usize = 0;
    while i < paths.len()
        invariant
            i <= paths@.len() == contents@.len(),
            ps == views(paths@),
            cs == contents@.map_values(|c: Option<Vec<u8>>| bytes_view(c)),
            atts@.map_values(|a: ChatAttachment| attachment_fields(a)) == pasted_of(
                ps.subrange(0, i as int),
                cs.subrange(0, i as int),
            ).0,
            views(notes@) == pasted_of(ps.subrange(0, i as int), cs.subrange(0, i as int)).1,
        decreases paths@.len() - i,
    {
        let ghost old_atts = atts@;
        let ghost old_notes = notes@;
        assert(ps.subrange(0, i + 1).drop_last() == ps.subrange(0, i as int));
        assert(cs.subrange(0, i + 1).drop_last() == cs.subrange(0, i as int));
        assert(ps.subrange(0, i + 1).last() == paths@[i as int]@);
        assert(cs.subrange(0, i + 1).last() == bytes_view(contents@[i as int]));
        let path = paths[i].as_str();
        match pasted_file_kind(path) {
            PastedFileKind::Pdf => {
                let a = pasted_pdf_attachment(path);
                assert(a.b64@ =~= Seq::<char>::empty());
                atts.push(a);
                assert(atts@.map_values(|a: ChatAttachment| attachment_fields(a)) =~= old_atts.map_values(
                    |a: ChatAttachment| attachment_fields(a),
                ).push(attachment_fields(a)));
            },
            PastedFileKind::Image { mime } => {
                match &contents[i] {
                    None => {},
                    Some(bytes) => {
                        match pasted_image_attachment(PasteSource::File, mime.as_str(), path, bytes) {
                            Ok(a) => {
                                let ghost f = attachment_fields(a);
                                atts.push(a);
                                assert(atts@.map_values(|a: ChatAttachment| attachment_fields(a))
                                    =~= old_atts.map_values(|a: ChatAttachment| attachment_fields(a)).push(f));
                            },
                            Err(note) => {
                                let ghost nv = note@;
                                notes.push(note);
                                assert(views(notes@) =~= views(old_notes).push(nv));
                            },
                        }
                    },
                }
            },
            PastedFileKind::Unsupported => {},
        }
        i = i + 1;
    }
    assert(ps.subrange(0, i as int) == ps);
    assert(cs.subrange(0, i as int) == cs);
    PastedFiles { attachments: atts, notes }
}

/// A pasted image over the size limit is never listed: pasting it after any
/// files adds no attachment and one note naming its size, and the files
/// before it keep what they gave.
pub proof fn lemma_oversized_paste_becomes_note(paths: Seq<Seq<char>>, contents: Seq<Option<Seq<u8>>>)
    requires
        paths.len() == contents.len(),
        paths.len() > 0,
        !ends_with_seq(lower_of(paths.last()), ".pdf"@),
        pasted_image_mime(lower_of(paths.last())) is Some,
        contents.last() matches Some(b) && b.len() > MAX_IMAGE_BYTES,
    ensures
        pasted_of(paths, contents).0 == pasted_of(paths.drop_last(), contents.drop_last()).0,
        pasted_of(paths, contents).1 == pasted_of(paths.drop_last(), contents.drop_last()).1.push(
            image_too_large_note(PasteSource::File, contents.last()->0.len()),
        ),
{
}

} // verus!
