use qs_native::attachments::{
    image_media_type_from_mime, looks_like_pdf_attachment, pasted_file_kind, pasted_image_attachment,
    pasted_pdf_attachment, pdf_label_from_path, pdf_size_note, pdf_text_part, plan_attachment,
    plan_attachments, stored_body, AttachmentPlan, ChatAttachment, ImageMediaType, PasteSource,
    PastedFileKind, MAX_IMAGE_BYTES, MAX_PDF_BYTES,
};
use base64::Engine;
use qs_native::attachments::{collect_pasted_files, paste_extension, prompt_parts, PromptPart};
use qs_native::attachments::{
    is_pdf_normalized, media_type_of_normalized, pasted_file_kind_lowered,
};
use qs_native::catalog::model_id_allowed_lowered;
use qs_native::flow::{command_of_lowered, parse_command, Command};
use qs_native::system::{default_disk_device, disk_candidates, read_disk_health};
use qs_native::cache::{ClientSlot, ProviderClientCache};
use qs_native::catalog::openai_model_allowed;
use qs_native::diagnostics::{fmt_opt_time, CacheFlags, VerifyStage};
use qs_native::errors::{
    clean_provider_message, locate_error_payload, message_from_payload, sanitize_error,
    try_extract_error_message_from_rig_error_text,
};
use qs_native::flow::has_required_api_key;
use qs_native::session::{ChatSession, SessionConfig};
use qs_native::system::{clamp_i32, format_uptime, parse_smartctl_value};
use qs_native::uri::{parse_uri_list_to_paths, percent_decode};

fn att(mime: &str, b64: &str, path: &str) -> ChatAttachment {
    ChatAttachment { mime: mime.to_string(), b64: b64.to_string(), path: path.to_string() }
}

#[test]
fn sanitizer_extracts_rate_limit_message() {
    let raw = "... with message: {\"error\":{\"message\":\"Rate limited. For more information see https://x\"}}";
    assert_eq!(sanitize_error(raw), "Rate limited");
    assert_eq!(
        try_extract_error_message_from_rig_error_text(raw),
        Some("Rate limited".to_string())
    );
}

#[test]
fn sanitizer_falls_back_to_raw_error() {
    assert_eq!(sanitize_error("connection refused"), "connection refused");
    assert_eq!(sanitize_error("x with message: not json"), "x with message: not json");
    assert_eq!(
        sanitize_error("x with message: {\"error\":{\"message\":\"...\"}}"),
        "x with message: {\"error\":{\"message\":\"...\"}}"
    );
}

#[test]
fn sanitizer_pieces() {
    assert_eq!(
        locate_error_payload("a with message:  junk {\"k\": 1}  "),
        Some("{\"k\": 1}".to_string())
    );
    assert_eq!(locate_error_payload("no marker"), None);
    assert_eq!(message_from_payload(Some("Quota hit. See http://q".to_string())), Some("Quota hit. See".to_string()));
    assert_eq!(message_from_payload(Some(" ... ".to_string())), None);
    assert_eq!(message_from_payload(None), None);
    assert_eq!(clean_provider_message("  Bad key for more information x. "), "Bad key");
}

#[test]
fn media_types_and_pdf_detection() {
    assert_eq!(image_media_type_from_mime(" IMAGE/JPG "), Some(ImageMediaType::Jpeg));
    assert_eq!(image_media_type_from_mime("image/heif"), Some(ImageMediaType::Heif));
    assert_eq!(image_media_type_from_mime("image/gif"), None);
    assert!(looks_like_pdf_attachment(&att("Application/PDF", "", "")));
    assert!(looks_like_pdf_attachment(&att("", "", "/tmp/A.PDF ")));
    assert!(!looks_like_pdf_attachment(&att("image/png", "x", "/tmp/a.png")));
}

#[test]
fn attachment_summary_suffix() {
    let atts = vec![
        att("image/png", "aGk=", ""),
        att("image/jpeg", "aGk=", ""),
        att("application/pdf", "", "/tmp/a.pdf"),
    ];
    assert_eq!(stored_body("look", &atts), "look\n\n[Attached 2 images, 1 pdf]");
    assert_eq!(stored_body("", &vec![att("text/plain", "eA==", "")]), "[Attached 1 file]");
    assert_eq!(stored_body("plain", &Vec::new()), "plain");
}

#[test]
fn oversized_pdf_becomes_note_and_others_still_go() {
    let big = vec![0u8; (MAX_PDF_BYTES + 1) as usize];
    let b64 = base64::engine::general_purpose::STANDARD.encode(&big);
    let atts = vec![
        att("application/pdf", &b64, ""),
        att("image/png", " aGk= ", ""),
        att("application/pdf", "JVBERg==", ""),
    ];
    let plans = plan_attachments(&atts, false);
    match &plans[0] {
        AttachmentPlan::Note { text } => assert_eq!(
            text,
            "PDF (document.pdf) was too large to attach (26214401 bytes; max 26214400)."
        ),
        _ => panic!("expected a note"),
    }
    match &plans[1] {
        AttachmentPlan::Image { b64, media } => {
            assert_eq!(b64, "aGk=");
            assert_eq!(*media, Some(ImageMediaType::Png));
        }
        _ => panic!("expected an image"),
    }
    match &plans[2] {
        AttachmentPlan::PdfBytes { bytes } => assert_eq!(bytes, b"%PDF"),
        _ => panic!("expected pdf bytes"),
    }
}

#[test]
fn plan_edge_cases() {
    assert!(matches!(plan_attachment(&att("application/pdf", "", " /d/x.pdf "), true), AttachmentPlan::PdfFile { ref path } if path == "/d/x.pdf"));
    assert!(matches!(plan_attachment(&att("application/pdf", "!!", ""), false), AttachmentPlan::Skip));
    assert!(matches!(plan_attachment(&att("image/gif", "aGk=", ""), true), AttachmentPlan::Skip));
    assert!(matches!(plan_attachment(&att("image/gif", "aGk=", ""), false), AttachmentPlan::Image { media: None, .. }));
    assert!(matches!(plan_attachment(&att("", "aGk=", ""), false), AttachmentPlan::Skip));
}

#[test]
fn resolved_pdf_size_policy() {
    assert_eq!(pdf_size_note("a.pdf", MAX_PDF_BYTES), None);
    assert_eq!(
        pdf_size_note("a.pdf", MAX_PDF_BYTES + 1),
        Some("PDF (a.pdf) was too large to attach (26214401 bytes; max 26214400).".to_string())
    );
    assert_eq!(pdf_label_from_path("/tmp/dir/report.pdf"), "report.pdf");
    assert_eq!(pdf_label_from_path("/"), "document.pdf");
}

#[test]
fn pdf_text_blocks() {
    assert_eq!(
        pdf_text_part("r.pdf", Ok("  text  ".to_string())),
        "PDF (r.pdf) contents:\n\n```text\ntext\n```"
    );
    assert_eq!(
        pdf_text_part("r.pdf", Err("broken".to_string())),
        "PDF (r.pdf) could not be converted to text: broken"
    );
    let long = "é".repeat(100_001);
    let part = pdf_text_part("l.pdf", Ok(long));
    assert!(part.ends_with("\n\n[PDF text truncated]\n```"));
    assert_eq!(part.chars().filter(|c| *c == 'é').count(), 100_000);
}

#[test]
fn clipboard_image_limit() {
    let big = vec![1u8; (MAX_IMAGE_BYTES + 1) as usize];
    assert_eq!(
        pasted_image_attachment(PasteSource::Clipboard, "image/png", "/tmp/p.png", &big).err(),
        Some("Clipboard image too large (8388609 bytes; max 8388608).".to_string())
    );
    assert_eq!(
        pasted_image_attachment(PasteSource::File, "image/png", "/tmp/p.png", &big).err(),
        Some("Image file too large (8388609 bytes; max 8388608).".to_string())
    );
    let ok = pasted_image_attachment(PasteSource::Clipboard, "image/png", "/tmp/p.png", &b"hi".to_vec()).unwrap();
    assert_eq!(ok.b64, "aGk=");
    assert_eq!(ok.mime, "image/png");
    assert_eq!(ok.path, "/tmp/p.png");
}

#[test]
fn pasted_files_by_extension() {
    assert!(matches!(pasted_file_kind("/a/B.PDF"), PastedFileKind::Pdf));
    assert!(matches!(pasted_file_kind("/a/b.JPEG"), PastedFileKind::Image { ref mime } if mime == "image/jpeg"));
    assert!(matches!(pasted_file_kind("/a/b.webp"), PastedFileKind::Image { ref mime } if mime == "image/webp"));
    assert!(matches!(pasted_file_kind("/a/b.txt"), PastedFileKind::Unsupported));
    let pdf = pasted_pdf_attachment("/a/b.pdf");
    assert_eq!(pdf.mime, "application/pdf");
    assert_eq!(pdf.b64, "");
}

#[test]
fn uri_lists() {
    assert_eq!(percent_decode("/a%20b%2Fc%zz%4"), "/a b/c%zz%4");
    let list = "# comment\r\nfile:///home/u/My%20File.pdf\r\nfile://localhost/tmp/x.png\nfile://other/y\nhttp://z\n\n";
    assert_eq!(
        parse_uri_list_to_paths(list),
        vec!["/home/u/My File.pdf".to_string(), "/tmp/x.png".to_string()]
    );
    assert!(parse_uri_list_to_paths("").is_empty());
}

#[test]
fn client_slot_reuses_and_rebuilds() {
    let mut slot: ClientSlot<u32> = ClientSlot::new();
    let mut builds = 0u32;
    assert!(slot.ensure_built("k", "u", || { builds += 1; Ok(builds) }).is_ok());
    assert!(slot.ensure_built("k", "u", || { builds += 1; Ok(builds) }).is_ok());
    assert_eq!(builds, 1);
    assert_eq!(slot.get("k", "u"), Some(&1));
    assert!(slot.ensure_built("k2", "u", || { builds += 1; Ok(builds) }).is_ok());
    assert_eq!(slot.get("k", "u"), None);
    assert_eq!(slot.get("k2", "u"), Some(&2));
    assert!(slot.ensure_built("k2", "v", || { builds += 1; Ok(builds) }).is_ok());
    assert_eq!(slot.get("k2", "v"), Some(&3));
    assert_eq!(slot.ensure_built("k3", "v", || Err("bad key".to_string())), Err("bad key".to_string()));
    assert_eq!(slot.get("k2", "v"), Some(&3));
}

#[test]
fn provider_cache_trims_base_url() {
    let mut cache: ProviderClientCache<u8, u8, u8> = ProviderClientCache::new();
    assert!(cache.ensure_openai("k", " https://api ", || Ok(1)).is_ok());
    assert_eq!(cache.openai.get("k", "https://api"), Some(&1));
    assert!(cache.ensure_openai("k", "https://api", || Ok(2)).is_ok());
    assert_eq!(cache.openai.get("k", "https://api"), Some(&1));
    assert!(cache.ensure_gemini("g", || Ok(5)).is_ok());
    assert!(cache.ensure_http(|| Ok(9)).is_ok());
    assert_eq!(cache.http.get("", ""), Some(&9));
}

#[test]
fn diagnostics_text() {
    assert_eq!(fmt_opt_time(None), "never");
    assert_eq!(fmt_opt_time(Some(0)), "1970-01-01T00:00:00+00:00");
    assert_eq!(fmt_opt_time(Some(u64::MAX)), "18446744073709551615");
    let mut s = ChatSession::new(
        SessionConfig {
            model_id: "gpt-5-mini".to_string(),
            system_prompt: String::new(),
            openai_api_key: String::new(),
            gemini_api_key: String::new(),
            openai_base_url: " ".to_string(),
        },
        1,
    );
    let flags = CacheFlags { http: true, openai: false, gemini: false };
    let snap = s.debug_snapshot(flags);
    assert!(snap.contains("- HTTP pooled client cached: `yes`"));
    assert!(snap.contains("- OpenAI base URL: `<default>`"));
    assert!(snap.contains("- Last request: `never`"));
    assert!(s.debug_report(flags, 2).is_none());
    assert_eq!(s.messages.last().unwrap().body, "**Debug**\n\nVerify skipped: OPENAI_API_KEY not set.");
    s.verify_not_started(VerifyStage::Client, "bad", 3);
    assert_eq!(s.messages.last().unwrap().body, "**Debug**\n\nVerify failed to start: bad");
    s.record_verify(Err("verify failed: 401".to_string()), 42, 4);
    assert_eq!(s.last_verify_ok, Some(false));
    assert_eq!(s.messages.last().unwrap().body, "**Debug**\n\nVerify: failed (42ms)\n\nverify failed: 401");
    s.record_verify(Ok(()), 7, 5);
    assert_eq!(s.messages.last().unwrap().body, "**Debug**\n\nVerify: ok (7ms)");
}

#[test]
fn key_check_and_model_filter() {
    assert!(has_required_api_key("gemini-2.5", "", "g"));
    assert!(!has_required_api_key("gemini-2.5", "o", ""));
    assert!(has_required_api_key("gpt-5", "o", ""));
    assert!(openai_model_allowed("GPT-5-mini"));
    assert!(openai_model_allowed("o3"));
    assert!(!openai_model_allowed("gpt-4o-audio-preview"));
    assert!(!openai_model_allowed("text-embedding-3"));
    assert!(!openai_model_allowed("davinci"));
}

#[test]
fn system_helpers() {
    assert_eq!(clamp_i32(5, 0, 3), 3);
    assert_eq!(clamp_i32(-1, 0, 3), 0);
    assert_eq!(clamp_i32(2, 0, 3), 2);
    assert_eq!(format_uptime(0), "0 minutes");
    assert_eq!(format_uptime(60), "1 minute");
    assert_eq!(format_uptime(86400 + 2 * 3600 + 59), "1 day, 2 hours");
    assert_eq!(format_uptime(2 * 86400 + 3600 + 120), "2 days, 1 hour, 2 minutes");
    let out = "Model: X\r\nSMART overall-health self-assessment test result: PASSED\nTemperature:  41 Celsius\n";
    assert_eq!(
        parse_smartctl_value(out, "self-assessment test result"),
        Some("PASSED".to_string())
    );
    assert_eq!(parse_smartctl_value(out, "Temperature"), Some("41 Celsius".to_string()));
    assert_eq!(parse_smartctl_value(out, "Missing"), None);
}

#[test]
fn prompt_parts_order_and_empty_request() {
    let parts = prompt_parts("hi", vec![PromptPart::Text("note".to_string())]).unwrap();
    assert_eq!(parts.len(), 2);
    assert!(matches!(&parts[0], PromptPart::Text(t) if t == "hi"));
    assert!(matches!(&parts[1], PromptPart::Text(t) if t == "note"));
    let only = prompt_parts("  ", vec![PromptPart::Image { b64: "aGk=".to_string(), media: None }]).unwrap();
    assert_eq!(only.len(), 1);
    assert_eq!(prompt_parts(" ", Vec::new()).err(), Some("No valid attachments to send.".to_string()));
}

#[test]
fn paste_extensions() {
    assert_eq!(paste_extension("image/png"), "png");
    assert_eq!(paste_extension("image/jpeg"), "jpg");
    assert_eq!(paste_extension("image/webp"), "img");
}

#[test]
fn pasted_files_in_order_with_notes() {
    let paths = vec![
        "/a/doc.PDF".to_string(),
        "/a/big.png".to_string(),
        "/a/small.jpg".to_string(),
        "/a/missing.webp".to_string(),
        "/a/notes.txt".to_string(),
    ];
    let contents = vec![
        None,
        Some(vec![0u8; (MAX_IMAGE_BYTES + 1) as usize]),
        Some(b"hi".to_vec()),
        None,
        None,
    ];
    let r = collect_pasted_files(&paths, &contents);
    assert_eq!(r.attachments.len(), 2);
    assert_eq!(r.attachments[0].mime, "application/pdf");
    assert_eq!(r.attachments[0].path, "/a/doc.PDF");
    assert_eq!(r.attachments[1].mime, "image/jpeg");
    assert_eq!(r.attachments[1].b64, "aGk=");
    assert_eq!(r.notes, vec!["Image file too large (8388609 bytes; max 8388608).".to_string()]);
}

#[test]
fn lowered_deciders() {
    assert_eq!(command_of_lowered("/help"), Command::Help);
    assert_eq!(command_of_lowered("/HELP"), Command::Unknown);
    assert_eq!(parse_command("/HELP"), Command::Help);
    assert_eq!(media_type_of_normalized("image/jpg"), Some(ImageMediaType::Jpeg));
    assert_eq!(media_type_of_normalized("IMAGE/PNG"), None);
    assert!(is_pdf_normalized("application/pdf", ""));
    assert!(is_pdf_normalized("", "/a/b.pdf"));
    assert!(!is_pdf_normalized("", "/a/b.PDF"));
    assert!(matches!(pasted_file_kind_lowered("/a/b.jpeg"), PastedFileKind::Image { ref mime } if mime == "image/jpeg"));
    assert!(matches!(pasted_file_kind_lowered("/a/b.PDF"), PastedFileKind::Unsupported));
    assert!(model_id_allowed_lowered("o3-mini"));
    assert!(!model_id_allowed_lowered("O3-mini"));
    assert!(openai_model_allowed("O3-mini"));
}

#[test]
fn disk_device_choice() {
    assert_eq!(disk_candidates(), vec!["/dev/nvme0", "/dev/nvme0n1", "/dev/sda", "/dev/vda"]);
    assert_eq!(default_disk_device([false, false, true, true]), "/dev/sda");
    assert_eq!(default_disk_device([false, true, false, false]), "/dev/nvme0n1");
    assert_eq!(default_disk_device([false, false, false, false]), "/dev/nvme0");
}

#[test]
fn disk_health_text() {
    assert_eq!(
        read_disk_health(None, None),
        ("Unknown (smartctl missing)".to_string(), "Unknown".to_string())
    );
    let attrs = "Critical Warning:                   0x00\nPercentage Used:                    3%\n".to_string();
    let health = "SMART overall-health self-assessment test result: PASSED\n".to_string();
    assert_eq!(
        read_disk_health(Some(attrs.clone()), Some(health)),
        ("Healthy".to_string(), "3%".to_string())
    );
    let failing = "SMART Health Status: FAILING\n".to_string();
    assert_eq!(
        read_disk_health(Some(attrs), Some(failing)),
        ("FAILING (0x00)".to_string(), "3%".to_string())
    );
    assert_eq!(
        read_disk_health(None, Some("nothing here".to_string())),
        ("Unknown (unknown)".to_string(), "Unknown".to_string())
    );
}
