use id3stego::classify::{
    is_supported_filetype, leading_window, mime_or_default, payload_mime_type, supported_audio_mime,
    SNIFF_WINDOW,
};
use id3stego::engine::extraction_plan;
use id3stego::paths::{
    add_filename_prefix_preserve_path, generate_random_filename_with_prefix, get_filename_drop_path,
};
use id3stego::random::with_suffix;
use id3stego::slot::{
    contains_chars, description_in_use, fresh_slot_key, generate_slot_key, is_marked_description,
    pick_unused_key,
};
use id3stego::tag::EmbeddedObject;

fn object(description: &str, filename: &str, data: &[u8]) -> EmbeddedObject {
    EmbeddedObject {
        mime_type: "application/octet-stream".to_string(),
        filename: filename.to_string(),
        description: description.to_string(),
        data: data.to_vec(),
    }
}

#[test]
fn mp3_wav_and_aiff_are_supported() {
    assert_eq!(is_supported_filetype(&[0xFF, 0xFB, 0x90, 0x64]), Some("audio/mpeg".to_string()));
    assert_eq!(is_supported_filetype(b"ID3\x04\x00\x00\x00\x00\x00\x00"), Some("audio/mpeg".to_string()));
    assert_eq!(is_supported_filetype(b"RIFF\x24\x00\x00\x00WAVEfmt "), Some("audio/x-wav".to_string()));
    assert_eq!(is_supported_filetype(b"FORM\x00\x00\x00\x00AIFFCOMM"), Some("audio/x-aiff".to_string()));
}

#[test]
fn other_types_are_not_supported() {
    let png = [0x89, 0x50, 0x4E, 0x47, 0x0D, 0x0A, 0x1A, 0x0A, 0, 0, 0, 13];
    assert_eq!(is_supported_filetype(&png), None);
    assert_eq!(is_supported_filetype(b"plain text"), None);
    assert_eq!(is_supported_filetype(&[]), None);
}

#[test]
fn supported_audio_mime_filters() {
    assert_eq!(supported_audio_mime(Some("audio/mpeg".to_string())), Some("audio/mpeg".to_string()));
    assert_eq!(supported_audio_mime(Some("audio/x-wav".to_string())), Some("audio/x-wav".to_string()));
    assert_eq!(supported_audio_mime(Some("audio/x-aiff".to_string())), Some("audio/x-aiff".to_string()));
    assert_eq!(supported_audio_mime(Some("audio/ogg".to_string())), None);
    assert_eq!(supported_audio_mime(None), None);
}

#[test]
fn payload_mime_defaults_to_octet_stream() {
    assert_eq!(mime_or_default(None), "application/octet-stream");
    assert_eq!(mime_or_default(Some("image/png".to_string())), "image/png");
    assert_eq!(payload_mime_type(b"abc"), "application/octet-stream");
    let png = [0x89, 0x50, 0x4E, 0x47, 0x0D, 0x0A, 0x1A, 0x0A, 0, 0, 0, 13];
    assert_eq!(payload_mime_type(&png), "image/png");
}

#[test]
fn filename_drops_directory() {
    let empty = String::new();
    assert_eq!(get_filename_drop_path("/a/b/c.txt", &empty), "c.txt");
    assert_eq!(get_filename_drop_path("c.txt", &empty), "c.txt");
    assert_eq!(get_filename_drop_path("dir/sub/", &empty), "sub");
}

#[test]
fn filename_without_last_component_is_generated() {
    let prefix = "extracted-".to_string();
    for path in ["/", "", "a/.."] {
        let name = get_filename_drop_path(path, &prefix);
        assert_eq!(name.len(), prefix.len() + 5);
        assert!(name.starts_with("extracted-"));
        assert!(name[prefix.len()..].chars().all(|c| c.is_ascii_alphanumeric()));
    }
}

#[test]
fn random_filename_has_prefix_and_five_alphanumerics() {
    let name = generate_random_filename_with_prefix("x-".to_string());
    assert_eq!(name.len(), 7);
    assert!(name.starts_with("x-"));
    assert!(name[2..].chars().all(|c| c.is_ascii_alphanumeric()));
}

#[test]
fn prefixed_name_is_placed_beside_reference() {
    let mut prefix = "extracted-".to_string();
    let path = add_filename_prefix_preserve_path(
        &"/music/song.mp3".to_string(),
        &"/tmp/pic.png".to_string(),
        &mut prefix,
    );
    assert_eq!(path, "/music/extracted-pic.png");
    assert_eq!(prefix, "extracted-pic.png");
}

#[test]
fn prefixed_name_without_directory() {
    let mut prefix = "output-".to_string();
    let path = add_filename_prefix_preserve_path(&"song.mp3".to_string(), &"song.mp3".to_string(), &mut prefix);
    assert_eq!(path, "output-song.mp3");
    assert_eq!(prefix, "output-song.mp3");
}

#[test]
fn slot_keys_are_marked() {
    let key = generate_slot_key();
    assert_eq!(key.len(), 18);
    assert!(key.starts_with("id3stego"));
    assert!(key[8..].chars().all(|c| c.is_ascii_alphanumeric()));
    assert!(is_marked_description(&key));
}

#[test]
fn marker_may_stand_anywhere() {
    assert!(is_marked_description("id3stego"));
    assert!(is_marked_description("id3stegoAbC0123456"));
    assert!(is_marked_description("old-id3stego-key"));
    assert!(!is_marked_description("id3steg"));
    assert!(!is_marked_description("cover art"));
    assert!(!is_marked_description(""));
}

#[test]
fn description_in_use_finds_equal_description() {
    let objs = vec![object("cover", "a", b"1"), object("id3stegoAAAAAAAAAA", "b", b"2")];
    assert!(description_in_use(&objs, &"id3stegoAAAAAAAAAA".to_string()));
    assert!(description_in_use(&objs, &"cover".to_string()));
    assert!(!description_in_use(&objs, &"id3stegoBBBBBBBBBB".to_string()));
    assert!(!description_in_use(&Vec::new(), &"cover".to_string()));
}

#[test]
fn fresh_slot_key_avoids_existing() {
    let objs = vec![object("id3stegoAAAAAAAAAA", "b", b"2")];
    let key = fresh_slot_key(&objs);
    assert_eq!(key.len(), 18);
    assert!(key.starts_with("id3stego"));
    assert_ne!(key, "id3stegoAAAAAAAAAA");
}

#[test]
fn extraction_plan_keeps_marked_frames_in_order() {
    let objs = vec![
        object("id3stegoAAAAAAAAAA", "first.txt", b"1"),
        object("cover", "cover.jpg", b"2"),
        object("legacy id3stego", "dir/second.bin", b"3"),
    ];
    let plan = extraction_plan(&"/music/song.mp3".to_string(), &objs);
    assert_eq!(plan.len(), 2);
    assert_eq!(plan[0].frame_filename, "first.txt");
    assert_eq!(plan[0].extracted_filename, "/music/extracted-first.txt");
    assert_eq!(plan[0].data, b"1".to_vec());
    assert_eq!(plan[1].frame_filename, "dir/second.bin");
    assert_eq!(plan[1].extracted_filename, "/music/extracted-second.bin");
    assert_eq!(plan[1].data, b"3".to_vec());
}

#[test]
fn extraction_plan_of_unmarked_frames_is_empty() {
    let objs = vec![object("cover", "cover.jpg", b"2")];
    assert!(extraction_plan(&"song.mp3".to_string(), &objs).is_empty());
    assert!(extraction_plan(&"song.mp3".to_string(), &Vec::new()).is_empty());
}

#[test]
fn leading_window_keeps_at_most_the_window() {
    assert_eq!(SNIFF_WINDOW, 8192);
    assert_eq!(leading_window(&[1, 2, 3]), vec![1, 2, 3]);
    assert!(leading_window(&[]).is_empty());
    let big: Vec<u8> = (0..10000u32).map(|i| (i % 251) as u8).collect();
    let w = leading_window(&big);
    assert_eq!(w.len(), 8192);
    assert_eq!(&w[..], &big[..8192]);
}

#[test]
fn sniffing_looks_at_leading_bytes_only() {
    let mut mp3 = vec![0xFF, 0xFB, 0x90, 0x64];
    mp3.extend(std::iter::repeat(0u8).take(20000));
    assert_eq!(is_supported_filetype(&mp3), Some("audio/mpeg".to_string()));
}

#[test]
fn with_suffix_appends_exactly() {
    assert_eq!(with_suffix("output-".to_string(), "AbC12"), "output-AbC12");
    assert_eq!(with_suffix(String::new(), "xyz"), "xyz");
    assert_eq!(with_suffix("id3stego".to_string(), ""), "id3stego");
}

#[test]
fn contains_chars_finds_substrings() {
    assert!(contains_chars("abcdef", "cde"));
    assert!(contains_chars("abcdef", "abcdef"));
    assert!(contains_chars("abc", ""));
    assert!(contains_chars("", ""));
    assert!(!contains_chars("abc", "abcd"));
    assert!(!contains_chars("abcabd", "abe"));
    assert!(contains_chars("\u{e9}t\u{e9}", "t\u{e9}"));
}

#[test]
fn pick_unused_key_takes_first_free() {
    let objs = vec![object("id3stegoAAAAAAAAAA", "a", b"1"), object("id3stegoBBBBBBBBBB", "b", b"2")];
    let keys = vec![
        "id3stegoAAAAAAAAAA".to_string(),
        "id3stegoCCCCCCCCCC".to_string(),
        "id3stegoDDDDDDDDDD".to_string(),
    ];
    assert_eq!(pick_unused_key(&objs, &keys), "id3stegoCCCCCCCCCC");
    let taken = vec!["id3stegoAAAAAAAAAA".to_string(), "id3stegoBBBBBBBBBB".to_string()];
    assert_eq!(pick_unused_key(&objs, &taken), "id3stegoBBBBBBBBBB");
    assert_eq!(pick_unused_key(&Vec::new(), &taken), "id3stegoAAAAAAAAAA");
}
