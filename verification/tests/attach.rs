use ghwf::attach::{
    after_commit, attachable, attachment_markdown, build_trailer, commit_base, media_kind, prepare,
    repo_path, sanitize_filename, upload, AttachError, CommitNext, LocalFile, MediaKind, RefOutcome,
    MAX_BYTES,
};

#[test]
fn sanitize_replaces_unsafe_chars() {
    assert_eq!(sanitize_filename("my screenshot.png"), "my_screenshot.png");
    assert_eq!(sanitize_filename("a/b:c.txt"), "a_b_c.txt");
    assert_eq!(sanitize_filename("plain-name_1.0.log"), "plain-name_1.0.log");
    assert_eq!(sanitize_filename(""), "file");
}

#[test]
fn repo_path_is_deterministic_and_content_addressed() {
    let a = repo_path(80, b"hello", "shot.png");
    let b = repo_path(80, b"hello", "shot.png");
    assert_eq!(a, b);
    assert!(a.starts_with("attachments/80/"));
    assert!(a.ends_with("-shot.png"));
    // Different content changes the hash prefix.
    let c = repo_path(80, b"world", "shot.png");
    assert_ne!(a, c);
    // Different issue changes the directory.
    let d = repo_path(7, b"hello", "shot.png");
    assert!(d.starts_with("attachments/7/"));
}

#[test]
fn media_kind_matches_known_extensions() {
    for n in ["a.png", "b.JPG", "c.jpeg", "d.gif", "e.WEBP", "f.svg"] {
        assert!(matches!(media_kind(n), MediaKind::Image), "{n} should be an image");
    }
    for n in ["clip.mp4", "screen.MOV", "loop.webm"] {
        assert!(matches!(media_kind(n), MediaKind::Video), "{n} should be a video");
    }
    // Audio has no inline form GitHub supports, so it classifies as Other.
    for n in ["voice.mp3", "tone.wav", "server.log", "patch.diff", "noext"] {
        assert!(matches!(media_kind(n), MediaKind::Other), "{n} should be other");
    }
}

#[test]
fn markdown_embeds_public_images_and_videos_only() {
    let blob = "https://github.com/o/r/blob/ghwf-attachments/attachments/80/ab12cd34-shot.png";
    let raw =
        "https://raw.githubusercontent.com/o/r/ghwf-attachments/attachments/80/ab12cd34-shot.png";
    // Image in a public repo: inline image.
    assert_eq!(
        attachment_markdown("shot.png", blob, raw, MediaKind::Image, false),
        format!("![shot.png]({blob}?raw=true)")
    );
    // Image in a private repo: link only (no `!`, no `?raw=true`).
    assert_eq!(
        attachment_markdown("shot.png", blob, raw, MediaKind::Image, true),
        format!("[shot.png]({blob})")
    );
    // Video in a public repo: a `<video>` tag pointing at the raw bytes,
    // never the blob page that broke playback.
    assert_eq!(
        attachment_markdown("clip.mp4", blob, raw, MediaKind::Video, false),
        format!("<video controls src=\"{raw}\"></video>")
    );
    // Video in a private repo: link only.
    assert_eq!(
        attachment_markdown("clip.mp4", blob, raw, MediaKind::Video, true),
        format!("[clip.mp4]({blob})")
    );
    // Audio (Other): link even on a public repo — GitHub strips `<audio>`.
    assert_eq!(
        attachment_markdown("voice.mp3", blob, raw, MediaKind::Other, false),
        format!("[voice.mp3]({blob})")
    );
}

#[test]
fn trailer_lists_each_attachment() {
    let lines = vec!["![a.png](u1?raw=true)".to_string(), "[b.log](u2)".to_string()];
    let trailer = build_trailer(&lines);
    assert_eq!(
        trailer,
        "---\n\n**Attachments:**\n\n- ![a.png](u1?raw=true)\n- [b.log](u2)"
    );
}

#[test]
fn repo_paths_begin_with_the_sha256_of_the_content() {
    // The first eight hexadecimal digits of the digest of "hello".
    assert_eq!(repo_path(80, b"hello", "my shot.png"), "attachments/80/2cf24dba-my_shot.png");
}

#[test]
fn contents_are_prepared_in_base64() {
    let files = [LocalFile { name: "a.txt".to_string(), bytes: b"hello".to_vec() }];
    let prepared = prepare(3, &files);
    assert_eq!(prepared.len(), 1);
    assert_eq!(prepared[0].content_base64, "aGVsbG8=");
    assert_eq!(prepared[0].name, "a.txt");
    let trailer = upload("o", "r", &prepared, false).unwrap();
    assert!(trailer.contains("[a.txt](https://github.com/o/r/blob/ghwf-attachments/attachments/3/2cf24dba-a.txt)"));
    assert!(upload("o", "r", &[], false).is_none());
}

#[test]
fn duplicates_are_uploaded_once() {
    let file = || LocalFile { name: "a.txt".to_string(), bytes: b"x".to_vec() };
    let prepared = prepare(3, &[file(), file()]);
    let mut paths: Vec<&str> = prepared.iter().map(|p| p.repo_path.as_str()).collect();
    paths.dedup();
    assert_eq!(paths.len(), 1);
    assert_eq!(prepared.len(), 1);
}

#[test]
fn only_files_of_a_fitting_size_attach() {
    assert!(matches!(attachable(true, 5, Some("a".to_string())), Ok(name) if name == "a"));
    assert!(matches!(attachable(false, 5, Some("a".to_string())), Err(AttachError::NotAFile)));
    assert!(matches!(attachable(true, MAX_BYTES + 1, Some("a".to_string())), Err(AttachError::TooLarge)));
    assert!(attachable(true, MAX_BYTES, Some("a".to_string())).is_ok());
    assert!(matches!(attachable(true, 5, None), Err(AttachError::NoName)));
}

#[test]
fn a_moved_branch_is_retried_once() {
    assert!(matches!(after_commit(true, RefOutcome::Moved), CommitNext::Retry));
    assert!(matches!(after_commit(false, RefOutcome::Moved), CommitNext::Contended));
    assert!(matches!(after_commit(true, RefOutcome::Updated), CommitNext::Done));
    let (tree, parents) = commit_base(Some(("c1".to_string(), "t1".to_string())));
    assert_eq!(tree.as_deref(), Some("t1"));
    assert_eq!(parents, ["c1"]);
    let (tree, parents) = commit_base(None);
    assert!(tree.is_none() && parents.is_empty());
}

#[test]
fn the_kind_goes_by_the_last_component_of_a_path() {
    assert!(matches!(media_kind("shots.d/a.png"), MediaKind::Image));
    assert!(matches!(media_kind("a.png/"), MediaKind::Image));
    assert!(matches!(media_kind("a.png/."), MediaKind::Image));
    assert!(matches!(media_kind("clips//b.mp4"), MediaKind::Video));
    assert!(matches!(media_kind("a.png/notes"), MediaKind::Other));
    assert!(matches!(media_kind("a.png/.."), MediaKind::Other));
    assert!(matches!(media_kind("dir/.png"), MediaKind::Other));
    assert!(matches!(media_kind("/"), MediaKind::Other));
}
