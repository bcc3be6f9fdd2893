//! Files that are attached to a post.

use vstd::prelude::*;

use crate::attach::{
    self, AttachError, CommitNext, LocalFile, MediaKind, Prepared, RefOutcome,
};
use crate::laws::texts::{lemma_joined, lemma_within, lemma_wider};
use crate::store;
use crate::text;

verus! {

/// Attached are files with a name, of twenty-five megabytes at most.
pub proof fn only_small_named_files_are_attached(
    is_file: bool,
    len: u64,
    name: Option<String>,
    r: Result<String, AttachError>,
)
    requires
        call_ensures(attach::attachable, (is_file, len, name), r),
    ensures
        r is Ok <==> is_file && len <= 25 * 1024 * 1024 && name is Some,
        r is Ok ==> Some(r->Ok_0) == name,
        r == Err::<String, AttachError>(AttachError::NotAFile) <==> !is_file,
        r == Err::<String, AttachError>(AttachError::TooLarge) <==> is_file && len > 25 * 1024
            * 1024,
{
}

/// A name is kept but for the characters that are no letter, digit, dot, underscore or
/// dash, each of which becomes an underscore; without a name it is `file`.
pub proof fn names_are_made_safe(name: &str, r: String, i: int)
    requires
        call_ensures(attach::sanitize_filename, (name,), r),
    ensures
        name@.len() == 0 ==> r@ == "file"@,
        name@.len() > 0 ==> r@.len() == name@.len(),
        0 <= i < name@.len() ==> {
            let c = name@[i];
            let safe = ('a' <= c && c <= 'z') || ('A' <= c && c <= 'Z') || ('0' <= c && c <= '9')
                || c == '.' || c == '_' || c == '-';
            &&& safe ==> r@[i] == c
            &&& !safe ==> r@[i] == '_'
        },
{
}

/// A file's place in the repository: by issue, then by what it holds and its name.
pub proof fn files_are_placed_by_content(
    issue: u64,
    content: &[u8],
    name: &str,
    r: String,
    hash: String,
    safe: String,
)
    requires
        call_ensures(attach::repo_path, (issue, content, name), r),
        call_ensures(store::bytes_hash, (content,), hash),
        call_ensures(attach::sanitize_filename, (name,), safe),
    ensures
        r@ == "attachments/"@ + text::decimal(issue as nat) + "/"@ + hash@.take(8) + "-"@ + safe@,
{
}

proof fn lemma_prepared(issue: nat, files: Seq<LocalFile>, k: int)
    ensures
        ({
            let all = attach::prepared_of(issue, files);
            0 <= k < all.len() ==> exists|i: int|
                #![trigger files[i]]
                0 <= i < files.len() && all[k].name == files[i].name@ && all[k].repo_path
                    == attach::path_of(issue, files[i].bytes@, files[i].name@)
                    && all[k].content_base64 == attach::base64_of(files[i].bytes@)
        }),
    decreases files.len(),
{
    if files.len() > 0 {
        let init = files.drop_last();
        lemma_prepared(issue, init, k);
        let all = attach::prepared_of(issue, files);
        let before = attach::prepared_of(issue, init);
        if 0 <= k < all.len() {
            if k < before.len() {
                assert(before[k] == all[k]);
                let i = choose|i: int|
                    #![trigger init[i]]
                    0 <= i < init.len() && before[k].name == init[i].name@ && before[k].repo_path
                        == attach::path_of(issue, init[i].bytes@, init[i].name@)
                        && before[k].content_base64 == attach::base64_of(init[i].bytes@);
                assert(files[i] == init[i]);
            } else {
                assert(files[files.len() - 1] == files.last());
                assert(all[k].name == files[files.len() - 1].name@);
            }
        }
    }
}

/// Every file is uploaded once: each has an upload at its place, no two uploads have one
/// place, and an upload holds what its file holds.
pub proof fn every_file_is_uploaded_once(
    issue: u64,
    files: &[LocalFile],
    r: Vec<Prepared>,
    k: int,
    j: int,
    content: &[u8],
    name: &str,
    path: String,
)
    requires
        call_ensures(attach::prepare, (issue, files), r),
        call_ensures(attach::repo_path, (issue, content, name), path),
    ensures
        0 <= k < files@.len() && files@[k].bytes@ == content@ && files@[k].name@ == name@
            ==> exists|i: int|
            #![trigger r@[i]]
            0 <= i < r@.len() && r@[i].repo_path@ == path@,
        0 <= k < j < r@.len() ==> r@[k].repo_path@ != r@[j].repo_path@,
        0 <= k < r@.len() ==> exists|i: int|
            #![trigger files@[i]]
            {
                &&& 0 <= i < files@.len()
                &&& r@[k].name@ == files@[i].name@
                &&& r@[k].content_base64@ == attach::base64_of(files@[i].bytes@)
                &&& files@[i].bytes@ == content@ && files@[i].name@ == name@ ==> r@[k].repo_path@
                    == path@
            },
{
    let all = attach::prepared_of(issue as nat, files@);
    let views = attach::prepared_views(r@);
    assert(views.len() == r@.len());
    attach::uploads_have_distinct_paths(issue as nat, files@);
    if 0 <= k < j < r@.len() {
        assert(views[k] == r@[k]@ && views[j] == r@[j]@);
        assert(all[k].repo_path != all[j].repo_path);
    }
    if 0 <= k < files@.len() && files@[k].bytes@ == content@ && files@[k].name@ == name@ {
        attach::every_file_is_uploaded(issue as nat, files@, k);
        let i = choose|i: int| 0 <= i < all.len() && #[trigger] all[i].repo_path == path@;
        assert(views[i] == all[i]);
        assert(r@[i].repo_path@ == path@);
    }
    if 0 <= k < r@.len() {
        lemma_prepared(issue as nat, files@, k);
        assert(views[k] == r@[k]@);
        let i = choose|i: int|
            #![trigger files@[i]]
            0 <= i < files@.len() && all[k].name == files@[i].name@ && all[k].repo_path
                == attach::path_of(issue as nat, files@[i].bytes@, files@[i].name@)
                && all[k].content_base64 == attach::base64_of(files@[i].bytes@);
        assert(files@[i].name@ == r@[k].name@);
    }
}

proof fn lemma_last_dot(stem: Seq<char>, ext: Seq<char>)
    requires
        forall|i: int| 0 <= i < ext.len() ==> #[trigger] ext[i] != '.',
    ensures
        attach::last_dot(stem + "."@ + ext) == stem.len(),
    decreases ext.len(),
{
    reveal_strlit(".");
    let s = stem + "."@ + ext;
    if ext.len() == 0 {
        assert(s.last() == '.');
    } else {
        assert(s.last() == ext[ext.len() - 1]);
        let init = ext.drop_last();
        assert forall|i: int| 0 <= i < init.len() implies #[trigger] init[i] != '.' by {
            assert(ext[i] != '.');
        }
        lemma_last_dot(stem, init);
        assert(s.drop_last() =~= stem + "."@ + init);
    }
}

proof fn lemma_no_slash(s: Seq<char>)
    requires
        forall|i: int| 0 <= i < s.len() ==> #[trigger] s[i] != '/',
    ensures
        crate::convert::last_slash(s) == -1,
        attach::unended(s) == s,
    decreases s.len(),
{
    if s.len() > 0 {
        assert(s[s.len() - 1] != '/');
        let init = s.drop_last();
        assert forall|i: int| 0 <= i < init.len() implies #[trigger] init[i] != '/' by {
            assert(s[i] != '/');
        }
        lemma_no_slash(init);
        if s.len() > 1 {
            assert(s[s.len() - 2] != '/');
        }
    }
}

/// What a file is goes by the end of its name, whatever the case of its letters.
pub proof fn media_go_by_the_names_end(name: &str, r: MediaKind, stem: Seq<char>, ext: Seq<char>)
    requires
        call_ensures(attach::media_kind, (name,), r),
        name@ == stem + "."@ + ext,
        stem.len() > 0,
        ext.len() > 0,
        forall|i: int| 0 <= i < name@.len() ==> #[trigger] name@[i] != '/',
        forall|i: int| 0 <= i < ext.len() ==> #[trigger] ext[i] != '.',
    ensures
        ({
            let e = text::lower(ext);
            &&& r == MediaKind::Image <==> e == "png"@ || e == "jpg"@ || e == "jpeg"@ || e
                == "gif"@ || e == "webp"@ || e == "svg"@ || e == "bmp"@ || e == "apng"@
            &&& r == MediaKind::Video <==> e == "mp4"@ || e == "mov"@ || e == "webm"@
        }),
{
    reveal_strlit(".");
    reveal_strlit("..");
    lemma_no_slash(name@);
    lemma_last_dot(stem, ext);
    assert(name@.skip(0) =~= name@);
    assert(name@.skip(stem.len() + 1int) =~= ext);
    if name@ == ".."@ {
        assert(name@.last() == ext[ext.len() - 1]);
        assert(ext[ext.len() - 1] != '.');
    }
    lemma_kinds();
}

/// No ending is of an image and of a video.
proof fn lemma_kinds()
    ensures
        forall|e: Seq<char>| !(#[trigger] attach::is_image(e) && attach::is_video(e)),
{
    reveal_strlit("png");
    reveal_strlit("jpg");
    reveal_strlit("jpeg");
    reveal_strlit("gif");
    reveal_strlit("webp");
    reveal_strlit("svg");
    reveal_strlit("bmp");
    reveal_strlit("apng");
    reveal_strlit("mp4");
    reveal_strlit("mov");
    reveal_strlit("webm");
    assert("png"@[0] == 'p' && "jpg"@[0] == 'j' && "jpeg"@[0] == 'j' && "gif"@[0] == 'g'
        && "webp"@[3] == 'p' && "svg"@[0] == 's' && "bmp"@[0] == 'b' && "apng"@[0] == 'a');
    assert("mp4"@[0] == 'm' && "mov"@[0] == 'm' && "webm"@[0] == 'w' && "webm"@[3] == 'm');
}

/// In a public repository an image and a video are shown, in a private one everything is
/// a link.
pub proof fn public_media_are_shown(
    name: &str,
    blob: &str,
    raw: &str,
    kind: MediaKind,
    private: bool,
    r: String,
)
    requires
        call_ensures(attach::attachment_markdown, (name, blob, raw, kind, private), r),
    ensures
        !private && kind == MediaKind::Image ==> r@ == "!["@ + name@ + "]("@ + blob@
            + "?raw=true)"@,
        !private && kind == MediaKind::Video ==> r@ == "<video controls src=\""@ + raw@
            + "\"></video>"@,
        private || kind == MediaKind::Other ==> r@ == "["@ + name@ + "]("@ + blob@ + ")"@,
{
}

/// The trailer has a heading and a point per line.
pub proof fn trailers_have_a_point_per_line(lines: &[String], r: String, k: int)
    requires
        call_ensures(attach::build_trailer, (lines,), r),
    ensures
        text::starts_with(r@, "---\n\n**Attachments:**\n\n"@),
        0 <= k < lines@.len() ==> text::contains(r@, "- "@ + lines@[k]@),
{
    let views = text::views(lines@);
    let points = attach::bullets(views);
    let body = text::join(points, "\n"@);
    lemma_within(Seq::empty(), attach::TRAILER_HEADER@, body);
    if 0 <= k < lines@.len() {
        lemma_joined(points, "\n"@, k);
        assert(points[k] == "- "@ + lines@[k]@);
        lemma_wider(attach::TRAILER_HEADER@, body, Seq::empty(), points[k]);
    }
}

/// Every upload is linked below the text, at its place on the branch of attachments.
pub proof fn uploads_are_linked(
    owner: &str,
    repo: &str,
    prepared: &[Prepared],
    private: bool,
    r: Option<String>,
    k: int,
    name: &str,
    blob: &str,
    raw: &str,
    kind: MediaKind,
    line: String,
)
    requires
        call_ensures(attach::upload, (owner, repo, prepared, private), r),
        0 <= k < prepared@.len(),
        name@ == prepared@[k].name@,
        call_ensures(attach::media_kind, (name,), kind),
        blob@ == "https://github.com/"@ + owner@ + "/"@ + repo@ + "/blob/"@ + "ghwf-attachments"@
            + "/"@ + prepared@[k].repo_path@,
        raw@ == "https://raw.githubusercontent.com/"@ + owner@ + "/"@ + repo@ + "/"@
            + "ghwf-attachments"@ + "/"@ + prepared@[k].repo_path@,
        call_ensures(attach::attachment_markdown, (name, blob, raw, kind, private), line),
    ensures
        r is Some,
        text::contains(r->0@, "- "@ + line@),
{
    let lines = Seq::new(
        prepared@.len(),
        |i: int| attach::upload_line(owner@, repo@, prepared@[i]@, private),
    );
    let points = attach::bullets(lines);
    let body = text::join(points, "\n"@);
    lemma_joined(points, "\n"@, k);
    assert(lines[k] == line@);
    assert(points[k] == "- "@ + line@);
    lemma_wider(attach::TRAILER_HEADER@, body, Seq::empty(), points[k]);
}

/// Where nothing is uploaded, nothing is linked.
pub proof fn no_uploads_no_trailer(
    owner: &str,
    repo: &str,
    prepared: &[Prepared],
    private: bool,
    r: Option<String>,
)
    requires
        call_ensures(attach::upload, (owner, repo, prepared, private), r),
    ensures
        r is None <==> prepared@.len() == 0,
{
}

/// A commit goes on top of the tip, where there is one; one that another overtook is
/// tried once more.
pub proof fn overtaken_commits_are_tried_again(
    first: bool,
    outcome: RefOutcome,
    r: CommitNext,
    tip: Option<(String, String)>,
    base: (Option<String>, Vec<String>),
)
    requires
        call_ensures(attach::after_commit, (first, outcome), r),
        call_ensures(attach::commit_base, (tip,), base),
    ensures
        outcome == RefOutcome::Updated ==> r == CommitNext::Done,
        outcome != RefOutcome::Updated && first ==> r == CommitNext::Retry,
        outcome == RefOutcome::Moved && !first ==> r == CommitNext::Contended,
        outcome == RefOutcome::NotCreated && !first ==> r == CommitNext::Failed,
        tip is Some ==> base.0 == Some((tip->0).1) && base.1@.len() == 1 && base.1@[0] == (
        tip->0).0,
        tip is None ==> base.0 is None && base.1@.len() == 0,
{
}

} // verus!
