//! Local files as comment attachments.
//!
//! Each file is committed into the repo on a dedicated, orphan-history branch
//! and referenced from the comment body. On a public repo, images embed inline
//! via a `?raw=true` blob link and videos via an HTML `<video>` tag pointing at
//! the raw bytes. Audio and everything else, and every attachment on a private
//! repo, is a plain link.

use vstd::prelude::*;

use crate::convert;
use crate::store;
use crate::text;

verus! {

/// The branch attachments are committed to. Its history is orphaned (the first
/// commit has no parents) so it shares nothing with the code branches.
pub const BRANCH: &'static str = "ghwf-attachments";

/// Soft per-file cap: comment attachments are screenshots and logs, not large
/// binaries.
pub const MAX_BYTES: u64 = 26214400;

/// The message of the commit that adds attachments.
pub const COMMIT_MESSAGE: &'static str = "Add comment attachment(s)";

/// How an attachment can be presented in a comment, decided by file extension.
#[derive(Clone, Copy, Debug, PartialEq, Eq, Structural)]
pub enum MediaKind {
    /// Embeds inline via `![](…?raw=true)` on a public repo.
    Image,
    /// Embeds inline via an HTML `<video>` tag on a public repo.
    Video,
    /// No inline form GitHub supports; always a plain link.
    Other,
}

/// Why a path cannot be attached.
#[derive(Clone, Copy, Debug, PartialEq, Eq, Structural)]
pub enum AttachError {
    NotAFile,
    TooLarge,
    NoName,
}

/// A local file that was read.
pub struct LocalFile {
    /// Its base name.
    pub name: String,
    pub bytes: Vec<u8>,
}

/// A file ready to upload.
pub struct Prepared {
    /// The original basename, used as the link's display text.
    pub name: String,
    /// The collision-safe path under the attachments branch.
    pub repo_path: String,
    pub content_base64: String,
}

/// What a [`Prepared`] holds.
pub struct PreparedView {
    pub name: Seq<char>,
    pub repo_path: Seq<char>,
    pub content_base64: Seq<char>,
}

impl View for Prepared {
    type V = PreparedView;

    open spec fn view(&self) -> PreparedView {
        PreparedView {
            name: self.name@,
            repo_path: self.repo_path@,
            content_base64: self.content_base64@,
        }
    }
}

pub open spec fn prepared_views(v: Seq<Prepared>) -> Seq<PreparedView> {
    Seq::new(v.len(), |i: int| v[i]@)
}

/// Whether a path may be attached, before it is read: it must be a regular file
/// no larger than the cap, with a usable name.
pub fn attachable(is_file: bool, len: u64, name: Option<String>) -> (r: Result<String, AttachError>)
    ensures
        match r {
            Ok(n) => is_file && len <= MAX_BYTES && name == Some(n),
            Err(AttachError::NotAFile) => !is_file,
            Err(AttachError::TooLarge) => is_file && len > MAX_BYTES,
            Err(AttachError::NoName) => is_file && len <= MAX_BYTES && name is None,
        },
{
    if !is_file {
        return Err(AttachError::NotAFile);
    }
    if len > MAX_BYTES {
        return Err(AttachError::TooLarge);
    }
    match name {
        Some(name) => Ok(name),
        None => Err(AttachError::NoName),
    }
}

/// The characters that a path keeps.
pub open spec fn is_safe(c: char) -> bool {
    ('a' <= c && c <= 'z') || ('A' <= c && c <= 'Z') || ('0' <= c && c <= '9') || c == '.' || c
        == '_' || c == '-'
}

/// A base name as a path-safe slug.
pub open spec fn slug(name: Seq<char>) -> Seq<char> {
    if name.len() == 0 {
        "file"@
    } else {
        Seq::new(
            name.len(),
            |i: int|
                if is_safe(name[i]) {
                    name[i]
                } else {
                    '_'
                },
        )
    }
}

/// Reduce a basename to a path-safe slug, keeping `[A-Za-z0-9._-]` and replacing
/// anything else with `_`.
pub fn sanitize_filename(name: &str) -> (r: String)
    ensures
        r@ == slug(name@),
{
    let v = text::chars(name);
    if v.len() == 0 {
        return text::copy("file");
    }
    let mut out = String::new();
    let mut i: usize = 0;
    while i < v.len()
        invariant
            i <= v.len(),
            v@ == name@,
            v.len() > 0,
            out@ =~= slug(name@).take(i as int),
        decreases v.len() - i,
    {
        let c = v[i];
        if ('a' <= c && c <= 'z') || ('A' <= c && c <= 'Z') || ('0' <= c && c <= '9') || c == '.'
            || c == '_' || c == '-' {
            out.push(c);
        } else {
            out.push('_');
        }
        i = i + 1;
    }
    assert(slug(name@).take(name@.len() as int) =~= slug(name@));
    out
}

/// A slug holds path-safe characters only, and at least one.
pub proof fn slugs_are_path_safe(name: Seq<char>)
    ensures
        slug(name).len() > 0,
        forall|i: int| 0 <= i < slug(name).len() ==> is_safe(#[trigger] slug(name)[i]),
{
    reveal_strlit("file");
}

/// Where a file's content goes on the attachments branch.
pub open spec fn path_of(issue: nat, content: Seq<u8>, name: Seq<char>) -> Seq<char> {
    "attachments/"@ + text::decimal(issue) + "/"@ + store::hex_of(store::sha256(content)).take(8)
        + "-"@ + slug(name)
}

/// The collision-safe path for a file: keyed by issue and a short content hash,
/// so identical content lands on the same path (idempotent) and different files
/// sharing a name don't collide.
pub fn repo_path(issue: u64, content: &[u8], name: &str) -> (r: String)
    ensures
        r@ == path_of(issue as nat, content@, name@),
{
    let digest = store::digest(content);
    let whole = text::chars(store::hex(digest.as_slice()).as_str());
    proof {
        store::lemma_hex_length(digest@);
    }
    let short = text::slice(&whole, 0, 8);
    assert(short@ =~= store::hex_of(store::sha256(content@)).take(8));
    let mut out = text::copy("attachments/");
    out.append(text::number(issue).as_str());
    out.append("/");
    out.append(short.as_str());
    out.append("-");
    out.append(sanitize_filename(name).as_str());
    out
}

/// The standard base64 notation of `data`, as the `base64` crate writes it.
pub uninterp spec fn base64_of(data: Seq<u8>) -> Seq<char>;

/// `base64::engine::general_purpose::STANDARD.encode`: the text is determined
/// by the bytes alone. Which characters it has is left to the crate.
#[verifier::external_body]
fn encode(bytes: &[u8]) -> (r: String)
    ensures
        r@ == base64_of(bytes@),
{
    base64::Engine::encode(&base64::engine::general_purpose::STANDARD, bytes)
}

/// What is uploaded for `files`: each once, at its path; a later file with the
/// same path is dropped.
pub open spec fn prepared_of(issue: nat, files: Seq<LocalFile>) -> Seq<PreparedView>
    decreases files.len(),
{
    if files.len() == 0 {
        seq![]
    } else {
        let before = prepared_of(issue, files.drop_last());
        let file = files.last();
        let path = path_of(issue, file.bytes@, file.name@);
        if has_path(before, path) {
            before
        } else {
            before.push(
                PreparedView {
                    name: file.name@,
                    repo_path: path,
                    content_base64: base64_of(file.bytes@),
                },
            )
        }
    }
}

pub open spec fn has_path(prepared: Seq<PreparedView>, path: Seq<char>) -> bool {
    exists|i: int| 0 <= i < prepared.len() && #[trigger] prepared[i].repo_path == path
}

/// Whether one of `prepared` goes to `path`.
fn goes_to(prepared: &Vec<Prepared>, path: &str) -> (r: bool)
    ensures
        r == has_path(prepared_views(prepared@), path@),
{
    let mut i: usize = 0;
    while i < prepared.len()
        invariant
            i <= prepared.len(),
            forall|j: int|
                0 <= j < i ==> #[trigger] prepared_views(prepared@)[j].repo_path != path@,
        decreases prepared.len() - i,
    {
        if text::same(prepared[i].repo_path.as_str(), path) {
            assert(prepared_views(prepared@)[i as int].repo_path == path@);
            return true;
        }
        i = i + 1;
    }
    false
}

/// Prepare the files that were read for upload, dropping later duplicates that
/// resolve to the same repo path (identical content and name).
pub fn prepare(issue: u64, files: &[LocalFile]) -> (r: Vec<Prepared>)
    ensures
        prepared_views(r@) == prepared_of(issue as nat, files@),
{
    let mut out: Vec<Prepared> = Vec::new();
    let mut i: usize = 0;
    assert(files@.take(0) =~= seq![]);
    assert(prepared_views(out@) =~= seq![]);
    while i < files.len()
        invariant
            i <= files.len(),
            prepared_views(out@) == prepared_of(issue as nat, files@.take(i as int)),
        decreases files.len() - i,
    {
        let file = &files[i];
        assert(files@.take(i + 1).drop_last() =~= files@.take(i as int));
        assert(files@.take(i + 1).last() == files@[i as int]);
        let path = repo_path(issue, file.bytes.as_slice(), file.name.as_str());
        if !goes_to(&out, path.as_str()) {
            let ghost before = out@;
            let p = Prepared {
                name: text::copy(file.name.as_str()),
                repo_path: path,
                content_base64: encode(file.bytes.as_slice()),
            };
            out.push(p);
            assert(prepared_views(out@) =~= prepared_views(before).push(p@));
        }
        i = i + 1;
    }
    assert(files@.take(files@.len() as int) =~= files@);
    out
}

/// No two uploads go to one path.
pub proof fn uploads_have_distinct_paths(issue: nat, files: Seq<LocalFile>)
    ensures
        forall|i: int, j: int|
            0 <= i < j < prepared_of(issue, files).len() ==> #[trigger] prepared_of(
                issue,
                files,
            )[i].repo_path != #[trigger] prepared_of(issue, files)[j].repo_path,
    decreases files.len(),
{
    if files.len() > 0 {
        uploads_have_distinct_paths(issue, files.drop_last());
        let before = prepared_of(issue, files.drop_last());
        let now = prepared_of(issue, files);
        assert forall|i: int, j: int| 0 <= i < j < now.len() implies #[trigger] now[i].repo_path
            != #[trigger] now[j].repo_path by {
            assert(before[i].repo_path == now[i].repo_path);
            if j < before.len() {
                assert(before[j].repo_path == now[j].repo_path);
            }
        }
    }
}

/// Each file is uploaded: some upload goes to its path.
pub proof fn every_file_is_uploaded(issue: nat, files: Seq<LocalFile>, k: int)
    requires
        0 <= k < files.len(),
    ensures
        has_path(prepared_of(issue, files), path_of(issue, files[k].bytes@, files[k].name@)),
    decreases files.len(),
{
    let before = prepared_of(issue, files.drop_last());
    let path = path_of(issue, files[k].bytes@, files[k].name@);
    let now = prepared_of(issue, files);
    if k < files.len() - 1 {
        every_file_is_uploaded(issue, files.drop_last(), k);
        let i = choose|i: int| 0 <= i < before.len() && #[trigger] before[i].repo_path == path;
        assert(now[i].repo_path == path);
    } else if !has_path(before, path) {
        assert(now[before.len() as int].repo_path == path);
    }
}

/// The last position of a dot in `name`, or -1.
pub open spec fn last_dot(name: Seq<char>) -> int
    decreases name.len(),
{
    if name.len() == 0 {
        -1
    } else if name.last() == '.' {
        name.len() - 1
    } else {
        last_dot(name.drop_last())
    }
}

/// A path without the slashes, and the components `.`, that it ends in.
pub open spec fn unended(path: Seq<char>) -> Seq<char>
    decreases path.len(),
{
    if path.len() > 0 && path.last() == '/' {
        unended(path.drop_last())
    } else if path.len() > 1 && path.last() == '.' && path[path.len() - 2] == '/' {
        unended(path.drop_last())
    } else {
        path
    }
}

/// The last component of a path.
pub open spec fn last_component(path: Seq<char>) -> Seq<char> {
    unended(path).skip(convert::last_slash(unended(path)) + 1)
}

/// The extension of a file, in lower case: what follows the last dot of the path's last
/// component, unless nothing precedes that dot or the component is `..`.
pub open spec fn extension(path: Seq<char>) -> Option<Seq<char>> {
    let name = last_component(path);
    if last_dot(name) <= 0 || name == ".."@ {
        None
    } else {
        Some(text::lower(name.skip(last_dot(name) + 1)))
    }
}

/// Image extensions GitHub renders inline from a `?raw=true` blob link.
pub open spec fn is_image(ext: Seq<char>) -> bool {
    ext == "png"@ || ext == "jpg"@ || ext == "jpeg"@ || ext == "gif"@ || ext == "webp"@ || ext
        == "svg"@ || ext == "bmp"@ || ext == "apng"@
}

/// Video extensions GitHub plays inline from an HTML `<video>` tag.
pub open spec fn is_video(ext: Seq<char>) -> bool {
    ext == "mp4"@ || ext == "mov"@ || ext == "webm"@
}

pub open spec fn kind_of(name: Seq<char>) -> MediaKind {
    match extension(name) {
        Some(ext) => if is_image(ext) {
            MediaKind::Image
        } else if is_video(ext) {
            MediaKind::Video
        } else {
            MediaKind::Other
        },
        None => MediaKind::Other,
    }
}

/// The last component of a path.
fn component_of(path: &str) -> (r: String)
    ensures
        r@ == last_component(path@),
{
    let v = text::chars(path);
    let mut end: usize = v.len();
    assert(v@.take(v@.len() as int) =~= v@);
    while end > 0 && (v[end - 1] == '/' || (end > 1 && v[end - 1] == '.' && v[end - 2] == '/'))
        invariant
            end <= v.len(),
            v@ == path@,
            unended(path@) == unended(v@.take(end as int)),
        decreases end,
    {
        assert(v@.take(end as int).drop_last() =~= v@.take(end - 1));
        end = end - 1;
    }
    let ghost whole = v@.take(end as int);
    assert(unended(path@) == whole);
    let mut start: usize = end;
    assert(whole.take(whole.len() as int) =~= whole);
    while start > 0 && v[start - 1] != '/'
        invariant
            start <= end <= v.len(),
            whole == v@.take(end as int),
            convert::last_slash(whole) == convert::last_slash(whole.take(start as int)),
        decreases start,
    {
        assert(whole.take(start as int).last() == v@[start - 1]);
        assert(whole.take(start as int).drop_last() =~= whole.take(start - 1));
        start = start - 1;
    }
    let name = text::slice(&v, start, end);
    proof {
        if start > 0 {
            assert(whole.take(start as int).last() == v@[start - 1]);
        }
        assert(convert::last_slash(whole) == start - 1);
        assert(name@ =~= whole.skip(start as int));
    }
    name
}

/// The extension of a file, in lower case.
fn extension_of(path: &str) -> (r: Option<String>)
    ensures
        match r {
            Some(e) => extension(path@) == Some(e@),
            None => extension(path@) is None,
        },
{
    let name = component_of(path);
    if text::same(name.as_str(), "..") {
        return None;
    }
    let v = text::chars(name.as_str());
    let mut i: usize = v.len();
    assert(v@.take(v@.len() as int) =~= v@);
    while i > 0
        invariant
            i <= v.len(),
            v@ == name@,
            name@ == last_component(path@),
            name@ != ".."@,
            last_dot(name@) == last_dot(v@.take(i as int)),
        decreases i,
    {
        assert(v@.take(i as int).last() == v@[i - 1]);
        assert(v@.take(i as int).drop_last() =~= v@.take(i - 1));
        if v[i - 1] == '.' {
            if i == 1 {
                return None;
            }
            let e = text::slice(&v, i, v.len());
            assert(e@ =~= name@.skip(i as int));
            return Some(text::lowered(e.as_str()));
        }
        i = i - 1;
    }
    None
}

/// Classify a name by extension into the way it can be presented.
pub fn media_kind(name: &str) -> (r: MediaKind)
    ensures
        r == kind_of(name@),
{
    match extension_of(name) {
        Some(ext) => {
            let e = ext.as_str();
            if text::same(e, "png") || text::same(e, "jpg") || text::same(e, "jpeg")
                || text::same(e, "gif") || text::same(e, "webp") || text::same(e, "svg")
                || text::same(e, "bmp") || text::same(e, "apng") {
                MediaKind::Image
            } else if text::same(e, "mp4") || text::same(e, "mov") || text::same(e, "webm") {
                MediaKind::Video
            } else {
                MediaKind::Other
            }
        },
        None => MediaKind::Other,
    }
}

/// The markdown of one attachment.
pub open spec fn markdown(
    name: Seq<char>,
    blob_url: Seq<char>,
    raw_url: Seq<char>,
    kind: MediaKind,
    private: bool,
) -> Seq<char> {
    if kind == MediaKind::Image && !private {
        "!["@ + name + "]("@ + blob_url + "?raw=true)"@
    } else if kind == MediaKind::Video && !private {
        "<video controls src=\""@ + raw_url + "\"></video>"@
    } else {
        "["@ + name + "]("@ + blob_url + ")"@
    }
}

/// One attachment's markdown. On a public repo an image embeds via the
/// `?raw=true` blob link and a video via an HTML `<video>` tag pointing at the
/// raw bytes (so the player can fetch and seek directly); everything else, and
/// every kind on a private repo (where those URLs are auth-gated), is a link.
pub fn attachment_markdown(
    name: &str,
    blob_url: &str,
    raw_url: &str,
    kind: MediaKind,
    private: bool,
) -> (r: String)
    ensures
        r@ == markdown(name@, blob_url@, raw_url@, kind, private),
{
    if kind == MediaKind::Image && !private {
        let mut out = text::copy("![");
        out.append(name);
        out.append("](");
        out.append(blob_url);
        out.append("?raw=true)");
        out
    } else if kind == MediaKind::Video && !private {
        let mut out = text::copy("<video controls src=\"");
        out.append(raw_url);
        out.append("\"></video>");
        out
    } else {
        let mut out = text::copy("[");
        out.append(name);
        out.append("](");
        out.append(blob_url);
        out.append(")");
        out
    }
}

pub const TRAILER_HEADER: &'static str = "---\n\n**Attachments:**\n\n";

/// `lines` as the bullets of a list.
pub open spec fn bullets(lines: Seq<Seq<char>>) -> Seq<Seq<char>> {
    Seq::new(lines.len(), |i: int| "- "@ + lines[i])
}

/// The trailer that lists `lines`.
pub open spec fn trailer(lines: Seq<Seq<char>>) -> Seq<char> {
    TRAILER_HEADER@ + text::join(bullets(lines), "\n"@)
}

/// Assemble the trailer appended to a comment body.
pub fn build_trailer(lines: &[String]) -> (r: String)
    ensures
        r@ == trailer(text::views(lines@)),
{
    let mut items: Vec<String> = Vec::new();
    let ghost all = bullets(text::views(lines@));
    let mut i: usize = 0;
    while i < lines.len()
        invariant
            i <= lines.len(),
            items.len() == i,
            all == bullets(text::views(lines@)),
            forall|j: int| 0 <= j < i ==> #[trigger] items@[j]@ == all[j],
        decreases lines.len() - i,
    {
        let mut item = text::copy("- ");
        item.append(lines[i].as_str());
        items.push(item);
        i = i + 1;
    }
    assert(text::views(items@) =~= all);
    let mut out = text::copy(TRAILER_HEADER);
    out.append(text::joined(&items, "\n").as_str());
    out
}

/// The markdown line of an upload.
pub open spec fn upload_line(
    owner: Seq<char>,
    repo: Seq<char>,
    p: PreparedView,
    private: bool,
) -> Seq<char> {
    markdown(
        p.name,
        "https://github.com/"@ + owner + "/"@ + repo + "/blob/"@ + BRANCH@ + "/"@ + p.repo_path,
        "https://raw.githubusercontent.com/"@ + owner + "/"@ + repo + "/"@ + BRANCH@ + "/"@
            + p.repo_path,
        kind_of(p.name),
        private,
    )
}

/// The markdown trailer for what was uploaded into the repo, or `None` when
/// nothing was.
pub fn upload(owner: &str, repo: &str, prepared: &[Prepared], private: bool) -> (r: Option<String>)
    ensures
        match r {
            Some(out) => prepared@.len() > 0 && out@ == trailer(
                Seq::new(
                    prepared@.len(),
                    |i: int| upload_line(owner@, repo@, prepared@[i]@, private),
                ),
            ),
            None => prepared@.len() == 0,
        },
{
    if prepared.len() == 0 {
        return None;
    }
    let ghost all = Seq::new(
        prepared@.len(),
        |i: int| upload_line(owner@, repo@, prepared@[i]@, private),
    );
    let mut lines: Vec<String> = Vec::new();
    let mut i: usize = 0;
    while i < prepared.len()
        invariant
            i <= prepared.len(),
            lines.len() == i,
            all == Seq::new(
                prepared@.len(),
                |i: int| upload_line(owner@, repo@, prepared@[i]@, private),
            ),
            forall|j: int| 0 <= j < i ==> #[trigger] lines@[j]@ == all[j],
        decreases prepared.len() - i,
    {
        let p = &prepared[i];
        let mut blob_url = text::copy("https://github.com/");
        blob_url.append(owner);
        blob_url.append("/");
        blob_url.append(repo);
        blob_url.append("/blob/");
        blob_url.append(BRANCH);
        blob_url.append("/");
        blob_url.append(p.repo_path.as_str());
        let mut raw_url = text::copy("https://raw.githubusercontent.com/");
        raw_url.append(owner);
        raw_url.append("/");
        raw_url.append(repo);
        raw_url.append("/");
        raw_url.append(BRANCH);
        raw_url.append("/");
        raw_url.append(p.repo_path.as_str());
        let line = attachment_markdown(
            p.name.as_str(),
            blob_url.as_str(),
            raw_url.as_str(),
            media_kind(p.name.as_str()),
            private,
        );
        assert(line@ == all[i as int]);
        lines.push(line);
        i = i + 1;
    }
    assert(text::views(lines@) =~= all);
    Some(build_trailer(lines.as_slice()))
}

/// On a private repo every attachment is a plain link.
pub proof fn private_attachments_are_links(
    name: Seq<char>,
    blob_url: Seq<char>,
    raw_url: Seq<char>,
    kind: MediaKind,
)
    ensures
        markdown(name, blob_url, raw_url, kind, true) == "["@ + name + "]("@ + blob_url + ")"@,
{
}

/// How the attempt to move the attachments branch ended.
#[derive(Clone, Copy, Debug, PartialEq, Eq, Structural)]
pub enum RefOutcome {
    Updated,
    /// The branch was there, and a concurrent writer has moved its tip.
    Moved,
    /// The branch was absent, and could not be created.
    NotCreated,
}

/// What follows an attempt to move the attachments branch.
#[derive(Clone, Copy, Debug, PartialEq, Eq, Structural)]
pub enum CommitNext {
    Done,
    /// Read the tip again and try once more.
    Retry,
    /// Report a concurrent change.
    Contended,
    /// Report the creation's own error.
    Failed,
}

/// What to do after the first or the second attempt to move the branch: one
/// retry, because a concurrent writer may move or create it in between.
pub fn after_commit(first_attempt: bool, outcome: RefOutcome) -> (r: CommitNext)
    ensures
        r == CommitNext::Done <==> outcome == RefOutcome::Updated,
        r == CommitNext::Retry <==> first_attempt && outcome != RefOutcome::Updated,
        r == CommitNext::Contended <==> !first_attempt && outcome == RefOutcome::Moved,
        r == CommitNext::Failed <==> !first_attempt && outcome == RefOutcome::NotCreated,
{
    match outcome {
        RefOutcome::Updated => CommitNext::Done,
        RefOutcome::Moved => if first_attempt {
            CommitNext::Retry
        } else {
            CommitNext::Contended
        },
        RefOutcome::NotCreated => if first_attempt {
            CommitNext::Retry
        } else {
            CommitNext::Failed
        },
    }
}

/// The tree a commit builds on and the parents it has, from the branch's tip
/// (its commit and its tree): none where the branch is absent.
pub fn commit_base(tip: Option<(String, String)>) -> (r: (Option<String>, Vec<String>))
    ensures
        match tip {
            Some((commit, tree)) => r.0 == Some(tree) && r.1@ == seq![commit],
            None => r.0 is None && r.1@.len() == 0,
        },
{
    match tip {
        Some((commit, tree)) => {
            let mut parents: Vec<String> = Vec::new();
            parents.push(commit);
            (Some(tree), parents)
        },
        None => (None, Vec::new()),
    }
}

} // verus!
