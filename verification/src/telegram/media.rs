//! Telegram attachments saved into the agent workspace: which files of a
//! message are fetched, under what names, and where `exec` finds them
//! (`inbox/telegram/<chat>/<message>/<file>`).

use vstd::prelude::*;

use crate::telegram::api::Message;
use crate::text::{append_slice, append_str, decimal, from_chars, i64_decimal, int_decimal, to_chars, u64_decimal};

verus! {

/// A saved attachment.
pub struct DownloadedFile {
    /// Path inside the workspace (`inbox/telegram/...`).
    pub workspace_rel: String,
    /// Path on the host.
    pub host_path: String,
    /// `image`, `document`, `voice`, `audio` or `video`.
    pub kind: &'static str,
    pub original_name: Option<String>,
}

/// One attachment to fetch.
pub struct MediaDownload {
    pub file_id: String,
    pub kind: &'static str,
    /// The file name in the inbox directory.
    pub file_name: String,
    /// Whether a free variant of the name is picked when it is taken.
    pub unique: bool,
    /// Extension added when Telegram's file path has none.
    pub suffix: &'static str,
    pub original_name: Option<String>,
}

/// The mathematical content of a planned download.
pub struct DownloadView {
    pub file_id: Seq<char>,
    pub kind: Seq<char>,
    pub file_name: Seq<char>,
    pub unique: bool,
    pub suffix: Seq<char>,
    pub original_name: Option<Seq<char>>,
}

/// The view of a planned download.
pub open spec fn download_view(d: MediaDownload) -> DownloadView {
    DownloadView {
        file_id: d.file_id@,
        kind: d.kind@,
        file_name: d.file_name@,
        unique: d.unique,
        suffix: d.suffix@,
        original_name: match d.original_name {
            Some(n) => Some(n@),
            None => None,
        },
    }
}

/// The views of planned downloads.
pub open spec fn download_views(v: Seq<MediaDownload>) -> Seq<DownloadView> {
    v.map_values(|d: MediaDownload| download_view(d))
}

/// Characters kept in a saved file name; others become `_`.
pub open spec fn safe_char(c: char) -> char {
    if ('a' <= c && c <= 'z') || ('A' <= c && c <= 'Z') || ('0' <= c && c <= '9') || c == '.' || c
        == '-' || c == '_' || c == ' ' {
        c
    } else {
        '_'
    }
}

/// A file name safe to save: unsafe characters replaced, `file` when empty,
/// at most 200 characters.
pub open spec fn sanitized_name(name: Seq<char>) -> Seq<char> {
    let m = name.map_values(|c: char| safe_char(c));
    if m.len() == 0 {
        "file"@
    } else if m.len() > 200 {
        m.take(200)
    } else {
        m
    }
}

fn safe(c: char) -> (r: char)
    ensures
        r == safe_char(c),
{
    if ('a' <= c && c <= 'z') || ('A' <= c && c <= 'Z') || ('0' <= c && c <= '9') || c == '.' || c
        == '-' || c == '_' || c == ' ' {
        c
    } else {
        '_'
    }
}

/// Replaces characters outside `[A-Za-z0-9._ -]` with `_`; an empty name
/// becomes `file`; the result is cut to 200 characters.
pub fn sanitize_filename(name: &str) -> (r: String)
    ensures
        r@ == sanitized_name(name@),
{
    let c = to_chars(name);
    let mut out: Vec<char> = Vec::new();
    let mut i: usize = 0;
    while i < c.len()
        invariant
            i <= c.len(),
            out@ == c@.take(i as int).map_values(|x: char| safe_char(x)),
        decreases c.len() - i,
    {
        out.push(safe(c[i]));
        assert(c@.take(i + 1).map_values(|x: char| safe_char(x)) =~= c@.take(i as int).map_values(
            |x: char| safe_char(x),
        ).push(safe_char(c@[i as int])));
        i += 1;
    }
    assert(c@.take(c.len() as int) =~= c@);
    if out.len() == 0 {
        return "file".to_owned();
    }
    if out.len() > 200 {
        let mut t: Vec<char> = Vec::new();
        let mut k: usize = 0;
        while k < 200
            invariant
                k <= 200,
                200 < out.len(),
                t@ == out@.take(k as int),
            decreases 200 - k,
        {
            t.push(out[k]);
            assert(t@ =~= out@.take(k + 1));
            k += 1;
        }
        return from_chars(&t);
    }
    from_chars(&out)
}

/// The name used when Telegram gives none (or an empty one).
pub open spec fn name_or(name: Option<String>, default: Seq<char>) -> Seq<char> {
    match name {
        Some(n) => if n@.len() > 0 {
            n@
        } else {
            default
        },
        None => default,
    }
}

fn given_name(name: &Option<String>, default: &str) -> (r: String)
    ensures
        r@ == name_or(*name, default@),
{
    match name {
        Some(n) => if n.as_str().is_empty() {
            default.to_owned()
        } else {
            n.clone()
        },
        None => default.to_owned(),
    }
}

fn opt_view(o: &Option<String>) -> (r: Option<String>)
    ensures
        match (r, *o) {
            (Some(a), Some(b)) => a@ == b@,
            (None, None) => true,
            _ => false,
        },
{
    match o {
        Some(s) => Some(s.clone()),
        None => None,
    }
}

/// A planned download with a fixed name.
pub open spec fn fixed(file_id: Seq<char>, kind: Seq<char>, name: Seq<char>, suffix: Seq<char>) -> DownloadView {
    DownloadView { file_id, kind, file_name: name, unique: false, suffix, original_name: Some(name) }
}

/// A planned download named after the sender's file name.
pub open spec fn named(
    file_id: Seq<char>,
    kind: Seq<char>,
    name: Option<String>,
    default: Seq<char>,
    suffix: Seq<char>,
) -> DownloadView {
    DownloadView {
        file_id,
        kind,
        file_name: sanitized_name(name_or(name, default)),
        unique: true,
        suffix,
        original_name: match name {
            Some(n) => Some(n@),
            None => None,
        },
    }
}

/// The attachments of a message, in the order they are fetched: the largest
/// photo, the document, the voice note, the audio file, the video.
pub open spec fn media_plan(m: Message) -> Seq<DownloadView> {
    let photo = match m.photo {
        Some(ps) => if ps@.len() > 0 {
            seq![fixed(ps@.last().file_id@, "image"@, "photo.jpg"@, ".jpg"@)]
        } else {
            Seq::empty()
        },
        None => Seq::empty(),
    };
    let document = match m.document {
        Some(d) => seq![named(d.file_id@, "document"@, d.file_name, "document"@, ""@)],
        None => Seq::empty(),
    };
    let voice = match m.voice {
        Some(v) => seq![fixed(v.file_id@, "voice"@, "voice.ogg"@, ".ogg"@)],
        None => Seq::empty(),
    };
    let audio = match m.audio {
        Some(a) => seq![named(a.file_id@, "audio"@, a.file_name, "audio.mp3"@, ".mp3"@)],
        None => Seq::empty(),
    };
    let video = match m.video {
        Some(v) => seq![named(v.file_id@, "video"@, v.file_name, "video.mp4"@, ".mp4"@)],
        None => Seq::empty(),
    };
    photo + document + voice + audio + video
}

fn push_plan(out: &mut Vec<MediaDownload>, d: MediaDownload)
    ensures
        download_views(final(out)@) == download_views(old(out)@).push(download_view(d)),
{
    let ghost before = out@;
    out.push(d);
    assert(download_views(out@) =~= download_views(before).push(download_view(d)));
}

/// Plans the downloads of a message's attachments.
pub fn plan_media(msg: &Message) -> (r: Vec<MediaDownload>)
    ensures
        download_views(r@) == media_plan(*msg),
{
    let mut out: Vec<MediaDownload> = Vec::new();
    assert(download_views(out@) =~= Seq::<DownloadView>::empty());
    match &msg.photo {
        Some(ps) => {
            if ps.len() > 0 {
                let p = &ps[ps.len() - 1];
                push_plan(&mut out, MediaDownload {
                    file_id: p.file_id.clone(),
                    kind: "image",
                    file_name: "photo.jpg".to_owned(),
                    unique: false,
                    suffix: ".jpg",
                    original_name: Some("photo.jpg".to_owned()),
                });
            }
        },
        None => {},
    }
    let ghost after_photo = download_views(out@);
    match &msg.document {
        Some(d) => push_plan(&mut out, MediaDownload {
            file_id: d.file_id.clone(),
            kind: "document",
            file_name: sanitize_filename(given_name(&d.file_name, "document").as_str()),
            unique: true,
            suffix: "",
            original_name: opt_view(&d.file_name),
        }),
        None => {},
    }
    let ghost after_document = download_views(out@);
    match &msg.voice {
        Some(v) => push_plan(&mut out, MediaDownload {
            file_id: v.file_id.clone(),
            kind: "voice",
            file_name: "voice.ogg".to_owned(),
            unique: false,
            suffix: ".ogg",
            original_name: Some("voice.ogg".to_owned()),
        }),
        None => {},
    }
    let ghost after_voice = download_views(out@);
    match &msg.audio {
        Some(a) => push_plan(&mut out, MediaDownload {
            file_id: a.file_id.clone(),
            kind: "audio",
            file_name: sanitize_filename(given_name(&a.file_name, "audio.mp3").as_str()),
            unique: true,
            suffix: ".mp3",
            original_name: opt_view(&a.file_name),
        }),
        None => {},
    }
    let ghost after_audio = download_views(out@);
    match &msg.video {
        Some(v) => push_plan(&mut out, MediaDownload {
            file_id: v.file_id.clone(),
            kind: "video",
            file_name: sanitize_filename(given_name(&v.file_name, "video.mp4").as_str()),
            unique: true,
            suffix: ".mp4",
            original_name: opt_view(&v.file_name),
        }),
        None => {},
    }
    proof {
        let m = *msg;
        let photo = match m.photo {
            Some(ps) => if ps@.len() > 0 {
                seq![fixed(ps@.last().file_id@, "image"@, "photo.jpg"@, ".jpg"@)]
            } else {
                Seq::empty()
            },
            None => Seq::empty(),
        };
        assert(after_photo =~= photo);
        assert(download_views(out@) =~= media_plan(m));
    }
    out
}

/// Position of the last `.` in `s`, `-1` when there is none.
pub open spec fn last_dot(s: Seq<char>) -> int
    decreases s.len(),
{
    if s.len() == 0 {
        -1
    } else if s.last() == '.' {
        s.len() - 1
    } else {
        last_dot(s.drop_last())
    }
}

/// The stem and extension of a file name, as `Path::file_stem` and
/// `Path::extension` give them (`file` when there is no stem).
pub open spec fn stem_and_ext(name: Seq<char>) -> (Seq<char>, Option<Seq<char>>) {
    if name.len() == 0 || name == "."@ || name == ".."@ {
        ("file"@, None)
    } else {
        let k = last_dot(name);
        if k <= 0 {
            (name, None)
        } else {
            (name.take(k), Some(name.skip(k + 1)))
        }
    }
}

/// The `i`-th variant of a taken file name: `stem-i.ext`.
pub open spec fn numbered_name(name: Seq<char>, i: nat) -> Seq<char> {
    let (stem, ext) = stem_and_ext(name);
    stem + "-"@ + decimal(i) + match ext {
        Some(e) => "."@ + e,
        None => Seq::empty(),
    }
}

/// The names tried for a file, in order: the name itself, then its variants
/// numbered 2 to 99.
pub open spec fn candidate_names(name: Seq<char>) -> Seq<Seq<char>> {
    Seq::new(99, |j: int| if j == 0 { name } else { numbered_name(name, (j + 1) as nat) })
}

fn split_name(name: &[char]) -> (r: (Vec<char>, Option<Vec<char>>))
    ensures
        r.0@ == stem_and_ext(name@).0,
        match (r.1, stem_and_ext(name@).1) {
            (Some(a), Some(b)) => a@ == b,
            (None, None) => true,
            _ => false,
        },
{
    proof {
        reveal_strlit(".");
        reveal_strlit("..");
    }
    if name.len() == 0 || (name.len() == 1 && name[0] == '.') || (name.len() == 2 && name[0] == '.'
        && name[1] == '.') {
        proof {
            if name@.len() == 1 {
                assert(name@ =~= "."@);
            }
            if name@.len() == 2 {
                assert(name@ =~= ".."@);
            }
        }
        return (to_chars("file"), None);
    }
    assert(name@ != "."@ && name@ != ".."@) by {
        if name@ == "."@ {
            assert(name@.len() == 1 && name@[0] == '.');
        }
        if name@ == ".."@ {
            assert(name@.len() == 2 && name@[0] == '.' && name@[1] == '.');
        }
    }
    let mut k: usize = name.len();
    assert(name@.take(name.len() as int) =~= name@);
    while k > 0 && name[k - 1] != '.'
        invariant
            k <= name.len(),
            last_dot(name@) == last_dot(name@.take(k as int)),
        decreases k,
    {
        assert(name@.take(k as int).drop_last() =~= name@.take(k - 1));
        k -= 1;
    }
    proof {
        if k > 0 {
            assert(name@.take(k as int).last() == '.');
        } else {
            assert(name@.take(0) =~= Seq::<char>::empty());
        }
    }
    if k <= 1 {
        return (crate::text::slice_of(name, 0, name.len()), None);
    }
    let stem = crate::text::slice_of(name, 0, k - 1);
    let ext = crate::text::slice_of(name, k, name.len());
    (stem, Some(ext))
}

/// The names tried for saving `file_name`, in order.
pub fn candidate_file_names(file_name: &str) -> (r: Vec<String>)
    ensures
        r@.map_values(|s: String| s@) == candidate_names(file_name@),
{
    let c = to_chars(file_name);
    let (stem, ext) = split_name(&c);
    let mut out: Vec<String> = Vec::new();
    out.push(file_name.to_owned());
    let mut i: u64 = 2;
    while i < 100
        invariant
            2 <= i <= 100,
            c@ == file_name@,
            stem@ == stem_and_ext(file_name@).0,
            match (ext, stem_and_ext(file_name@).1) {
                (Some(a), Some(b)) => a@ == b,
                (None, None) => true,
                _ => false,
            },
            out@.map_values(|s: String| s@) == candidate_names(file_name@).take(i - 1),
        decreases 100 - i,
    {
        let mut n = crate::text::slice_of(&stem, 0, stem.len());
        append_str(&mut n, "-");
        let d = u64_decimal(i);
        append_slice(&mut n, &d);
        match &ext {
            Some(e) => {
                append_str(&mut n, ".");
                append_slice(&mut n, e);
            },
            None => {},
        }
        let s = from_chars(&n);
        let ghost before = out@;
        out.push(s);
        assert(out@.map_values(|s: String| s@) =~= candidate_names(file_name@).take(i as int)) by {
            assert(n@ == numbered_name(file_name@, i as nat));
            assert(out@.map_values(|s: String| s@) =~= before.map_values(|s: String| s@).push(s@));
        }
        i += 1;
    }
    assert(candidate_names(file_name@).take(99) =~= candidate_names(file_name@));
    out
}

/// Picks the candidate to save to: the first free one, else the first.
pub fn pick_free_name(taken: &Vec<bool>) -> (r: usize)
    ensures
        (exists|j: int| 0 <= j < taken@.len() && !taken@[j]) ==> {
            &&& r < taken@.len()
            &&& !taken@[r as int]
            &&& forall|k: int| 0 <= k < r ==> taken@[k]
        },
        (forall|j: int| 0 <= j < taken@.len() ==> taken@[j]) ==> r == 0,
{
    let mut i: usize = 0;
    while i < taken.len()
        invariant
            i <= taken.len(),
            forall|k: int| 0 <= k < i ==> taken@[k],
        decreases taken.len() - i,
    {
        if !taken[i] {
            return i;
        }
        i += 1;
    }
    0
}

/// The workspace directory of a message's attachments.
pub open spec fn inbox_dir(chat_id: i64, message_id: i64) -> Seq<char> {
    "inbox/telegram/"@ + int_decimal(chat_id as int) + "/"@ + int_decimal(message_id as int)
}

/// `inbox/telegram/<chat>/<message>`.
pub fn telegram_inbox_rel(chat_id: i64, message_id: i64) -> (r: String)
    ensures
        r@ == inbox_dir(chat_id, message_id),
{
    let mut out = to_chars("inbox/telegram/");
    let c = i64_decimal(chat_id);
    append_slice(&mut out, &c);
    append_str(&mut out, "/");
    let m = i64_decimal(message_id);
    append_slice(&mut out, &m);
    from_chars(&out)
}

/// Where `exec` finds a saved attachment.
pub open spec fn workspace_path_of(chat: Seq<char>, message: Seq<char>, file_name: Seq<char>) -> Seq<char> {
    "inbox/telegram/"@ + chat + "/"@ + message + "/"@ + file_name
}

/// A saved attachment: `chat` and `message` are the names of the inbox
/// directories, `file_name` the name of the saved file.
pub fn downloaded_file(
    chat: &str,
    message: &str,
    file_name: &str,
    host_path: String,
    kind: &'static str,
    original_name: Option<String>,
) -> (r: DownloadedFile)
    ensures
        r.workspace_rel@ == workspace_path_of(chat@, message@, file_name@),
        r.host_path == host_path,
        r.kind == kind,
        r.original_name == original_name,
{
    let mut out = to_chars("inbox/telegram/");
    append_str(&mut out, chat);
    append_str(&mut out, "/");
    append_str(&mut out, message);
    append_str(&mut out, "/");
    append_str(&mut out, file_name);
    DownloadedFile { workspace_rel: from_chars(&out), host_path, kind, original_name }
}

} // verus!
