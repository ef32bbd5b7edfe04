use vstd::prelude::*;

use crate::event::{Progress, Timestamp};
use crate::text::{
    after_last_index_of, after_last_index_of_exec, chars_of, contains, contains_exec, decimal,
    first_index_of, first_index_of_exec, occurs_at_exec, owned, push_decimal, push_str,
    starts_with, starts_with_exec, string_of, sub_vec,
};
pub use crate::task_id::TaskId;

verus! {

/// What a task downloads, by protocol.
#[derive(Debug, Clone, PartialEq, Eq)]
pub enum DownloadSource {
    /// A direct HTTP or HTTPS URL.
    Http { url: String },
    /// A `magnet:?` link, with the `dn=` name when it has one.
    Magnet { uri: String, display_name: Option<String> },
    /// A local `.torrent` metainfo file.
    Torrent { path: String },
    /// An FTP URL (not supported).
    Ftp { url: String },
    /// A page on a known video site, with the chosen format when there is one.
    Video { url: String, format_id: Option<String> },
}

/// The characters of a `DownloadSource`.
pub enum SourceView {
    Http { url: Seq<char> },
    Magnet { uri: Seq<char>, display_name: Option<Seq<char>> },
    Torrent { path: Seq<char> },
    Ftp { url: Seq<char> },
    Video { url: Seq<char>, format_id: Option<Seq<char>> },
}

/// The characters of an optional string.
pub open spec fn opt_view(o: Option<String>) -> Option<Seq<char>> {
    match o {
        Some(s) => Some(s@),
        None => None,
    }
}

impl View for DownloadSource {
    type V = SourceView;

    open spec fn view(&self) -> SourceView {
        match self {
            DownloadSource::Http { url } => SourceView::Http { url: url@ },
            DownloadSource::Magnet { uri, display_name } => SourceView::Magnet {
                uri: uri@,
                display_name: opt_view(*display_name),
            },
            DownloadSource::Torrent { path } => SourceView::Torrent { path: path@ },
            DownloadSource::Ftp { url } => SourceView::Ftp { url: url@ },
            DownloadSource::Video { url, format_id } => SourceView::Video {
                url: url@,
                format_id: opt_view(*format_id),
            },
        }
    }
}

/// What `str::to_lowercase` returns for `s`.
pub uninterp spec fn lower_of(s: Seq<char>) -> Seq<char>;

/// Relies on str::to_lowercase: the result depends on the characters alone.
#[verifier::external_body]
fn to_lowercase(s: &str) -> (r: String)
    ensures
        r@ == lower_of(s@),
{
    s.to_lowercase()
}

/// What `Path::file_stem` gives for the path `p`, as text.
pub uninterp spec fn file_stem_of(p: Seq<char>) -> Option<Seq<char>>;

/// Relies on std::path::Path::file_stem: the file name without its last extension, if the
/// path has a file name; a part of a `&str` path is valid UTF-8, so `to_str` keeps it.
#[verifier::external_body]
pub(crate) fn path_file_stem(p: &str) -> (r: Option<String>)
    ensures
        opt_view(r) == file_stem_of(p@),
{
    std::path::Path::new(p).file_stem().and_then(|n| n.to_str()).map(|n| n.to_string())
}

/// The `k`-th host of the fixed set of video sites.
pub open spec fn video_domain(k: int) -> Seq<char> {
    if k == 0 {
        "youtube.com"@
    } else if k == 1 {
        "youtu.be"@
    } else if k == 2 {
        "bilibili.com"@
    } else if k == 3 {
        "b23.tv"@
    } else if k == 4 {
        "twitter.com"@
    } else if k == 5 {
        "x.com"@
    } else if k == 6 {
        "tiktok.com"@
    } else if k == 7 {
        "douyin.com"@
    } else if k == 8 {
        "vimeo.com"@
    } else if k == 9 {
        "dailymotion.com"@
    } else if k == 10 {
        "twitch.tv"@
    } else if k == 11 {
        "instagram.com"@
    } else if k == 12 {
        "facebook.com"@
    } else {
        "nicovideo.jp"@
    }
}

/// Number of hosts in the video-site set.
pub const VIDEO_DOMAIN_COUNT: usize = 14;

fn video_domain_at(k: usize) -> (r: &'static str)
    requires
        k < VIDEO_DOMAIN_COUNT,
    ensures
        r@ == video_domain(k as int),
{
    if k == 0 {
        "youtube.com"
    } else if k == 1 {
        "youtu.be"
    } else if k == 2 {
        "bilibili.com"
    } else if k == 3 {
        "b23.tv"
    } else if k == 4 {
        "twitter.com"
    } else if k == 5 {
        "x.com"
    } else if k == 6 {
        "tiktok.com"
    } else if k == 7 {
        "douyin.com"
    } else if k == 8 {
        "vimeo.com"
    } else if k == 9 {
        "dailymotion.com"
    } else if k == 10 {
        "twitch.tv"
    } else if k == 11 {
        "instagram.com"
    } else if k == 12 {
        "facebook.com"
    } else {
        "nicovideo.jp"
    }
}

/// The text names one of the video hosts anywhere in it.
pub open spec fn is_video_text(s: Seq<char>) -> bool {
    exists|k: int| 0 <= k < VIDEO_DOMAIN_COUNT && #[trigger] contains(s, video_domain(k))
}

/// Whether the URL belongs to a supported video site (substring match on the host set).
pub fn is_video_url(url: &str) -> (r: bool)
    ensures
        r == is_video_text(url@),
{
    let cs = chars_of(url);
    let mut k: usize = 0;
    while k < VIDEO_DOMAIN_COUNT
        invariant
            cs@ == url@,
            forall|j: int| 0 <= j < k ==> !#[trigger] contains(url@, video_domain(j)),
        decreases VIDEO_DOMAIN_COUNT - k,
    {
        let d = chars_of(video_domain_at(k));
        if contains_exec(&cs, &d) {
            return true;
        }
        k += 1;
    }
    false
}

/// Removes every leading repetition of `pre` (as `str::trim_start_matches` does).
pub open spec fn trim_start_all(p: Seq<char>, pre: Seq<char>) -> Seq<char>
    decreases p.len(),
{
    if pre.len() > 0 && starts_with(p, pre) {
        trim_start_all(p.subrange(pre.len() as int, p.len() as int), pre)
    } else {
        p
    }
}

/// The first index of `c` lies within `s`, and holds `c` when it is not the end.
pub proof fn lemma_first_index_of_bounds(s: Seq<char>, c: char)
    ensures
        0 <= first_index_of(s, c) <= s.len(),
        first_index_of(s, c) < s.len() ==> s[first_index_of(s, c)] == c,
    decreases s.len(),
{
    if s.len() > 0 && s[0] != c {
        lemma_first_index_of_bounds(s.drop_first(), c);
    }
}

/// The text after `dn=` in the first `&`-separated part of `s` that starts with `dn=`.
pub open spec fn magnet_name(s: Seq<char>) -> Option<Seq<char>>
    decreases s.len(),
{
    let e = first_index_of(s, '&');
    if 0 <= e <= s.len() {
        let part = s.subrange(0, e);
        if starts_with(part, "dn="@) {
            Some(part.subrange("dn="@.len() as int, part.len() as int))
        } else if e < s.len() {
            magnet_name(s.subrange(e + 1, s.len() as int))
        } else {
            None
        }
    } else {
        None
    }
}

/// Classification of a source text, given its lower-case form.
///
/// In priority order: `magnet:?` prefix, a video host anywhere, `http://` or `https://`
/// prefix, `ftp://` prefix; anything else is a local torrent file path.
pub open spec fn classify(s: Seq<char>, lower: Seq<char>) -> SourceView {
    if starts_with(lower, "magnet:?"@) {
        SourceView::Magnet { uri: s, display_name: magnet_name(s) }
    } else if is_video_text(s) {
        SourceView::Video { url: s, format_id: None }
    } else if starts_with(lower, "http://"@) || starts_with(lower, "https://"@) {
        SourceView::Http { url: s }
    } else if starts_with(lower, "ftp://"@) {
        SourceView::Ftp { url: s }
    } else {
        SourceView::Torrent { path: s }
    }
}

/// Classification is a total function of the text: every text lands in exactly one of the
/// five kinds, and equal texts land in the same kind with the same fields.
pub proof fn lemma_classify_total(s: Seq<char>, t: Seq<char>)
    requires
        s == t,
    ensures
        classify(s, lower_of(s)) == classify(t, lower_of(t)),
        classify(s, lower_of(s)) is Http || classify(s, lower_of(s)) is Magnet || classify(
            s,
            lower_of(s),
        ) is Torrent || classify(s, lower_of(s)) is Ftp || classify(s, lower_of(s)) is Video,
{
}

/// Last `/`-separated segment of a URL.
pub open spec fn last_segment(url: Seq<char>) -> Seq<char> {
    url.subrange(after_last_index_of(url, '/'), url.len() as int)
}

/// Last segment of a URL with any query string cut off.
pub open spec fn url_file_name(url: Seq<char>) -> Seq<char> {
    let seg = last_segment(url);
    seg.subrange(0, first_index_of(seg, '?'))
}

/// The default name shown for a source.
pub open spec fn source_name(s: SourceView) -> Seq<char> {
    match s {
        SourceView::Http { url } => url_file_name(url),
        SourceView::Magnet { display_name, .. } => match display_name {
            Some(n) => n,
            None => "磁力链接"@,
        },
        SourceView::Torrent { path } => match file_stem_of(path) {
            Some(n) => n,
            None => "种子文件"@,
        },
        SourceView::Ftp { url } => last_segment(url),
        SourceView::Video { url, .. } => if contains(url, "bilibili.com"@) || contains(
            url,
            "b23.tv"@,
        ) {
            "Bilibili 视频"@
        } else if contains(url, "youtube.com"@) || contains(url, "youtu.be"@) {
            "YouTube 视频"@
        } else {
            "视频下载"@
        },
    }
}

/// Protocol label of a source.
pub open spec fn protocol_label(s: SourceView) -> Seq<char> {
    match s {
        SourceView::Http { .. } => "HTTP"@,
        SourceView::Magnet { .. } => "BitTorrent"@,
        SourceView::Torrent { .. } => "BitTorrent"@,
        SourceView::Ftp { .. } => "FTP"@,
        SourceView::Video { .. } => "Video"@,
    }
}

/// The `dn=` value of a magnet link, computed.
fn magnet_name_exec(s: &Vec<char>) -> (r: Option<String>)
    ensures
        opt_view(r) == magnet_name(s@),
{
    let pre = chars_of("dn=");
    let mut start: usize = 0;
    assert(s@.subrange(0, s@.len() as int) =~= s@);
    while start <= s.len()
        invariant
            pre@ == "dn="@,
            start <= s@.len(),
            magnet_name(s@) == magnet_name(s@.subrange(start as int, s@.len() as int)),
        decreases s@.len() - start,
    {
        let rest = sub_vec(s, start, s.len());
        let e = first_index_of_exec(&rest, '&');
        proof {
            lemma_first_index_of_bounds(rest@, '&');
        }
        let part = sub_vec(&rest, 0, e);
        if starts_with_exec(&part, &pre) {
            proof {
                reveal_strlit("dn=");
            }
            return Some(string_of(&rest, 3, e));
        }
        if e >= rest.len() {
            return None;
        }
        assert(rest@.subrange(e + 1, rest@.len() as int) =~= s@.subrange(
            start + e + 1,
            s@.len() as int,
        ));
        start = start + e + 1;
    }
    None
}

/// The source text with its lower-case form already computed.
pub fn detect_lowered(source: &str, lower: &str) -> (r: DownloadSource)
    ensures
        r@ == classify(source@, lower@),
{
    let low = chars_of(lower);
    let magnet = chars_of("magnet:?");
    let http = chars_of("http://");
    let https = chars_of("https://");
    let ftp = chars_of("ftp://");
    if starts_with_exec(&low, &magnet) {
        let cs = chars_of(source);
        let display_name = magnet_name_exec(&cs);
        DownloadSource::Magnet { uri: owned(source), display_name }
    } else if is_video_url(source) {
        DownloadSource::Video { url: owned(source), format_id: None }
    } else if starts_with_exec(&low, &http) || starts_with_exec(&low, &https) {
        DownloadSource::Http { url: owned(source) }
    } else if starts_with_exec(&low, &ftp) {
        DownloadSource::Ftp { url: owned(source) }
    } else {
        DownloadSource::Torrent { path: owned(source) }
    }
}

/// An exact copy of an optional string.
pub fn copy_opt(o: &Option<String>) -> (r: Option<String>)
    ensures
        r == *o,
{
    match o {
        Some(s) => Some(s.clone()),
        None => None,
    }
}

impl DownloadSource {
    /// An exact copy.
    pub fn duplicate(&self) -> (r: DownloadSource)
        ensures
            r == *self,
    {
        match self {
            DownloadSource::Http { url } => DownloadSource::Http { url: url.clone() },
            DownloadSource::Magnet { uri, display_name } => DownloadSource::Magnet {
                uri: uri.clone(),
                display_name: copy_opt(display_name),
            },
            DownloadSource::Torrent { path } => DownloadSource::Torrent { path: path.clone() },
            DownloadSource::Ftp { url } => DownloadSource::Ftp { url: url.clone() },
            DownloadSource::Video { url, format_id } => DownloadSource::Video {
                url: url.clone(),
                format_id: copy_opt(format_id),
            },
        }
    }

    /// Classifies a source text (see `classify`); prefixes are matched case-insensitively.
    pub fn detect(source: &str) -> (r: DownloadSource)
        ensures
            r@ == classify(source@, lower_of(source@)),
    {
        let lower = to_lowercase(source);
        detect_lowered(source, lower.as_str())
    }

    /// The default display name: URL file name, magnet `dn`, metainfo file stem or a
    /// video-site label.
    pub fn display_name(&self) -> (r: String)
        ensures
            r@ == source_name(self@),
    {
        match self {
            DownloadSource::Http { url } => {
                let cs = chars_of(url.as_str());
                let a = after_last_index_of_exec(&cs, '/');
                let seg = sub_vec(&cs, a, cs.len());
                let q = first_index_of_exec(&seg, '?');
                string_of(&seg, 0, q)
            },
            DownloadSource::Magnet { display_name, .. } => match display_name {
                Some(n) => n.clone(),
                None => owned("磁力链接"),
            },
            DownloadSource::Torrent { path } => match path_file_stem(path.as_str()) {
                Some(n) => n,
                None => owned("种子文件"),
            },
            DownloadSource::Ftp { url } => {
                let cs = chars_of(url.as_str());
                let a = after_last_index_of_exec(&cs, '/');
                string_of(&cs, a, cs.len())
            },
            DownloadSource::Video { url, .. } => {
                let cs = chars_of(url.as_str());
                if contains_exec(&cs, &chars_of("bilibili.com")) || contains_exec(
                    &cs,
                    &chars_of("b23.tv"),
                ) {
                    owned("Bilibili 视频")
                } else if contains_exec(&cs, &chars_of("youtube.com")) || contains_exec(
                    &cs,
                    &chars_of("youtu.be"),
                ) {
                    owned("YouTube 视频")
                } else {
                    owned("视频下载")
                }
            },
        }
    }

    /// The protocol label: "HTTP", "BitTorrent", "FTP" or "Video".
    pub fn protocol_name(&self) -> (r: &'static str)
        ensures
            r@ == protocol_label(self@),
    {
        match self {
            DownloadSource::Http { .. } => "HTTP",
            DownloadSource::Magnet { .. } => "BitTorrent",
            DownloadSource::Torrent { .. } => "BitTorrent",
            DownloadSource::Ftp { .. } => "FTP",
            DownloadSource::Video { .. } => "Video",
        }
    }
}

/// Lifecycle state of a download task.
#[derive(Debug, Clone, PartialEq, Eq)]
pub enum TaskStatus {
    /// Added, not yet started.
    Pending,
    /// Waiting for torrent metadata.
    FetchingMetadata,
    /// Transferring data.
    Downloading,
    /// Suspended by the user.
    Paused,
    /// Finished successfully.
    Completed,
    /// Uploading after completion (BitTorrent only).
    Seeding,
    /// Failed with an error message and the number of retries made.
    Failed { error: String, retry_count: usize },
    /// Cancelled by the user.
    Cancelled,
}

impl TaskStatus {
    /// An exact copy.
    pub fn duplicate(&self) -> (r: TaskStatus)
        ensures
            r == *self,
    {
        match self {
            TaskStatus::Pending => TaskStatus::Pending,
            TaskStatus::FetchingMetadata => TaskStatus::FetchingMetadata,
            TaskStatus::Downloading => TaskStatus::Downloading,
            TaskStatus::Paused => TaskStatus::Paused,
            TaskStatus::Completed => TaskStatus::Completed,
            TaskStatus::Seeding => TaskStatus::Seeding,
            TaskStatus::Failed { error, retry_count } => TaskStatus::Failed {
                error: error.clone(),
                retry_count: *retry_count,
            },
            TaskStatus::Cancelled => TaskStatus::Cancelled,
        }
    }

    pub open spec fn spec_is_active(&self) -> bool {
        self is Downloading || self is FetchingMetadata || self is Seeding
    }

    pub open spec fn spec_can_pause(&self) -> bool {
        self is Downloading || self is FetchingMetadata || self is Pending
    }

    pub open spec fn spec_can_resume(&self) -> bool {
        self is Paused
    }

    pub open spec fn spec_is_finished(&self) -> bool {
        self is Completed || self is Failed || self is Cancelled
    }

    /// The Chinese description shown to users.
    pub open spec fn spec_description(&self) -> Seq<char> {
        match self {
            TaskStatus::Pending => "等待中"@,
            TaskStatus::FetchingMetadata => "获取元数据"@,
            TaskStatus::Downloading => "下载中"@,
            TaskStatus::Paused => "已暂停"@,
            TaskStatus::Completed => "已完成"@,
            TaskStatus::Seeding => "做种中"@,
            TaskStatus::Failed { error, retry_count } => "失败 (重试 "@ + decimal(
                *retry_count as nat,
            ) + " 次): "@ + error@,
            TaskStatus::Cancelled => "已取消"@,
        }
    }

    /// Downloading, fetching metadata or seeding.
    pub fn is_active(&self) -> (r: bool)
        ensures
            r == self.spec_is_active(),
    {
        matches!(self, TaskStatus::Downloading | TaskStatus::FetchingMetadata | TaskStatus::Seeding)
    }

    /// Downloading, fetching metadata or pending.
    pub fn can_pause(&self) -> (r: bool)
        ensures
            r == self.spec_can_pause(),
    {
        matches!(self, TaskStatus::Downloading | TaskStatus::FetchingMetadata | TaskStatus::Pending)
    }

    /// Paused.
    pub fn can_resume(&self) -> (r: bool)
        ensures
            r == self.spec_can_resume(),
    {
        matches!(self, TaskStatus::Paused)
    }

    /// Completed, failed or cancelled.
    pub fn is_finished(&self) -> (r: bool)
        ensures
            r == self.spec_is_finished(),
    {
        matches!(self, TaskStatus::Completed | TaskStatus::Failed { .. } | TaskStatus::Cancelled)
    }

    /// The Chinese description shown to users ("已完成", "失败 (重试 2 次): ...").
    pub fn description(&self) -> (r: String)
        ensures
            r@ == self.spec_description(),
    {
        match self {
            TaskStatus::Pending => owned("等待中"),
            TaskStatus::FetchingMetadata => owned("获取元数据"),
            TaskStatus::Downloading => owned("下载中"),
            TaskStatus::Paused => owned("已暂停"),
            TaskStatus::Completed => owned("已完成"),
            TaskStatus::Seeding => owned("做种中"),
            TaskStatus::Failed { error, retry_count } => {
                let mut r = owned("失败 (重试 ");
                push_decimal(&mut r, *retry_count as u128);
                push_str(&mut r, " 次): ");
                push_str(&mut r, error.as_str());
                r
            },
            TaskStatus::Cancelled => owned("已取消"),
        }
    }
}

/// Relies on chrono::Utc::now and DateTime::timestamp: the current time in seconds since
/// the Unix epoch.
#[verifier::external_body]
pub(crate) fn now_secs() -> Timestamp {
    chrono::Utc::now().timestamp()
}

/// Default priority of a new task.
pub const DEFAULT_PRIORITY: u8 = 5;

/// One logical download, as kept by the task registry.
#[derive(Debug, Clone)]
pub struct DownloadTask {
    /// Unique id.
    pub id: TaskId,
    /// Name shown to users.
    pub name: String,
    /// What is downloaded.
    pub source: DownloadSource,
    /// Destination directory or file.
    pub save_path: String,
    /// Current state.
    pub status: TaskStatus,
    /// Last known progress.
    pub progress: Progress,
    /// When the task was created.
    pub created_at: Timestamp,
    /// When the transfer started.
    pub started_at: Option<Timestamp>,
    /// When the transfer finished.
    pub completed_at: Option<Timestamp>,
    /// Priority from 1 to 10, higher first.
    pub priority: u8,
}

impl DownloadTask {
    /// An exact copy.
    pub fn duplicate(&self) -> (r: DownloadTask)
        ensures
            r == *self,
    {
        DownloadTask {
            id: self.id,
            name: self.name.clone(),
            source: self.source.duplicate(),
            save_path: self.save_path.clone(),
            status: self.status.duplicate(),
            progress: self.progress,
            created_at: self.created_at,
            started_at: self.started_at,
            completed_at: self.completed_at,
            priority: self.priority,
        }
    }

    /// A pending task for `source`, named after it, with a fresh id.
    pub fn new(source: DownloadSource, save_path: String) -> (r: DownloadTask)
        ensures
            r.name@ == source_name(source@),
            r.source == source,
            r.save_path == save_path,
            r.status == TaskStatus::Pending,
            r.progress.total_size == 0 && r.progress.downloaded_size == 0,
            r.progress.percent_hundredths == 0 && r.progress.wf(),
            r.started_at is None,
            r.completed_at is None,
            r.priority == DEFAULT_PRIORITY,
    {
        DownloadTask::create(TaskId::new(), source, save_path)
    }

    /// A pending task with the given id for `source`, named after it.
    pub fn create(id: TaskId, source: DownloadSource, save_path: String) -> (r: DownloadTask)
        ensures
            r.id == id,
            r.name@ == source_name(source@),
            r.source == source,
            r.save_path == save_path,
            r.status == TaskStatus::Pending,
            r.progress.total_size == 0 && r.progress.downloaded_size == 0,
            r.progress.percent_hundredths == 0 && r.progress.wf(),
            r.started_at is None,
            r.completed_at is None,
            r.priority == DEFAULT_PRIORITY,
    {
        let name = source.display_name();
        DownloadTask {
            id,
            name,
            source,
            save_path,
            status: TaskStatus::Pending,
            progress: Progress::default(),
            created_at: now_secs(),
            started_at: None,
            completed_at: None,
            priority: DEFAULT_PRIORITY,
        }
    }

    /// The same task under another name.
    pub fn with_name(self, name: String) -> (r: DownloadTask)
        ensures
            r == (DownloadTask { name, ..self }),
    {
        let mut t = self;
        t.name = name;
        t
    }

    /// The same task with the priority clamped to [1, 10].
    pub fn with_priority(self, priority: u8) -> (r: DownloadTask)
        ensures
            r == (DownloadTask {
                priority: if priority < 1 {
                    1
                } else if priority > 10 {
                    10
                } else {
                    priority
                },
                ..self
            }),
    {
        let mut t = self;
        t.priority = if priority < 1 {
            1
        } else if priority > 10 {
            10
        } else {
            priority
        };
        t
    }

    /// Marks the transfer as started now.
    pub fn mark_started(&mut self)
        ensures
            final(self).status == TaskStatus::Downloading,
            final(self).started_at is Some,
            *final(self) == (DownloadTask {
                status: TaskStatus::Downloading,
                started_at: final(self).started_at,
                ..*old(self)
            }),
    {
        self.status = TaskStatus::Downloading;
        self.started_at = Some(now_secs());
    }

    /// Marks the transfer as completed now.
    pub fn mark_completed(&mut self)
        ensures
            final(self).status == TaskStatus::Completed,
            final(self).completed_at is Some,
            *final(self) == (DownloadTask {
                status: TaskStatus::Completed,
                completed_at: final(self).completed_at,
                ..*old(self)
            }),
    {
        self.status = TaskStatus::Completed;
        self.completed_at = Some(now_secs());
    }

    /// Marks the task as failed with the error and the retries made.
    pub fn mark_failed(&mut self, error: String, retry_count: usize)
        ensures
            *final(self) == (DownloadTask {
                status: TaskStatus::Failed { error, retry_count },
                ..*old(self)
            }),
    {
        self.status = TaskStatus::Failed { error, retry_count };
    }

    /// Seconds from start to completion (or to now while running); `None` before the start.
    pub fn elapsed_secs(&self) -> (r: Option<i64>)
        ensures
            self.started_at is None ==> r is None,
            self.started_at is Some && self.completed_at is Some ==> r == Some(
                clamp_i64(self.completed_at->0 - self.started_at->0),
            ),
            self.started_at is Some ==> r is Some,
    {
        match self.started_at {
            None => None,
            Some(start) => {
                let end = match self.completed_at {
                    Some(e) => e,
                    None => now_secs(),
                };
                Some(clamped_difference(end, start))
            },
        }
    }
}

/// `d` brought into the range of `i64`.
pub open spec fn clamp_i64(d: int) -> i64 {
    if d > i64::MAX {
        i64::MAX
    } else if d < i64::MIN {
        i64::MIN
    } else {
        d as i64
    }
}

fn clamped_difference(end: i64, start: i64) -> (r: i64)
    ensures
        r == clamp_i64(end - start),
{
    let d: i128 = end as i128 - start as i128;
    if d > i64::MAX as i128 {
        i64::MAX
    } else if d < i64::MIN as i128 {
        i64::MIN
    } else {
        d as i64
    }
}

} // verus!
