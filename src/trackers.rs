use vstd::prelude::*;

use crate::http::path_join_of;
use crate::text::{chars_of, is_space, is_space_exec, owned, starts_with, starts_with_exec, string_of};

verus! {

/// Seconds a cached tracker list stays valid (seven days).
pub const CACHE_TTL_SECS: u64 = 7 * 24 * 60 * 60;

/// The parts of `s` between `\n` characters (one more than there are newlines).
pub open spec fn split_lines(s: Seq<char>) -> Seq<Seq<char>>
    decreases s.len(),
{
    if s.len() == 0 {
        seq![Seq::empty()]
    } else {
        let t = split_lines(s.drop_last());
        if s.last() == '\n' {
            t.push(Seq::empty())
        } else {
            t.drop_last().push(t.last().push(s.last()))
        }
    }
}

/// `s` without leading whitespace.
pub open spec fn trim_start(s: Seq<char>) -> Seq<char>
    decreases s.len(),
{
    if s.len() > 0 && is_space(s[0]) {
        trim_start(s.drop_first())
    } else {
        s
    }
}

/// `s` without trailing whitespace.
pub open spec fn trim_end(s: Seq<char>) -> Seq<char>
    decreases s.len(),
{
    if s.len() > 0 && is_space(s.last()) {
        trim_end(s.drop_last())
    } else {
        s
    }
}

/// `s` without surrounding whitespace, as `str::trim` gives it.
pub open spec fn trim(s: Seq<char>) -> Seq<char> {
    trim_end(trim_start(s))
}

/// A line of the cache file that names a tracker: not empty, not a `#` comment.
pub open spec fn cache_entry(l: Seq<char>) -> bool {
    l.len() > 0 && l[0] != '#'
}

/// A line of a remote list that names a tracker: a UDP or HTTP(S) announce URL.
pub open spec fn remote_entry(l: Seq<char>) -> bool {
    l.len() > 0 && (starts_with(l, "udp://"@) || starts_with(l, "http://"@) || starts_with(
        l,
        "https://"@,
    ))
}

/// The trimmed lines of `parts` that are entries (of the cache file when `cache`, else of a
/// remote list), in order.
pub open spec fn entries(parts: Seq<Seq<char>>, cache: bool) -> Seq<Seq<char>>
    decreases parts.len(),
{
    if parts.len() == 0 {
        Seq::empty()
    } else {
        let rest = entries(parts.drop_last(), cache);
        let l = trim(parts.last());
        if (cache && cache_entry(l)) || (!cache && remote_entry(l)) {
            rest.push(l)
        } else {
            rest
        }
    }
}

/// The characters of each string.
pub open spec fn string_views(v: Seq<String>) -> Seq<Seq<char>> {
    v.map_values(|x: String| x@)
}

proof fn lemma_split_lines_nonempty(s: Seq<char>)
    ensures
        split_lines(s).len() > 0,
    decreases s.len(),
{
    if s.len() > 0 {
        lemma_split_lines_nonempty(s.drop_last());
    }
}

/// `trim(v)`, computed.
fn trim_exec(v: &Vec<char>) -> (r: Vec<char>)
    ensures
        r@ == trim(v@),
{
    let mut a: usize = 0;
    assert(v@.subrange(0, v@.len() as int) =~= v@);
    while a < v.len() && is_space_exec(v[a])
        invariant
            a <= v@.len(),
            trim_start(v@) == trim_start(v@.subrange(a as int, v@.len() as int)),
        decreases v@.len() - a,
    {
        assert(v@.subrange(a as int, v@.len() as int).drop_first() =~= v@.subrange(
            a + 1,
            v@.len() as int,
        ));
        a += 1;
    }
    let ghost start = v@.subrange(a as int, v@.len() as int);
    let mut b: usize = v.len();
    assert(start.subrange(0, start.len() as int) =~= start);
    while b > a && is_space_exec(v[b - 1])
        invariant
            a <= b <= v@.len(),
            start == v@.subrange(a as int, v@.len() as int),
            trim_end(start) == trim_end(v@.subrange(a as int, b as int)),
        decreases b - a,
    {
        assert(v@.subrange(a as int, b as int).drop_last() =~= v@.subrange(a as int, b - 1));
        b -= 1;
    }
    crate::text::sub_vec(v, a, b)
}

fn keep_line(l: &Vec<char>, cache: bool) -> (r: bool)
    ensures
        r == ((cache && cache_entry(l@)) || (!cache && remote_entry(l@))),
{
    if l.len() == 0 {
        return false;
    }
    if cache {
        l[0] != '#'
    } else {
        starts_with_exec(l, &chars_of("udp://")) || starts_with_exec(l, &chars_of("http://"))
            || starts_with_exec(l, &chars_of("https://"))
    }
}

/// The tracker entries of a text: its trimmed lines that are entries.
fn tracker_lines(text: &str, cache: bool) -> (r: Vec<String>)
    ensures
        string_views(r@) == entries(split_lines(text@), cache),
{
    let cs = chars_of(text);
    let mut parts: Vec<Vec<char>> = Vec::new();
    parts.push(Vec::new());
    let mut i: usize = 0;
    assert(crate::text::views(parts@) =~= split_lines(cs@.subrange(0, 0)));
    while i < cs.len()
        invariant
            cs@ == text@,
            i <= cs@.len(),
            crate::text::views(parts@) == split_lines(cs@.subrange(0, i as int)),
        decreases cs@.len() - i,
    {
        let ghost pre = cs@.subrange(0, i as int);
        assert(cs@.subrange(0, i + 1).drop_last() =~= pre);
        proof {
            lemma_split_lines_nonempty(pre);
        }
        if cs[i] == '\n' {
            parts.push(Vec::new());
            assert(crate::text::views(parts@) =~= split_lines(pre).push(Seq::empty()));
        } else {
            let mut last = parts.pop().unwrap();
            last.push(cs[i]);
            parts.push(last);
            assert(crate::text::views(parts@) =~= split_lines(pre).drop_last().push(
                split_lines(pre).last().push(cs@[i as int]),
            ));
        }
        i += 1;
    }
    assert(cs@.subrange(0, i as int) =~= text@);
    let ghost ps = crate::text::views(parts@);
    let mut out: Vec<String> = Vec::new();
    let mut k: usize = 0;
    while k < parts.len()
        invariant
            ps == crate::text::views(parts@),
            ps == split_lines(text@),
            k <= parts@.len(),
            string_views(out@) == entries(ps.subrange(0, k as int), cache),
        decreases parts@.len() - k,
    {
        assert(ps.subrange(0, k + 1).drop_last() =~= ps.subrange(0, k as int));
        assert(ps.subrange(0, k + 1).last() == parts@[k as int]@);
        let l = trim_exec(&parts[k]);
        if keep_line(&l, cache) {
            out.push(string_of(&l, 0, l.len()));
            assert(l@.subrange(0, l@.len() as int) =~= l@);
            assert(string_views(out@) =~= entries(ps.subrange(0, k as int), cache).push(l@));
        }
        k += 1;
    }
    assert(ps.subrange(0, k as int) =~= ps);
    out
}

/// The trackers of a cache file (trimmed lines, blanks and `#` comments left out); `None`
/// when there is none.
pub fn parse_cache(content: &str) -> (r: Option<Vec<String>>)
    ensures
        entries(split_lines(content@), true).len() == 0 ==> r is None,
        entries(split_lines(content@), true).len() > 0 ==> r is Some && string_views(r->0@)
            == entries(split_lines(content@), true),
{
    let v = tracker_lines(content, true);
    if v.len() == 0 {
        None
    } else {
        Some(v)
    }
}

/// The trackers of a downloaded list: trimmed lines that are UDP or HTTP(S) URLs.
pub fn parse_remote(text: &str) -> (r: Vec<String>)
    ensures
        string_views(r@) == entries(split_lines(text@), false),
{
    tracker_lines(text, false)
}

/// Whether a cache file of this age (in seconds) may still be used.
pub fn cache_is_fresh(age_secs: u64) -> (r: bool)
    ensures
        r == (age_secs <= CACHE_TTL_SECS),
{
    age_secs <= CACHE_TTL_SECS
}

/// The built-in trackers used when no list can be had.
pub open spec fn fallback_list() -> Seq<Seq<char>> {
    seq![
        "udp://tracker.opentrackr.org:1337/announce"@,
        "udp://open.stealth.si:80/announce"@,
        "udp://tracker.torrent.eu.org:451/announce"@,
        "udp://exodus.desync.com:6969/announce"@,
        "udp://tracker.openbittorrent.com:6969/announce"@,
        "udp://open.demonii.com:1337/announce"@,
        "udp://tracker.moeking.me:6969/announce"@,
        "udp://explodie.org:6969/announce"@,
        "udp://tracker1.bt.moack.co.kr:80/announce"@,
        "udp://tracker.theoks.net:6969/announce"@,
    ]
}

/// The built-in trackers.
pub fn fallback_trackers() -> (r: Vec<String>)
    ensures
        string_views(r@) == fallback_list(),
{
    let mut v: Vec<String> = Vec::new();
    v.push(owned("udp://tracker.opentrackr.org:1337/announce"));
    v.push(owned("udp://open.stealth.si:80/announce"));
    v.push(owned("udp://tracker.torrent.eu.org:451/announce"));
    v.push(owned("udp://exodus.desync.com:6969/announce"));
    v.push(owned("udp://tracker.openbittorrent.com:6969/announce"));
    v.push(owned("udp://open.demonii.com:1337/announce"));
    v.push(owned("udp://tracker.moeking.me:6969/announce"));
    v.push(owned("udp://explodie.org:6969/announce"));
    v.push(owned("udp://tracker1.bt.moack.co.kr:80/announce"));
    v.push(owned("udp://tracker.theoks.net:6969/announce"));
    assert(string_views(v@) =~= fallback_list());
    v
}

/// The remote lists tried in order.
pub open spec fn list_urls() -> Seq<Seq<char>> {
    seq![
        "https://raw.githubusercontent.com/ngosang/trackerslist/master/trackers_best.txt"@,
        "https://cf.trackerslist.com/best.txt"@,
    ]
}

/// Keeps the cached trackers of the tracker cache directory fresh.
#[derive(Debug, Clone, PartialEq, Eq)]
pub struct TrackerManager {
    pub cache_dir: String,
}

impl TrackerManager {
    pub fn new(cache_dir: String) -> (r: TrackerManager)
        ensures
            r.cache_dir == cache_dir,
    {
        TrackerManager { cache_dir }
    }

    /// The cache file: `<cache_dir>/trackers.txt`.
    pub fn cache_path(&self) -> (r: String)
        ensures
            r@ == path_join_of(self.cache_dir@, "trackers.txt"@),
    {
        crate::http::destination(self.cache_dir.as_str(), true, "trackers.txt")
    }

    /// The remote lists to try, in order.
    pub fn list_urls() -> (r: Vec<String>)
        ensures
            string_views(r@) == list_urls(),
    {
        let mut v: Vec<String> = Vec::new();
        v.push(owned("https://raw.githubusercontent.com/ngosang/trackerslist/master/trackers_best.txt"));
        v.push(owned("https://cf.trackerslist.com/best.txt"));
        assert(string_views(v@) =~= list_urls());
        v
    }

    /// Which list to use: a fresh cached one, else a downloaded one (which should then be
    /// cached, the second result), else the built-in one.
    pub fn pick_list(cached: Option<Vec<String>>, remote: Option<Vec<String>>) -> (r: (Vec<String>, bool))
        ensures
            cached is Some ==> r.0 == cached->0 && !r.1,
            cached is None && remote is Some ==> r.0 == remote->0 && r.1,
            cached is None && remote is None ==> string_views(r.0@) == fallback_list() && !r.1,
    {
        match cached {
            Some(c) => (c, false),
            None => match remote {
                Some(t) => (t, true),
                None => (fallback_trackers(), false),
            },
        }
    }
}

} // verus!
