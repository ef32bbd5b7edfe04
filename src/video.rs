use vstd::prelude::*;

use crate::error::NebulaError;
use crate::event::Progress;
use crate::http::path_join_of;
use crate::task::{is_video_text, is_video_url, lemma_first_index_of_bounds};
use crate::text::{
    all_digits, chars_of, contains, contains_exec, digit_value, digits_value, first_index_of,
    first_index_of_exec, is_digit, owned, parse_digits, push_str, split_whitespace,
    string_of, sub_vec, tokens, u64_text_value, views,
};

verus! {

/// One downloadable format of a video.
#[derive(Debug, Clone, PartialEq, Eq)]
pub struct VideoFormat {
    pub format_id: String,
    pub ext: String,
    pub resolution: Option<String>,
    pub filesize: Option<u64>,
    pub vcodec: Option<String>,
    pub acodec: Option<String>,
    pub format_note: Option<String>,
}

/// What the extractor reports about a video.
#[derive(Debug, Clone, PartialEq, Eq)]
pub struct VideoInfo {
    pub id: String,
    pub title: String,
    pub description: Option<String>,
    pub thumbnail: Option<String>,
    /// Length in whole seconds.
    pub duration: Option<u64>,
    pub uploader: Option<String>,
    pub formats: Vec<VideoFormat>,
    pub webpage_url: String,
}

/// A format record as the extractor's JSON gives it.
#[derive(Debug, Clone, PartialEq, Eq)]
pub struct RawFormat {
    pub format_id: String,
    pub ext: Option<String>,
    pub resolution: Option<String>,
    pub filesize: Option<u64>,
    pub filesize_approx: Option<u64>,
    pub vcodec: Option<String>,
    pub acodec: Option<String>,
    pub format_note: Option<String>,
}

/// A codec field that names a real codec (present and not `none`).
pub open spec fn has_codec(c: Option<String>) -> bool {
    c is Some && c->0@ != "none"@
}

/// A format is kept when it carries video or audio.
pub open spec fn keeps_format(f: RawFormat) -> bool {
    has_codec(f.vcodec) || has_codec(f.acodec)
}

/// The kept format: extension `mp4` when missing, the approximate size when the exact one is.
pub open spec fn format_of(f: RawFormat, g: VideoFormat) -> bool {
    &&& g.format_id == f.format_id
    &&& g.ext@ == match f.ext {
        Some(e) => e@,
        None => "mp4"@,
    }
    &&& g.resolution == f.resolution
    &&& g.filesize == match f.filesize {
        Some(s) => Some(s),
        None => f.filesize_approx,
    }
    &&& g.vcodec == f.vcodec
    &&& g.acodec == f.acodec
    &&& g.format_note == f.format_note
}

/// The kept formats of `raw`, in order.
pub open spec fn kept(raw: Seq<RawFormat>) -> Seq<RawFormat>
    decreases raw.len(),
{
    if raw.len() == 0 {
        Seq::empty()
    } else if keeps_format(raw.last()) {
        kept(raw.drop_last()).push(raw.last())
    } else {
        kept(raw.drop_last())
    }
}

fn codec_present(c: &Option<String>) -> (r: bool)
    ensures
        r == has_codec(*c),
{
    match c {
        Some(s) => {
            let a = chars_of(s.as_str());
            !vec_eq_str(&a, "none")
        },
        None => false,
    }
}

/// Keeps the formats with video or audio, filling in the extension and size.
pub fn select_formats(raw: &Vec<RawFormat>) -> (r: Vec<VideoFormat>)
    ensures
        r@.len() == kept(raw@).len(),
        forall|i: int| 0 <= i < r@.len() ==> format_of(kept(raw@)[i], #[trigger] r@[i]),
{
    let mut out: Vec<VideoFormat> = Vec::new();
    let mut i: usize = 0;
    while i < raw.len()
        invariant
            i <= raw@.len(),
            out@.len() == kept(raw@.subrange(0, i as int)).len(),
            forall|k: int|
                0 <= k < out@.len() ==> format_of(
                    kept(raw@.subrange(0, i as int))[k],
                    #[trigger] out@[k],
                ),
        decreases raw@.len() - i,
    {
        let f = &raw[i];
        let ghost pre = raw@.subrange(0, i as int);
        assert(raw@.subrange(0, i + 1).drop_last() =~= pre);
        if codec_present(&f.vcodec) || codec_present(&f.acodec) {
            let ext = match &f.ext {
                Some(e) => e.clone(),
                None => owned("mp4"),
            };
            let filesize = match f.filesize {
                Some(s) => Some(s),
                None => f.filesize_approx,
            };
            out.push(
                VideoFormat {
                    format_id: f.format_id.clone(),
                    ext,
                    resolution: crate::task::copy_opt(&f.resolution),
                    filesize,
                    vcodec: crate::task::copy_opt(&f.vcodec),
                    acodec: crate::task::copy_opt(&f.acodec),
                    format_note: crate::task::copy_opt(&f.format_note),
                },
            );
        }
        i += 1;
    }
    assert(raw@.subrange(0, i as int) =~= raw@);
    out
}

/// `s` ends with `suf`.
pub open spec fn ends_with(s: Seq<char>, suf: Seq<char>) -> bool {
    suf.len() <= s.len() && s.subrange(s.len() - suf.len(), s.len() as int) == suf
}

/// `s` without its last `n` characters.
pub open spec fn drop_end(s: Seq<char>, n: int) -> Seq<char> {
    s.subrange(0, s.len() - n)
}

/// Removes every trailing `c`.
pub open spec fn trim_end_all(s: Seq<char>, c: char) -> Seq<char>
    decreases s.len(),
{
    if s.len() > 0 && s.last() == c {
        trim_end_all(s.drop_last(), c)
    } else {
        s
    }
}

/// The integer and fraction digits of a decimal number: an optional `+`, digits with at
/// most one `.`, and at least one digit.
pub open spec fn number_parts(s: Seq<char>) -> Option<(Seq<char>, Seq<char>)> {
    let d = if s.len() > 0 && s[0] == '+' {
        s.subrange(1, s.len() as int)
    } else {
        s
    };
    let dot = first_index_of(d, '.');
    let ip = d.subrange(0, dot);
    let fp = if dot < d.len() {
        d.subrange(dot + 1, d.len() as int)
    } else {
        Seq::empty()
    };
    if all_digits(ip) && all_digits(fp) && ip.len() + fp.len() > 0 {
        Some((ip, fp))
    } else {
        None
    }
}

/// `n` capped at `u64::MAX`.
pub open spec fn sat(n: nat) -> u64 {
    if n > u64::MAX {
        u64::MAX
    } else {
        n as u64
    }
}

/// Hundredths given by the first two fraction digits.
pub open spec fn frac_hundredths(fp: Seq<char>) -> nat {
    if fp.len() == 0 {
        0
    } else if fp.len() == 1 {
        (digit_value(fp[0]) * 10) as nat
    } else {
        (digit_value(fp[0]) * 10 + digit_value(fp[1])) as nat
    }
}

/// A percentage in hundredths, capped at 100%.
pub open spec fn percent_value(s: Seq<char>) -> Option<u64> {
    match number_parts(s) {
        Some((ip, fp)) => Some(
            if digits_value(ip) >= 100 {
                10000u64
            } else {
                (digits_value(ip) * 100 + frac_hundredths(fp)) as u64
            },
        ),
        None => None,
    }
}

pub const KIB: u64 = 1024;
pub const MIB: u64 = 1024 * 1024;
pub const GIB: u64 = 1024 * 1024 * 1024;

/// A size (or a rate, with `/s`) in KiB, MiB or GiB, in bytes: the number times the unit,
/// rounded down and capped at `u64::MAX`; an unreadable number counts as 0.
pub open spec fn size_value(tok: Seq<char>) -> u64 {
    let base = if ends_with(tok, "/s"@) {
        drop_end(tok, 2)
    } else {
        tok
    };
    let unit: nat = if ends_with(base, "GiB"@) {
        GIB as nat
    } else if ends_with(base, "MiB"@) {
        MIB as nat
    } else if ends_with(base, "KiB"@) {
        KIB as nat
    } else {
        0
    };
    if unit == 0 {
        0
    } else {
        match number_parts(drop_end(base, 3)) {
            Some((ip, fp)) => sat(
                (digits_value(ip) * unit + fraction_scaled(fraction_digits(fp), unit)) as nat,
            ),
            None => 0,
        }
    }
}

/// Fraction digits read from a number: the first eighteen, beyond which the digits lie below
/// the precision of the extractor's figures.
pub open spec fn fraction_digits(fp: Seq<char>) -> Seq<char> {
    if fp.len() > 18 {
        fp.subrange(0, 18)
    } else {
        fp
    }
}

/// `10^n`.
pub open spec fn pow10(n: nat) -> nat
    decreases n,
{
    if n == 0 {
        1
    } else {
        10 * pow10((n - 1) as nat)
    }
}

/// The floor of `0.<fp> * unit`.
pub open spec fn fraction_scaled(fp: Seq<char>, unit: nat) -> nat {
    digits_value(fp) * unit / pow10(fp.len())
}

proof fn lemma_pow10_monotone(m: nat, n: nat)
    requires
        m <= n,
    ensures
        pow10(m) <= pow10(n),
        pow10(n) >= 1,
    decreases n,
{
    if n > 0 {
        if m < n {
            lemma_pow10_monotone(m, (n - 1) as nat);
        } else {
            lemma_pow10_monotone(0, (n - 1) as nat);
        }
    }
}

/// A string of `n` digits has a value below `10^n`.
proof fn lemma_digits_below_pow10(s: Seq<char>)
    requires
        all_digits(s),
    ensures
        digits_value(s) < pow10(s.len()),
    decreases s.len(),
{
    if s.len() > 0 {
        let p = s.drop_last();
        assert forall|i: int| 0 <= i < p.len() implies is_digit(#[trigger] p[i]) by {
            assert(p[i] == s[i]);
        }
        lemma_digits_below_pow10(p);
        assert(is_digit(s[s.len() - 1]));
        let a = digits_value(p);
        let b = pow10(p.len());
        let d = digit_value(s.last());
        assert(0 <= d < 10);
        assert(a * 10 + d < b * 10) by (nonlinear_arith)
            requires
                a < b,
                0 <= d < 10,
        ;
    }
}

fn pow10_exec(n: usize) -> (r: u64)
    requires
        n <= 18,
    ensures
        r == pow10(n as nat),
    decreases n,
{
    if n == 0 {
        1
    } else {
        let p = pow10_exec(n - 1);
        proof {
            lemma_pow10_monotone((n - 1) as nat, 17);
            reveal_with_fuel(pow10, 18);
            assert(pow10(17) == 100_000_000_000_000_000);
        }
        10 * p
    }
}

/// `fraction_scaled(fraction_digits(fp), unit)`, computed; it is below `unit`.
fn fraction_exec(fp: &Vec<char>, unit: u64) -> (r: u64)
    requires
        all_digits(fp@),
        0 < unit <= GIB,
    ensures
        r as nat == fraction_scaled(fraction_digits(fp@), unit as nat),
        r < unit,
{
    let k: usize = if fp.len() > 18 {
        18
    } else {
        fp.len()
    };
    let fd = sub_vec(fp, 0, k);
    assert(fd@ =~= fraction_digits(fp@));
    assert forall|i: int| 0 <= i < fd@.len() implies is_digit(#[trigger] fd@[i]) by {
        assert(fd@[i] == fp@[i]);
    }
    proof {
        lemma_digits_below_pow10(fd@);
        lemma_pow10_monotone(k as nat, 18);
        reveal_with_fuel(pow10, 19);
        assert(pow10(18) == 1_000_000_000_000_000_000);
    }
    assert(fd@.subrange(0, fd@.len() as int) =~= fd@);
    let f = match parse_digits(&fd, 0, k) {
        Some(v) => v,
        None => 0,
    };
    let p = pow10_exec(k);
    assert(f as u128 * unit as u128 <= 0xffff_ffff_ffff_ffffu128 * 0x4000_0000u128) by (nonlinear_arith)
        requires
            f <= 0xffff_ffff_ffff_ffffu64,
            unit <= 0x4000_0000u64,
    ;
    let fu = f as u128 * unit as u128;
    assert(fu < p as u128 * unit as u128) by (nonlinear_arith)
        requires
            fu == f as u128 * unit as u128,
            f < p,
            unit > 0,
    ;
    assert(p as u128 * unit as u128 <= 1_000_000_000_000_000_000u128 * 0x4000_0000u128) by (nonlinear_arith)
        requires
            p <= 1_000_000_000_000_000_000u64,
            unit <= 0x4000_0000u64,
    ;
    let q = fu / p as u128;
    assert(q < unit as u128) by (nonlinear_arith)
        requires
            q == fu as int / p as int,
            fu < p as u128 * unit as u128,
            p > 0,
    ;
    q as u64
}

/// Seconds of an `MM:SS` or `HH:MM:SS` time.
pub open spec fn eta_value(tok: Seq<char>) -> Option<u64> {
    let c1 = first_index_of(tok, ':');
    let rest = tok.subrange(c1 + 1, tok.len() as int);
    let c2 = first_index_of(rest, ':');
    let rest2 = rest.subrange(c2 + 1, rest.len() as int);
    if c1 >= tok.len() {
        None
    } else if c2 >= rest.len() {
        match (u64_text_value(tok.subrange(0, c1)), u64_text_value(rest)) {
            (Some(m), Some(s)) => if m * 60 + s <= u64::MAX {
                Some((m * 60 + s) as u64)
            } else {
                None
            },
            _ => None,
        }
    } else if first_index_of(rest2, ':') < rest2.len() {
        None
    } else {
        match (
            u64_text_value(tok.subrange(0, c1)),
            u64_text_value(rest.subrange(0, c2)),
            u64_text_value(rest2),
        ) {
            (Some(h), Some(m), Some(s)) => if h * 3600 + m * 60 + s <= u64::MAX {
                Some((h * 3600 + m * 60 + s) as u64)
            } else {
                None
            },
            _ => None,
        }
    }
}

/// The fields read from the first `k` tokens of a progress line: percentage (hundredths),
/// total, rate and remaining seconds.
pub open spec fn fields_upto(toks: Seq<Seq<char>>, k: int) -> (u64, u64, u64, Option<u64>)
    decreases k,
{
    if k <= 0 || k > toks.len() {
        (0, 0, 0, None)
    } else {
        let f = fields_upto(toks, k - 1);
        let tok = toks[k - 1];
        if ends_with(tok, "%"@) {
            match percent_value(trim_end_all(tok, '%')) {
                Some(p) => (p, f.1, f.2, f.3),
                None => f,
            }
        } else if contains(tok, "MiB"@) || contains(tok, "GiB"@) || contains(tok, "KiB"@) {
            if k >= 2 && toks[k - 2] == "of"@ {
                (f.0, size_value(tok), f.2, f.3)
            } else if k >= 2 && toks[k - 2] == "at"@ {
                (f.0, f.1, size_value(tok), f.3)
            } else {
                f
            }
        } else if k >= 2 && toks[k - 2] == "ETA"@ {
            (f.0, f.1, f.2, eta_value(tok))
        } else {
            f
        }
    }
}

/// The progress that a line such as `[download]  42.0% of 10.00MiB at 1.00MiB/s ETA 00:05`
/// describes; the transferred count is the given share of the total.
pub open spec fn line_progress(line: Seq<char>) -> Progress {
    let toks = tokens(line);
    let f = fields_upto(toks, toks.len() as int);
    Progress {
        total_size: f.1,
        downloaded_size: (f.1 * f.0 / 10000int) as u64,
        download_speed: f.2,
        upload_speed: 0,
        eta_secs: f.3,
        percent_hundredths: f.0,
    }
}

fn ends_with_exec(s: &Vec<char>, suf: &Vec<char>) -> (r: bool)
    ensures
        r == ends_with(s@, suf@),
{
    if suf.len() > s.len() {
        return false;
    }
    crate::text::occurs_at_exec(s, suf, s.len() - suf.len())
}

fn vec_eq_str(a: &Vec<char>, b: &str) -> (r: bool)
    ensures
        r == (a@ == b@),
{
    let bc = chars_of(b);
    if a.len() != bc.len() {
        return false;
    }
    assert(a@.subrange(0, bc@.len() as int) =~= a@);
    crate::text::starts_with_exec(a, &bc)
}

fn number_parts_exec(v: &Vec<char>) -> (r: Option<(Vec<char>, Vec<char>)>)
    ensures
        match number_parts(v@) {
            Some((ip, fp)) => r is Some && (r->0).0@ == ip && (r->0).1@ == fp,
            None => r is None,
        },
{
    let start: usize = if v.len() > 0 && v[0] == '+' {
        1
    } else {
        0
    };
    let d = sub_vec(v, start, v.len());
    assert(d@ =~= if v@.len() > 0 && v@[0] == '+' {
        v@.subrange(1, v@.len() as int)
    } else {
        v@
    });
    let dot = first_index_of_exec(&d, '.');
    let ip = sub_vec(&d, 0, dot);
    let fp = if dot < d.len() {
        sub_vec(&d, dot + 1, d.len())
    } else {
        Vec::new()
    };
    assert(dot >= d@.len() ==> fp@ =~= Seq::<char>::empty());
    if ip.len() + fp.len() == 0 {
        return None;
    }
    if !all_digits_exec(&ip) || !all_digits_exec(&fp) {
        return None;
    }
    Some((ip, fp))
}

fn all_digits_exec(v: &Vec<char>) -> (r: bool)
    ensures
        r == all_digits(v@),
{
    let mut i: usize = 0;
    while i < v.len()
        invariant
            i <= v@.len(),
            forall|k: int| 0 <= k < i ==> is_digit(#[trigger] v@[k]),
        decreases v@.len() - i,
    {
        let c = v[i];
        if !(c == '0' || c == '1' || c == '2' || c == '3' || c == '4' || c == '5' || c == '6' || c
            == '7' || c == '8' || c == '9') {
            return false;
        }
        i += 1;
    }
    true
}

fn digit_num(c: char) -> (r: u64)
    requires
        is_digit(c),
    ensures
        r == digit_value(c),
        r < 10,
{
    if c == '0' {
        0
    } else if c == '1' {
        1
    } else if c == '2' {
        2
    } else if c == '3' {
        3
    } else if c == '4' {
        4
    } else if c == '5' {
        5
    } else if c == '6' {
        6
    } else if c == '7' {
        7
    } else if c == '8' {
        8
    } else {
        9
    }
}

/// `sat(digits_value(v) * unit)`.
fn digits_times_sat(v: &Vec<char>, unit: u64) -> (r: u64)
    requires
        all_digits(v@),
        unit > 0,
    ensures
        r == sat((digits_value(v@) * unit) as nat),
{
    let mut acc: u64 = 0;
    let mut big = false;
    let mut i: usize = 0;
    while i < v.len()
        invariant
            i <= v@.len(),
            all_digits(v@),
            unit > 0,
            big ==> digits_value(v@.subrange(0, i as int)) * unit > u64::MAX,
            !big ==> acc == digits_value(v@.subrange(0, i as int)) && acc * unit <= u64::MAX,
        decreases v@.len() - i,
    {
        let ghost pre = v@.subrange(0, i as int);
        assert(v@.subrange(0, i + 1).drop_last() =~= pre);
        let d = digit_num(v[i]);
        let ghost dv = digits_value(v@.subrange(0, i + 1));
        assert(dv == digits_value(pre) * 10 + d);
        if big {
            assert(dv * unit >= digits_value(pre) * unit) by (nonlinear_arith)
                requires
                    dv >= digits_value(pre),
                    unit > 0,
            ;
        } else if acc > (u64::MAX - d) / 10 {
            big = true;
            assert(dv * unit > u64::MAX) by (nonlinear_arith)
                requires
                    dv == acc * 10 + d,
                    acc > (u64::MAX - d) / 10,
                    d < 10,
                    unit >= 1,
            ;
        } else {
            let next = acc * 10 + d;
            if next > u64::MAX / unit {
                big = true;
                assert(dv * unit > u64::MAX) by (nonlinear_arith)
                    requires
                        dv == next,
                        next > u64::MAX / unit,
                        unit >= 1,
                ;
            } else {
                acc = next;
                assert(acc * unit <= u64::MAX) by (nonlinear_arith)
                    requires
                        acc <= u64::MAX / unit,
                        unit >= 1,
                ;
            }
        }
        i += 1;
    }
    assert(v@.subrange(0, i as int) =~= v@);
    if big {
        u64::MAX
    } else {
        acc * unit
    }
}

fn trim_end_pct(v: &Vec<char>) -> (r: Vec<char>)
    ensures
        r@ == trim_end_all(v@, '%'),
{
    let mut n = v.len();
    assert(v@.subrange(0, n as int) =~= v@);
    while n > 0 && v[n - 1] == '%'
        invariant
            n <= v@.len(),
            trim_end_all(v@, '%') == trim_end_all(v@.subrange(0, n as int), '%'),
        decreases n,
    {
        assert(v@.subrange(0, n as int).drop_last() =~= v@.subrange(0, n - 1));
        n -= 1;
    }
    sub_vec(v, 0, n)
}

fn percent_exec(v: &Vec<char>) -> (r: Option<u64>)
    ensures
        r == percent_value(v@),
{
    match number_parts_exec(v) {
        Some((ip, fp)) => {
            let ip_val = parse_digits(&ip, 0, ip.len());
            assert(ip@.subrange(0, ip@.len() as int) =~= ip@);
            let whole = match ip_val {
                Some(n) => n,
                None => u64::MAX,
            };
            if whole >= 100 {
                return Some(10000);
            }
            let f: u64 = if fp.len() == 0 {
                0
            } else if fp.len() == 1 {
                digit_num(fp[0]) * 10
            } else {
                digit_num(fp[0]) * 10 + digit_num(fp[1])
            };
            Some(whole * 100 + f)
        },
        None => None,
    }
}

fn size_exec(tok: &Vec<char>) -> (r: u64)
    ensures
        r == size_value(tok@),
{
    proof {
        reveal_strlit("/s");
        reveal_strlit("GiB");
        reveal_strlit("MiB");
        reveal_strlit("KiB");
    }
    let per_s = chars_of("/s");
    let base = if ends_with_exec(tok, &per_s) {
        sub_vec(tok, 0, tok.len() - 2)
    } else {
        sub_vec(tok, 0, tok.len())
    };
    assert(tok@.subrange(0, tok@.len() as int) =~= tok@);
    let unit: u64 = if ends_with_exec(&base, &chars_of("GiB")) {
        GIB
    } else if ends_with_exec(&base, &chars_of("MiB")) {
        MIB
    } else if ends_with_exec(&base, &chars_of("KiB")) {
        KIB
    } else {
        0
    };
    if unit == 0 {
        return 0;
    }
    let num = sub_vec(&base, 0, base.len() - 3);
    match number_parts_exec(&num) {
        Some((ip, fp)) => {
            let whole = digits_times_sat(&ip, unit);
            let part = fraction_exec(&fp, unit);
            if whole > u64::MAX - part {
                u64::MAX
            } else {
                whole + part
            }
        },
        None => 0,
    }
}

fn u64_exec(v: &Vec<char>, from: usize, to: usize) -> (r: Option<u64>)
    requires
        from <= to <= v@.len(),
    ensures
        match u64_text_value(v@.subrange(from as int, to as int)) {
            Some(n) => r == Some(n as u64),
            None => r is None,
        },
{
    let s = string_of(v, from, to);
    crate::text::parse_u64(s.as_str())
}

fn eta_exec(tok: &Vec<char>) -> (r: Option<u64>)
    ensures
        r == eta_value(tok@),
{
    let c1 = first_index_of_exec(tok, ':');
    proof {
        lemma_first_index_of_bounds(tok@, ':');
    }
    if c1 >= tok.len() {
        return None;
    }
    let rest = sub_vec(tok, c1 + 1, tok.len());
    let c2 = first_index_of_exec(&rest, ':');
    proof {
        lemma_first_index_of_bounds(rest@, ':');
    }
    if c2 >= rest.len() {
        let m = u64_exec(tok, 0, c1);
        let s = u64_exec(&rest, 0, rest.len());
        assert(rest@.subrange(0, rest@.len() as int) =~= rest@);
        return match (m, s) {
            (Some(m), Some(s)) => if m <= (u64::MAX - s) / 60 {
                Some(m * 60 + s)
            } else {
                None
            },
            _ => None,
        };
    }
    let rest2 = sub_vec(&rest, c2 + 1, rest.len());
    let c3 = first_index_of_exec(&rest2, ':');
    if c3 < rest2.len() {
        return None;
    }
    let h = u64_exec(tok, 0, c1);
    let m = u64_exec(&rest, 0, c2);
    let s = u64_exec(&rest2, 0, rest2.len());
    assert(rest2@.subrange(0, rest2@.len() as int) =~= rest2@);
    match (h, m, s) {
        (Some(h), Some(m), Some(s)) => {
            if m > (u64::MAX - s) / 60 {
                return None;
            }
            let ms = m * 60 + s;
            if h > (u64::MAX - ms) / 3600 {
                return None;
            }
            Some(h * 3600 + ms)
        },
        _ => None,
    }
}

/// Parses a progress line of the extractor (see `line_progress`).
pub fn parse_progress(line: &str) -> (r: Option<Progress>)
    ensures
        r == Some(line_progress(line@)),
        r->0.wf(),
{
    let toks = split_whitespace(line);
    let ghost ts = tokens(line@);
    let mut pct: u64 = 0;
    let mut total: u64 = 0;
    let mut rate: u64 = 0;
    let mut eta: Option<u64> = None;
    let mut k: usize = 0;
    while k < toks.len()
        invariant
            views(toks@) == ts,
            k <= toks@.len(),
            (pct, total, rate, eta) == fields_upto(ts, k as int),
            pct <= 10000,
        decreases toks@.len() - k,
    {
        let tok = &toks[k];
        assert(ts[k as int] == tok@);
        if ends_with_exec(tok, &chars_of("%")) {
            let trimmed = trim_end_pct(tok);
            match percent_exec(&trimmed) {
                Some(p) => {
                    pct = p;
                },
                None => {},
            }
        } else if contains_exec(tok, &chars_of("MiB")) || contains_exec(tok, &chars_of("GiB"))
            || contains_exec(tok, &chars_of("KiB")) {
            if k >= 1 && vec_eq_str(&toks[k - 1], "of") {
                assert(ts[k - 1] == toks@[k - 1]@);
                total = size_exec(tok);
            } else if k >= 1 && vec_eq_str(&toks[k - 1], "at") {
                assert(ts[k - 1] == toks@[k - 1]@);
                rate = size_exec(tok);
            }
            proof {
                if k >= 1 {
                    assert(ts[k - 1] == toks@[k - 1]@);
                }
            }
        } else if k >= 1 && vec_eq_str(&toks[k - 1], "ETA") {
            assert(ts[k - 1] == toks@[k - 1]@);
            eta = eta_exec(tok);
        }
        proof {
            if k >= 1 {
                assert(ts[k - 1] == toks@[k - 1]@);
            }
        }
        k += 1;
    }
    let t = total as u128;
    assert(t * (pct as u128) <= t * 10000) by (nonlinear_arith)
        requires
            pct <= 10000,
    ;
    assert(t * 10000 <= 0xffff_ffff_ffff_ffffu128 * 10000) by (nonlinear_arith)
        requires
            t <= 0xffff_ffff_ffff_ffffu128,
    ;
    let downloaded = t * (pct as u128) / 10000;
    assert(downloaded <= t) by (nonlinear_arith)
        requires
            downloaded == (t * (pct as u128)) as int / 10000,
            t * (pct as u128) <= t * 10000,
    ;
    Some(
        Progress {
            total_size: total,
            downloaded_size: downloaded as u64,
            download_speed: rate,
            upload_speed: 0,
            eta_secs: eta,
            percent_hundredths: pct,
        },
    )
}

/// The progress sample of an extractor output line: only lines holding both `[download]`
/// and `%` are read.
pub fn progress_from_output_line(line: &str) -> (r: Option<Progress>)
    ensures
        contains(line@, "[download]"@) && contains(line@, "%"@) ==> r == Some(
            line_progress(line@),
        ),
        !(contains(line@, "[download]"@) && contains(line@, "%"@)) ==> r is None,
{
    let cs = chars_of(line);
    if contains_exec(&cs, &chars_of("[download]")) && contains_exec(&cs, &chars_of("%")) {
        parse_progress(line)
    } else {
        None
    }
}

/// The characters of each string.
pub open spec fn string_views(v: Seq<String>) -> Seq<Seq<char>> {
    v.map_values(|x: String| x@)
}

/// Arguments of the information run: JSON output, no warnings, no playlist.
pub open spec fn info_args_spec(url: Seq<char>) -> Seq<Seq<char>> {
    seq!["-j"@, "--no-warnings"@, "--no-playlist"@, url]
}

/// Arguments of the download run.
pub open spec fn download_args_spec(
    output_dir: Seq<char>,
    url: Seq<char>,
    format_id: Option<Seq<char>>,
    ffmpeg: Option<Seq<char>>,
) -> Seq<Seq<char>> {
    seq![
        "--newline"@,
        "--no-warnings"@,
        "--no-playlist"@,
        "-o"@,
        path_join_of(output_dir, "%(id)s.%(ext)s"@),
    ] + match ffmpeg {
        Some(p) => seq!["--ffmpeg-location"@, p],
        None => Seq::empty(),
    } + seq!["--merge-output-format"@, "mp4"@] + match format_id {
        Some(f) => seq!["-f"@, f + "+bestaudio/best"@],
        None => seq!["-S"@, "vcodec:h264,res,acodec:m4a"@],
    } + seq![url]
}

/// Fixed places where the extractor is looked for, after the bundled copy.
pub open spec fn system_extractor_paths() -> Seq<Seq<char>> {
    seq!["/opt/homebrew/bin/yt-dlp"@, "/usr/local/bin/yt-dlp"@, "/usr/bin/yt-dlp"@]
}

/// Fixed places where ffmpeg is looked for.
pub open spec fn ffmpeg_paths() -> Seq<Seq<char>> {
    seq![
        "/opt/homebrew/bin/ffmpeg"@,
        "/usr/local/bin/ffmpeg"@,
        "/usr/bin/ffmpeg"@,
        "C:\\Program Files\\ffmpeg\\bin\\ffmpeg.exe"@,
    ]
}

/// Index of the first present candidate, or the number of candidates.
pub open spec fn first_present_index(present: Seq<bool>) -> int
    decreases present.len(),
{
    if present.len() == 0 {
        0
    } else if present[0] {
        0
    } else {
        1 + first_present_index(present.drop_first())
    }
}

/// The first line of a text, without a trailing carriage return.
pub open spec fn first_line(s: Seq<char>) -> Seq<char> {
    let l = s.subrange(0, first_index_of(s, '\n'));
    if l.len() > 0 && l.last() == '\r' {
        l.drop_last()
    } else {
        l
    }
}

/// The message of a failed download run: the first line of the extractor's error output.
pub open spec fn failure_message(stderr: Seq<char>) -> Seq<char> {
    if stderr.len() == 0 {
        "视频下载失败"@
    } else {
        "视频下载失败: "@ + first_line(stderr)
    }
}

/// What the information run reports, with the formats still raw.
#[derive(Debug, Clone, PartialEq, Eq)]
pub struct RawVideoInfo {
    pub id: String,
    pub title: String,
    pub description: Option<String>,
    pub thumbnail: Option<String>,
    /// Length in whole seconds.
    pub duration: Option<u64>,
    pub uploader: Option<String>,
    pub formats: Option<Vec<RawFormat>>,
    pub webpage_url: Option<String>,
}

/// Drives the external extractor (yt-dlp) for video sites.
#[derive(Debug, Clone)]
pub struct VideoHandler {
    /// The extractor binary.
    pub yt_dlp_path: String,
    /// Where videos are saved.
    pub output_dir: String,
}

impl VideoHandler {
    /// A handler saving into `output_dir`, using the extractor found by the search (see
    /// `extractor_candidates`); without one, starting fails.
    pub fn new(output_dir: String, found: Option<String>) -> (r: Result<VideoHandler, NebulaError>)
        ensures
            found is None ==> r is Err && r->Err_0 is Internal,
            found is Some ==> r == Ok::<VideoHandler, NebulaError>(
                VideoHandler { yt_dlp_path: found->0, output_dir },
            ),
    {
        match found {
            Some(p) => Ok(VideoHandler { yt_dlp_path: p, output_dir }),
            None => Err(NebulaError::Internal(owned("yt-dlp 未找到"))),
        }
    }

    /// A progress line of the extractor (see `line_progress`).
    pub fn parse_progress(line: &str) -> (r: Option<Progress>)
        ensures
            r == Some(line_progress(line@)),
            r->0.wf(),
    {
        parse_progress(line)
    }

    /// A size or rate such as `10.00MiB` or `1.00MiB/s`, in bytes (see `size_value`).
    pub fn parse_size(s: &str) -> (r: u64)
        ensures
            r == size_value(s@),
    {
        let v = chars_of(s);
        size_exec(&v)
    }

    /// An `MM:SS` or `HH:MM:SS` time, in seconds (see `eta_value`).
    pub fn parse_eta(s: &str) -> (r: Option<u64>)
        ensures
            r == eta_value(s@),
    {
        let v = chars_of(s);
        eta_exec(&v)
    }

    /// Whether the URL belongs to a supported video site.
    pub fn is_video_url(url: &str) -> (r: bool)
        ensures
            r == is_video_text(url@),
    {
        is_video_url(url)
    }

    /// Arguments of the information run for `url`.
    pub fn info_args(url: &str) -> (r: Vec<String>)
        ensures
            string_views(r@) == info_args_spec(url@),
    {
        let mut v: Vec<String> = Vec::new();
        v.push(owned("-j"));
        v.push(owned("--no-warnings"));
        v.push(owned("--no-playlist"));
        v.push(owned(url));
        assert(string_views(v@) =~= info_args_spec(url@));
        v
    }

    /// Arguments of the download run: line-by-line progress, output template
    /// `<output_dir>/%(id)s.%(ext)s`, ffmpeg when found, MP4 merge, and either the chosen
    /// format with the best audio or a preference for H.264, resolution and M4A audio.
    pub fn download_args(&self, url: &str, format_id: Option<&str>, ffmpeg: Option<&str>) -> (r: Vec<String>)
        ensures
            string_views(r@) == download_args_spec(
                self.output_dir@,
                url@,
                match format_id {
                    Some(f) => Some(f@),
                    None => None,
                },
                match ffmpeg {
                    Some(p) => Some(p@),
                    None => None,
                },
            ),
    {
        let mut v: Vec<String> = Vec::new();
        v.push(owned("--newline"));
        v.push(owned("--no-warnings"));
        v.push(owned("--no-playlist"));
        v.push(owned("-o"));
        v.push(crate::http::destination(self.output_dir.as_str(), true, "%(id)s.%(ext)s"));
        match ffmpeg {
            Some(p) => {
                v.push(owned("--ffmpeg-location"));
                v.push(owned(p));
            },
            None => {},
        }
        v.push(owned("--merge-output-format"));
        v.push(owned("mp4"));
        match format_id {
            Some(f) => {
                v.push(owned("-f"));
                let mut sel = owned(f);
                push_str(&mut sel, "+bestaudio/best");
                v.push(sel);
            },
            None => {
                v.push(owned("-S"));
                v.push(owned("vcodec:h264,res,acodec:m4a"));
            },
        }
        v.push(owned(url));
        assert(string_views(v@) =~= download_args_spec(
            self.output_dir@,
            url@,
            match format_id {
                Some(f) => Some(f@),
                None => None,
            },
            match ffmpeg {
                Some(p) => Some(p@),
                None => None,
            },
        ));
        v
    }

    /// Where the extractor is looked for, in order: the bundled copy (when the platform
    /// has one), then the usual system places.
    pub fn extractor_candidates(bundled: Option<String>) -> (r: Vec<String>)
        ensures
            string_views(r@) == match bundled {
                Some(b) => seq![b@] + system_extractor_paths(),
                None => system_extractor_paths(),
            },
    {
        let mut v: Vec<String> = Vec::new();
        let ghost b = match &bundled {
            Some(b) => seq![b@],
            None => Seq::<Seq<char>>::empty(),
        };
        match bundled {
            Some(b) => v.push(b),
            None => {},
        }
        v.push(owned("/opt/homebrew/bin/yt-dlp"));
        v.push(owned("/usr/local/bin/yt-dlp"));
        v.push(owned("/usr/bin/yt-dlp"));
        assert(string_views(v@) =~= b + system_extractor_paths());
        v
    }

    /// Where ffmpeg is looked for, in order.
    pub fn ffmpeg_candidates() -> (r: Vec<String>)
        ensures
            string_views(r@) == ffmpeg_paths(),
    {
        let mut v: Vec<String> = Vec::new();
        v.push(owned("/opt/homebrew/bin/ffmpeg"));
        v.push(owned("/usr/local/bin/ffmpeg"));
        v.push(owned("/usr/bin/ffmpeg"));
        v.push(owned("C:\\Program Files\\ffmpeg\\bin\\ffmpeg.exe"));
        assert(string_views(v@) =~= ffmpeg_paths());
        v
    }

    /// The first candidate that is present, if any.
    pub fn first_present(candidates: &Vec<String>, present: &Vec<bool>) -> (r: Option<String>)
        requires
            candidates@.len() == present@.len(),
        ensures
            first_present_index(present@) < present@.len() ==> r == Some(
                candidates@[first_present_index(present@)],
            ),
            first_present_index(present@) >= present@.len() ==> r is None,
    {
        let mut i: usize = 0;
        assert(present@.subrange(0, present@.len() as int) =~= present@);
        while i < present.len()
            invariant
                candidates@.len() == present@.len(),
                i <= present@.len(),
                first_present_index(present@) == i + first_present_index(
                    present@.subrange(i as int, present@.len() as int),
                ),
            decreases present@.len() - i,
        {
            if present[i] {
                return Some(candidates[i].clone());
            }
            assert(present@.subrange(i as int, present@.len() as int).drop_first()
                =~= present@.subrange(i + 1, present@.len() as int));
            i += 1;
        }
        None
    }

    /// The error message of a failed download run, from the extractor's error output.
    pub fn failure_message(stderr: &str) -> (r: String)
        ensures
            r@ == failure_message(stderr@),
    {
        let cs = chars_of(stderr);
        if cs.len() == 0 {
            return owned("视频下载失败");
        }
        let e = first_index_of_exec(&cs, '\n');
        let end = if e > 0 && cs[e - 1] == '\r' {
            e - 1
        } else {
            e
        };
        let mut r = owned("视频下载失败: ");
        let line = string_of(&cs, 0, end);
        push_str(&mut r, line.as_str());
        proof {
            let l = stderr@.subrange(0, first_index_of(stderr@, '\n'));
            if e > 0 && cs@[e - 1] == '\r' {
                assert(l.drop_last() =~= stderr@.subrange(0, e - 1));
            }
        }
        r
    }

    /// The information of a video from what the extractor reported for `url`: the formats
    /// with video or audio, and the page URL falling back to `url`.
    pub fn video_info_from(raw: RawVideoInfo, url: &str) -> (r: VideoInfo)
        ensures
            r.id == raw.id,
            r.title == raw.title,
            r.description == raw.description,
            r.thumbnail == raw.thumbnail,
            r.duration == raw.duration,
            r.uploader == raw.uploader,
            r.webpage_url@ == match raw.webpage_url {
                Some(w) => w@,
                None => url@,
            },
            raw.formats is None ==> r.formats@.len() == 0,
            raw.formats is Some ==> r.formats@.len() == kept(raw.formats->0@).len() && forall|i: int|
                0 <= i < r.formats@.len() ==> format_of(
                    kept(raw.formats->0@)[i],
                    #[trigger] r.formats@[i],
                ),
    {
        let formats = match &raw.formats {
            Some(f) => select_formats(f),
            None => Vec::new(),
        };
        let webpage_url = match raw.webpage_url {
            Some(w) => w,
            None => owned(url),
        };
        VideoInfo {
            id: raw.id,
            title: raw.title,
            description: raw.description,
            thumbnail: raw.thumbnail,
            duration: raw.duration,
            uploader: raw.uploader,
            formats,
            webpage_url,
        }
    }
}

} // verus!
