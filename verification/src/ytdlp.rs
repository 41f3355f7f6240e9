//! What the player asks of yt-dlp and how it reads the answers: the
//! argument lists, the checks on the exit status and output, the framing
//! of the JSON lines, and the mapping of a parsed entry to a `Video`.
use vstd::prelude::*;

use crate::model::Video;
use crate::text::{chars_of, decimal, owned, push_char, push_decimal, push_str, string_of, trim, trimmed};

verus! {

/// A handle on the yt-dlp program.
pub struct Ytdlp {
    pub binary: String,
    pub extra_args: Vec<String>,
}

/// Views of a list of strings.
pub open spec fn views(v: Seq<String>) -> Seq<Seq<char>> {
    v.map_values(|s: String| s@)
}

/// Name for what `String::from_utf8_lossy` makes of a byte sequence.
pub uninterp spec fn lossy_utf8(bytes: Seq<u8>) -> Seq<char>;

/// `String::from_utf8_lossy`: decodes UTF-8, putting U+FFFD in place of
/// each invalid sequence. Stated: the result is `lossy_utf8` of the bytes.
#[verifier::external_body]
fn decode_lossy(bytes: &[u8]) -> (s: String)
    ensures
        s@ == lossy_utf8(bytes@),
{
    String::from_utf8_lossy(bytes).into_owned()
}

/// `line` without one trailing carriage return.
pub open spec fn strip_cr(line: Seq<char>) -> Seq<char> {
    if line.len() > 0 && line.last() == '\r' {
        line.drop_last()
    } else {
        line
    }
}

/// The non-empty lines of `s` in the sense of `str::lines` (a line ends at
/// `\n`, which goes with a `\r` just before it), read from the left with
/// the unfinished line `line` and the finished lines `acc`.
pub open spec fn lines_from(s: Seq<char>, line: Seq<char>, acc: Seq<Seq<char>>) -> Seq<Seq<char>>
    decreases s.len(),
{
    if s.len() == 0 {
        if line.len() > 0 {
            acc.push(line)
        } else {
            acc
        }
    } else if s[0] == '\n' {
        let l = strip_cr(line);
        lines_from(s.drop_first(), seq![], if l.len() > 0 { acc.push(l) } else { acc })
    } else {
        lines_from(s.drop_first(), line.push(s[0]), acc)
    }
}

/// The non-empty lines of `s`, in order.
pub open spec fn nonempty_lines(s: Seq<char>) -> Seq<Seq<char>> {
    lines_from(s, seq![], seq![])
}

/// The non-empty lines of `text`, as `str::lines` cuts them.
pub fn split_nonempty_lines(text: &str) -> (lines: Vec<String>)
    ensures
        views(lines@) == nonempty_lines(text@),
{
    let v = chars_of(text);
    let mut lines: Vec<String> = Vec::new();
    let mut start: usize = 0;
    let mut i: usize = 0;
    assert(v@.skip(0) == v@);
    assert(v@.subrange(0, 0) == Seq::<char>::empty());
    assert(views(lines@) == Seq::<Seq<char>>::empty());
    while i < v.len()
        invariant
            start <= i <= v@.len(),
            v@ == text@,
            lines_from(v@, seq![], seq![]) == lines_from(
                v@.skip(i as int),
                v@.subrange(start as int, i as int),
                views(lines@),
            ),
        decreases v@.len() - i,
    {
        assert(v@.skip(i as int).drop_first() == v@.skip(i + 1));
        assert(v@.skip(i as int)[0] == v@[i as int]);
        if v[i] == '\n' {
            let end: usize = if i > start && v[i - 1] == '\r' { i - 1 } else { i };
            assert(strip_cr(v@.subrange(start as int, i as int)) == v@.subrange(start as int, end as int));
            if end > start {
                let ghost before = lines@;
                lines.push(string_of(&v, start, end));
                assert(views(lines@) == views(before).push(v@.subrange(start as int, end as int)));
            }
            start = i + 1;
            assert(v@.subrange(start as int, i + 1) == Seq::<char>::empty());
        } else {
            assert(v@.subrange(start as int, i + 1) == v@.subrange(start as int, i as int).push(v@[i as int]));
        }
        i = i + 1;
    }
    if i > start {
        let ghost before = lines@;
        lines.push(string_of(&v, start, i));
        assert(views(lines@) == views(before).push(v@.subrange(start as int, i as int)));
    }
    lines
}

/// An entry of yt-dlp's `--dump-json` output, as parsed.
#[derive(Debug, Clone, PartialEq, Eq)]
pub struct RawVideo {
    pub id: String,
    pub title: String,
    pub channel: String,
    /// Length in whole seconds, where given.
    pub duration: Option<u64>,
    pub view_count: Option<i64>,
    pub live_status: Option<String>,
}

/// Is the live status one that marks a stream live or upcoming?
pub open spec fn marks_live(status: Option<Seq<char>>) -> bool {
    match status {
        Some(s) => s == "is_live"@ || s == "is_upcoming"@,
        None => false,
    }
}

fn same_text(s: &String, t: &str) -> (b: bool)
    ensures
        b == (s@ == t@),
{
    let a = chars_of(s.as_str());
    let c = chars_of(t);
    if a.len() != c.len() {
        return false;
    }
    let mut i: usize = 0;
    while i < a.len()
        invariant
            a@.len() == c@.len(),
            a@ == s@,
            c@ == t@,
            i <= a@.len(),
            forall|j: int| 0 <= j < i ==> a@[j] == c@[j],
        decreases a@.len() - i,
    {
        if a[i] != c[i] {
            assert(a@[i as int] != c@[i as int]);
            return false;
        }
        i = i + 1;
    }
    assert(a@ =~= c@);
    true
}

/// The video an entry describes: no length counts as 0, a negative or
/// missing view count as 0, and "is_live" or "is_upcoming" as live.
pub fn video_from_raw(raw: RawVideo) -> (v: Video)
    ensures
        v.id == raw.id,
        v.title == raw.title,
        v.channel == raw.channel,
        v.duration == match raw.duration {
            Some(d) => d,
            None => 0,
        },
        v.views == match raw.view_count {
            Some(n) => if n > 0 { n as u64 } else { 0 },
            None => 0,
        },
        v.is_live == marks_live(
            match raw.live_status {
                Some(s) => Some(s@),
                None => None,
            },
        ),
{
    let duration: u64 = match raw.duration {
        Some(d) => d,
        None => 0,
    };
    let views: u64 = match raw.view_count {
        Some(n) => if n > 0 { n as u64 } else { 0 },
        None => 0,
    };
    let is_live: bool = match &raw.live_status {
        Some(s) => same_text(s, "is_live") || same_text(s, "is_upcoming"),
        None => false,
    };
    Video { id: raw.id, title: raw.title, channel: raw.channel, duration, views, is_live }
}

/// The video `video_from_raw` makes of an entry.
pub open spec fn video_of(raw: RawVideo) -> Video {
    Video {
        id: raw.id,
        title: raw.title,
        channel: raw.channel,
        duration: match raw.duration {
            Some(d) => d,
            None => 0,
        },
        views: match raw.view_count {
            Some(n) => if n > 0 { n as u64 } else { 0 },
            None => 0,
        },
        is_live: marks_live(
            match raw.live_status {
                Some(s) => Some(s@),
                None => None,
            },
        ),
    }
}

/// The videos of the entries that parsed (`Some`), in order.
pub open spec fn parsed_videos(entries: Seq<Option<RawVideo>>) -> Seq<Video>
    decreases entries.len(),
{
    if entries.len() == 0 {
        seq![]
    } else {
        let rest = parsed_videos(entries.skip(1));
        match entries[0] {
            Some(raw) => seq![video_of(raw)] + rest,
            None => rest,
        }
    }
}

/// Does the entry hold a parsed line?
pub open spec fn is_parsed() -> spec_fn(Option<RawVideo>) -> bool {
    |e: Option<RawVideo>| e is Some
}

/// Every entry that parsed becomes a result, whatever it holds (a live
/// stream too): there are as many results as parsed entries, and the i-th
/// result is the video of the i-th parsed entry.
pub proof fn every_parsed_entry_is_kept(entries: Seq<Option<RawVideo>>)
    ensures
        parsed_videos(entries).len() == entries.filter(is_parsed()).len(),
        forall|i: int|
            0 <= i < parsed_videos(entries).len() ==> #[trigger] parsed_videos(entries)[i]
                == video_of(entries.filter(is_parsed())[i]->0),
    decreases entries.len(),
{
    reveal_with_fuel(Seq::filter, 2);
    if entries.len() > 0 {
        let first = seq![entries[0]];
        let rest = entries.skip(1);
        assert(entries =~= first + rest);
        Seq::filter_distributes_over_add(first, rest, is_parsed());
        assert(first.drop_last() =~= Seq::<Option<RawVideo>>::empty());
        every_parsed_entry_is_kept(rest);
        let f = entries.filter(is_parsed());
        let fr = rest.filter(is_parsed());
        if entries[0] is Some {
            assert(first.filter(is_parsed()) =~= first);
            assert forall|i: int| 0 <= i < parsed_videos(entries).len() implies #[trigger] parsed_videos(
                entries,
            )[i] == video_of(f[i]->0) by {
                if i > 0 {
                    assert(parsed_videos(entries)[i] == parsed_videos(rest)[i - 1]);
                    assert(f[i] == fr[i - 1]);
                }
            }
        } else {
            assert(first.filter(is_parsed()) =~= Seq::<Option<RawVideo>>::empty());
            assert(f =~= fr);
        }
    }
}

/// The search results from the output's lines, each parsed or not: the
/// entries that parsed become videos in order, the others are skipped.
pub fn videos_from_entries(entries: Vec<Option<RawVideo>>) -> (vs: Vec<Video>)
    ensures
        vs@ == parsed_videos(entries@),
{
    let ghost all = entries@;
    let mut entries = entries;
    let mut vs: Vec<Video> = Vec::new();
    while entries.len() > 0
        invariant
            vs@ + parsed_videos(entries@) == parsed_videos(all),
        decreases entries.len(),
    {
        let ghost before = entries@;
        let entry = entries.remove(0);
        assert(entries@ =~= before.skip(1));
        match entry {
            Some(raw) => {
                let v = video_from_raw(raw);
                assert(v == video_of(raw));
                let ghost old_vs = vs@;
                vs.push(v);
                assert(vs@ + parsed_videos(entries@) =~= old_vs + (seq![video_of(raw)]
                    + parsed_videos(entries@)));
            },
            None => {},
        }
    }
    assert(vs@ + parsed_videos(entries@) =~= vs@);
    vs
}

impl Ytdlp {
    /// yt-dlp found on the search path, with no extra arguments.
    pub fn new() -> (y: Self)
        ensures
            y.binary@ == "yt-dlp"@,
            y.extra_args@.len() == 0,
    {
        Ytdlp { binary: owned("yt-dlp"), extra_args: Vec::new() }
    }

    fn push_extra(&self, args: &mut Vec<String>)
        ensures
            views(final(args)@) == views(old(args)@) + views(self.extra_args@),
    {
        let ghost start = args@;
        let mut i: usize = 0;
        while i < self.extra_args.len()
            invariant
                i <= self.extra_args@.len(),
                views(args@) == views(start) + views(self.extra_args@.take(i as int)),
            decreases self.extra_args@.len() - i,
        {
            let ghost before = args@;
            args.push(self.extra_args[i].clone());
            assert(self.extra_args@.take(i + 1) == self.extra_args@.take(i as int).push(self.extra_args@[i as int]));
            assert(views(args@) == views(before).push(self.extra_args@[i as int]@));
            assert(views(self.extra_args@.take(i + 1)) == views(self.extra_args@.take(i as int)).push(self.extra_args@[i as int]@));
            i = i + 1;
        }
        assert(self.extra_args@.take(self.extra_args@.len() as int) == self.extra_args@);
    }

    /// The arguments of a search for `limit` results of `query`.
    pub fn search_args(&self, query: &str, limit: u32) -> (args: Vec<String>)
        ensures
            views(args@) == seq![
                "ytsearch"@ + decimal(limit as nat) + seq![':'] + query@,
                "--dump-json"@,
                "--flat-playlist"@,
                "--no-download"@,
                "--ignore-errors"@,
                "--no-warnings"@,
            ] + views(self.extra_args@),
    {
        let mut search = owned("ytsearch");
        push_decimal(&mut search, limit as u64);
        push_char(&mut search, ':');
        push_str(&mut search, query);
        assert(search@ =~= "ytsearch"@ + decimal(limit as nat) + seq![':'] + query@);
        let mut args: Vec<String> = Vec::new();
        args.push(search);
        args.push(owned("--dump-json"));
        args.push(owned("--flat-playlist"));
        args.push(owned("--no-download"));
        args.push(owned("--ignore-errors"));
        args.push(owned("--no-warnings"));
        let ghost fixed = args@;
        assert(views(fixed) =~= seq![
            "ytsearch"@ + decimal(limit as nat) + seq![':'] + query@,
            "--dump-json"@,
            "--flat-playlist"@,
            "--no-download"@,
            "--ignore-errors"@,
            "--no-warnings"@,
        ]);
        self.push_extra(&mut args);
        args
    }

    /// The arguments that ask for the best audio stream of `video_id`.
    pub fn stream_args(&self, video_id: &str) -> (args: Vec<String>)
        ensures
            views(args@) == seq![
                "-f"@,
                "bestaudio"@,
                "-g"@,
                "--no-download"@,
                "--ignore-errors"@,
                "--no-warnings"@,
                "https://youtube.com/watch?v="@ + video_id@,
            ] + views(self.extra_args@),
    {
        let mut url = owned("https://youtube.com/watch?v=");
        push_str(&mut url, video_id);
        let mut args: Vec<String> = Vec::new();
        args.push(owned("-f"));
        args.push(owned("bestaudio"));
        args.push(owned("-g"));
        args.push(owned("--no-download"));
        args.push(owned("--ignore-errors"));
        args.push(owned("--no-warnings"));
        args.push(url);
        let ghost fixed = args@;
        assert(views(fixed) =~= seq![
            "-f"@,
            "bestaudio"@,
            "-g"@,
            "--no-download"@,
            "--ignore-errors"@,
            "--no-warnings"@,
            "https://youtube.com/watch?v="@ + video_id@,
        ]);
        self.push_extra(&mut args);
        args
    }

    /// Reads the output of a search: when yt-dlp failed and printed nothing
    /// the error is its trimmed standard error; otherwise the non-empty lines
    /// of its standard output, one JSON entry each.
    pub fn search_output(success: bool, stdout: &[u8], stderr: &[u8]) -> (r: Result<
        Vec<String>,
        String,
    >)
        ensures
            !success && stdout@.len() == 0 ==> (r matches Err(e) && e@ == "yt-dlp error: "@
                + trimmed(lossy_utf8(stderr@))),
            success || stdout@.len() > 0 ==> (r matches Ok(lines) && views(lines@)
                == nonempty_lines(lossy_utf8(stdout@))),
    {
        if !success && stdout.len() == 0 {
            let mut e = owned("yt-dlp error: ");
            let msg = trim(decode_lossy(stderr).as_str());
            push_str(&mut e, msg.as_str());
            return Err(e);
        }
        let text = decode_lossy(stdout);
        Ok(split_nonempty_lines(text.as_str()))
    }

    /// Reads the output of a stream lookup: a failure gives the trimmed
    /// standard error; otherwise the trimmed standard output is the URL,
    /// which must not be empty.
    pub fn stream_output(success: bool, stdout: &[u8], stderr: &[u8], video_id: &str) -> (r:
        Result<String, String>)
        ensures
            !success ==> (r matches Err(e) && e@ == "yt-dlp stream error: "@ + trimmed(
                lossy_utf8(stderr@),
            )),
            success && trimmed(lossy_utf8(stdout@)).len() == 0 ==> (r matches Err(e) && e@
                == "yt-dlp mengembalikan URL kosong untuk video "@ + video_id@),
            success && trimmed(lossy_utf8(stdout@)).len() > 0 ==> (r matches Ok(url) && url@
                == trimmed(lossy_utf8(stdout@))),
    {
        if !success {
            let mut e = owned("yt-dlp stream error: ");
            let msg = trim(decode_lossy(stderr).as_str());
            push_str(&mut e, msg.as_str());
            return Err(e);
        }
        let url = trim(decode_lossy(stdout).as_str());
        if url.as_str().is_empty() {
            let mut e = owned("yt-dlp mengembalikan URL kosong untuk video ");
            push_str(&mut e, video_id);
            return Err(e);
        }
        Ok(url)
    }

    /// The version yt-dlp printed: its trimmed standard output.
    pub fn version_output(stdout: &[u8]) -> (v: String)
        ensures
            v@ == trimmed(lossy_utf8(stdout@)),
    {
        trim(decode_lossy(stdout).as_str())
    }
}

} // verus!
