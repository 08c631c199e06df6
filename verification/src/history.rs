//! Recording history: where recordings go, how they are named and
//! previewed, which day folders expire, and the labels of the recent-
//! recordings menu.
//!
//! Recordings are stored as `<audio_dir>/YYYY-MM-DD/{id}.wav` and
//! `<transcripts_dir>/YYYY-MM-DD/{id}.txt` with metadata in `{id}.json`; the
//! caller does the file work.

use vstd::prelude::*;
use crate::clock::{
    lemma_local_date_is_plain, local_date_days_ago, local_date_text, local_date_today, now_unix,
};
use crate::corrections::utf8_width;
use crate::hardware::owned;
use crate::num::{decimal_digits, parse_u64, parse_u64_spec, u64_to_decimal};
use crate::order::{lex_lt, lex_lt_exec};
use crate::paths::path_join;
use crate::text::{chars_of, ends_with, push_chars, push_str, slice_chars, starts_with, string_from_chars};

verus! {

/// The text stored until a transcript is ready.
pub const PENDING_PLACEHOLDER: &'static str = "[Transcribing…]";

/// At most this many characters of a transcript are previewed.
pub const PREVIEW_CHARS: usize = 100;

/// History manager: the audio and transcript roots and the retention.
#[derive(Debug, Clone)]
pub struct HistoryManager {
    audio_dir: String,
    transcripts_dir: String,
    retention_days: u32,
}

/// Paths of one recording's files.
#[derive(Debug, Clone)]
pub struct RecordingPaths {
    pub audio_path: String,
    pub text_path: String,
    pub meta_path: String,
}

pub open spec fn is_decimal(s: Seq<char>) -> bool {
    exists|n: u64| s == decimal_digits(n as nat)
}

impl HistoryManager {
    /// A manager over existing audio and transcript folders.
    pub fn from_dirs(audio_dir: String, transcripts_dir: String, retention_days: u32) -> (h: Self)
        ensures
            h.audio_dir() == audio_dir@,
            h.transcripts_dir() == transcripts_dir@,
            h.retention_days() == retention_days,
    {
        HistoryManager { audio_dir, transcripts_dir, retention_days }
    }

    pub closed spec fn audio_dir(self) -> Seq<char> {
        self.audio_dir@
    }

    pub closed spec fn transcripts_dir(self) -> Seq<char> {
        self.transcripts_dir@
    }

    pub closed spec fn retention_days(self) -> u32 {
        self.retention_days
    }

    /// A recording id: the current Unix time in seconds, in decimal.
    pub fn generate_id() -> (r: String)
        ensures
            is_decimal(r@),
            r@.len() > 0,
            parse_u64_spec(r@) is Some,
    {
        let now = now_unix();
        let digits = u64_to_decimal(now);
        proof {
            lemma_decimal_digits_parse(now);
        }
        string_from_chars(&digits)
    }

    /// The transcripts root (where the day folders live).
    pub fn base_dir(&self) -> (r: &str)
        ensures
            r@ == self.transcripts_dir(),
    {
        self.transcripts_dir.as_str()
    }

    /// Today's day folder name (`YYYY-MM-DD`, local time): a date text, and
    /// so a plain folder name under the history roots; none when the clock
    /// reads before 1970 or beyond chrono's range. Which date depends on the
    /// clock and is not stated.
    pub fn today_subdir(&self) -> (r: Option<String>)
        ensures
            r matches Some(d) ==> local_date_text(d@) && crate::paths::plain_relative(d@),
    {
        let d = local_date_today();
        proof {
            if d is Some {
                lemma_local_date_is_plain(d->0@);
            }
        }
        d
    }

    /// The files of recording `id` filed under day folder `day`.
    pub fn recording_paths(&self, day: &str, id: &str) -> (r: RecordingPaths)
        ensures
            crate::paths::plain_relative(day@) && crate::paths::plain_relative(id@) ==> {
                &&& ends_with(r.audio_path@, id@ + ".wav"@)
                &&& ends_with(r.text_path@, id@ + ".txt"@)
                &&& ends_with(r.meta_path@, id@ + ".json"@)
            },
            crate::paths::plain_relative(day@) && crate::paths::plain_relative(id@)
                && crate::paths::no_verbatim(self.audio_dir()) ==> {
                &&& crate::paths::joined2(r.audio_path@, self.audio_dir(), day@, id@ + ".wav"@)
                &&& starts_with(r.audio_path@, self.audio_dir())
            },
            crate::paths::plain_relative(day@) && crate::paths::plain_relative(id@)
                && crate::paths::no_verbatim(self.transcripts_dir()) ==> {
                &&& crate::paths::joined2(r.text_path@, self.transcripts_dir(), day@, id@ + ".txt"@)
                &&& crate::paths::joined2(r.meta_path@, self.transcripts_dir(), day@, id@ + ".json"@)
                &&& starts_with(r.text_path@, self.transcripts_dir())
                &&& starts_with(r.meta_path@, self.transcripts_dir())
            },
    {
        proof {
            reveal_strlit(".wav");
            reveal_strlit(".txt");
            reveal_strlit(".json");
        }
        let audio_day = path_join(self.audio_dir.as_str(), day);
        let text_day = path_join(self.transcripts_dir.as_str(), day);
        let audio_name = file_name_with(id, ".wav");
        let text_name = file_name_with(id, ".txt");
        let meta_name = file_name_with(id, ".json");
        let audio_path = path_join(audio_day.as_str(), audio_name.as_str());
        let text_path = path_join(text_day.as_str(), text_name.as_str());
        let meta_path = path_join(text_day.as_str(), meta_name.as_str());
        proof {
            if crate::paths::plain_relative(day@) && crate::paths::plain_relative(id@) {
                crate::paths::lemma_plain_with_suffix(id@, ".wav"@);
                crate::paths::lemma_plain_with_suffix(id@, ".txt"@);
                crate::paths::lemma_plain_with_suffix(id@, ".json"@);
                if crate::paths::no_verbatim(self.audio_dir()) {
                    crate::paths::lemma_joined2(
                        audio_path@,
                        audio_day@,
                        self.audio_dir(),
                        day@,
                        id@ + ".wav"@,
                    );
                }
                if crate::paths::no_verbatim(self.transcripts_dir()) {
                    crate::paths::lemma_joined2(
                        text_path@,
                        text_day@,
                        self.transcripts_dir(),
                        day@,
                        id@ + ".txt"@,
                    );
                    crate::paths::lemma_joined2(
                        meta_path@,
                        text_day@,
                        self.transcripts_dir(),
                        day@,
                        id@ + ".json"@,
                    );
                }
            }
        }
        RecordingPaths { audio_path, text_path, meta_path }
    }

    /// The day folders (by name) that fall out of retention: those whose name
    /// sorts no later than the cutoff date. Nothing expires when the
    /// retention is 0 days.
    pub fn expired_day_folders(&self, day_names: &[String], cutoff: &str) -> (r: Vec<usize>)
        ensures
            self.retention_days() == 0 ==> r@.len() == 0,
            self.retention_days() != 0 ==> r@.map_values(|i: usize| i as int) == expired_positions(
                crate::text::str_views(day_names@),
                cutoff@,
            ),
    {
        if self.retention_days == 0 {
            return Vec::new();
        }
        expired_positions_exec(day_names, cutoff)
    }

    /// The day folders that fall out of retention today: those whose name
    /// sorts no later than the local date `retention_days` days ago (a date
    /// text). Nothing expires when the retention is 0 days, nor when that
    /// date cannot be computed; which date it is, and whether it can be
    /// computed, depend on the clock and are not stated.
    pub fn expired_day_folders_today(&self, day_names: &[String]) -> (r: Vec<usize>)
        ensures
            self.retention_days() == 0 ==> r@.len() == 0,
            r@.len() == 0 || exists|cutoff: Seq<char>|
                #![trigger expired_positions(crate::text::str_views(day_names@), cutoff)]
                local_date_text(cutoff) && r@.map_values(|i: usize| i as int) == expired_positions(
                    crate::text::str_views(day_names@),
                    cutoff,
                ),
    {
        if self.retention_days == 0 {
            return Vec::new();
        }
        match local_date_days_ago(self.retention_days) {
            Some(cutoff) => self.expired_day_folders(day_names, cutoff.as_str()),
            None => Vec::new(),
        }
    }
}

fn file_name_with(id: &str, ext: &str) -> (r: String)
    ensures
        r@ == id@ + ext@,
{
    let mut v = chars_of(id);
    push_str(&mut v, ext);
    string_from_chars(&v)
}

proof fn lemma_decimal_digits_parse(n: u64)
    ensures
        decimal_digits(n as nat).len() > 0,
        crate::num::all_digits(decimal_digits(n as nat)),
        crate::num::digits_value(decimal_digits(n as nat)) == n,
        parse_u64_spec(decimal_digits(n as nat)) == Some(n),
        is_decimal(decimal_digits(n as nat)),
    decreases n,
{
    lemma_decimal_digits_value(n as nat);
    let d = decimal_digits(n as nat);
    assert(d[0] != '+') by {
        lemma_decimal_first_digit(n as nat);
    }
    assert(crate::num::unsigned_part(d) == d);
}

proof fn lemma_decimal_first_digit(n: nat)
    ensures
        decimal_digits(n).len() > 0,
        crate::text::is_ascii_digit(decimal_digits(n)[0]),
    decreases n,
{
    if n >= 10 {
        lemma_decimal_first_digit(n / 10);
    }
}

spec fn digit_char_of(k: nat) -> char {
    crate::num::digit_char(k)
}

proof fn lemma_decimal_digits_value(n: nat)
    ensures
        decimal_digits(n).len() > 0,
        crate::num::all_digits(decimal_digits(n)),
        crate::num::digits_value(decimal_digits(n)) == n,
    decreases n,
{
    let d = decimal_digits(n);
    let c = digit_char_of(n % 10);
    assert(crate::num::digit_value(c) == n % 10);
    if n >= 10 {
        lemma_decimal_digits_value(n / 10);
        assert(d.drop_last() == decimal_digits(n / 10));
        assert(d.last() == c);
        assert(forall|i: int| 0 <= i < d.len() - 1 ==> d[i] == decimal_digits(n / 10)[i]);
        assert(crate::num::digits_value(d) == crate::num::digits_value(d.drop_last()) * 10
            + crate::num::digit_value(d.last()));
    } else {
        assert(d == seq![c]);
        assert(d.drop_last() =~= Seq::<char>::empty());
        assert(crate::num::digits_value(d) == crate::num::digits_value(d.drop_last()) * 10
            + crate::num::digit_value(d.last()));
    }
}

/// The timestamp recorded for an id: its value when it is a number, else 0.
pub fn id_timestamp(id: &str) -> (r: u64)
    ensures
        r == match parse_u64_spec(id@) {
            Some(v) => v,
            None => 0,
        },
{
    let c = chars_of(id);
    match parse_u64(&c) {
        Some(v) => v,
        None => 0,
    }
}

/// The preview of a transcript: its first 100 characters, with line feeds
/// shown as spaces.
pub open spec fn preview_of(text: Seq<char>) -> Seq<char> {
    let n = if text.len() < PREVIEW_CHARS {
        text.len() as int
    } else {
        PREVIEW_CHARS as int
    };
    text.take(n).map_values(|c: char| if c == '\n' {
        ' '
    } else {
        c
    })
}

/// The transcript preview stored in the metadata.
pub fn text_preview(text: &str) -> (r: String)
    ensures
        r@ == preview_of(text@),
{
    let c = chars_of(text);
    let n: usize = if c.len() < PREVIEW_CHARS {
        c.len()
    } else {
        PREVIEW_CHARS
    };
    let mut v: Vec<char> = Vec::new();
    let mut i: usize = 0;
    while i < n
        invariant
            i <= n <= c@.len(),
            v@ == c@.take(i as int).map_values(|c: char| if c == '\n' {
                ' '
            } else {
                c
            }),
        decreases n - i,
    {
        let ch = c[i];
        v.push(if ch == '\n' { ' ' } else { ch });
        assert(c@.take(i + 1) =~= c@.take(i as int).push(ch));
        i = i + 1;
    }
    string_from_chars(&v)
}

/// The day folders that have expired: their names sort no later than the
/// cutoff (`YYYY-MM-DD` names compare as dates).
pub open spec fn expired_positions(names: Seq<Seq<char>>, cutoff: Seq<char>) -> Seq<int>
    decreases names.len(),
{
    if names.len() == 0 {
        seq![]
    } else {
        let rest = expired_positions(names.drop_last(), cutoff);
        if !lex_lt(cutoff, names.last()) {
            rest.push(names.len() - 1)
        } else {
            rest
        }
    }
}

fn expired_positions_exec(names: &[String], cutoff: &str) -> (r: Vec<usize>)
    ensures
        r@.map_values(|i: usize| i as int) == expired_positions(
            crate::text::str_views(names@),
            cutoff@,
        ),
{
    let ghost ns = crate::text::str_views(names@);
    let cut = chars_of(cutoff);
    let mut out: Vec<usize> = Vec::new();
    let mut i: usize = 0;
    assert(ns.take(0) =~= seq![]);
    assert(out@.map_values(|i: usize| i as int) =~= seq![]);
    while i < names.len()
        invariant
            i <= names@.len(),
            ns == crate::text::str_views(names@),
            cut@ == cutoff@,
            out@.map_values(|i: usize| i as int) == expired_positions(ns.take(i as int), cutoff@),
        decreases names@.len() - i,
    {
        assert(ns.take(i + 1).drop_last() =~= ns.take(i as int));
        assert(ns.take(i + 1).last() == names@[i as int]@);
        let name = chars_of(names[i].as_str());
        if !lex_lt_exec(&cut, &name) {
            let ghost before = out@;
            out.push(i);
            assert(out@.map_values(|i: usize| i as int) =~= before.map_values(|i: usize| i as int).push(
                i as int,
            ));
        }
        i = i + 1;
    }
    assert(ns.take(i as int) =~= ns);
    out
}

// ---------------------------------------------------------------------------
// Menu labels.
// ---------------------------------------------------------------------------

/// What the recent-recordings menu needs of a recording.
#[derive(Debug, Clone)]
pub struct RecordingSummary {
    pub id: String,
    /// `YYYY-MM-DD HH:MM:SS`.
    pub datetime: String,
    pub text_preview: String,
}

/// Menu entry for the tray.
#[derive(Debug, Clone)]
pub struct HistoryMenuEntry {
    pub id: u16,
    pub label: String,
    pub recording_id: String,
}

/// The position (in characters) at which the first `n` bytes of the UTF-8
/// encoding of `s` end, when that is a character boundary.
pub open spec fn char_boundary(s: Seq<char>, n: nat) -> Option<int>
    decreases s.len(),
{
    if n == 0 {
        Some(0)
    } else if s.len() == 0 || utf8_width(s[0]) > n {
        None
    } else {
        match char_boundary(s.drop_first(), (n - utf8_width(s[0])) as nat) {
            Some(i) => Some(i + 1),
            None => None,
        }
    }
}

/// `str::get(a..b)`: the text between bytes `a` and `b`, when both are
/// character boundaries and `a <= b`.
pub open spec fn byte_slice(s: Seq<char>, a: nat, b: nat) -> Option<Seq<char>> {
    if a <= b && char_boundary(s, a) is Some && char_boundary(s, b) is Some {
        Some(s.subrange(char_boundary(s, a)->0, char_boundary(s, b)->0))
    } else {
        None
    }
}

proof fn lemma_char_boundary_range(s: Seq<char>, n: nat)
    ensures
        char_boundary(s, n) matches Some(i) ==> 0 <= i <= s.len(),
    decreases s.len(),
{
    if n > 0 && s.len() > 0 && utf8_width(s[0]) <= n {
        lemma_char_boundary_range(s.drop_first(), (n - utf8_width(s[0])) as nat);
    }
}

proof fn lemma_char_boundary_monotone(s: Seq<char>, a: nat, b: nat)
    requires
        a <= b,
        char_boundary(s, a) is Some,
        char_boundary(s, b) is Some,
    ensures
        char_boundary(s, a)->0 <= char_boundary(s, b)->0,
    decreases s.len(),
{
    lemma_char_boundary_range(s, b);
    if a > 0 {
        lemma_char_boundary_monotone(
            s.drop_first(),
            (a - utf8_width(s[0])) as nat,
            (b - utf8_width(s[0])) as nat,
        );
    }
}

fn char_boundary_exec(s: &[char], n: usize) -> (r: Option<usize>)
    ensures
        match r {
            Some(i) => char_boundary(s@, n as nat) == Some(i as int) && i <= s@.len(),
            None => char_boundary(s@, n as nat) is None,
        },
{
    let mut i: usize = 0;
    let mut bytes: usize = 0;
    assert(s@.skip(0) =~= s@);
    while bytes < n
        invariant
            i <= s@.len(),
            bytes <= n,
            char_boundary(s@, n as nat) == match char_boundary(s@.skip(i as int), (n - bytes) as nat) {
                Some(k) => Some(k + i),
                None => None,
            },
        decreases n - bytes,
    {
        if i >= s.len() {
            assert(s@.skip(i as int).len() == 0);
            return None;
        }
        let c = s[i] as u32;
        let w: usize = if c < 0x80 {
            1
        } else if c < 0x800 {
            2
        } else if c < 0x10000 {
            3
        } else {
            4
        };
        assert(s@.skip(i as int)[0] == s@[i as int]);
        assert(w == utf8_width(s@[i as int]));
        if w > n - bytes {
            return None;
        }
        assert(s@.skip(i as int).drop_first() =~= s@.skip(i + 1));
        bytes = bytes + w;
        i = i + 1;
    }
    Some(i)
}

fn byte_slice_exec(s: &[char], a: usize, b: usize) -> (r: Option<Vec<char>>)
    ensures
        match r {
            Some(v) => byte_slice(s@, a as nat, b as nat) == Some(v@),
            None => byte_slice(s@, a as nat, b as nat) is None,
        },
{
    if a > b {
        return None;
    }
    match (char_boundary_exec(s, a), char_boundary_exec(s, b)) {
        (Some(i), Some(j)) => {
            proof {
                lemma_char_boundary_monotone(s@, a as nat, b as nat);
            }
            Some(slice_chars(s, i, j))
        },
        _ => None,
    }
}

/// The menu label of a recording: `[HH:MM] preview`, with `--:--` when the
/// time cannot be read from bytes 11..16 of the date-time, and the preview cut
/// to its first 30 bytes followed by `...` when it is longer.
pub open spec fn menu_label(datetime: Seq<char>, preview: Seq<char>) -> Seq<char> {
    let time = match byte_slice(datetime, 11, 16) {
        Some(t) => t,
        None => "--:--"@,
    };
    let shown = if crate::corrections::utf8_len(preview) > 30 {
        preview.take(char_boundary(preview, 30)->0) + "..."@
    } else {
        preview
    };
    "["@ + time + "] "@ + shown
}

/// A preview longer than 30 bytes is cut at byte 30, which must be a
/// character boundary.
pub open spec fn preview_cuttable(preview: Seq<char>) -> bool {
    crate::corrections::utf8_len(preview) > 30 ==> char_boundary(preview, 30) is Some
}

fn menu_label_exec(datetime: &str, preview: &str) -> (r: String)
    requires
        preview_cuttable(preview@),
    ensures
        r@ == menu_label(datetime@, preview@),
{
    proof {
        reveal_strlit("--:--");
        reveal_strlit("...");
        reveal_strlit("] ");
        reveal_strlit("[");
    }
    let dt = chars_of(datetime);
    let p = chars_of(preview);
    let mut v: Vec<char> = Vec::new();
    v.push('[');
    match byte_slice_exec(&dt, 11, 16) {
        Some(t) => push_chars(&mut v, &t),
        None => push_str(&mut v, "--:--"),
    }
    push_str(&mut v, "] ");
    if crate::input::utf8_longer_than(&p, 30) {
        let cut = char_boundary_exec(&p, 30);
        match cut {
            Some(k) => {
                let head = slice_chars(&p, 0, k);
                assert(head@ =~= p@.take(k as int));
                push_chars(&mut v, &head);
                push_str(&mut v, "...");
            },
            None => {},
        }
    } else {
        push_chars(&mut v, &p);
    }
    assert(v@ =~= menu_label(datetime@, preview@));
    string_from_chars(&v)
}

/// The recent-recordings menu: one entry per recording, numbered from
/// `start_id`, labelled with its time and preview.
pub fn build_history_menu_entries(recordings: &[RecordingSummary], start_id: u16) -> (r: Vec<
    HistoryMenuEntry,
>)
    requires
        start_id + recordings@.len() <= u16::MAX + 1,
        forall|i: int|
            0 <= i < recordings@.len() ==> preview_cuttable(#[trigger] recordings@[i].text_preview@),
    ensures
        r@.len() == recordings@.len(),
        forall|i: int|
            0 <= i < r@.len() ==> (#[trigger] r@[i]).id == start_id + i && r@[i].label@
                == menu_label(recordings@[i].datetime@, recordings@[i].text_preview@)
                && r@[i].recording_id@ == recordings@[i].id@,
{
    let mut out: Vec<HistoryMenuEntry> = Vec::new();
    let mut i: usize = 0;
    while i < recordings.len()
        invariant
            i <= recordings@.len(),
            start_id + recordings@.len() <= u16::MAX + 1,
            forall|i: int|
                0 <= i < recordings@.len() ==> preview_cuttable(
                    #[trigger] recordings@[i].text_preview@,
                ),
            out@.len() == i,
            forall|k: int|
                0 <= k < i ==> (#[trigger] out@[k]).id == start_id + k && out@[k].label@
                    == menu_label(recordings@[k].datetime@, recordings@[k].text_preview@)
                    && out@[k].recording_id@ == recordings@[k].id@,
        decreases recordings@.len() - i,
    {
        let rec = &recordings[i];
        let label = menu_label_exec(rec.datetime.as_str(), rec.text_preview.as_str());
        let id: u16 = start_id + i as u16;
        out.push(HistoryMenuEntry { id, label, recording_id: owned(rec.id.as_str()) });
        i = i + 1;
    }
    out
}

} // verus!
