use vstd::prelude::*;
use vstd::string::*;

verus! {

/// What one transcode run needs: input, its container format, output.
pub struct TranscodeConfig {
    pub input_path: String,
    pub input_format: String,
    pub output_path: String,
}

/// What a successful transcode run reports back.
#[derive(Debug)]
pub struct TranscodeResult {
    pub output_path: String,
}

/// One event read from the external transcoding tool's log stream. The
/// engine consumes only these kinds; anything unrecognized is `Other`
/// and ignorable, never fatal.
pub enum TranscodeEvent {
    /// A progress report carrying human-readable elapsed time.
    Progress(String),
    /// An error line.
    Error(String),
    /// The log stream ended.
    LogEof,
    /// Any other event kind.
    Other,
}

/// Mathematical model of a [`TranscodeEvent`].
pub ghost enum TranscodeEventV {
    Progress(Seq<char>),
    Error(Seq<char>),
    LogEof,
    Other,
}

impl View for TranscodeEvent {
    type V = TranscodeEventV;

    open spec fn view(&self) -> TranscodeEventV {
        match self {
            TranscodeEvent::Progress(t) => TranscodeEventV::Progress(t@),
            TranscodeEvent::Error(m) => TranscodeEventV::Error(m@),
            TranscodeEvent::LogEof => TranscodeEventV::LogEof,
            TranscodeEvent::Other => TranscodeEventV::Other,
        }
    }
}

/// The last error reported before the log stream ended, if any: an
/// error is superseded by a later one, and nothing after the first
/// end-of-log counts.
pub open spec fn last_error_before_eof(evs: Seq<TranscodeEventV>) -> Option<Seq<char>>
    decreases evs.len(),
{
    if evs.len() == 0 {
        None
    } else {
        match evs[0] {
            TranscodeEventV::LogEof => None,
            TranscodeEventV::Error(m) => match last_error_before_eof(
                evs.subrange(1, evs.len() as int),
            ) {
                None => Some(m),
                Some(m2) => Some(m2),
            },
            _ => last_error_before_eof(evs.subrange(1, evs.len() as int)),
        }
    }
}

/// The scan behind `transcode_outcome`, from index `i` on.
fn last_error_from(events: &Vec<TranscodeEvent>, i: usize) -> (r: Option<String>)
    requires
        i <= events@.len(),
    ensures
        match r {
            Some(m) => last_error_before_eof(
                events@.map_values(|e: TranscodeEvent| e@).subrange(
                    i as int,
                    events@.len() as int,
                ),
            ) == Some(m@),
            None => last_error_before_eof(
                events@.map_values(|e: TranscodeEvent| e@).subrange(
                    i as int,
                    events@.len() as int,
                ),
            ) is None,
        },
    decreases events@.len() - i,
{
    let ghost evs = events@.map_values(|e: TranscodeEvent| e@);
    let ghost suffix = evs.subrange(i as int, evs.len() as int);
    if i >= events.len() {
        return None;
    }
    proof {
        assert(suffix[0] == evs[i as int]);
        assert(suffix.subrange(1, suffix.len() as int) =~= evs.subrange(
            i + 1 as int,
            evs.len() as int,
        ));
    }
    match &events[i] {
        TranscodeEvent::LogEof => None,
        TranscodeEvent::Error(m) => match last_error_from(events, i + 1) {
            None => Some(m.clone()),
            Some(m2) => Some(m2),
        },
        _ => last_error_from(events, i + 1),
    }
}

/// Folds the tool's log events into the run's outcome: the last error
/// reported before end-of-log fails the run with that message forwarded
/// unchanged; otherwise the run succeeded and produced `output_path`.
pub fn transcode_outcome(output_path: String, events: &Vec<TranscodeEvent>) -> (r: Result<
    TranscodeResult,
    String,
>)
    ensures
        match r {
            Err(m) => last_error_before_eof(events@.map_values(|e: TranscodeEvent| e@)) == Some(
                m@,
            ),
            Ok(t) => last_error_before_eof(events@.map_values(|e: TranscodeEvent| e@)) is None
                && t.output_path@ == output_path@,
        },
{
    proof {
        assert(events@.map_values(|e: TranscodeEvent| e@).subrange(
            0,
            events@.len() as int,
        ) =~= events@.map_values(|e: TranscodeEvent| e@));
    }
    match last_error_from(events, 0) {
        Some(m) => Err(m),
        None => Ok(TranscodeResult { output_path }),
    }
}

/// The output file name for a subtitle burn: the input's file name with
/// a marker prefix.
pub fn subtitle_output_name(file_name: &str) -> (r: String)
    ensures
        r@ == "[subtitle]"@ + file_name@,
{
    let mut out = "[subtitle]".to_owned();
    out.append(file_name);
    out
}

/// How one character of a subtitle path is escaped for the tool's
/// filter syntax on platforms with backslash paths: backslashes are
/// doubled and drive-letter colons guarded.
pub open spec fn esc_char(c: char) -> Seq<char> {
    if c == '\\' {
        seq!['\\', '\\']
    } else if c == ':' {
        seq!['\\', ':']
    } else {
        seq![c]
    }
}

/// The escaped form of a whole path.
pub open spec fn esc(s: Seq<char>) -> Seq<char>
    decreases s.len(),
{
    if s.len() == 0 {
        Seq::<char>::empty()
    } else {
        esc_char(s[0]) + esc(s.subrange(1, s.len() as int))
    }
}

/// The subtitle path as it is handed to the filter: escaped when the
/// host uses backslash paths, and wrapped in single quotes either way.
pub open spec fn spec_quoted_subtitle(s: Seq<char>, windows: bool) -> Seq<char> {
    seq!['\''] + (if windows {
        esc(s)
    } else {
        s
    }) + seq!['\'']
}

/// Escapes a subtitle path for the filter syntax.
fn escape_path(s: &str) -> (r: String)
    ensures
        r@ == esc(s@),
    decreases s@.len(),
{
    proof {
        reveal_strlit("\\\\");
        reveal_strlit("\\:");
    }
    let n = s.unicode_len();
    if n == 0 {
        return String::new();
    }
    let c = s.get_char(0);
    let mut out: String = if c == '\\' {
        "\\\\".to_owned()
    } else if c == ':' {
        "\\:".to_owned()
    } else {
        s.substring_char(0, 1).to_owned()
    };
    proof {
        assert(out@ =~= esc_char(s@[0]));
    }
    let rest = escape_path(s.substring_char(1, n));
    out.append(rest.as_str());
    out
}

/// Quotes (and on backslash-path hosts, escapes) a subtitle path for
/// the tool's filter syntax.
pub fn quoted_subtitle(s: &str, windows: bool) -> (r: String)
    ensures
        r@ == spec_quoted_subtitle(s@, windows),
{
    proof {
        reveal_strlit("'");
    }
    let mut out = "'".to_owned();
    if windows {
        let e = escape_path(s);
        out.append(e.as_str());
    } else {
        out.append(s);
    }
    out.append("'");
    proof {
        assert(out@ =~= spec_quoted_subtitle(s@, windows));
    }
    out
}

/// The filter argument for a subtitle burn: the quoted subtitle path and
/// the requested style.
pub fn subtitle_filter_arg(quoted_path: &str, style: &str) -> (r: String)
    ensures
        r@ == "subtitles="@ + quoted_path@ + ":force_style='"@ + style@ + "'"@,
{
    let mut out = "subtitles=".to_owned();
    out.append(quoted_path);
    out.append(":force_style='");
    out.append(style);
    out.append("'");
    out
}

/// Where the extension of the final path component starts, scanning down
/// from `i`: the index of the last `.` in the component, or nothing when
/// the component has none.
pub open spec fn ext_split(s: Seq<char>, i: int) -> Option<int>
    decreases i,
{
    if i <= 0 {
        None
    } else if s[i - 1] == '.' {
        Some(i - 1)
    } else if s[i - 1] == '/' {
        None
    } else {
        ext_split(s, i - 1)
    }
}

/// The audio output path for a media file: the extension of the final
/// path component replaced by `wav`, or `.wav` appended when the
/// component has no extension.
pub open spec fn spec_wav_path(s: Seq<char>) -> Seq<char> {
    match ext_split(s, s.len() as int) {
        Some(k) => s.subrange(0, k) + ".wav"@,
        None => s + ".wav"@,
    }
}

/// The scan behind `wav_output_path`.
fn ext_split_exec(s: &str, i: usize) -> (r: Option<usize>)
    requires
        i <= s@.len(),
    ensures
        match r {
            Some(k) => ext_split(s@, i as int) == Some(k as int) && k < s@.len(),
            None => ext_split(s@, i as int) is None,
        },
    decreases i,
{
    if i == 0 {
        return None;
    }
    let c = s.get_char(i - 1);
    if c == '.' {
        Some(i - 1)
    } else if c == '/' {
        None
    } else {
        ext_split_exec(s, i - 1)
    }
}

/// Derives the audio output path for a media file.
pub fn wav_output_path(s: &str) -> (r: String)
    ensures
        r@ == spec_wav_path(s@),
{
    proof {
        reveal_strlit(".wav");
    }
    let n = s.unicode_len();
    let mut out: String = match ext_split_exec(s, n) {
        Some(k) => s.substring_char(0, k).to_owned(),
        None => s.to_owned(),
    };
    out.append(".wav");
    out
}

} // verus!
