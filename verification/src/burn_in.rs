//! Rules of the long-running burn-in harness: its command line, the frame
//! schedule derived from it, its file locations, and the event tally it
//! reports at the end.  Audio synthesis, timing and the sidecar process
//! belong to the harness program.

use vstd::prelude::*;
use vstd::string::StringExecFns;
use crate::text::{decimal, push_decimal, str_eq, chars_of};
use crate::ipc_protocol::{all_digits, digits_value, is_digit, unsigned_body, lemma_digits_value_monotone};
use crate::storage::{joined_path, join_path};
use crate::sidecar::Event;

verus! {

/// Default test duration in seconds (30 minutes).
pub const DEFAULT_DURATION_SECS: u64 = 1800;

/// Default interval between frames in milliseconds.
pub const DEFAULT_FRAME_INTERVAL_MS: u64 = 10;

/// Default interval between progress lines in seconds.
pub const DEFAULT_LOG_INTERVAL_SECS: u64 = 60;

/// Seconds to wait for the sidecar's ready event.
pub const READY_TIMEOUT_SECS: u64 = 30;

/// Sample rate of the synthetic audio.
pub const SAMPLE_RATE: u64 = 16000;

/// What `str::parse::<u64>` returns for `s`: an optional `+` followed by one
/// or more ASCII digits whose value fits in `u64`.
pub open spec fn parse_u64(s: Seq<char>) -> Option<u64> {
    let body = unsigned_body(s);
    if body.len() > 0 && all_digits(body) && digits_value(body) <= u64::MAX {
        Some(digits_value(body) as u64)
    } else {
        None
    }
}

/// Parse a decimal number as `str::parse::<u64>` does.
pub fn parse_u64_text(s: &str) -> (r: Option<u64>)
    ensures
        r == parse_u64(s@),
{
    let v = chars_of(s);
    let ghost sv = v@;
    let mut b: usize = 0;
    if v.len() > 0 && v[0] == '+' {
        b = 1;
    }
    let ghost body = v@.subrange(b as int, v@.len() as int);
    assert(body =~= unsigned_body(sv));
    if b == v.len() {
        return None;
    }
    let mut value: u128 = 0;
    let mut i = b;
    while i < v.len()
        invariant
            b <= i <= v@.len(),
            sv == v@,
            sv == s@,
            body == v@.subrange(b as int, v@.len() as int),
            body == unsigned_body(sv),
            forall|k: int| b <= k < i ==> is_digit(v@[k]),
            value == digits_value(v@.subrange(b as int, i as int)),
            value <= u64::MAX,
        decreases v@.len() - i,
    {
        let c = v[i];
        if !('0' <= c && c <= '9') {
            assert(body[i - b] == c);
            assert(!is_digit(body[i - b]));
            assert(!all_digits(body));
            return None;
        }
        let d: u128 = (c as u32 - '0' as u32) as u128;
        assert(v@.subrange(b as int, i + 1).drop_last() =~= v@.subrange(b as int, i as int));
        let next = value * 10 + d;
        if next > 0xFFFF_FFFF_FFFF_FFFF {
            proof {
                let prefix = v@.subrange(b as int, i + 1);
                assert(prefix.drop_last() =~= v@.subrange(b as int, i as int));
                assert(prefix.last() == c);
                assert(digits_value(prefix) == 10 * value + d);
                assert(prefix =~= body.take(i + 1 - b));
                if all_digits(body) {
                    lemma_digits_value_monotone(body, (i + 1 - b) as nat);
                    assert(digits_value(body) > u64::MAX);
                }
            }
            return None;
        }
        value = next;
        i = i + 1;
    }
    assert(v@.subrange(b as int, v@.len() as int) =~= body);
    Some(value as u64)
}

/// Settings of a burn-in run.
#[derive(Debug, Clone)]
pub struct BurnInConfig {
    pub duration_secs: u64,
    pub frame_interval_ms: u64,
    pub log_interval_secs: u64,
    /// Python executable to use instead of the detected one.
    pub python_path: Option<String>,
    /// Log file to use instead of the default one.
    pub log_file: Option<String>,
}

/// What the command line asks for.
#[derive(Debug, Clone)]
pub enum BurnInCommand {
    /// Run with these settings.
    Run(BurnInConfig),
    /// Print the usage and exit successfully.
    Help,
}

/// Settings as the parse goes.
pub struct ConfigModel {
    pub duration_secs: u64,
    pub frame_interval_ms: u64,
    pub log_interval_secs: u64,
    pub python_path: Option<Seq<char>>,
    pub log_file: Option<Seq<char>>,
}

/// Outcome of parsing.
pub enum ParseModel {
    Run(ConfigModel),
    Help,
    Fail(Seq<char>),
}

/// Settings before any argument.
pub open spec fn default_model() -> ConfigModel {
    ConfigModel {
        duration_secs: DEFAULT_DURATION_SECS,
        frame_interval_ms: DEFAULT_FRAME_INTERVAL_MS,
        log_interval_secs: DEFAULT_LOG_INTERVAL_SECS,
        python_path: None,
        log_file: None,
    }
}

/// Parse `args[i..]` from settings `st`, left to right: each option takes
/// the next argument as its value; a later option overrides an earlier
/// one; `--help`/`-h` ends the parse; anything else is refused.
pub open spec fn parse_from(args: Seq<Seq<char>>, i: int, st: ConfigModel) -> ParseModel
    decreases args.len() - i,
{
    if i < 0 || i >= args.len() {
        ParseModel::Run(st)
    } else {
        let a = args[i];
        if a == "--duration-secs"@ {
            if i + 1 >= args.len() {
                ParseModel::Fail("--duration-secs requires a value"@)
            } else {
                match parse_u64(args[i + 1]) {
                    None => ParseModel::Fail("Failed to parse --duration-secs"@),
                    Some(v) => if v == 0 {
                        ParseModel::Fail("--duration-secs must be greater than zero"@)
                    } else {
                        parse_from(args, i + 2, ConfigModel { duration_secs: v, ..st })
                    },
                }
            }
        } else if a == "--frame-interval-ms"@ {
            if i + 1 >= args.len() {
                ParseModel::Fail("--frame-interval-ms requires a value"@)
            } else {
                match parse_u64(args[i + 1]) {
                    None => ParseModel::Fail("Failed to parse --frame-interval-ms"@),
                    Some(v) => if v == 0 || 1000u64 % v != 0 {
                        ParseModel::Fail("--frame-interval-ms must be a divisor of 1000 (e.g. 10, 20, 25, 40)"@)
                    } else {
                        parse_from(args, i + 2, ConfigModel { frame_interval_ms: v, ..st })
                    },
                }
            }
        } else if a == "--log-interval-secs"@ {
            if i + 1 >= args.len() {
                ParseModel::Fail("--log-interval-secs requires a value"@)
            } else {
                match parse_u64(args[i + 1]) {
                    None => ParseModel::Fail("Failed to parse --log-interval-secs"@),
                    Some(v) => if v == 0 {
                        ParseModel::Fail("--log-interval-secs must be greater than zero"@)
                    } else {
                        parse_from(args, i + 2, ConfigModel { log_interval_secs: v, ..st })
                    },
                }
            }
        } else if a == "--python"@ {
            if i + 1 >= args.len() {
                ParseModel::Fail("--python requires a value"@)
            } else {
                parse_from(args, i + 2, ConfigModel { python_path: Some(args[i + 1]), ..st })
            }
        } else if a == "--log-file"@ {
            if i + 1 >= args.len() {
                ParseModel::Fail("--log-file requires a value"@)
            } else {
                parse_from(args, i + 2, ConfigModel { log_file: Some(args[i + 1]), ..st })
            }
        } else if a == "--help"@ || a == "-h"@ {
            ParseModel::Help
        } else {
            ParseModel::Fail("Unknown argument: "@ + a)
        }
    }
}

/// The text of each argument.
pub open spec fn arg_texts(args: Seq<String>) -> Seq<Seq<char>> {
    args.map_values(|s: String| s@)
}

/// The text of an optional string.
pub open spec fn opt_text(s: Option<String>) -> Option<Seq<char>> {
    match s {
        Some(t) => Some(t@),
        None => None,
    }
}

/// A configuration agrees with a model.
pub open spec fn config_is(c: BurnInConfig, m: ConfigModel) -> bool {
    &&& c.duration_secs == m.duration_secs
    &&& c.frame_interval_ms == m.frame_interval_ms
    &&& c.log_interval_secs == m.log_interval_secs
    &&& opt_text(c.python_path) == m.python_path
    &&& opt_text(c.log_file) == m.log_file
}

/// A parse result agrees with a model.
pub open spec fn parse_result_is(r: Result<BurnInCommand, String>, m: ParseModel) -> bool {
    match m {
        ParseModel::Run(cm) => r matches Ok(BurnInCommand::Run(c)) && config_is(c, cm),
        ParseModel::Help => r matches Ok(BurnInCommand::Help),
        ParseModel::Fail(t) => r matches Err(e) && e@ == t,
    }
}

impl BurnInConfig {
    /// Parse the arguments that follow the program name.
    pub fn parse(args: &Vec<String>) -> (r: Result<BurnInCommand, String>)
        ensures
            parse_result_is(r, parse_from(arg_texts(args@), 0, default_model())),
    {
        let ghost a = arg_texts(args@);
        let mut cfg = BurnInConfig {
            duration_secs: DEFAULT_DURATION_SECS,
            frame_interval_ms: DEFAULT_FRAME_INTERVAL_MS,
            log_interval_secs: DEFAULT_LOG_INTERVAL_SECS,
            python_path: None,
            log_file: None,
        };
        let mut i: usize = 0;
        while i < args.len()
            invariant
                a == arg_texts(args@),
                i <= args@.len(),
                parse_from(a, 0, default_model()) == parse_from(a, i as int, ConfigModel {
                    duration_secs: cfg.duration_secs,
                    frame_interval_ms: cfg.frame_interval_ms,
                    log_interval_secs: cfg.log_interval_secs,
                    python_path: opt_text(cfg.python_path),
                    log_file: opt_text(cfg.log_file),
                }),
            decreases args@.len() - i,
        {
            let arg = args[i].as_str();
            assert(a[i as int] == arg@);
            let has_value = i + 1 < args.len();
            if has_value {
                assert(a[i + 1] == args@[i + 1]@);
            }
            if str_eq(arg, "--duration-secs") {
                if !has_value {
                    return Err(String::from_str("--duration-secs requires a value"));
                }
                match parse_u64_text(args[i + 1].as_str()) {
                    None => {
                        return Err(String::from_str("Failed to parse --duration-secs"));
                    },
                    Some(v) => {
                        if v == 0 {
                            return Err(String::from_str("--duration-secs must be greater than zero"));
                        }
                        cfg.duration_secs = v;
                    },
                }
                i = i + 2;
            } else if str_eq(arg, "--frame-interval-ms") {
                if !has_value {
                    return Err(String::from_str("--frame-interval-ms requires a value"));
                }
                match parse_u64_text(args[i + 1].as_str()) {
                    None => {
                        return Err(String::from_str("Failed to parse --frame-interval-ms"));
                    },
                    Some(v) => {
                        if v == 0 || 1000 % v != 0 {
                            return Err(String::from_str("--frame-interval-ms must be a divisor of 1000 (e.g. 10, 20, 25, 40)"));
                        }
                        cfg.frame_interval_ms = v;
                    },
                }
                i = i + 2;
            } else if str_eq(arg, "--log-interval-secs") {
                if !has_value {
                    return Err(String::from_str("--log-interval-secs requires a value"));
                }
                match parse_u64_text(args[i + 1].as_str()) {
                    None => {
                        return Err(String::from_str("Failed to parse --log-interval-secs"));
                    },
                    Some(v) => {
                        if v == 0 {
                            return Err(String::from_str("--log-interval-secs must be greater than zero"));
                        }
                        cfg.log_interval_secs = v;
                    },
                }
                i = i + 2;
            } else if str_eq(arg, "--python") {
                if !has_value {
                    return Err(String::from_str("--python requires a value"));
                }
                cfg.python_path = Some(args[i + 1].clone());
                i = i + 2;
            } else if str_eq(arg, "--log-file") {
                if !has_value {
                    return Err(String::from_str("--log-file requires a value"));
                }
                cfg.log_file = Some(args[i + 1].clone());
                i = i + 2;
            } else if str_eq(arg, "--help") || str_eq(arg, "-h") {
                return Ok(BurnInCommand::Help);
            } else {
                let mut m = String::from_str("Unknown argument: ");
                m.append(arg);
                return Err(m);
            }
        }
        Ok(BurnInCommand::Run(cfg))
    }
}

/// Frames per second, samples per frame and number of frames of a run.
pub fn frame_plan(cfg: &BurnInConfig) -> (r: (u64, u64, u64))
    requires
        1 <= cfg.frame_interval_ms <= 1000,
        cfg.duration_secs * 1000 <= u64::MAX,
    ensures
        r.0 == 1000int / (cfg.frame_interval_ms as int),
        r.1 == SAMPLE_RATE / r.0,
        r.2 == (cfg.duration_secs * 1000) / (cfg.frame_interval_ms as int),
{
    let fps = 1000 / cfg.frame_interval_ms;
    assert(fps >= 1) by (nonlinear_arith)
        requires
            fps == 1000u64 / cfg.frame_interval_ms,
            1 <= cfg.frame_interval_ms <= 1000,
    ;
    let samples_per_frame = SAMPLE_RATE / fps;
    let total = (cfg.duration_secs * 1000) / cfg.frame_interval_ms;
    (fps, samples_per_frame, total)
}

/// `[root]/logs/platform/[epoch_secs]-burnin.log`.
pub open spec fn default_log_path_text(root: Seq<char>, epoch_secs: nat) -> Seq<char> {
    joined_path(root, "logs/platform/"@ + decimal(epoch_secs) + "-burnin.log"@)
}

/// The default log file of a run started at `epoch_secs`.
pub fn default_log_path(workspace_root: &str, epoch_secs: u64) -> (p: String)
    ensures
        p@ == default_log_path_text(workspace_root@, epoch_secs as nat),
{
    let mut rel = String::from_str("logs/platform/");
    push_decimal(&mut rel, epoch_secs);
    rel.append("-burnin.log");
    join_path(workspace_root, rel.as_str())
}

/// The sidecar's entry point: `[root]/python-stt/main.py`.
pub fn python_main_path(workspace_root: &str) -> (p: String)
    ensures
        p@ == joined_path(workspace_root@, "python-stt/main.py"@),
{
    join_path(workspace_root, "python-stt/main.py")
}

/// Events seen during a run.
#[derive(Debug, Clone)]
pub struct EventStats {
    pub ready_observed: bool,
    pub partial_text: u64,
    pub final_text: u64,
    pub no_speech: u64,
    pub error_events: u64,
}

/// What an event adds to the tally: partial, final, no-speech and error
/// events are counted (stream events by their type), a ready event is
/// remembered, anything else leaves the tally alone.
pub open spec fn tally(s: EventStats, e: Event) -> EventStats {
    match e {
        Event::Stream { event_type, .. } => if event_type@ == "partial_text"@ {
            EventStats { partial_text: (s.partial_text + 1) as u64, ..s }
        } else if event_type@ == "final_text"@ {
            EventStats { final_text: (s.final_text + 1) as u64, ..s }
        } else if event_type@ == "no_speech"@ {
            EventStats { no_speech: (s.no_speech + 1) as u64, ..s }
        } else {
            s
        },
        Event::LegacyPartial { .. } => EventStats { partial_text: (s.partial_text + 1) as u64, ..s },
        Event::LegacyFinal { .. } => EventStats { final_text: (s.final_text + 1) as u64, ..s },
        Event::LegacyNoSpeech => EventStats { no_speech: (s.no_speech + 1) as u64, ..s },
        Event::Error { .. } => EventStats { error_events: (s.error_events + 1) as u64, ..s },
        Event::Ready => EventStats { ready_observed: true, ..s },
        Event::Unknown => s,
    }
}

impl EventStats {
    /// Nothing seen yet but the ready event that precedes the run.
    pub fn after_ready() -> (s: Self)
        ensures
            s.ready_observed,
            s.partial_text == 0 && s.final_text == 0 && s.no_speech == 0 && s.error_events == 0,
    {
        EventStats { ready_observed: true, partial_text: 0, final_text: 0, no_speech: 0, error_events: 0 }
    }

    /// Count an event.
    pub fn record(&mut self, event: &Event)
        requires
            old(self).partial_text < u64::MAX,
            old(self).final_text < u64::MAX,
            old(self).no_speech < u64::MAX,
            old(self).error_events < u64::MAX,
        ensures
            *final(self) == tally(*old(self), *event),
    {
        match event {
            Event::Stream { event_type, .. } => {
                if str_eq(event_type.as_str(), "partial_text") {
                    self.partial_text = self.partial_text + 1;
                } else if str_eq(event_type.as_str(), "final_text") {
                    self.final_text = self.final_text + 1;
                } else if str_eq(event_type.as_str(), "no_speech") {
                    self.no_speech = self.no_speech + 1;
                }
            },
            Event::LegacyPartial { .. } => {
                self.partial_text = self.partial_text + 1;
            },
            Event::LegacyFinal { .. } => {
                self.final_text = self.final_text + 1;
            },
            Event::LegacyNoSpeech => {
                self.no_speech = self.no_speech + 1;
            },
            Event::Error { .. } => {
                self.error_events = self.error_events + 1;
            },
            Event::Ready => {
                self.ready_observed = true;
            },
            Event::Unknown => {},
        }
    }
}

/// Whether the summary reports issues: the loop stopped on overflow, a
/// frame had to wait for room, or the sidecar reported an error.
pub fn burn_in_has_issues(stop_due_to_overflow: bool, try_send_full: u64, error_events: u64) -> (b: bool)
    ensures
        b == (stop_due_to_overflow || try_send_full > 0 || error_events > 0),
{
    stop_due_to_overflow || try_send_full > 0 || error_events > 0
}

} // verus!
