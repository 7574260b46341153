//! The controller command protocol: the commands both controllers recognize,
//! the typed request and response messages exchanged with the supervisor, and
//! the parser that turns one client line into a typed request. The sockets
//! themselves, and the session loops reading them, live with the surrounding
//! process.

use vstd::prelude::*;

use crate::codec;
use crate::config::SwanlingConfiguration;
use crate::logger::chars_match;
use crate::metrics::SwanlingMetrics;
use crate::util;
use crate::util::lower;

verus! {

/// The two wire protocols a controller client can speak.
#[derive(Clone, Copy, Debug, PartialEq, Eq, Structural)]
pub enum SwanlingControllerProtocol {
    /// A line-oriented TCP protocol.
    Telnet,
    /// A framed text-message protocol over an HTTP upgrade.
    WebSocket,
}

/// All commands recognized by the controllers. Commands are not case
/// sensitive.
#[derive(Clone, Copy, Debug, PartialEq, Eq, Structural)]
pub enum SwanlingControllerCommand {
    /// Configure the host to load test; the load test must be idle.
    Host,
    /// Configure how many users are launched; the load test must be idle.
    Users,
    /// Configure how quickly new users are launched; any phase.
    HatchRate,
    /// Configure how long the load test runs before stopping; any phase.
    RunTime,
    /// Display the current configuration.
    Config,
    /// Display the current configuration in json format.
    ConfigJson,
    /// Display the current metrics.
    Metrics,
    /// Display the current metrics in json format.
    MetricsJson,
    /// Display a list of all commands.
    Help,
    /// Disconnect from the controller.
    Exit,
    /// Start an idle load test.
    Start,
    /// Stop a starting or running load test, back to idle.
    Stop,
    /// Shut the load test down, disconnecting the controller.
    Shutdown,
}

/// A typed request a controller session sends to the supervisor.
#[derive(Debug, PartialEq, Eq)]
pub struct SwanlingControllerRequestMessage {
    /// The command that is being sent.
    pub command: SwanlingControllerCommand,
    /// The optional value that came with the command.
    pub value: Option<String>,
}

/// All replies the supervisor can send back to a controller session.
#[derive(Debug)]
pub enum SwanlingControllerResponseMessage {
    /// A response containing a boolean value.
    Bool(bool),
    /// A response containing the load test configuration.
    Config(Box<SwanlingConfiguration>),
    /// A response containing current load test metrics.
    Metrics(Box<SwanlingMetrics>),
}

/// The request passed from a controller session to the supervisor; the
/// surrounding process attaches the single-use reply channel.
#[derive(Debug)]
pub struct SwanlingControllerRequest {
    /// An integer identifying which controller client makes the request.
    pub client_id: u32,
    /// The actual request message.
    pub request: SwanlingControllerRequestMessage,
}

/// The response passed from the supervisor to a controller session.
#[derive(Debug)]
pub struct SwanlingControllerResponse {
    /// An integer identifying which controller client is responded to.
    pub client_id: u32,
    /// The actual response message.
    pub response: SwanlingControllerResponseMessage,
}

/// The required json format of any request sent to the WebSocket controller:
/// one object whose `request` field holds the command text.
#[derive(Debug, PartialEq, Eq)]
pub struct SwanlingControllerWebSocketRequest {
    /// A valid command string.
    pub request: String,
}

/// The json format of any response returned from the WebSocket controller.
#[derive(Debug, PartialEq, Eq)]
pub struct SwanlingControllerWebSocketResponse {
    /// The response from the controller.
    pub response: String,
    /// Whether the request was successful or not.
    pub success: bool,
}

/// The position of the first space, or the length if there is none.
pub open spec fn first_space(s: Seq<char>, i: int) -> int
    decreases s.len() - i,
{
    if i < 0 || i >= s.len() {
        i
    } else if s[i] == ' ' {
        i
    } else {
        first_space(s, i + 1)
    }
}

/// Whether a value is a decimal number: digits, optionally followed by a dot
/// and more digits.
pub open spec fn is_decimal(v: Seq<char>) -> bool {
    let e = util::digit_run_end(v, 0);
    &&& e >= 1
    &&& (e == v.len() || (v[e] == '.' && util::digit_run_end(v, e + 1) == v.len()))
}

/// Whether a value is a duration: plain seconds, or hour, minute and second
/// components in that order, at least one of them.
pub open spec fn is_timespan(v: Seq<char>) -> bool {
    timespan_seconds(v) is Some
}

/// The seconds a duration string stands for: `[0-9]+` is seconds, and
/// `XhYmZs` components add up, each optional but in order.
pub open spec fn timespan_seconds(v: Seq<char>) -> Option<nat> {
    let e0 = util::digit_run_end(v, 0);
    if v.len() >= 1 && e0 == v.len() {
        Some(util::digits_value(v))
    } else {
        let hours: nat = if e0 > 0 && e0 < v.len() && v[e0] == 'h' {
            util::digits_value(v.take(e0))
        } else {
            0
        };
        let p1: int = if e0 > 0 && e0 < v.len() && v[e0] == 'h' {
            e0 + 1
        } else {
            0
        };
        let e1 = util::digit_run_end(v, p1);
        let minutes: nat = if e1 > p1 && e1 < v.len() && v[e1] == 'm' {
            util::digits_value(v.subrange(p1, e1))
        } else {
            0
        };
        let p2: int = if e1 > p1 && e1 < v.len() && v[e1] == 'm' {
            e1 + 1
        } else {
            p1
        };
        let e2 = util::digit_run_end(v, p2);
        let seconds: nat = if e2 > p2 && e2 + 1 == v.len() && v[e2] == 's' {
            util::digits_value(v.subrange(p2, e2))
        } else {
            0
        };
        let p3: int = if e2 > p2 && e2 + 1 == v.len() && v[e2] == 's' {
            e2 + 1
        } else {
            p2
        };
        if p3 == v.len() && p3 > 0 {
            Some(hours * 3600 + minutes * 60 + seconds)
        } else {
            None
        }
    }
}

/// The rate a hatch-rate string stands for, in thousandths of users per
/// second: the integer part, plus up to three fraction digits; a rate of
/// zero is no rate.
pub open spec fn spec_milli_rate(v: Seq<char>) -> Option<nat> {
    if is_decimal(v) {
        let e = util::digit_run_end(v, 0);
        let int_part = util::digits_value(v.take(e));
        let frac = if e < v.len() {
            v.subrange(e + 1, v.len() as int)
        } else {
            Seq::<char>::empty()
        };
        let f3 = frac.take(
            if frac.len() < 3 {
                frac.len() as int
            } else {
                3
            },
        );
        let scale: nat = if f3.len() == 0 {
            1000
        } else if f3.len() == 1 {
            100
        } else if f3.len() == 2 {
            10
        } else {
            1
        };
        let m = int_part * 1000 + util::digits_value(f3) * scale;
        if m >= 1 {
            Some(m)
        } else {
            None
        }
    } else {
        None
    }
}

/// Evaluates a duration string: plain digits are seconds, and hour, minute
/// and second components add up. An unrecognized string is zero seconds, and
/// a duration beyond the machine's range saturates.
pub fn parse_timespan(v: &Vec<char>) -> (r: usize)
    ensures
        match timespan_seconds(v@) {
            Some(n) => if n <= usize::MAX {
                r == n
            } else {
                r == usize::MAX
            },
            None => r == 0,
        },
{
    proof {
        util::lemma_digit_run_end(v@, 0);
    }
    let e0 = util::find_digit_run_end(v, 0);
    if v.len() >= 1 && e0 == v.len() {
        proof {
            assert(util::all_digits(v@.subrange(0, e0 as int))) by {
                assert forall|j: int|
                    0 <= j < e0 implies util::is_digit(#[trigger] v@.subrange(0, e0 as int)[j]) by {
                    assert(v@.subrange(0, e0 as int)[j] == v@[j]);
                }
            }
        }
        let whole = match util::parse_u64_digits(v, 0, e0) {
            Some(x) => x,
            None => {
                proof {
                    assert(v@.subrange(0, v@.len() as int) =~= v@);
                }
                return usize::MAX;
            },
        };
        proof {
            assert(v@.subrange(0, v@.len() as int) =~= v@);
        }
        if whole <= usize::MAX as u64 {
            return whole as usize;
        }
        return usize::MAX;
    }
    let p1: usize = if e0 > 0 && e0 < v.len() && v[e0] == 'h' {
        e0 + 1
    } else {
        0
    };
    proof {
        util::lemma_digit_run_end(v@, p1 as int);
    }
    let e1 = util::find_digit_run_end(v, p1);
    let p2: usize = if e1 > p1 && e1 < v.len() && v[e1] == 'm' {
        e1 + 1
    } else {
        p1
    };
    proof {
        util::lemma_digit_run_end(v@, p2 as int);
    }
    let e2 = util::find_digit_run_end(v, p2);
    let p3: usize = if e2 > p2 && e2 < v.len() && e2 + 1 == v.len() && v[e2] == 's' {
        e2 + 1
    } else {
        p2
    };
    if !(p3 == v.len() && p3 > 0) {
        return 0;
    }
    // Parse each present component.
    let mut saturated = false;
    let mut hours: u64 = 0;
    if e0 > 0 && e0 < v.len() && v[e0] == 'h' {
        proof {
            assert(util::all_digits(v@.subrange(0, e0 as int))) by {
                assert forall|j: int|
                    0 <= j < e0 implies util::is_digit(#[trigger] v@.subrange(0, e0 as int)[j]) by {
                    assert(v@.subrange(0, e0 as int)[j] == v@[j]);
                }
            }
            assert(v@.take(e0 as int) =~= v@.subrange(0, e0 as int));
        }
        match util::parse_u64_digits(v, 0, e0) {
            Some(x) => {
                hours = x;
            },
            None => {
                saturated = true;
            },
        }
    }
    let mut minutes: u64 = 0;
    if e1 > p1 && e1 < v.len() && v[e1] == 'm' {
        proof {
            assert(util::all_digits(v@.subrange(p1 as int, e1 as int))) by {
                assert forall|j: int|
                    0 <= j < e1 - p1 implies util::is_digit(
                    #[trigger] v@.subrange(p1 as int, e1 as int)[j],
                ) by {
                    assert(v@.subrange(p1 as int, e1 as int)[j] == v@[p1 + j]);
                }
            }
        }
        match util::parse_u64_digits(v, p1, e1) {
            Some(x) => {
                minutes = x;
            },
            None => {
                saturated = true;
            },
        }
    }
    let mut seconds: u64 = 0;
    if e2 > p2 && e2 < v.len() && e2 + 1 == v.len() && v[e2] == 's' {
        proof {
            assert(util::all_digits(v@.subrange(p2 as int, e2 as int))) by {
                assert forall|j: int|
                    0 <= j < e2 - p2 implies util::is_digit(
                    #[trigger] v@.subrange(p2 as int, e2 as int)[j],
                ) by {
                    assert(v@.subrange(p2 as int, e2 as int)[j] == v@[p2 + j]);
                }
            }
        }
        match util::parse_u64_digits(v, p2, e2) {
            Some(x) => {
                seconds = x;
            },
            None => {
                saturated = true;
            },
        }
    }
    if saturated {
        return usize::MAX;
    }
    let total: u128 = hours as u128 * 3600 + minutes as u128 * 60 + seconds as u128;
    proof {
        assert(hours as u128 * 3600 + minutes as u128 * 60 + seconds as u128 <= u128::MAX)
            by (nonlinear_arith)
            requires
                hours <= u64::MAX,
                minutes <= u64::MAX,
                seconds <= u64::MAX,
        {
        }
    }
    if total <= usize::MAX as u128 {
        total as usize
    } else {
        usize::MAX
    }
}

/// Evaluates a hatch-rate string into thousandths of users per second, or
/// nothing when the string is not a positive decimal or is out of range.
pub fn parse_hatch_rate(v: &Vec<char>) -> (r: Option<u64>)
    ensures
        match r {
            Some(x) => spec_milli_rate(v@) == Some(x as nat),
            None => spec_milli_rate(v@) is None || (spec_milli_rate(v@) matches Some(n) && n
                > u64::MAX),
        },
{
    proof {
        util::lemma_digit_run_end(v@, 0);
    }
    if !check_decimal(v) {
        return None;
    }
    let e = util::find_digit_run_end(v, 0);
    proof {
        assert(util::all_digits(v@.subrange(0, e as int))) by {
            assert forall|j: int|
                0 <= j < e implies util::is_digit(#[trigger] v@.subrange(0, e as int)[j]) by {
                assert(v@.subrange(0, e as int)[j] == v@[j]);
            }
        }
        assert(v@.take(e as int) =~= v@.subrange(0, e as int));
    }
    let int_part = match util::parse_u64_digits(v, 0, e) {
        Some(x) => x,
        None => {
            proof {
                assert(util::digits_value(v@.take(e as int)) * 1000 >= util::digits_value(
                    v@.take(e as int),
                )) by (nonlinear_arith);
            }
            return None;
        },
    };
    // Up to three fraction digits, scaled to thousandths.
    let frac_start: usize = if e < v.len() {
        e + 1
    } else {
        v.len()
    };
    let frac_len_all = v.len() - frac_start;
    let f3_len: usize = if frac_len_all < 3 {
        frac_len_all
    } else {
        3
    };
    proof {
        let frac = if (e as int) < v@.len() {
            v@.subrange(e + 1, v@.len() as int)
        } else {
            Seq::<char>::empty()
        };
        assert(frac =~= v@.subrange(frac_start as int, v@.len() as int));
        assert(frac.take(f3_len as int) =~= v@.subrange(
            frac_start as int,
            frac_start + f3_len,
        ));
        if e < v@.len() {
            assert(util::all_digits(v@.subrange(frac_start as int, frac_start + f3_len))) by {
                util::lemma_digit_run_end(v@, e + 1);
                assert forall|j: int|
                    0 <= j < f3_len implies util::is_digit(
                    #[trigger] v@.subrange(frac_start as int, frac_start + f3_len)[j],
                ) by {
                    assert(v@.subrange(frac_start as int, frac_start + f3_len)[j] == v@[frac_start
                        + j]);
                }
            }
        } else {
            assert(v@.subrange(frac_start as int, frac_start + f3_len) =~= Seq::<char>::empty());
        }
    }
    let f3 = match util::parse_u64_digits(v, frac_start, frac_start + f3_len) {
        Some(x) => x,
        None => {
            proof {
                assert(false) by {
                    lemma_small_digits_fit(
                        v@.subrange(frac_start as int, frac_start + f3_len as int),
                    );
                }
            }
            return None;
        },
    };
    let scale: u64 = if f3_len == 0 {
        1000
    } else if f3_len == 1 {
        100
    } else if f3_len == 2 {
        10
    } else {
        1
    };
    let m: u128 = int_part as u128 * 1000 + f3 as u128 * scale as u128;
    proof {
        assert(int_part as u128 * 1000 + f3 as u128 * scale as u128 <= u128::MAX)
            by (nonlinear_arith)
            requires
                int_part <= u64::MAX,
                f3 <= u64::MAX,
                scale <= 1000,
        {
        }
    }
    if m >= 1 && m <= u64::MAX as u128 {
        Some(m as u64)
    } else {
        None
    }
}

/// At most three digits always fit.
proof fn lemma_small_digits_fit(s: Seq<char>)
    requires
        s.len() <= 3,
        util::all_digits(s),
    ensures
        util::digits_value(s) <= (if s.len() == 0 {
            0int
        } else if s.len() == 1 {
            9int
        } else if s.len() == 2 {
            99int
        } else {
            999int
        }),
    decreases s.len(),
{
    if s.len() > 0 {
        assert(util::all_digits(s.drop_last())) by {
            assert(forall|j: int|
                0 <= j < s.len() - 1 ==> #[trigger] s.drop_last()[j] == s[j]);
        }
        lemma_small_digits_fit(s.drop_last());
        assert(util::is_digit(s.last()));
        assert(util::char_digit(s.last()) <= 9);
    }
}

/// Whether a host value carries an http or https scheme and a non-empty
/// remainder, as the command grammar requires before the URL itself is
/// checked.
pub open spec fn has_http_scheme(v: Seq<char>) -> bool {
    let low = lower(v);
    ||| (low.len() > 7 && low.take(7) == "http://"@)
    ||| (low.len() > 8 && low.take(8) == "https://"@)
}

/// What one client line means: the typed command and its captured value, or
/// nothing for an unrecognized line. Command words are matched in lower
/// case; a host value must carry an http or https scheme and parse as a URL.
pub open spec fn spec_get_match(s: Seq<char>) -> Option<(SwanlingControllerCommand, Option<
    Seq<char>,
>)> {
    let low = lower(s);
    if low == "help"@ || low == "?"@ {
        Some((SwanlingControllerCommand::Help, None))
    } else if low == "exit"@ || low == "quit"@ {
        Some((SwanlingControllerCommand::Exit, None))
    } else if low == "start"@ {
        Some((SwanlingControllerCommand::Start, None))
    } else if low == "stop"@ {
        Some((SwanlingControllerCommand::Stop, None))
    } else if low == "shutdown"@ {
        Some((SwanlingControllerCommand::Shutdown, None))
    } else if low == "config"@ {
        Some((SwanlingControllerCommand::Config, None))
    } else if low == "configjson"@ || low == "config-json"@ {
        Some((SwanlingControllerCommand::ConfigJson, None))
    } else if low == "metrics"@ || low == "stats"@ {
        Some((SwanlingControllerCommand::Metrics, None))
    } else if low == "metricsjson"@ || low == "metrics-json"@ || low == "statsjson"@ || low
        == "stats-json"@ {
        Some((SwanlingControllerCommand::MetricsJson, None))
    } else {
        let sp = first_space(s, 0);
        if 0 < sp < s.len() {
            let word = lower(s.take(sp));
            let value = s.subrange(sp + 1, s.len() as int);
            if word == "host"@ || word == "hostname"@ || word == "host_name"@ || word
                == "host-name"@ {
                if has_http_scheme(value) && util::url_accepts(value) {
                    Some((SwanlingControllerCommand::Host, Some(value)))
                } else {
                    None
                }
            } else if word == "users"@ || word == "user"@ {
                if value.len() >= 1 && util::all_digits(value) {
                    Some((SwanlingControllerCommand::Users, Some(value)))
                } else {
                    None
                }
            } else if word == "hatchrate"@ || word == "hatch_rate"@ || word == "hatch-rate"@ {
                if is_decimal(value) {
                    Some((SwanlingControllerCommand::HatchRate, Some(value)))
                } else {
                    None
                }
            } else if word == "run"@ || word == "runtime"@ || word == "run_time"@ || word
                == "run-time"@ {
                if is_timespan(value) {
                    Some((SwanlingControllerCommand::RunTime, Some(value)))
                } else {
                    None
                }
            } else {
                None
            }
        } else {
            None
        }
    }
}

/// Finds the first space of a command line.
fn find_first_space(s: &Vec<char>) -> (r: usize)
    ensures
        r == first_space(s@, 0),
        r <= s@.len(),
{
    let mut i: usize = 0;
    while i < s.len()
        invariant
            i <= s@.len(),
            first_space(s@, 0) == first_space(s@, i as int),
        decreases s@.len() - i,
    {
        if s[i] == ' ' {
            return i;
        }
        i = i + 1;
    }
    i
}

/// Tests whether a value is a decimal number.
fn check_decimal(v: &Vec<char>) -> (r: bool)
    ensures
        r == is_decimal(v@),
{
    let e = util::find_digit_run_end(v, 0);
    if e < 1 {
        return false;
    }
    if e == v.len() {
        return true;
    }
    if v[e] == '.' {
        let e2 = util::find_digit_run_end(v, e + 1);
        e2 == v.len()
    } else {
        false
    }
}

/// Tests whether a value is a duration, per the duration grammar.
fn check_timespan(v: &Vec<char>) -> (r: bool)
    ensures
        r == is_timespan(v@),
{
    let e0 = util::find_digit_run_end(v, 0);
    if v.len() >= 1 && e0 == v.len() {
        return true;
    }
    let p1: usize = if e0 > 0 && e0 < v.len() && v[e0] == 'h' {
        e0 + 1
    } else {
        0
    };
    let e1 = util::find_digit_run_end(v, p1);
    let p2: usize = if e1 > p1 && e1 < v.len() && v[e1] == 'm' {
        e1 + 1
    } else {
        p1
    };
    let e2 = util::find_digit_run_end(v, p2);
    let p3: usize = if e2 > p2 && e2 < v.len() && e2 + 1 == v.len() && v[e2] == 's' {
        e2 + 1
    } else {
        p2
    };
    p3 == v.len() && p3 > 0
}

/// Tests whether a host value starts with an http or https scheme.
fn check_http_scheme(v: &Vec<char>) -> (r: bool)
    ensures
        r == has_http_scheme(v@),
{
    proof {
        reveal_strlit("http://");
        reveal_strlit("https://");
        assert("http://"@.len() == 7 && "https://"@.len() == 8);
    }
    let low = util::to_lower(v);
    if low.len() > 7 && low[0] == 'h' && low[1] == 't' && low[2] == 't' && low[3] == 'p' && low[4]
        == ':' && low[5] == '/' && low[6] == '/' {
        proof {
            assert(lower(v@).take(7) =~= "http://"@);
        }
        return true;
    }
    if low.len() > 8 && low[0] == 'h' && low[1] == 't' && low[2] == 't' && low[3] == 'p' && low[4]
        == 's' && low[5] == ':' && low[6] == '/' && low[7] == '/' {
        proof {
            assert(lower(v@).take(8) =~= "https://"@);
        }
        return true;
    }
    proof {
        if lower(v@).len() > 7 && lower(v@).take(7) == "http://"@ {
            assert(lower(v@)[0] == "http://"@[0]);
            assert(lower(v@)[1] == "http://"@[1]);
            assert(lower(v@)[2] == "http://"@[2]);
            assert(lower(v@)[3] == "http://"@[3]);
            assert(lower(v@)[4] == "http://"@[4]);
            assert(lower(v@)[5] == "http://"@[5]);
            assert(lower(v@)[6] == "http://"@[6]);
        }
        if lower(v@).len() > 8 && lower(v@).take(8) == "https://"@ {
            assert(lower(v@)[0] == "https://"@[0]);
            assert(lower(v@)[1] == "https://"@[1]);
            assert(lower(v@)[2] == "https://"@[2]);
            assert(lower(v@)[3] == "https://"@[3]);
            assert(lower(v@)[4] == "https://"@[4]);
            assert(lower(v@)[5] == "https://"@[5]);
            assert(lower(v@)[6] == "https://"@[6]);
            assert(lower(v@)[7] == "https://"@[7]);
        }
    }
    false
}

/// Identifies the command a client line carries, capturing its value where
/// the command takes one. An unrecognized line is an error; the session
/// answers it without disconnecting.
pub fn get_match(command_string: &str) -> (r: Result<SwanlingControllerRequestMessage, ()>)
    ensures
        match r {
            Ok(m) => spec_get_match(command_string@) matches Some(p) && p.0 == m.command && (match (
                m.value,
                p.1,
            ) {
                (Some(v), Some(sv)) => v@ == sv,
                (None, None) => true,
                _ => false,
            }),
            Err(_) => spec_get_match(command_string@) is None,
        },
{
    let chars = util::str_to_chars(command_string);
    let low = util::to_lower(&chars);
    if chars_match(&low, "help") || chars_match(&low, "?") {
        return Ok(
            SwanlingControllerRequestMessage { command: SwanlingControllerCommand::Help, value: None },
        );
    }
    if chars_match(&low, "exit") || chars_match(&low, "quit") {
        return Ok(
            SwanlingControllerRequestMessage { command: SwanlingControllerCommand::Exit, value: None },
        );
    }
    if chars_match(&low, "start") {
        return Ok(
            SwanlingControllerRequestMessage {
                command: SwanlingControllerCommand::Start,
                value: None,
            },
        );
    }
    if chars_match(&low, "stop") {
        return Ok(
            SwanlingControllerRequestMessage { command: SwanlingControllerCommand::Stop, value: None },
        );
    }
    if chars_match(&low, "shutdown") {
        return Ok(
            SwanlingControllerRequestMessage {
                command: SwanlingControllerCommand::Shutdown,
                value: None,
            },
        );
    }
    if chars_match(&low, "config") {
        return Ok(
            SwanlingControllerRequestMessage {
                command: SwanlingControllerCommand::Config,
                value: None,
            },
        );
    }
    if chars_match(&low, "configjson") || chars_match(&low, "config-json") {
        return Ok(
            SwanlingControllerRequestMessage {
                command: SwanlingControllerCommand::ConfigJson,
                value: None,
            },
        );
    }
    if chars_match(&low, "metrics") || chars_match(&low, "stats") {
        return Ok(
            SwanlingControllerRequestMessage {
                command: SwanlingControllerCommand::Metrics,
                value: None,
            },
        );
    }
    if chars_match(&low, "metricsjson") || chars_match(&low, "metrics-json") || chars_match(
        &low,
        "statsjson",
    ) || chars_match(&low, "stats-json") {
        return Ok(
            SwanlingControllerRequestMessage {
                command: SwanlingControllerCommand::MetricsJson,
                value: None,
            },
        );
    }
    let sp = find_first_space(&chars);
    if !(0 < sp && sp < chars.len()) {
        return Err(());
    }
    let mut word: Vec<char> = Vec::new();
    let mut i: usize = 0;
    while i < sp
        invariant
            i <= sp <= chars@.len(),
            word@ == lower(chars@.take(sp as int)).take(i as int),
            low@ == lower(chars@),
        decreases sp - i,
    {
        let c = low[i];
        proof {
            assert(lower(chars@.take(sp as int))[i as int] == lower(chars@)[i as int]);
        }
        word.push(c);
        i = i + 1;
        proof {
            assert(word@ =~= lower(chars@.take(sp as int)).take(i as int));
        }
    }
    proof {
        assert(word@ =~= lower(chars@.take(sp as int)));
    }
    let mut value: Vec<char> = Vec::new();
    let mut i: usize = sp + 1;
    while i < chars.len()
        invariant
            sp + 1 <= i <= chars@.len(),
            value@ == chars@.subrange(sp + 1, i as int),
        decreases chars@.len() - i,
    {
        value.push(chars[i]);
        i = i + 1;
        proof {
            assert(value@ =~= chars@.subrange(sp + 1, i as int));
        }
    }
    proof {
        assert(value@ =~= chars@.subrange(sp + 1, chars@.len() as int));
    }
    if chars_match(&word, "host") || chars_match(&word, "hostname") || chars_match(
        &word,
        "host_name",
    ) || chars_match(&word, "host-name") {
        if check_http_scheme(&value) {
            let host = util::chars_to_string(&value);
            if util::url_parses(host.as_str()) {
                return Ok(
                    SwanlingControllerRequestMessage {
                        command: SwanlingControllerCommand::Host,
                        value: Some(host),
                    },
                );
            }
        }
        return Err(());
    }
    if chars_match(&word, "users") || chars_match(&word, "user") {
        let e = util::find_digit_run_end(&value, 0);
        if value.len() >= 1 && e == value.len() {
            proof {
                util::lemma_digit_run_end(value@, 0);
            }
            return Ok(
                SwanlingControllerRequestMessage {
                    command: SwanlingControllerCommand::Users,
                    value: Some(util::chars_to_string(&value)),
                },
            );
        }
        proof {
            util::lemma_digit_run_end(value@, 0);
            if value@.len() >= 1 && util::all_digits(value@) {
                assert(util::digit_run_end(value@, 0) == value@.len()) by {
                    lemma_all_digits_run(value@);
                }
            }
        }
        return Err(());
    }
    if chars_match(&word, "hatchrate") || chars_match(&word, "hatch_rate") || chars_match(
        &word,
        "hatch-rate",
    ) {
        if check_decimal(&value) {
            return Ok(
                SwanlingControllerRequestMessage {
                    command: SwanlingControllerCommand::HatchRate,
                    value: Some(util::chars_to_string(&value)),
                },
            );
        }
        return Err(());
    }
    if chars_match(&word, "run") || chars_match(&word, "runtime") || chars_match(
        &word,
        "run_time",
    ) || chars_match(&word, "run-time") {
        if check_timespan(&value) {
            return Ok(
                SwanlingControllerRequestMessage {
                    command: SwanlingControllerCommand::RunTime,
                    value: Some(util::chars_to_string(&value)),
                },
            );
        }
        return Err(());
    }
    Err(())
}

/// On a sequence of digits, the digit run covers the whole sequence.
pub proof fn lemma_all_digits_run(v: Seq<char>)
    requires
        util::all_digits(v),
    ensures
        util::digit_run_end(v, 0) == v.len(),
{
    lemma_all_digits_run_from(v, 0);
}

/// Helper for the induction over the run.
proof fn lemma_all_digits_run_from(v: Seq<char>, i: int)
    requires
        util::all_digits(v),
        0 <= i <= v.len(),
    ensures
        util::digit_run_end(v, i) == v.len(),
    decreases v.len() - i,
{
    if i < v.len() {
        lemma_all_digits_run_from(v, i + 1);
    }
}

/// Answers the commands a session handles locally, without the supervisor:
/// the help screen and the goodbye of `exit`.
pub fn process_local_command(request_message: &SwanlingControllerRequestMessage) -> (r: Option<
    String,
>)
    ensures
        match request_message.command {
            SwanlingControllerCommand::Help => r matches Some(m) && m@ == spec_help_text(),
            SwanlingControllerCommand::Exit => r matches Some(m) && m@ == "goodbye!"@,
            _ => r is None,
        },
{
    match request_message.command {
        SwanlingControllerCommand::Help => Some(display_help()),
        SwanlingControllerCommand::Exit => Some("goodbye!".to_owned()),
        _ => None,
    }
}

/// The controller help screen's text.
pub open spec fn spec_help_text() -> Seq<char> {
    "controller commands:\n help (?)           this help\n exit (quit)        exit controller\n start              start an idle load test\n stop               stop a running load test and return to idle state\n shutdown           shutdown running load test (and exit controller)\n host HOST          set host to load test, ie http://localhost/\n users INT          set number of simulated users\n hatchrate FLOAT    set per-second rate users hatch\n runtime TIME       set how long to run test, ie 1h30m5s\n config             display load test configuration\n config-json        display load test configuration in json format\n metrics            display metrics for current load test\n metrics-json       display metrics for current load test in json format"@
}

/// The controller help screen.
pub fn display_help() -> (r: String)
    ensures
        r@ == spec_help_text(),
{
    "controller commands:\n help (?)           this help\n exit (quit)        exit controller\n start              start an idle load test\n stop               stop a running load test and return to idle state\n shutdown           shutdown running load test (and exit controller)\n host HOST          set host to load test, ie http://localhost/\n users INT          set number of simulated users\n hatchrate FLOAT    set per-second rate users hatch\n runtime TIME       set how long to run test, ie 1h30m5s\n config             display load test configuration\n config-json        display load test configuration in json format\n metrics            display metrics for current load test\n metrics-json       display metrics for current load test in json format".to_owned()
}

/// Renders the supervisor's reply to a command as the text sent back to the
/// client: a fixed confirmation or refusal for the state-changing commands,
/// and an encoded snapshot for the inspection commands.
pub fn process_response(
    command: SwanlingControllerCommand,
    response: SwanlingControllerResponseMessage,
) -> (r: Result<String, String>)
    ensures
        match command {
            SwanlingControllerCommand::Host => (r matches Ok(m) && m@ == "host configured"@ && (
            response matches SwanlingControllerResponseMessage::Bool(true))) || (r matches Err(_) && !(
            response matches SwanlingControllerResponseMessage::Bool(true))),
            SwanlingControllerCommand::Users => (r matches Ok(m) && m@ == "users configured"@ && (
            response matches SwanlingControllerResponseMessage::Bool(true))) || (r matches Err(_) && !(
            response matches SwanlingControllerResponseMessage::Bool(true))),
            SwanlingControllerCommand::HatchRate => (r matches Ok(m) && m@ == "hatch_rate configured"@
                && (response matches SwanlingControllerResponseMessage::Bool(true))) || (
            r matches Err(_) && !(response matches SwanlingControllerResponseMessage::Bool(true))),
            SwanlingControllerCommand::RunTime => (r matches Ok(m) && m@ == "run_time configured"@
                && (response matches SwanlingControllerResponseMessage::Bool(true))) || (
            r matches Err(_) && !(response matches SwanlingControllerResponseMessage::Bool(true))),
            SwanlingControllerCommand::Start => (r matches Ok(m) && m@ == "load test started"@ && (
            response matches SwanlingControllerResponseMessage::Bool(true))) || (r matches Err(_) && !(
            response matches SwanlingControllerResponseMessage::Bool(true))),
            SwanlingControllerCommand::Stop => (r matches Ok(m) && m@ == "load test stopped"@ && (
            response matches SwanlingControllerResponseMessage::Bool(true))) || (r matches Err(_) && !(
            response matches SwanlingControllerResponseMessage::Bool(true))),
            SwanlingControllerCommand::Shutdown => (r matches Ok(m) && m@ == "load test shut down"@
                && (response matches SwanlingControllerResponseMessage::Bool(true))) || (
            r matches Err(_) && !(response matches SwanlingControllerResponseMessage::Bool(true))),
            SwanlingControllerCommand::Config | SwanlingControllerCommand::ConfigJson => (
            r matches Ok(m) && (response matches SwanlingControllerResponseMessage::Config(c) && m@
                == codec::enc_object(codec::spec_config_fields(*c)))) || (r matches Err(_) && !(
            response matches SwanlingControllerResponseMessage::Config(_))),
            SwanlingControllerCommand::Metrics | SwanlingControllerCommand::MetricsJson => (
            r matches Ok(m) && (response matches SwanlingControllerResponseMessage::Metrics(mm) && m@
                == codec::enc_object(crate::lifecycle::spec_metrics_summary_fields(*mm)))) || (
            r matches Err(_) && !(response matches SwanlingControllerResponseMessage::Metrics(_))),
            SwanlingControllerCommand::Help | SwanlingControllerCommand::Exit => r is Err,
        },
{
    match command {
        SwanlingControllerCommand::Host => match response {
            SwanlingControllerResponseMessage::Bool(true) => Ok("host configured".to_owned()),
            _ => Err(
                "failed to reconfigure host, be sure host is valid and load test is idle".to_owned(),
            ),
        },
        SwanlingControllerCommand::Users => match response {
            SwanlingControllerResponseMessage::Bool(true) => Ok("users configured".to_owned()),
            _ => Err("load test not idle, failed to reconfigure users".to_owned()),
        },
        SwanlingControllerCommand::HatchRate => match response {
            SwanlingControllerResponseMessage::Bool(true) => Ok("hatch_rate configured".to_owned()),
            _ => Err("failed to configure hatch_rate".to_owned()),
        },
        SwanlingControllerCommand::RunTime => match response {
            SwanlingControllerResponseMessage::Bool(true) => Ok("run_time configured".to_owned()),
            _ => Err("failed to configure run_time".to_owned()),
        },
        SwanlingControllerCommand::Config | SwanlingControllerCommand::ConfigJson => match response {
            SwanlingControllerResponseMessage::Config(config) => {
                let chars = codec::encode_config(&config);
                Ok(util::chars_to_string(&chars))
            },
            _ => Err("error loading configuration".to_owned()),
        },
        SwanlingControllerCommand::Metrics | SwanlingControllerCommand::MetricsJson => match response {
            SwanlingControllerResponseMessage::Metrics(metrics) => {
                let chars = crate::lifecycle::encode_metrics_summary(&metrics);
                Ok(util::chars_to_string(&chars))
            },
            _ => Err("error loading metrics".to_owned()),
        },
        SwanlingControllerCommand::Start => match response {
            SwanlingControllerResponseMessage::Bool(true) => Ok("load test started".to_owned()),
            _ => Err(
                "unable to start load test, be sure it is idle and host is configured".to_owned(),
            ),
        },
        SwanlingControllerCommand::Stop => match response {
            SwanlingControllerResponseMessage::Bool(true) => Ok("load test stopped".to_owned()),
            _ => Err("load test not running, failed to stop".to_owned()),
        },
        SwanlingControllerCommand::Shutdown => match response {
            SwanlingControllerResponseMessage::Bool(true) => Ok("load test shut down".to_owned()),
            _ => Err("failed to shut down load test".to_owned()),
        },
        SwanlingControllerCommand::Help | SwanlingControllerCommand::Exit => Err(
            "received an impossible HELP or EXIT command".to_owned(),
        ),
    }
}

/// Encodes a WebSocket controller reply as its json envelope.
pub fn encode_websocket_response(response: &SwanlingControllerWebSocketResponse) -> (r: Vec<char>)
    ensures
        r@ == codec::enc_object(
            seq![
                ("response"@, codec::JsonScalarView::Text(response.response@)),
                ("success"@, codec::JsonScalarView::Bool(response.success)),
            ],
        ),
{
    let mut fields: Vec<(Vec<char>, codec::JsonScalar)> = Vec::new();
    fields.push(
        (
            util::str_to_chars("response"),
            codec::JsonScalar::Text(util::str_to_chars(response.response.as_str())),
        ),
    );
    fields.push((util::str_to_chars("success"), codec::JsonScalar::Bool(response.success)));
    let out = codec::encode_object(&fields);
    proof {
        assert(codec::fields_view(fields@) =~= seq![
            ("response"@, codec::JsonScalarView::Text(response.response@)),
            ("success"@, codec::JsonScalarView::Bool(response.success)),
        ]);
    }
    out
}

/// Decodes a WebSocket controller request envelope: one json object whose
/// `request` field holds the command text.
pub fn decode_websocket_request(s: &Vec<char>) -> (r: Option<SwanlingControllerWebSocketRequest>)
    ensures
        match r {
            Some(q) => codec::spec_decode_object(s@) matches Some(fs) && fs.len() == 1 && fs[0].0
                == "request"@ && fs[0].1 == codec::JsonScalarView::Text(q.request@),
            None => !(codec::spec_decode_object(s@) matches Some(fs) && fs.len() == 1 && fs[0].0
                == "request"@ && fs[0].1 is Text),
        },
{
    let fs = match codec::decode_object(s) {
        Some(fs) => fs,
        None => {
            return None;
        },
    };
    if fs.len() != 1 {
        return None;
    }
    if !chars_match(&fs[0].0, "request") {
        proof {
            assert(codec::fields_view(fs@)[0].0 == fs@[0].0@);
        }
        return None;
    }
    match &fs[0].1 {
        codec::JsonScalar::Text(v) => {
            let q = SwanlingControllerWebSocketRequest { request: util::chars_to_string(v) };
            proof {
                assert(codec::fields_view(fs@)[0] == (fs@[0].0@, fs@[0].1@));
            }
            Some(q)
        },
        _ => {
            proof {
                assert(codec::fields_view(fs@)[0] == (fs@[0].0@, fs@[0].1@));
            }
            None
        },
    }
}

} // verus!
