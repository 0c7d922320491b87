//! The command lines of the programs.

use crate::numeral::{
    decimal, decimal_reads_back, i32_value, parse_i32, parse_u32, parse_unsigned, signed_decimal,
    signed_decimal_reads_back, unsigned_value,
};
use crate::session::{default_config, Config, ConfigView};
use crate::text::{copy_text, same_text, texts};
use vstd::prelude::*;

verus! {

/// One argument: its text and, where the text is a decimal number, that number
/// with six decimals.
#[derive(Debug)]
pub struct Arg {
    pub text: String,
    pub decimal: Option<String>,
}

/// What an [`Arg`] stands for.
#[verifier::ext_equal]
pub ghost struct ArgView {
    pub text: Seq<char>,
    pub decimal: Option<Seq<char>>,
}

impl View for Arg {
    type V = ArgView;

    open spec fn view(&self) -> ArgView {
        ArgView {
            text: self.text@,
            decimal: match self.decimal {
                Some(d) => Some(d@),
                None => None,
            },
        }
    }
}

/// What a list of arguments stands for.
pub open spec fn arg_views(args: Seq<Arg>) -> Seq<ArgView> {
    args.map_values(|a: Arg| a@)
}

// ---------------------------------------------------------------------------
// The daemon
// ---------------------------------------------------------------------------

/// What the daemon is told to do.
pub struct Args {
    pub config: Config,
    /// Stream one session, then exit.
    pub once: bool,
    /// Stop after so many seconds.
    pub seconds: Option<u64>,
}

/// What a command line comes to.
pub enum Parsed {
    /// Show the usage and do nothing else.
    Help,
    /// Run. `half_sized` is set where only one of width and height was given,
    /// which is worth a warning.
    Run { args: Args, half_sized: bool },
}

/// What has been read of a command line so far.
pub struct Settings {
    pub config: Config,
    pub once: bool,
    pub seconds: Option<u64>,
    pub width: Option<u32>,
    pub height: Option<u32>,
}

/// What [`Settings`] stand for.
#[verifier::ext_equal]
pub ghost struct SettingsView {
    pub config: ConfigView,
    pub once: bool,
    pub seconds: Option<u64>,
    pub width: Option<u32>,
    pub height: Option<u32>,
}

impl View for Settings {
    type V = SettingsView;

    open spec fn view(&self) -> SettingsView {
        SettingsView {
            config: self.config@,
            once: self.once,
            seconds: self.seconds,
            width: self.width,
            height: self.height,
        }
    }
}

/// The settings before anything is read.
pub open spec fn no_settings(output_name: Seq<char>) -> SettingsView {
    SettingsView {
        config: default_config(output_name),
        once: false,
        seconds: None,
        width: None,
        height: None,
    }
}

/// The number that an argument gives, or `default` where there is none.
pub open spec fn u32_or(value: Option<ArgView>, default: u32) -> u32 {
    match value {
        Some(a) => match unsigned_value(a.text, 10, u32::MAX as nat) {
            Some(n) => n as u32,
            None => default,
        },
        None => default,
    }
}

pub open spec fn i32_or(value: Option<ArgView>, default: i32) -> i32 {
    match value {
        Some(a) => match i32_value(a.text) {
            Some(n) => n as i32,
            None => default,
        },
        None => default,
    }
}

/// The number that an argument gives, if it gives one.
pub open spec fn u64_in(value: Option<ArgView>) -> Option<u64> {
    match value {
        Some(a) => match unsigned_value(a.text, 10, u64::MAX as nat) {
            Some(n) => Some(n as u64),
            None => None,
        },
        None => None,
    }
}

/// Whether a flag takes the argument that follows it, whatever that is.
pub open spec fn takes_value(flag: Seq<char>) -> bool {
    ||| flag == "--width"@
    ||| flag == "--height"@
    ||| flag == "--max-width"@
    ||| flag == "--fps"@
    ||| flag == "--bitrate"@
    ||| flag == "--position"@
    ||| flag == "--position-y"@
    ||| flag == "--scale"@
    ||| flag == "--output-name"@
    ||| flag == "--seconds"@
}

/// The settings after one more flag, and the value that follows it where the flag
/// takes one. A value that is missing or no number leaves a default, and an
/// argument that is no flag changes nothing.
pub open spec fn applied(s: SettingsView, flag: Seq<char>, value: Option<ArgView>) -> SettingsView {
    if flag == "--width"@ {
        SettingsView { width: Some(u32_or(value, 1920)), ..s }
    } else if flag == "--height"@ {
        SettingsView { height: Some(u32_or(value, 1200)), ..s }
    } else if flag == "--max-width"@ {
        SettingsView { config: ConfigView { max_width: u32_or(value, 1920), ..s.config }, ..s }
    } else if flag == "--native"@ {
        SettingsView { config: ConfigView { max_width: u32::MAX, ..s.config }, ..s }
    } else if flag == "--fps"@ {
        SettingsView { config: ConfigView { fps: u32_or(value, 60), ..s.config }, ..s }
    } else if flag == "--bitrate"@ {
        SettingsView { config: ConfigView { bitrate_kbps: u32_or(value, 20_000), ..s.config }, ..s }
    } else if flag == "--position"@ {
        SettingsView {
            config: ConfigView { position_x: i32_or(value, s.config.position_x), ..s.config },
            ..s
        }
    } else if flag == "--position-y"@ {
        SettingsView {
            config: ConfigView { position_y: i32_or(value, s.config.position_y), ..s.config },
            ..s
        }
    } else if flag == "--scale"@ {
        match value {
            Some(ArgView { decimal: Some(scale), .. }) => SettingsView {
                config: ConfigView { scale, ..s.config },
                ..s
            },
            _ => s,
        }
    } else if flag == "--output-name"@ {
        match value {
            Some(a) => SettingsView {
                config: ConfigView { output_name: a.text, ..s.config },
                ..s
            },
            None => s,
        }
    } else if flag == "--show-cursor"@ {
        SettingsView { config: ConfigView { paint_cursor: true, ..s.config }, ..s }
    } else if flag == "--no-audio"@ {
        SettingsView { config: ConfigView { audio_enabled: false, ..s.config }, ..s }
    } else if flag == "--once"@ {
        SettingsView { once: true, ..s }
    } else if flag == "--stats"@ {
        SettingsView { config: ConfigView { stats: true, ..s.config }, ..s }
    } else if flag == "--seconds"@ {
        SettingsView {
            seconds: u64_in(value),
            once: true,
            config: ConfigView { stats: true, ..s.config },
            ..s
        }
    } else {
        s
    }
}

/// The first argument, if there is one.
pub open spec fn first(args: Seq<ArgView>) -> Option<ArgView> {
    if args.len() > 0 {
        Some(args[0])
    } else {
        None
    }
}

/// What is left after the first argument, if there is one.
pub open spec fn after_first(args: Seq<ArgView>) -> Seq<ArgView> {
    if args.len() > 0 {
        args.skip(1)
    } else {
        args
    }
}

/// The settings that arguments make of these, or nothing where help is asked for.
pub open spec fn read_args(s: SettingsView, args: Seq<ArgView>) -> Option<SettingsView>
    decreases args.len(),
{
    if args.len() == 0 {
        Some(s)
    } else if args[0].text == "--help"@ || args[0].text == "-h"@ {
        None
    } else if takes_value(args[0].text) {
        read_args(
            applied(s, args[0].text, first(args.skip(1))),
            after_first(args.skip(1)),
        )
    } else {
        read_args(applied(s, args[0].text, None), args.skip(1))
    }
}

/// Only an explicit pair pins the resolution: a size that is half given would
/// distort the picture.
pub open spec fn pinned(s: SettingsView) -> Option<(u32, u32)> {
    match (s.width, s.height) {
        (Some(w), Some(h)) => Some((w, h)),
        _ => None,
    }
}

fn u32_value_or(value: &Option<&Arg>, default: u32) -> (r: u32)
    ensures
        r == u32_or(
            match *value {
                Some(a) => Some(a@),
                None => None,
            },
            default,
        ),
{
    match value {
        Some(a) => match parse_u32(a.text.as_str()) {
            Some(n) => n,
            None => default,
        },
        None => default,
    }
}

fn i32_value_or(value: &Option<&Arg>, default: i32) -> (r: i32)
    ensures
        r == i32_or(
            match *value {
                Some(a) => Some(a@),
                None => None,
            },
            default,
        ),
{
    match value {
        Some(a) => match parse_i32(a.text.as_str()) {
            Some(n) => n,
            None => default,
        },
        None => default,
    }
}

fn u64_value(value: &Option<&Arg>) -> (r: Option<u64>)
    ensures
        r == u64_in(
            match *value {
                Some(a) => Some(a@),
                None => None,
            },
        ),
{
    match value {
        Some(a) => parse_unsigned(a.text.as_str(), 10, u64::MAX),
        None => None,
    }
}

fn flag_takes_value(flag: &str) -> (r: bool)
    ensures
        r == takes_value(flag@),
{
    same_text(flag, "--width") || same_text(flag, "--height") || same_text(flag, "--max-width")
        || same_text(flag, "--fps") || same_text(flag, "--bitrate") || same_text(flag, "--position")
        || same_text(flag, "--position-y") || same_text(flag, "--scale") || same_text(
        flag,
        "--output-name",
    ) || same_text(flag, "--seconds")
}

impl Settings {
    fn apply(&mut self, flag: &str, value: Option<&Arg>)
        ensures
            final(self)@ == applied(
                old(self)@,
                flag@,
                match value {
                    Some(a) => Some(a@),
                    None => None,
                },
            ),
    {
        if same_text(flag, "--width") {
            self.width = Some(u32_value_or(&value, 1920));
        } else if same_text(flag, "--height") {
            self.height = Some(u32_value_or(&value, 1200));
        } else if same_text(flag, "--max-width") {
            self.config.max_width = u32_value_or(&value, 1920);
        } else if same_text(flag, "--native") {
            self.config.max_width = u32::MAX;
        } else if same_text(flag, "--fps") {
            self.config.fps = u32_value_or(&value, 60);
        } else if same_text(flag, "--bitrate") {
            self.config.bitrate_kbps = u32_value_or(&value, 20_000);
        } else if same_text(flag, "--position") {
            self.config.position_x = i32_value_or(&value, self.config.position_x);
        } else if same_text(flag, "--position-y") {
            self.config.position_y = i32_value_or(&value, self.config.position_y);
        } else if same_text(flag, "--scale") {
            if let Some(a) = value {
                if let Some(scale) = &a.decimal {
                    self.config.scale = copy_text(scale.as_str());
                }
            }
        } else if same_text(flag, "--output-name") {
            if let Some(a) = value {
                self.config.output_name = copy_text(a.text.as_str());
            }
        } else if same_text(flag, "--show-cursor") {
            self.config.paint_cursor = true;
        } else if same_text(flag, "--no-audio") {
            self.config.audio_enabled = false;
        } else if same_text(flag, "--once") {
            self.once = true;
        } else if same_text(flag, "--stats") {
            self.config.stats = true;
        } else if same_text(flag, "--seconds") {
            self.seconds = u64_value(&value);
            self.once = true;
            self.config.stats = true;
        }
    }
}

/// Read the daemon's command line, without the program's own name.
pub fn parse_args(args: &Vec<Arg>, output_name: String) -> (r: Parsed)
    ensures
        match (r, read_args(no_settings(output_name@), arg_views(args@))) {
            (Parsed::Help, None) => true,
            (Parsed::Run { args, half_sized }, Some(s)) => {
                &&& args.config@ == (ConfigView { resolution: pinned(s), ..s.config })
                &&& args.once == s.once
                &&& args.seconds == s.seconds
                &&& half_sized == (s.width is Some != s.height is Some)
            },
            _ => false,
        },
{
    let mut s = Settings {
        config: Config::for_output(output_name),
        once: false,
        seconds: None,
        width: None,
        height: None,
    };
    let ghost all = arg_views(args@);
    let ghost start = no_settings(output_name@);
    let mut i: usize = 0;
    let n = args.len();
    assert(all.skip(0) =~= all);
    while i < n
        invariant
            i <= n,
            n == args@.len(),
            all == arg_views(args@),
            start == no_settings(output_name@),
            read_args(start, all) == read_args(s@, all.skip(i as int)),
        decreases n - i,
    {
        let ghost rest = all.skip(i as int);
        assert(rest[0] == args@[i as int]@);
        assert(rest.skip(1) =~= all.skip(i + 1));
        let flag = args[i].text.as_str();
        if same_text(flag, "--help") || same_text(flag, "-h") {
            return Parsed::Help;
        }
        i = i + 1;
        if flag_takes_value(flag) {
            if i < n {
                assert(all.skip(i as int)[0] == args@[i as int]@);
                assert(all.skip(i as int).skip(1) =~= all.skip(i + 1));
                s.apply(flag, Some(&args[i]));
                i = i + 1;
            } else {
                assert(all.skip(i as int).len() == 0);
                s.apply(flag, None);
            }
        } else {
            s.apply(flag, None);
        }
    }
    assert(all.skip(i as int).len() == 0);
    let half_sized = s.width.is_some() != s.height.is_some();
    let mut config = s.config;
    config.resolution = match (s.width, s.height) {
        (Some(w), Some(h)) => Some((w, h)),
        _ => None,
    };
    Parsed::Run { args: Args { config, once: s.once, seconds: s.seconds }, half_sized }
}

/// Stopping after a number of seconds implies one session only, and statistics.
pub proof fn seconds_imply_once_and_stats(s: SettingsView, args: Seq<ArgView>)
    requires
        s.seconds is Some ==> s.once && s.config.stats,
    ensures
        read_args(s, args) matches Some(r) ==> (r.seconds is Some ==> r.once && r.config.stats),
    decreases args.len(),
{
    if args.len() > 0 {
        seconds_imply_once_and_stats(
            applied(s, args[0].text, first(args.skip(1))),
            after_first(args.skip(1)),
        );
        seconds_imply_once_and_stats(applied(s, args[0].text, None), args.skip(1));
    }
}

/// Audio is on until it is switched off, and nothing switches it on again.
pub proof fn audio_stays_off(s: SettingsView, args: Seq<ArgView>)
    ensures
        read_args(s, args) matches Some(r) ==> (!s.config.audio_enabled ==>
            !r.config.audio_enabled),
        args.len() > 0 && args[0].text == "--no-audio"@ ==> (read_args(s, args) matches Some(r)
            ==> !r.config.audio_enabled),
    decreases args.len(),
{
    if args.len() > 0 {
        audio_stays_off(
            applied(s, args[0].text, first(args.skip(1))),
            after_first(args.skip(1)),
        );
        audio_stays_off(applied(s, args[0].text, None), args.skip(1));
        reveal_strlit("--no-audio");
        reveal_strlit("--width");
        reveal_strlit("--height");
        reveal_strlit("--max-width");
        reveal_strlit("--native");
        reveal_strlit("--fps");
        reveal_strlit("--bitrate");
        reveal_strlit("--position");
        reveal_strlit("--position-y");
        reveal_strlit("--scale");
        reveal_strlit("--output-name");
        reveal_strlit("--show-cursor");
        reveal_strlit("--seconds");
        if args[0].text == "--no-audio"@ {
            assert(args[0].text[2] == 'n' && args[0].text[3] == 'o' && args[0].text.len() == 10);
            assert(!takes_value(args[0].text));
        }
    }
}

/// The flags, by what tells them apart.
proof fn lemma_flags()
    ensures
        "--width"@.len() == 7,
        "--height"@.len() == 8,
        "--max-width"@.len() == 11,
        "--native"@.len() == 8,
        "--fps"@.len() == 5,
        "--bitrate"@.len() == 9,
        "--position"@.len() == 10,
        "--position-y"@.len() == 12,
        "--scale"@.len() == 7,
        "--output-name"@.len() == 13,
        "--show-cursor"@.len() == 13,
        "--no-audio"@.len() == 10,
        "--once"@.len() == 6,
        "--stats"@.len() == 7,
        "--seconds"@.len() == 9,
        "--help"@.len() == 6,
        "-h"@.len() == 2,
        "--width"@[2] == 'w',
        "--scale"@[2] == 's',
        "--scale"@[3] == 'c',
        "--stats"@[2] == 's',
        "--stats"@[3] == 't',
        "--height"@[2] == 'h',
        "--native"@[2] == 'n',
        "--bitrate"@[2] == 'b',
        "--seconds"@[2] == 's',
        "--position"@[2] == 'p',
        "--no-audio"@[2] == 'n',
        "--output-name"@[2] == 'o',
        "--show-cursor"@[2] == 's',
        "--once"@[2] == 'o',
        "--help"@[2] == 'h',
        "--width"@[0] == '-',
        "--height"@[0] == '-',
        "--max-width"@[0] == '-',
        "--native"@[0] == '-',
        "--fps"@[0] == '-',
        "--bitrate"@[0] == '-',
        "--position"@[0] == '-',
        "--position-y"@[0] == '-',
        "--scale"@[0] == '-',
        "--output-name"@[0] == '-',
        "--show-cursor"@[0] == '-',
        "--no-audio"@[0] == '-',
        "--once"@[0] == '-',
        "--stats"@[0] == '-',
        "--seconds"@[0] == '-',
        "--help"@[0] == '-',
        "-h"@[0] == '-',
{
    reveal_strlit("--width");
    reveal_strlit("--height");
    reveal_strlit("--max-width");
    reveal_strlit("--native");
    reveal_strlit("--fps");
    reveal_strlit("--bitrate");
    reveal_strlit("--position");
    reveal_strlit("--position-y");
    reveal_strlit("--scale");
    reveal_strlit("--output-name");
    reveal_strlit("--show-cursor");
    reveal_strlit("--no-audio");
    reveal_strlit("--once");
    reveal_strlit("--stats");
    reveal_strlit("--seconds");
    reveal_strlit("--help");
    reveal_strlit("-h");
}

/// An argument that writes a number in decimal.
pub open spec fn numeral(n: nat) -> ArgView {
    ArgView { text: decimal(n), decimal: None }
}

/// An argument that writes a number in decimal, with a sign where it is negative.
pub open spec fn signed_numeral(n: int) -> ArgView {
    ArgView { text: signed_decimal(n), decimal: None }
}

/// An argument that is a flag.
pub open spec fn flag(text: Seq<char>) -> ArgView {
    ArgView { text, decimal: None }
}

proof fn lemma_valued(s: SettingsView, f: Seq<char>, value: ArgView, rest: Seq<ArgView>)
    requires
        takes_value(f),
        f != "--help"@,
        f != "-h"@,
    ensures
        read_args(s, seq![flag(f), value] + rest) == read_args(applied(s, f, Some(value)), rest),
        read_args(s, seq![flag(f)]) == Some(applied(s, f, None)),
{
    let args = seq![flag(f), value] + rest;
    assert(args.skip(1).skip(1) =~= rest);
    assert(args.skip(1)[0] == value);
    let alone = seq![flag(f)];
    assert(alone.skip(1) =~= seq![]);
    assert(read_args(applied(s, f, None), after_first(alone.skip(1))) == Some(applied(s, f, None)));
}

proof fn lemma_switch(s: SettingsView, f: Seq<char>, rest: Seq<ArgView>)
    requires
        !takes_value(f),
        f != "--help"@,
        f != "-h"@,
    ensures
        read_args(s, seq![flag(f)] + rest) == read_args(applied(s, f, None), rest),
{
    let args = seq![flag(f)] + rest;
    assert(args.skip(1) =~= rest);
}

/// The number after a flag for a size, a rate or a bitrate is what the flag sets,
/// whatever the number and the settings are, and nothing else changes. What follows
/// is read after that.
pub proof fn numbers_are_taken_as_given(s: SettingsView, n: u32, rest: Seq<ArgView>)
    ensures
        ({
            let with = |f: Seq<char>| read_args(s, seq![flag(f), numeral(n as nat)] + rest);
            &&& with("--width"@) == read_args(SettingsView { width: Some(n), ..s }, rest)
            &&& with("--height"@) == read_args(SettingsView { height: Some(n), ..s }, rest)
            &&& with("--max-width"@) == read_args(
                SettingsView { config: ConfigView { max_width: n, ..s.config }, ..s },
                rest,
            )
            &&& with("--fps"@) == read_args(
                SettingsView { config: ConfigView { fps: n, ..s.config }, ..s },
                rest,
            )
            &&& with("--bitrate"@) == read_args(
                SettingsView { config: ConfigView { bitrate_kbps: n, ..s.config }, ..s },
                rest,
            )
        }),
{
    lemma_flags();
    decimal_reads_back(n as nat, u32::MAX as nat);
    let value = numeral(n as nat);
    lemma_valued(s, "--width"@, value, rest);
    lemma_valued(s, "--height"@, value, rest);
    lemma_valued(s, "--max-width"@, value, rest);
    lemma_valued(s, "--fps"@, value, rest);
    lemma_valued(s, "--bitrate"@, value, rest);
}

/// The same for a position, which may be negative, and for a number of seconds,
/// which asks for one session and for statistics too.
pub proof fn places_and_times_are_taken_as_given(
    s: SettingsView,
    n: i32,
    seconds: u64,
    rest: Seq<ArgView>,
)
    ensures
        ({
            let with = |f: Seq<char>| read_args(s, seq![flag(f), signed_numeral(n as int)] + rest);
            &&& with("--position"@) == read_args(
                SettingsView { config: ConfigView { position_x: n, ..s.config }, ..s },
                rest,
            )
            &&& with("--position-y"@) == read_args(
                SettingsView { config: ConfigView { position_y: n, ..s.config }, ..s },
                rest,
            )
            &&& read_args(s, seq![flag("--seconds"@), numeral(seconds as nat)] + rest) == read_args(
                SettingsView {
                    seconds: Some(seconds),
                    once: true,
                    config: ConfigView { stats: true, ..s.config },
                    ..s
                },
                rest,
            )
        }),
{
    lemma_flags();
    signed_decimal_reads_back(n);
    decimal_reads_back(seconds as nat, u64::MAX as nat);
    lemma_valued(s, "--position"@, signed_numeral(n as int), rest);
    lemma_valued(s, "--position-y"@, signed_numeral(n as int), rest);
    lemma_valued(s, "--seconds"@, numeral(seconds as nat), rest);
}

/// The same for a scale and for a name, which may be any text, even that of a flag.
pub proof fn texts_are_taken_as_given(s: SettingsView, value: ArgView, rest: Seq<ArgView>)
    ensures
        read_args(s, seq![flag("--output-name"@), value] + rest) == read_args(
            SettingsView { config: ConfigView { output_name: value.text, ..s.config }, ..s },
            rest,
        ),
        value.decimal matches Some(scale) ==> read_args(s, seq![flag("--scale"@), value] + rest)
            == read_args(SettingsView { config: ConfigView { scale, ..s.config }, ..s }, rest),
        value.decimal is None ==> read_args(s, seq![flag("--scale"@), value] + rest) == read_args(
            s,
            rest,
        ),
{
    lemma_flags();
    lemma_valued(s, "--output-name"@, value, rest);
    lemma_valued(s, "--scale"@, value, rest);
}

/// A flag without a value sets what it is for, and nothing else.
pub proof fn switches_set_what_they_are_for(s: SettingsView, rest: Seq<ArgView>)
    ensures
        ({
            let with = |f: Seq<char>| read_args(s, seq![flag(f)] + rest);
            &&& with("--native"@) == read_args(
                SettingsView { config: ConfigView { max_width: u32::MAX, ..s.config }, ..s },
                rest,
            )
            &&& with("--show-cursor"@) == read_args(
                SettingsView { config: ConfigView { paint_cursor: true, ..s.config }, ..s },
                rest,
            )
            &&& with("--no-audio"@) == read_args(
                SettingsView { config: ConfigView { audio_enabled: false, ..s.config }, ..s },
                rest,
            )
            &&& with("--once"@) == read_args(SettingsView { once: true, ..s }, rest)
            &&& with("--stats"@) == read_args(
                SettingsView { config: ConfigView { stats: true, ..s.config }, ..s },
                rest,
            )
        }),
{
    lemma_flags();
    lemma_switch(s, "--native"@, rest);
    lemma_switch(s, "--show-cursor"@, rest);
    lemma_switch(s, "--no-audio"@, rest);
    lemma_switch(s, "--once"@, rest);
    lemma_switch(s, "--stats"@, rest);
}

/// A value that is no number leaves the default of its flag, as does a value that is
/// missing; a position stays as it was. The value is used up all the same.
pub proof fn bad_values_leave_a_default(s: SettingsView, value: ArgView, rest: Seq<ArgView>)
    requires
        unsigned_value(value.text, 10, u32::MAX as nat) is None,
        i32_value(value.text) is None,
        unsigned_value(value.text, 10, u64::MAX as nat) is None,
    ensures
        ({
            let with = |f: Seq<char>| read_args(s, seq![flag(f), value] + rest);
            let alone = |f: Seq<char>| read_args(s, seq![flag(f)]);
            let fps = SettingsView { config: ConfigView { fps: 60, ..s.config }, ..s };
            let bitrate = SettingsView {
                config: ConfigView { bitrate_kbps: 20_000, ..s.config },
                ..s
            };
            let cap = SettingsView { config: ConfigView { max_width: 1920, ..s.config }, ..s };
            let timed = SettingsView {
                seconds: None,
                once: true,
                config: ConfigView { stats: true, ..s.config },
                ..s
            };
            &&& with("--width"@) == read_args(SettingsView { width: Some(1920), ..s }, rest)
            &&& with("--height"@) == read_args(SettingsView { height: Some(1200), ..s }, rest)
            &&& with("--max-width"@) == read_args(cap, rest)
            &&& with("--fps"@) == read_args(fps, rest)
            &&& with("--bitrate"@) == read_args(bitrate, rest)
            &&& with("--position"@) == read_args(s, rest)
            &&& with("--position-y"@) == read_args(s, rest)
            &&& with("--seconds"@) == read_args(timed, rest)
            &&& alone("--fps"@) == Some(fps)
            &&& alone("--bitrate"@) == Some(bitrate)
            &&& alone("--max-width"@) == Some(cap)
            &&& alone("--position"@) == Some(s)
            &&& alone("--position-y"@) == Some(s)
            &&& alone("--scale"@) == Some(s)
            &&& alone("--output-name"@) == Some(s)
            &&& alone("--seconds"@) == Some(timed)
        }),
{
    lemma_flags();
    lemma_valued(s, "--width"@, value, rest);
    lemma_valued(s, "--height"@, value, rest);
    lemma_valued(s, "--max-width"@, value, rest);
    lemma_valued(s, "--fps"@, value, rest);
    lemma_valued(s, "--bitrate"@, value, rest);
    lemma_valued(s, "--position"@, value, rest);
    lemma_valued(s, "--position-y"@, value, rest);
    lemma_valued(s, "--seconds"@, value, rest);
    lemma_valued(s, "--scale"@, value, rest);
    lemma_valued(s, "--output-name"@, value, rest);
    assert(applied(s, "--position"@, Some(value)) =~= s);
    assert(applied(s, "--position-y"@, Some(value)) =~= s);
    assert(applied(s, "--position"@, None) =~= s);
    assert(applied(s, "--position-y"@, None) =~= s);
}

/// An argument that is no flag is passed over. Help is given exactly where it is
/// asked for in place of a flag: right away where it comes first, and never where no
/// argument asks for it.
pub proof fn strangers_are_passed_over(s: SettingsView, stranger: ArgView, rest: Seq<ArgView>)
    ensures
        stranger.text.len() == 0 || stranger.text[0] != '-' ==> read_args(s, seq![stranger] + rest)
            == read_args(s, rest),
        read_args(s, seq![flag("--help"@)] + rest) is None,
        read_args(s, seq![flag("-h"@)] + rest) is None,
{
    lemma_flags();
    assert((seq![stranger] + rest).skip(1) =~= rest);
}

/// Without a request for help a command line is always understood.
pub proof fn help_is_given_where_it_is_asked_for(s: SettingsView, args: Seq<ArgView>)
    requires
        forall|i: int|
            0 <= i < args.len() ==> (#[trigger] args[i]).text != "--help"@ && args[i].text != "-h"@,
    ensures
        read_args(s, args) is Some,
    decreases args.len(),
{
    if args.len() > 0 {
        let rest = args.skip(1);
        assert forall|i: int| 0 <= i < rest.len() implies (#[trigger] rest[i]).text != "--help"@
            && rest[i].text != "-h"@ by {
            assert(rest[i] == args[i + 1]);
        }
        let later = after_first(rest);
        assert forall|i: int| 0 <= i < later.len() implies (#[trigger] later[i]).text != "--help"@
            && later[i].text != "-h"@ by {
            if rest.len() > 0 {
                assert(later[i] == rest[i + 1]);
            }
        }
        assert(args[0].text != "--help"@);
        help_is_given_where_it_is_asked_for(applied(s, args[0].text, first(rest)), later);
        help_is_given_where_it_is_asked_for(applied(s, args[0].text, None), rest);
    }
}

/// A resolution is pinned exactly where both its sides were given, as they were
/// given.
pub proof fn only_a_pair_pins_the_resolution(s: SettingsView, w: u32, h: u32)
    ensures
        pinned(s) == Some((w, h)) <==> s.width == Some(w) && s.height == Some(h),
        s.width is None || s.height is None ==> pinned(s) is None,
{
}

// ---------------------------------------------------------------------------
// The probes
// ---------------------------------------------------------------------------

/// What the audio probe is told to do.
#[derive(Debug)]
pub struct AudioProbeArgs {
    pub seconds: u64,
    pub frame_size_ms: u32,
    /// Run both frame sizes worth comparing, one after the other.
    pub sweep: bool,
    pub target_node: Option<String>,
}

/// What [`AudioProbeArgs`] stand for.
#[verifier::ext_equal]
pub ghost struct AudioProbeView {
    pub seconds: u64,
    pub frame_size_ms: u32,
    pub sweep: bool,
    pub target_node: Option<Seq<char>>,
}

impl View for AudioProbeArgs {
    type V = AudioProbeView;

    open spec fn view(&self) -> AudioProbeView {
        AudioProbeView {
            seconds: self.seconds,
            frame_size_ms: self.frame_size_ms,
            sweep: self.sweep,
            target_node: match self.target_node {
                Some(s) => Some(s@),
                None => None,
            },
        }
    }
}

/// The number that the first of these texts gives, or `default`.
pub open spec fn first_u64_or(args: Seq<Seq<char>>, max: u64, default: u64) -> u64 {
    if args.len() == 0 {
        default
    } else {
        match unsigned_value(args[0], 10, max as nat) {
            Some(n) => n as u64,
            None => default,
        }
    }
}

/// What is left after the first text, if there is one.
pub open spec fn but_first(args: Seq<Seq<char>>) -> Seq<Seq<char>> {
    if args.len() == 0 {
        args
    } else {
        args.skip(1)
    }
}

/// What arguments make of these settings, or the argument that is not known.
pub open spec fn read_audio_probe(s: AudioProbeView, args: Seq<Seq<char>>) -> Result<
    AudioProbeView,
    Seq<char>,
>
    decreases args.len(),
{
    if args.len() == 0 {
        Ok(s)
    } else {
        let rest = args.skip(1);
        if args[0] == "--seconds"@ {
            read_audio_probe(
                AudioProbeView { seconds: first_u64_or(rest, u64::MAX, 10), ..s },
                but_first(rest),
            )
        } else if args[0] == "--frame-size"@ {
            read_audio_probe(
                AudioProbeView {
                    frame_size_ms: first_u64_or(rest, u32::MAX as u64, 20) as u32,
                    ..s
                },
                but_first(rest),
            )
        } else if args[0] == "--sweep"@ {
            read_audio_probe(AudioProbeView { sweep: true, ..s }, rest)
        } else if args[0] == "--target"@ {
            read_audio_probe(
                AudioProbeView {
                    target_node: if rest.len() > 0 {
                        Some(rest[0])
                    } else {
                        None
                    },
                    ..s
                },
                but_first(rest),
            )
        } else {
            Err(args[0])
        }
    }
}

/// What the audio probe does without arguments.
pub open spec fn default_audio_probe() -> AudioProbeView {
    AudioProbeView { seconds: 10, frame_size_ms: 20, sweep: false, target_node: None }
}

fn text_u64_or(args: &Vec<String>, at: usize, max: u64, default: u64) -> (r: u64)
    requires
        at <= args@.len(),
        default <= max,
    ensures
        r == first_u64_or(texts(args@).skip(at as int), max, default),
        r <= max,
{
    if at == args.len() {
        return default;
    }
    assert(texts(args@).skip(at as int)[0] == args@[at as int]@);
    match parse_unsigned(args[at].as_str(), 10, max) {
        Some(n) => {
            proof {
                lemma_value_is_bounded(args@[at as int]@, 10, max as nat);
            }
            n
        },
        None => default,
    }
}

proof fn lemma_value_is_bounded(s: Seq<char>, radix: nat, max: nat)
    ensures
        unsigned_value(s, radix, max) matches Some(n) ==> n <= max,
{
}

/// Read the audio probe's command line, without the program's own name. An
/// argument that is not known is an error, and comes back.
pub fn parse_audio_probe_args(args: &Vec<String>) -> (r: Result<AudioProbeArgs, String>)
    ensures
        match (r, read_audio_probe(default_audio_probe(), texts(args@))) {
            (Ok(parsed), Ok(view)) => parsed@ == view,
            (Err(unknown), Err(text)) => unknown@ == text,
            _ => false,
        },
{
    let mut s = AudioProbeArgs { seconds: 10, frame_size_ms: 20, sweep: false, target_node: None };
    let ghost all = texts(args@);
    let mut i: usize = 0;
    let n = args.len();
    assert(all.skip(0) =~= all);
    assert(s@ =~= default_audio_probe());
    while i < n
        invariant
            i <= n,
            n == args@.len(),
            all == texts(args@),
            read_audio_probe(default_audio_probe(), all) == read_audio_probe(
                s@,
                all.skip(i as int),
            ),
        decreases n - i,
    {
        assert(all.skip(i as int)[0] == args@[i as int]@);
        assert(all.skip(i as int).skip(1) =~= all.skip(i + 1));
        let flag = args[i].as_str();
        i = i + 1;
        let ghost rest = all.skip(i as int);
        let mut takes_one = true;
        if same_text(flag, "--seconds") {
            s.seconds = text_u64_or(args, i, u64::MAX, 10);
        } else if same_text(flag, "--frame-size") {
            s.frame_size_ms = text_u64_or(args, i, u32::MAX as u64, 20) as u32;
        } else if same_text(flag, "--sweep") {
            s.sweep = true;
            takes_one = false;
        } else if same_text(flag, "--target") {
            if i < n {
                assert(rest[0] == args@[i as int]@);
                s.target_node = Some(copy_text(args[i].as_str()));
            } else {
                s.target_node = None;
            }
        } else {
            return Err(copy_text(flag));
        }
        if takes_one && i < n {
            assert(rest.skip(1) =~= all.skip(i + 1));
            i = i + 1;
        }
    }
    assert(all.skip(i as int).len() == 0);
    Ok(s)
}

/// What is said of an argument that is not known.
pub fn unrecognized(arg: &str) -> (r: String)
    ensures
        r@ == "unrecognized argument: "@ + arg@,
{
    let mut r = copy_text("unrecognized argument: ");
    r.append(arg);
    r
}

/// The mode that the device probe is told to use: width, height and refresh rate
/// by position, each with a default.
pub open spec fn probe_mode(args: Seq<Seq<char>>) -> (u32, u32, u32) {
    (
        first_u64_or(args, u32::MAX as u64, 1920) as u32,
        first_u64_or(but_first(args), u32::MAX as u64, 1200) as u32,
        first_u64_or(but_first(but_first(args)), u32::MAX as u64, 60) as u32,
    )
}

/// Read the device probe's command line, without the program's own name.
pub fn parse_evdi_probe_args(args: &Vec<String>) -> (r: (u32, u32, u32))
    ensures
        r == probe_mode(texts(args@)),
{
    let n = args.len();
    let second: usize = if n < 1 {
        n
    } else {
        1
    };
    let third: usize = if n < 2 {
        n
    } else {
        2
    };
    let ghost all = texts(args@);
    assert(all.skip(0) =~= all);
    assert(all.skip(second as int) =~= but_first(all));
    assert(all.skip(third as int) =~= but_first(but_first(all)));
    (
        text_u64_or(args, 0, u32::MAX as u64, 1920) as u32,
        text_u64_or(args, second, u32::MAX as u64, 1200) as u32,
        text_u64_or(args, third, u32::MAX as u64, 60) as u32,
    )
}

proof fn lemma_probe_valued(f: Seq<char>, value: Seq<char>, rest: Seq<Seq<char>>)
    ensures
        ({
            let args = seq![f, value] + rest;
            args[0] == f && args.skip(1)[0] == value && args.skip(1).len() > 0 && but_first(
                args.skip(1),
            ) == rest
        }),
{
    let args = seq![f, value] + rest;
    assert(args.skip(1).skip(1) =~= rest);
}

/// The audio probe takes each number and each name as it is given, and leaves its
/// other settings alone.
pub proof fn audio_probe_takes_what_is_given(
    s: AudioProbeView,
    seconds: u64,
    ms: u32,
    node: Seq<char>,
    rest: Seq<Seq<char>>,
)
    ensures
        read_audio_probe(s, seq!["--seconds"@, decimal(seconds as nat)] + rest) == read_audio_probe(
            AudioProbeView { seconds, ..s },
            rest,
        ),
        read_audio_probe(s, seq!["--frame-size"@, decimal(ms as nat)] + rest) == read_audio_probe(
            AudioProbeView { frame_size_ms: ms, ..s },
            rest,
        ),
        read_audio_probe(s, seq!["--target"@, node] + rest) == read_audio_probe(
            AudioProbeView { target_node: Some(node), ..s },
            rest,
        ),
        read_audio_probe(s, seq!["--sweep"@] + rest) == read_audio_probe(
            AudioProbeView { sweep: true, ..s },
            rest,
        ),
        read_audio_probe(s, seq![]) == Ok::<AudioProbeView, Seq<char>>(s),
{
    reveal_strlit("--seconds");
    assert("--seconds"@.len() == 9);
    reveal_strlit("--frame-size");
    assert("--frame-size"@.len() == 12);
    reveal_strlit("--sweep");
    assert("--sweep"@.len() == 7);
    reveal_strlit("--target");
    assert("--target"@.len() == 8);
    decimal_reads_back(seconds as nat, u64::MAX as nat);
    decimal_reads_back(ms as nat, u32::MAX as nat);
    lemma_probe_valued("--seconds"@, decimal(seconds as nat), rest);
    lemma_probe_valued("--frame-size"@, decimal(ms as nat), rest);
    lemma_probe_valued("--target"@, node, rest);
    assert((seq!["--sweep"@] + rest).skip(1) =~= rest);
}

/// The audio probe refuses an argument in place of a flag that is none of its four,
/// and says which.
pub proof fn audio_probe_refuses_strangers(
    s: AudioProbeView,
    stranger: Seq<char>,
    rest: Seq<Seq<char>>,
)
    requires
        stranger != "--seconds"@,
        stranger != "--frame-size"@,
        stranger != "--sweep"@,
        stranger != "--target"@,
    ensures
        read_audio_probe(s, seq![stranger] + rest) == Err::<AudioProbeView, Seq<char>>(stranger),
{
    assert((seq![stranger] + rest)[0] == stranger);
}

/// The device probe takes its three numbers by position, and what is missing has its
/// default.
pub proof fn device_probe_takes_what_is_given(w: u32, h: u32, hz: u32, rest: Seq<Seq<char>>)
    ensures
        probe_mode(seq![decimal(w as nat), decimal(h as nat), decimal(hz as nat)] + rest) == (
            w,
            h,
            hz,
        ),
        probe_mode(seq![decimal(w as nat), decimal(h as nat)]) == (w, h, 60u32),
        probe_mode(seq![decimal(w as nat)]) == (w, 1200u32, 60u32),
        probe_mode(seq![]) == (1920u32, 1200u32, 60u32),
{
    decimal_reads_back(w as nat, u32::MAX as nat);
    decimal_reads_back(h as nat, u32::MAX as nat);
    decimal_reads_back(hz as nat, u32::MAX as nat);
}

} // verus!
