//! Virtual outputs, per compositor.
//!
//! What has to be run, and what its answers mean, is decided here; running it is
//! the caller's part.

use crate::command::{Command, CommandView};
use crate::evdi::EvdiOutput;
use crate::text::{
    case_does_not_count, chars_of, copy_text, eq_ignore_ascii_case, first_word, first_word_of,
    is_white_space, lines, lines_of, same_ignoring_ascii_case, same_letter, same_text, texts,
    white_space,
};
use vstd::prelude::*;

verus! {

// ---------------------------------------------------------------------------
// Compositors
// ---------------------------------------------------------------------------

#[derive(Debug, Clone, Copy, PartialEq, Eq, Structural)]
pub enum Compositor {
    Hyprland,
    /// wlroots-based with a Sway-compatible IPC.
    Sway,
    /// labwc, queried through `wlr-randr`. It cannot create an output at
    /// runtime, so a session attaches to one that is there.
    Labwc,
    /// niri. Its output is an evdi device.
    Niri,
    Unsupported,
}

/// What the environment says of the running compositor.
pub struct Markers {
    /// `XDG_CURRENT_DESKTOP`, or nothing where it is not set.
    pub desktop: String,
    /// Whether `HYPRLAND_INSTANCE_SIGNATURE` is set.
    pub hyprland_instance: bool,
    /// Whether `SWAYSOCK` is set.
    pub sway_socket: bool,
    /// Whether `NIRI_SOCKET` is set.
    pub niri_socket: bool,
}

impl Markers {
    /// Whether the environment speaks for a compositor. labwc has called itself
    /// both `labwc` and the generic `wlroots`.
    pub open spec fn speak_for(self, c: Compositor) -> bool {
        match c {
            Compositor::Hyprland => self.hyprland_instance || same_ignoring_ascii_case(
                self.desktop@,
                "Hyprland"@,
            ),
            Compositor::Sway => self.sway_socket || same_ignoring_ascii_case(
                self.desktop@,
                "sway"@,
            ),
            Compositor::Labwc => same_ignoring_ascii_case(self.desktop@, "labwc"@)
                || same_ignoring_ascii_case(self.desktop@, "wlroots"@),
            Compositor::Niri => self.niri_socket,
            Compositor::Unsupported => false,
        }
    }

    fn check(&self, c: Compositor) -> (r: bool)
        ensures
            r == self.speak_for(c),
    {
        match c {
            Compositor::Hyprland => self.hyprland_instance || eq_ignore_ascii_case(
                self.desktop.as_str(),
                "Hyprland",
            ),
            Compositor::Sway => self.sway_socket || eq_ignore_ascii_case(
                self.desktop.as_str(),
                "sway",
            ),
            Compositor::Labwc => eq_ignore_ascii_case(self.desktop.as_str(), "labwc")
                || eq_ignore_ascii_case(self.desktop.as_str(), "wlroots"),
            Compositor::Niri => self.niri_socket,
            Compositor::Unsupported => false,
        }
    }
}

/// The compositors in the order in which they are looked for.
pub open spec fn candidate(n: int) -> Compositor {
    if n == 0 {
        Compositor::Hyprland
    } else if n == 1 {
        Compositor::Sway
    } else if n == 2 {
        Compositor::Labwc
    } else if n == 3 {
        Compositor::Niri
    } else {
        Compositor::Unsupported
    }
}

fn candidate_at(n: u8) -> (r: Compositor)
    ensures
        r == candidate(n as int),
{
    if n == 0 {
        Compositor::Hyprland
    } else if n == 1 {
        Compositor::Sway
    } else if n == 2 {
        Compositor::Labwc
    } else if n == 3 {
        Compositor::Niri
    } else {
        Compositor::Unsupported
    }
}

/// The first compositor from the `n`th on that the environment speaks for and
/// that answers.
pub open spec fn first_alive(
    markers: Markers,
    answers: spec_fn(Compositor) -> bool,
    n: int,
) -> Compositor
    decreases 4 - n,
{
    if n >= 4 {
        Compositor::Unsupported
    } else if markers.speak_for(candidate(n)) && answers(candidate(n)) {
        candidate(n)
    } else {
        first_alive(markers, answers, n + 1)
    }
}

/// The compositor that is running: the first that the environment speaks for and
/// that answers.
pub open spec fn running(markers: Markers, answers: spec_fn(Compositor) -> bool) -> Compositor {
    first_alive(markers, answers, 0)
}

/// The command by which a compositor is asked whether it is alive. There is none
/// for `Unsupported`, which is never asked.
pub open spec fn probe_command(c: Compositor) -> CommandView {
    match c {
        Compositor::Hyprland => CommandView::of("hyprctl"@).arg("version"@),
        Compositor::Sway => CommandView::of("swaymsg"@).arg("-t"@).arg("get_version"@),
        Compositor::Labwc => CommandView::of("wlr-randr"@),
        Compositor::Niri => CommandView::of("niri"@).arg("msg"@).arg("outputs"@),
        Compositor::Unsupported => CommandView::of(""@),
    }
}

fn probe_command_of(c: Compositor) -> (r: Command)
    ensures
        r@ == probe_command(c),
{
    match c {
        Compositor::Hyprland => Command::of("hyprctl").arg("version"),
        Compositor::Sway => Command::of("swaymsg").arg("-t").arg("get_version"),
        Compositor::Labwc => Command::of("wlr-randr"),
        Compositor::Niri => Command::of("niri").arg("msg").arg("outputs"),
        Compositor::Unsupported => Command::of(""),
    }
}

/// The search for the running compositor.
///
/// The markers alone are not enough: a service inherits the environment of the
/// session that started it and outlives it. So each is confirmed by asking the
/// compositor before it is trusted.
pub struct Detection {
    markers: Markers,
    next: u8,
    found: Option<Compositor>,
}

impl Detection {
    /// What will be found if the compositors that are yet to be asked answer so.
    pub closed spec fn outcome(self, answers: spec_fn(Compositor) -> bool) -> Compositor {
        match self.found {
            Some(c) => c,
            None => first_alive(self.markers, answers, self.next as int),
        }
    }

    /// The compositor to ask next.
    pub closed spec fn pending(self) -> Option<Compositor> {
        if self.found is None && self.next < 4 {
            Some(candidate(self.next as int))
        } else {
            None
        }
    }

    /// How many compositors may yet be asked.
    pub closed spec fn left(self) -> int {
        if self.found is Some {
            0
        } else {
            4 - self.next
        }
    }

    /// The search stands at a compositor that the environment speaks for, or it
    /// is over.
    pub closed spec fn wf(self) -> bool {
        self.next <= 4 && (self.next < 4 ==> self.markers.speak_for(candidate(self.next as int)))
    }

    /// The search has just begun in an environment.
    pub open spec fn begun(self, markers: Markers) -> bool {
        &&& self.wf()
        &&& forall|answers: spec_fn(Compositor) -> bool| #[trigger]
            self.outcome(answers) == running(markers, answers)
        &&& 0 <= self.left() <= 4
        &&& self.left() == 0 <==> self.pending() is None
    }

    /// The search has gone on from `before`, where the compositor that was asked
    /// answered or not. A compositor that answered ends the search, and one that
    /// did not is passed over.
    pub open spec fn follows(self, before: Detection, alive: bool) -> bool {
        &&& self.wf()
        &&& forall|answers: spec_fn(Compositor) -> bool|
            answers(before.pending()->0) == alive ==> #[trigger] self.outcome(answers)
                == before.outcome(answers)
        &&& alive ==> self.pending() is None
        &&& 0 <= self.left() < before.left() <= 4
        &&& self.left() == 0 <==> self.pending() is None
    }

    fn skip_unmarked(&mut self)
        requires
            old(self).next <= 4,
            old(self).found is None,
        ensures
            final(self).wf(),
            final(self).markers == old(self).markers,
            final(self).found is None,
            final(self).next >= old(self).next,
            forall|answers: spec_fn(Compositor) -> bool| #[trigger]
                final(self).outcome(answers) == old(self).outcome(answers),
    {
        while self.next < 4 && !self.markers.check(candidate_at(self.next))
            invariant
                self.next <= 4,
                self.markers == old(self).markers,
                self.found is None,
                self.next >= old(self).next,
                old(self).found is None,
                forall|answers: spec_fn(Compositor) -> bool| #[trigger]
                    self.outcome(answers) == old(self).outcome(answers),
            ensures
                self.next < 4 ==> self.markers.speak_for(candidate(self.next as int)),
            decreases 4 - self.next,
        {
            let ghost before = *self;
            self.next = self.next + 1;
            assert forall|answers: spec_fn(Compositor) -> bool| #[trigger]
                self.outcome(answers) == old(self).outcome(answers) by {
                assert(before.outcome(answers) == old(self).outcome(answers));
            }
        }
    }

    /// Which compositor to ask, and by which command. Nothing where the search is
    /// over.
    pub fn probe(&self) -> (r: Option<(Compositor, Command)>)
        requires
            self.wf(),
        ensures
            match r {
                Some((c, command)) => self.pending() == Some(c) && command@ == probe_command(c),
                None => self.pending() is None,
            },
    {
        if self.found.is_some() || self.next >= 4 {
            return None;
        }
        let c = candidate_at(self.next);
        Some((c, probe_command_of(c)))
    }

    /// Take note of whether the compositor that was asked answered.
    pub fn answered(&mut self, alive: bool)
        requires
            old(self).wf(),
            old(self).pending() is Some,
        ensures
            final(self).follows(*old(self), alive),
    {
        if alive {
            self.found = Some(candidate_at(self.next));
        } else {
            let ghost first = *self;
            self.next = self.next + 1;
            let ghost second = *self;
            self.skip_unmarked();
            assert forall|answers: spec_fn(Compositor) -> bool|
                answers(first.pending()->0) == alive implies #[trigger] self.outcome(answers)
                == first.outcome(answers) by {
                assert(self.outcome(answers) == second.outcome(answers));
            }
        }
    }

    /// The compositor that was found, once there is nothing left to ask.
    pub fn compositor(&self) -> (r: Option<Compositor>)
        requires
            self.wf(),
        ensures
            match r {
                Some(c) => self.pending() is None && forall|answers: spec_fn(Compositor) -> bool|
                    c == #[trigger] self.outcome(answers),
                None => self.pending() is Some,
            },
    {
        if self.found.is_none() && self.next < 4 {
            return None;
        }
        match self.found {
            Some(c) => Some(c),
            None => Some(Compositor::Unsupported),
        }
    }
}

/// A compositor is only found where the environment speaks for it and it
/// answers, and none is found only where no compositor has both.
pub proof fn running_is_marked_and_alive(
    markers: Markers,
    answers: spec_fn(Compositor) -> bool,
    c: Compositor,
)
    ensures
        running(markers, answers) !is Unsupported ==> markers.speak_for(running(markers, answers))
            && answers(running(markers, answers)),
        running(markers, answers) is Unsupported ==> !(markers.speak_for(c) && answers(c)),
{
    reveal_with_fuel(first_alive, 5);
    assert(candidate(0) is Hyprland && candidate(1) is Sway && candidate(2) is Labwc && candidate(
        3,
    ) is Niri);
}

/// However the compositors answer, at most four are asked, and once there is none
/// left to ask the one that is running has been found. `states` are those that the
/// search goes through, from its begin on.
pub proof fn search_finds_the_running(
    markers: Markers,
    answers: spec_fn(Compositor) -> bool,
    states: Seq<Detection>,
)
    requires
        states.len() > 0,
        states[0].begun(markers),
        forall|i: int|
            0 <= i < states.len() - 1 ==> (#[trigger] states[i]).pending() is Some
                && states[i + 1].follows(states[i], answers(states[i].pending()->0)),
    ensures
        states.len() <= 5,
        states.last().outcome(answers) == running(markers, answers),
        states.last().left() <= 5 - states.len(),
        states.len() == 5 ==> states.last().pending() is None,
    decreases states.len(),
{
    if states.len() > 1 {
        let earlier = states.drop_last();
        assert forall|i: int| 0 <= i < earlier.len() - 1 implies (
        #[trigger] earlier[i]).pending() is Some && earlier[i + 1].follows(
            earlier[i],
            answers(earlier[i].pending()->0),
        ) by {
            assert(states[i].pending() is Some);
        }
        search_finds_the_running(markers, answers, earlier);
        let before = states[states.len() - 2];
        assert(before.pending() is Some);
        assert(states.last().follows(before, answers(before.pending()->0)));
    }
}

/// Why a compositor cannot host a session.
#[derive(Debug)]
pub enum SupportError {
    Sway,
    /// With `XDG_CURRENT_DESKTOP`, where it is set.
    Unsupported(Option<String>),
}

/// What is said of a compositor that is not known.
pub open spec fn unsupported(desktop: Option<Seq<char>>) -> Seq<char> {
    "unsupported compositor (XDG_CURRENT_DESKTOP="@ + (match desktop {
        Some(d) => d,
        None => "unset"@,
    })
        + ").\nThis needs a compositor that can create a headless output, implements ext-image-copy-capture-v1, or has the evdi kernel driver available (niri's path).\nVerified: Hyprland, niri. KDE Plasma and GNOME implement none of these and need a PipeWire capture backend first.\nRun scripts/padplay-doctor.sh for a full report, and see docs/COMPATIBILITY.md."@
}

impl SupportError {
    /// The text that tells a person what went wrong.
    pub open spec fn message(self) -> Seq<char> {
        match self {
            SupportError::Sway =>
                "Sway support is not implemented yet.\n`swaymsg create_output` exists, but Sway names the result itself, so the daemon must diff `swaymsg -t get_outputs` to discover it. See docs/COMPATIBILITY.md."@,
            SupportError::Unsupported(desktop) => unsupported(
                match desktop {
                    Some(d) => Some(d@),
                    None => None,
                },
            ),
        }
    }

    pub fn to_string(&self) -> (r: String)
        ensures
            r@ == self.message(),
    {
        match self {
            SupportError::Sway => copy_text(
                "Sway support is not implemented yet.\n`swaymsg create_output` exists, but Sway names the result itself, so the daemon must diff `swaymsg -t get_outputs` to discover it. See docs/COMPATIBILITY.md.",
            ),
            SupportError::Unsupported(desktop) => {
                let mut r = copy_text("unsupported compositor (XDG_CURRENT_DESKTOP=");
                match desktop {
                    Some(d) => r.append(d.as_str()),
                    None => r.append("unset"),
                }
                r.append(
                    ").\nThis needs a compositor that can create a headless output, implements ext-image-copy-capture-v1, or has the evdi kernel driver available (niri's path).\nVerified: Hyprland, niri. KDE Plasma and GNOME implement none of these and need a PipeWire capture backend first.\nRun scripts/padplay-doctor.sh for a full report, and see docs/COMPATIBILITY.md.",
                );
                r
            },
        }
    }
}

impl Compositor {
    /// Start the search for the running compositor.
    pub fn detect(markers: Markers) -> (r: Detection)
        ensures
            r.begun(markers),
    {
        let mut r = Detection { markers, next: 0, found: None };
        let ghost first = r;
        r.skip_unmarked();
        assert forall|answers: spec_fn(Compositor) -> bool| #[trigger]
            r.outcome(answers) == running(markers, answers) by {
            assert(r.outcome(answers) == first.outcome(answers));
        }
        r
    }

    /// What a compositor is called.
    pub open spec fn called(self) -> Seq<char> {
        match self {
            Compositor::Hyprland => "Hyprland"@,
            Compositor::Sway => "Sway"@,
            Compositor::Labwc => "labwc"@,
            Compositor::Niri => "niri"@,
            Compositor::Unsupported => "unsupported"@,
        }
    }

    pub fn name(self) -> (r: &'static str)
        ensures
            r@ == self.called(),
    {
        match self {
            Compositor::Hyprland => "Hyprland",
            Compositor::Sway => "Sway",
            Compositor::Labwc => "labwc",
            Compositor::Niri => "niri",
            Compositor::Unsupported => "unsupported",
        }
    }

    /// Whether a session can run under this compositor.
    pub open spec fn supported(self) -> bool {
        self is Hyprland || self is Labwc || self is Niri
    }

    /// Fail unless this compositor can host a session, so that the daemon can
    /// refuse at startup. `desktop` is `XDG_CURRENT_DESKTOP`, where it is set.
    pub fn ensure_supported(self, desktop: Option<&str>) -> (r: Result<(), SupportError>)
        ensures
            match r {
                Ok(_) => self.supported(),
                Err(SupportError::Sway) => self is Sway,
                Err(SupportError::Unsupported(d)) => self is Unsupported && match desktop {
                    Some(text) => d is Some && d->0@ == text@,
                    None => d is None,
                },
            },
    {
        match self {
            Compositor::Hyprland => Ok(()),
            Compositor::Sway => Err(SupportError::Sway),
            Compositor::Labwc => Ok(()),
            Compositor::Niri => Ok(()),
            Compositor::Unsupported => Err(
                SupportError::Unsupported(
                    match desktop {
                        Some(text) => Some(copy_text(text)),
                        None => None,
                    },
                ),
            ),
        }
    }
}

// ---------------------------------------------------------------------------
// Lists of outputs
// ---------------------------------------------------------------------------

/// Whether a line of a listing is that of an output: it does not begin with white
/// space. Beneath it stand the output's properties, which are indented.
pub open spec fn unindented(line: Seq<char>) -> bool {
    line.len() > 0 && !white_space(line[0])
}

fn is_unindented(line: &str) -> (r: bool)
    ensures
        r == unindented(line@),
{
    let chars = chars_of(line);
    chars.len() > 0 && !is_white_space(chars[0])
}

/// The first word of each line that is not indented.
pub open spec fn first_words(lines: Seq<Seq<char>>) -> Seq<Seq<char>>
    decreases lines.len(),
{
    if lines.len() == 0 {
        seq![]
    } else if !unindented(lines.last()) {
        first_words(lines.drop_last())
    } else {
        match first_word(lines.last()) {
            Some(word) => first_words(lines.drop_last()).push(word),
            None => first_words(lines.drop_last()),
        }
    }
}

/// The output names in a listing of `wlr-randr`, in order.
pub open spec fn listed_names(listing: Seq<char>) -> Seq<Seq<char>> {
    first_words(lines(listing))
}

/// The output names in a listing of `wlr-randr`. Each stands at the start of a
/// line, and indented lines hold none.
pub fn wlr_randr_output_names(listing: &str) -> (r: Vec<String>)
    ensures
        texts(r@) == listed_names(listing@),
{
    let list = lines_of(listing);
    let ghost all = texts(list@);
    let mut names: Vec<String> = Vec::new();
    let mut i: usize = 0;
    assert(texts(names@) =~= seq![]);
    while i < list.len()
        invariant
            i <= list@.len(),
            all == texts(list@),
            texts(names@) == first_words(all.take(i as int)),
        decreases list@.len() - i,
    {
        assert(all.take(i + 1).drop_last() =~= all.take(i as int));
        assert(all.take(i + 1).last() == list@[i as int]@);
        if is_unindented(list[i].as_str()) {
            if let Some(word) = first_word_of(list[i].as_str()) {
                let ghost before = names@;
                names.push(word);
                assert(texts(names@) =~= texts(before).push(word@));
            }
        }
        i = i + 1;
    }
    assert(all.take(i as int) =~= all);
    names
}

/// A listing names an output if and only if that is the first word of one of its
/// lines that are not indented.
pub proof fn names_stand_at_the_start_of_lines(listing: Seq<char>, name: Seq<char>)
    ensures
        listed_names(listing).contains(name) <==> exists|i: int|
            0 <= i < lines(listing).len() && unindented(#[trigger] lines(listing)[i]) && first_word(
                lines(listing)[i],
            ) == Some(name),
{
    lemma_first_words(lines(listing), name);
}

proof fn lemma_first_words(all: Seq<Seq<char>>, name: Seq<char>)
    ensures
        first_words(all).contains(name) <==> exists|i: int|
            0 <= i < all.len() && unindented(#[trigger] all[i]) && first_word(all[i]) == Some(name),
    decreases all.len(),
{
    if all.len() > 0 {
        let rest = all.drop_last();
        let names = first_words(rest);
        lemma_first_words(rest, name);
        if unindented(all.last()) && first_word(all.last()) is Some {
            let word = first_word(all.last())->0;
            assert(names.push(word).last() == word);
            if names.contains(name) {
                let k = choose|k: int| 0 <= k < names.len() && names[k] == name;
                assert(names.push(word)[k] == name);
            }
        }
        if first_words(all).contains(name) {
            if names.contains(name) {
                let i = choose|i: int|
                    0 <= i < rest.len() && unindented(#[trigger] rest[i]) && first_word(rest[i])
                        == Some(name);
                assert(all[i] == rest[i]);
            } else {
                assert(unindented(all[all.len() - 1]));
            }
        }
        if exists|i: int|
            0 <= i < all.len() && unindented(#[trigger] all[i]) && first_word(all[i]) == Some(
                name,
            ) {
            let i = choose|i: int|
                0 <= i < all.len() && unindented(#[trigger] all[i]) && first_word(all[i]) == Some(
                    name,
                );
            if i < rest.len() {
                assert(rest[i] == all[i]);
            }
        }
    }
}

/// The first name that is not among those from before.
pub open spec fn first_new(after: Seq<Seq<char>>, before: Seq<Seq<char>>) -> Option<Seq<char>>
    decreases after.len(),
{
    if after.len() == 0 {
        None
    } else if !before.contains(after[0]) {
        Some(after[0])
    } else {
        first_new(after.skip(1), before)
    }
}

fn contains_name(names: &Vec<String>, name: &str) -> (r: bool)
    ensures
        r == texts(names@).contains(name@),
{
    let mut i: usize = 0;
    while i < names.len()
        invariant
            i <= names@.len(),
            forall|j: int| 0 <= j < i ==> #[trigger] texts(names@)[j] != name@,
        decreases names@.len() - i,
    {
        if same_text(names[i].as_str(), name) {
            assert(texts(names@)[i as int] == name@);
            return true;
        }
        i = i + 1;
    }
    false
}

/// Whether a listing of `wlr-randr` holds an output by exactly this name. The
/// whole first word of a line counts, so that `HEADLESS-1` is not found in
/// `HEADLESS-10`, and only of a line that is not indented, so that no property is
/// taken for an output. Without a listing there is no such output.
pub fn labwc_output_exists(listing: Option<&str>, name: &str) -> (r: bool)
    ensures
        r == (match listing {
            Some(text) => listed_names(text@).contains(name@),
            None => false,
        }),
{
    match listing {
        Some(text) => contains_name(&wlr_randr_output_names(text), name),
        None => false,
    }
}

/// The name of an output that is in a listing and was not there before.
pub fn find_new_output(listing: &str, before: &Vec<String>) -> (r: Option<String>)
    ensures
        match r {
            Some(name) => first_new(listed_names(listing@), texts(before@)) == Some(name@),
            None => first_new(listed_names(listing@), texts(before@)) is None,
        },
{
    let after = wlr_randr_output_names(listing);
    let ghost all = texts(after@);
    let mut i: usize = 0;
    assert(all.skip(0) =~= all);
    while i < after.len()
        invariant
            i <= after@.len(),
            all == texts(after@),
            all == listed_names(listing@),
            first_new(all, texts(before@)) == first_new(all.skip(i as int), texts(before@)),
        decreases after@.len() - i,
    {
        assert(all.skip(i as int)[0] == after@[i as int]@);
        assert(all.skip(i as int).skip(1) =~= all.skip(i + 1));
        if !contains_name(before, after[i].as_str()) {
            return Some(copy_text(after[i].as_str()));
        }
        i = i + 1;
    }
    None
}

/// The output that is discovered was not there before and is listed now, and one
/// is discovered whenever there is any.
pub proof fn discovered_output_is_new(after: Seq<Seq<char>>, before: Seq<Seq<char>>)
    ensures
        match first_new(after, before) {
            Some(name) => after.contains(name) && !before.contains(name),
            None => forall|i: int| 0 <= i < after.len() ==> before.contains(#[trigger] after[i]),
        },
    decreases after.len(),
{
    if after.len() > 0 {
        if !before.contains(after[0]) {
            assert(after.contains(after[0]));
        } else {
            let rest = after.skip(1);
            discovered_output_is_new(rest, before);
            match first_new(rest, before) {
                Some(name) => {
                    let i = choose|i: int| 0 <= i < rest.len() && rest[i] == name;
                    assert(after[i + 1] == name);
                },
                None => {
                    assert forall|i: int| 0 <= i < after.len() implies before.contains(
                        #[trigger] after[i],
                    ) by {
                        if i > 0 {
                            assert(rest[i - 1] == after[i]);
                        }
                    }
                },
            }
        }
    }
}

// ---------------------------------------------------------------------------
// Outputs
// ---------------------------------------------------------------------------

/// What takes an output down.
pub enum Removal {
    /// Run this command.
    Run(Command),
    /// Let go of the device. To the compositor that is a monitor that was
    /// unplugged.
    CloseDevice,
}

/// What a [`Removal`] stands for.
#[verifier::ext_equal]
pub ghost enum RemovalView {
    Run(CommandView),
    CloseDevice,
}

impl View for Removal {
    type V = RemovalView;

    open spec fn view(&self) -> RemovalView {
        match *self {
            Removal::Run(command) => RemovalView::Run(command@),
            Removal::CloseDevice => RemovalView::CloseDevice,
        }
    }
}

/// What an optional [`Removal`] stands for.
pub open spec fn removal_view(removal: Option<Removal>) -> Option<RemovalView> {
    match removal {
        Some(r) => Some(r@),
        None => None,
    }
}

impl Removal {
    /// The same once more.
    pub fn copy(&self) -> (r: Removal)
        ensures
            r@ == self@,
    {
        match self {
            Removal::Run(command) => Removal::Run(command.copy()),
            Removal::CloseDevice => Removal::CloseDevice,
        }
    }
}

/// The command that has Hyprland take an output down.
pub open spec fn hyprland_removal(name: Seq<char>) -> CommandView {
    CommandView::of("hyprctl"@).arg("output"@).arg("remove"@).arg(name)
}

pub fn hyprland_removal_command(name: &str) -> (r: Command)
    ensures
        r@ == hyprland_removal(name@),
{
    Command::of("hyprctl").arg("output").arg("remove").arg(name)
}

/// A virtual output.
///
/// `Managed` is one that the compositor made or lent under a name of our choice.
/// `Evdi` is a device, which the kernel named, and which also serves the frames.
pub enum VirtualOutput {
    Managed { compositor: Compositor, name: String },
    Evdi { evdi: Box<EvdiOutput>, name: String },
}

impl VirtualOutput {
    /// What an output is called.
    pub open spec fn called(self) -> Seq<char> {
        match self {
            VirtualOutput::Managed { name, .. } => name@,
            VirtualOutput::Evdi { name, .. } => name@,
        }
    }

    pub fn name(&self) -> (r: &str)
        ensures
            r@ == self.called(),
    {
        match self {
            VirtualOutput::Managed { name, .. } => name.as_str(),
            VirtualOutput::Evdi { name, .. } => name.as_str(),
        }
    }

    /// Whether the requested mode and position were applied. Not on labwc, where
    /// the output keeps whatever geometry it was configured with.
    pub fn applied_mode(&self) -> (r: bool)
        ensures
            r == (match *self {
                VirtualOutput::Managed { compositor, .. } => compositor !is Labwc,
                VirtualOutput::Evdi { .. } => true,
            }),
    {
        match self {
            VirtualOutput::Managed { compositor, .. } => *compositor != Compositor::Labwc,
            VirtualOutput::Evdi { .. } => true,
        }
    }

    /// The device that serves the frames, where there is one. Elsewhere frames
    /// come through a capture protocol.
    pub fn evdi_mut(&mut self) -> (r: Option<&mut EvdiOutput>)
        ensures
            match *old(self) {
                VirtualOutput::Evdi { evdi, name } => r is Some && *(r->0) == *evdi && *final(self)
                    == (VirtualOutput::Evdi { evdi: Box::new(*final(r->0)), name }),
                VirtualOutput::Managed { .. } => r is None && *final(self) == *old(self),
            },
    {
        match self {
            VirtualOutput::Evdi { evdi, .. } => Some(evdi),
            VirtualOutput::Managed { .. } => None,
        }
    }

    /// The command that takes an output down.
    pub open spec fn removal(self) -> Option<CommandView> {
        match self {
            VirtualOutput::Managed { compositor: Compositor::Hyprland, name } => Some(
                hyprland_removal(name@),
            ),
            VirtualOutput::Managed { compositor: Compositor::Sway, name } => Some(
                CommandView::of("swaymsg"@).arg("output"@).arg(name@).arg("unplug"@),
            ),
            _ => None,
        }
    }

    /// The command that takes this output down when the session ends. Outputs
    /// that were not made here are not taken down, and a device goes by itself.
    pub fn removal_command(&self) -> (r: Option<Command>)
        ensures
            match r {
                Some(command) => self.removal() == Some(command@),
                None => self.removal() is None,
            },
    {
        match self {
            VirtualOutput::Evdi { .. } => None,
            VirtualOutput::Managed { compositor, name } => match compositor {
                Compositor::Hyprland => Some(hyprland_removal_command(name.as_str())),
                Compositor::Sway => Some(
                    Command::of("swaymsg").arg("output").arg(name.as_str()).arg("unplug"),
                ),
                Compositor::Labwc | Compositor::Niri | Compositor::Unsupported => None,
            },
        }
    }

    /// What takes an output down: a command, or letting go of its device. Nothing
    /// does where it was there before.
    pub open spec fn taken_down_by(self) -> Option<RemovalView> {
        match self {
            VirtualOutput::Evdi { .. } => Some(RemovalView::CloseDevice),
            VirtualOutput::Managed { .. } => match self.removal() {
                Some(command) => Some(RemovalView::Run(command)),
                None => None,
            },
        }
    }

    /// What takes this output down when the session ends.
    pub fn takedown(&self) -> (r: Option<Removal>)
        ensures
            removal_view(r) == self.taken_down_by(),
    {
        match self {
            VirtualOutput::Evdi { .. } => Some(Removal::CloseDevice),
            VirtualOutput::Managed { .. } => match self.removal_command() {
                Some(command) => Some(Removal::Run(command)),
                None => None,
            },
        }
    }
}

/// Whether a text is another but for the case of its letters.
pub open spec fn is_in_any_case(text: Seq<char>, word: Seq<char>) -> bool {
    text.len() == word.len() && forall|i: int|
        0 <= i < text.len() ==> same_letter(#[trigger] text[i], word[i])
}

/// Whether the environment has a marker of Hyprland.
pub open spec fn marks_hyprland(markers: Markers) -> bool {
    markers.hyprland_instance || is_in_any_case(markers.desktop@, "Hyprland"@)
}

/// Whether the environment has a marker of Sway.
pub open spec fn marks_sway(markers: Markers) -> bool {
    markers.sway_socket || is_in_any_case(markers.desktop@, "sway"@)
}

/// Whether the environment has a marker of labwc.
pub open spec fn marks_labwc(markers: Markers) -> bool {
    is_in_any_case(markers.desktop@, "labwc"@) || is_in_any_case(markers.desktop@, "wlroots"@)
}

/// Each marker is enough by itself, and a further one takes nothing away: a
/// compositor that is marked in any way and answers is found, unless one that comes
/// before it is marked and answers too. Without a marker a compositor is not found
/// though it would answer.
pub proof fn each_marker_is_enough(markers: Markers, answers: spec_fn(Compositor) -> bool)
    ensures
        ({
            let hyprland = marks_hyprland(markers) && answers(Compositor::Hyprland);
            let sway = marks_sway(markers) && answers(Compositor::Sway);
            let labwc = marks_labwc(markers) && answers(Compositor::Labwc);
            let niri = markers.niri_socket && answers(Compositor::Niri);
            let found = running(markers, answers);
            &&& found is Hyprland <==> hyprland
            &&& found is Sway <==> sway && !hyprland
            &&& found is Labwc <==> labwc && !hyprland && !sway
            &&& found is Niri <==> niri && !hyprland && !sway && !labwc
            &&& found is Unsupported <==> !hyprland && !sway && !labwc && !niri
        }),
{
    reveal_with_fuel(first_alive, 5);
    case_does_not_count(markers.desktop@, "Hyprland"@);
    case_does_not_count(markers.desktop@, "sway"@);
    case_does_not_count(markers.desktop@, "labwc"@);
    case_does_not_count(markers.desktop@, "wlroots"@);
    assert(candidate(0) is Hyprland && candidate(1) is Sway && candidate(2) is Labwc && candidate(
        3,
    ) is Niri);
}

/// A compositor that is running can host a session unless it is Sway or not known.
pub proof fn only_sway_and_strangers_are_refused(c: Compositor)
    ensures
        c.supported() <==> c !is Sway && c !is Unsupported,
{
}

} // verus!
