//! What `adb` and the tablet's shell answer.

use crate::numeral::{decimal, decimal_reads_back, lemma_decimal_digits, parse_u32, unsigned_value};
use crate::reading::{lacks, lemma_number_lacks};
use crate::supervisor::{device_views, Device, DeviceView};
use crate::text::{
    begins_with, chars_of, find, find_from, lemma_find, lines, lines_of, same_text, strip_prefix,
    text_between, texts, trim, trim_start, trimmed,
};
use vstd::prelude::*;

verus! {

/// A text before the first `c` and after it, without white space at the ends.
pub open spec fn halves(s: Seq<char>, c: char) -> Option<(Seq<char>, Seq<char>)> {
    let n = find(s, c) as int;
    if n < s.len() {
        Some((trimmed(s.take(n)), trimmed(s.skip(n + 1))))
    } else {
        None
    }
}

fn split_at(s: &str, c: char) -> (r: Option<(String, String)>)
    ensures
        match r {
            Some((a, b)) => halves(s@, c) == Some((a@, b@)),
            None => halves(s@, c) is None,
        },
{
    let chars = chars_of(s);
    let n = find_from(&chars, 0, c);
    assert(chars@.skip(0) =~= s@);
    if n == chars.len() {
        return None;
    }
    assert(chars@.subrange(0, n as int) =~= s@.take(n as int));
    assert(chars@.subrange(n + 1, chars@.len() as int) =~= s@.skip(n + 1));
    let before = text_between(&chars, 0, n);
    let after = text_between(&chars, n + 1, chars.len());
    Some((trim(before.as_str()), trim(after.as_str())))
}

// ---------------------------------------------------------------------------
// Devices
// ---------------------------------------------------------------------------

/// The device that a line of a device list names: its serial number, a tab and
/// its state. A device in the state `device` is ready.
pub open spec fn device_in(line: Seq<char>) -> Option<DeviceView> {
    match halves(line, '\t') {
        Some((serial, state)) => Some(DeviceView { serial, state, ready: state == "device"@ }),
        None => None,
    }
}

/// The devices that lines name, in order.
pub open spec fn devices_in(lines: Seq<Seq<char>>) -> Seq<DeviceView>
    decreases lines.len(),
{
    if lines.len() == 0 {
        seq![]
    } else {
        match device_in(lines.last()) {
            Some(device) => devices_in(lines.drop_last()).push(device),
            None => devices_in(lines.drop_last()),
        }
    }
}

/// Read a device list.
pub fn parse_devices(listing: &str) -> (r: Vec<Device>)
    ensures
        device_views(r@) == devices_in(lines(listing@)),
{
    let list = lines_of(listing);
    let ghost all = texts(list@);
    let mut devices: Vec<Device> = Vec::new();
    let mut i: usize = 0;
    assert(device_views(devices@) =~= seq![]);
    while i < list.len()
        invariant
            i <= list@.len(),
            all == texts(list@),
            device_views(devices@) == devices_in(all.take(i as int)),
        decreases list@.len() - i,
    {
        assert(all.take(i + 1).drop_last() =~= all.take(i as int));
        assert(all.take(i + 1).last() == list@[i as int]@);
        if let Some((serial, state)) = split_at(list[i].as_str(), '\t') {
            let ready = same_text(state.as_str(), "device");
            let device = Device { serial, state, ready };
            let ghost before = devices@;
            devices.push(device);
            assert(device_views(devices@) =~= device_views(before).push(device@));
        }
        i = i + 1;
    }
    assert(all.take(i as int) =~= all);
    devices
}

// ---------------------------------------------------------------------------
// The panel
// ---------------------------------------------------------------------------

/// The two numbers of a size such as `1800x2880`.
pub open spec fn size_in(s: Seq<char>) -> Option<(u32, u32)> {
    match halves(s, 'x') {
        Some((a, b)) => match (
            unsigned_value(a, 10, u32::MAX as nat),
            unsigned_value(b, 10, u32::MAX as nat),
        ) {
            (Some(w), Some(h)) => Some((w as u32, h as u32)),
            _ => None,
        },
        None => None,
    }
}

/// The size that a line of `wm size` gives.
pub open spec fn line_size(line: Seq<char>) -> Option<(u32, u32)> {
    if begins_with(line, "Physical size:"@) {
        size_in(line.skip("Physical size:"@.len() as int))
    } else if begins_with(line, "Override size:"@) {
        size_in(line.skip("Override size:"@.len() as int))
    } else {
        None
    }
}

/// The last size that lines give: an override comes after what it overrides.
pub open spec fn last_size(lines: Seq<Seq<char>>) -> Option<(u32, u32)>
    decreases lines.len(),
{
    if lines.len() == 0 {
        None
    } else {
        match line_size(lines.last()) {
            Some(size) => Some(size),
            None => last_size(lines.drop_last()),
        }
    }
}

/// A size turned so that it is not higher than it is wide.
pub open spec fn landscape(size: (u32, u32)) -> (u32, u32) {
    if size.0 >= size.1 {
        size
    } else {
        (size.1, size.0)
    }
}

fn parse_size(s: &str) -> (r: Option<(u32, u32)>)
    ensures
        r == size_in(s@),
{
    match split_at(s, 'x') {
        Some((a, b)) => match (parse_u32(a.as_str()), parse_u32(b.as_str())) {
            (Some(w), Some(h)) => Some((w, h)),
            _ => None,
        },
        None => None,
    }
}

fn parse_line_size(line: &str) -> (r: Option<(u32, u32)>)
    ensures
        r == line_size(line@),
{
    if let Some(rest) = strip_prefix(line, "Physical size:") {
        return parse_size(rest.as_str());
    }
    match strip_prefix(line, "Override size:") {
        Some(rest) => parse_size(rest.as_str()),
        None => None,
    }
}

/// Read the size of the tablet's panel, in landscape, from what `wm size` says.
pub fn parse_panel(answer: &str) -> (r: Option<(u32, u32)>)
    ensures
        r == (match last_size(lines(answer@)) {
            Some(size) => Some(landscape(size)),
            None => None,
        }),
{
    let list = lines_of(answer);
    let ghost all = texts(list@);
    let mut found: Option<(u32, u32)> = None;
    let mut i: usize = 0;
    while i < list.len()
        invariant
            i <= list@.len(),
            all == texts(list@),
            found == last_size(all.take(i as int)),
        decreases list@.len() - i,
    {
        assert(all.take(i + 1).drop_last() =~= all.take(i as int));
        assert(all.take(i + 1).last() == list@[i as int]@);
        if let Some(size) = parse_line_size(list[i].as_str()) {
            found = Some(size);
        }
        i = i + 1;
    }
    assert(all.take(i as int) =~= all);
    match found {
        Some((w, h)) => {
            if w >= h {
                Some((w, h))
            } else {
                Some((h, w))
            }
        },
        None => None,
    }
}

// ---------------------------------------------------------------------------
// Whole answers
// ---------------------------------------------------------------------------

proof fn lemma_halves(a: Seq<char>, c: char, b: Seq<char>)
    requires
        lacks(a, c),
    ensures
        halves(a + seq![c] + b, c) == Some((trimmed(a), trimmed(b))),
{
    let s = a + seq![c] + b;
    lemma_find(s, c);
    let n = find(s, c) as int;
    assert(s[a.len() as int] == c);
    assert(n == a.len()) by {
        if n < a.len() {
            assert(s[n] == a[n]);
        }
    }
    assert(s.take(n) =~= a);
    assert(s.skip(n + 1) =~= b);
}

/// A line with a serial number, a tab and a state names that device in that state,
/// and a line without a tab names none. The device is ready exactly in the state
/// `device`.
pub proof fn device_lines_are_read(serial: Seq<char>, state: Seq<char>)
    requires
        lacks(serial, '\t'),
    ensures
        device_in(serial) is None,
        device_in(serial + seq!['\t'] + state) matches Some(d) && {
            &&& d.serial == trimmed(serial)
            &&& d.state == trimmed(state)
            &&& d.ready <==> trimmed(state) == "device"@
        },
{
    lemma_halves(serial, '\t', state);
    lemma_find(serial, '\t');
}

/// Every line with a tab is a device of the list, and a list says nothing of more
/// devices than it has lines. What comes earlier in the text comes earlier in the
/// list.
pub proof fn every_line_is_looked_at(before: Seq<Seq<char>>, line: Seq<char>)
    ensures
        devices_in(before.push(line)) == devices_in(before) + match device_in(line) {
            Some(device) => seq![device],
            None => seq![],
        },
        devices_in(before).len() <= before.len(),
    decreases before.len(),
{
    assert(before.push(line).drop_last() =~= before);
    assert(devices_in(before) + seq![] =~= devices_in(before));
    if device_in(line) is Some {
        let device = device_in(line)->Some_0;
        assert(devices_in(before).push(device) =~= devices_in(before) + seq![device]);
    }
    if before.len() > 0 {
        every_line_is_looked_at(before.drop_last(), before.last());
    }
}

proof fn lemma_trimmed_number(n: nat)
    ensures
        trimmed(decimal(n)) == decimal(n),
        trimmed(seq![' '] + decimal(n)) == decimal(n),
{
    lemma_decimal_digits(n);
    let d = decimal(n);
    let s = seq![' '] + d;
    assert(s.drop_first() =~= d);
    assert(trim_start(d) == d);
    assert(trim_start(s) == trim_start(s.drop_first()));
}

/// A size that the tablet's shell gives, as itself or as an override, is read as it
/// is written, whatever its two sides are.
pub proof fn sizes_are_read_as_written(w: u32, h: u32)
    ensures
        ({
            let size = seq![' '] + decimal(w as nat) + seq!['x'] + decimal(h as nat);
            &&& line_size("Physical size:"@ + size) == Some((w, h))
            &&& line_size("Override size:"@ + size) == Some((w, h))
        }),
{
    reveal_strlit("Physical size:");
    reveal_strlit("Override size:");
    let physical = "Physical size:"@;
    let over = "Override size:"@;
    assert(physical.len() == 14);
    assert(over.len() == 14);
    assert(physical[0] != over[0]);
    let a = seq![' '] + decimal(w as nat);
    let size = a + seq!['x'] + decimal(h as nat);
    lemma_number_lacks(w as int, 'x');
    assert(lacks(a, 'x')) by {
        assert forall|i: int| 0 <= i < a.len() implies #[trigger] a[i] != 'x' by {
            if i > 0 {
                assert(a[i] == decimal(w as nat)[i - 1]);
            }
        }
    }
    lemma_halves(a, 'x', decimal(h as nat));
    lemma_trimmed_number(w as nat);
    lemma_trimmed_number(h as nat);
    decimal_reads_back(w as nat, u32::MAX as nat);
    decimal_reads_back(h as nat, u32::MAX as nat);
    assert((physical + size).subrange(0, 14) =~= physical);
    assert((physical + size).skip(14) =~= size);
    assert((over + size).subrange(0, 14) =~= over);
    assert((over + size).skip(14) =~= size);
    assert((over + size)[0] == over[0]);
    assert(!begins_with(over + size, physical)) by {
        assert((over + size).subrange(0, 14)[0] != physical[0]);
    }
}

/// The last line with a size is the one that counts.
pub proof fn the_last_size_counts(lines: Seq<Seq<char>>, i: int)
    requires
        0 <= i < lines.len(),
        line_size(lines[i]) is Some,
        forall|j: int| i < j < lines.len() ==> line_size(#[trigger] lines[j]) is None,
    ensures
        last_size(lines) == line_size(lines[i]),
    decreases lines.len(),
{
    if i < lines.len() - 1 {
        let less = lines.drop_last();
        assert(line_size(lines[lines.len() - 1]) is None);
        assert forall|j: int| i < j < less.len() implies line_size(#[trigger] less[j]) is None by {
            assert(less[j] == lines[j]);
        }
        the_last_size_counts(less, i);
    }
}

/// A panel is never higher than it is wide once it is turned, keeps its two sides,
/// and is the same whichever way the tablet is held.
pub proof fn panels_are_turned_to_landscape(w: u32, h: u32)
    ensures
        landscape((w, h)).0 >= landscape((w, h)).1,
        landscape((w, h)) == (w, h) || landscape((w, h)) == (h, w),
        landscape((w, h)) == landscape((h, w)),
{
}

} // verus!
