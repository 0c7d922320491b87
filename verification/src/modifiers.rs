//! DRM formats and modifiers: which tilings of a frame the encoder can import.

use crate::numeral::{
    decimal, decimal_reads_back, digit, hex, hex_reads_back, lemma_decimal_digits, lemma_hex,
    parse_unsigned, push_hex, unsigned_value,
};
use crate::text::{
    begins_with, chars_of, find, find_from, lemma_ascii_decodes, lemma_find, lossy_text, same_text,
    strip_prefix, text_between, trim, trim_end, trim_start, trimmed, utf8_lossy, white_space,
};
use vstd::prelude::*;

verus! {

// ---------------------------------------------------------------------------
// Fourcc names
// ---------------------------------------------------------------------------

/// The four bytes of a fourcc code, the least significant first.
pub open spec fn fourcc_bytes(code: u32) -> Seq<u8> {
    seq![
        (code % 256) as u8,
        (code / 256 % 256) as u8,
        (code / 65536 % 256) as u8,
        (code / 16777216) as u8,
    ]
}

/// The name of a fourcc code: its four bytes as text.
pub fn fourcc_name(code: u32) -> (r: String)
    ensures
        r@ == lossy_text(fourcc_bytes(code)),
        (forall|i: int| 0 <= i < 4 ==> fourcc_bytes(code)[i] < 128) ==> r@ == Seq::new(
            4,
            |i: int| fourcc_bytes(code)[i] as char,
        ),
{
    let bytes: [u8; 4] = [
        (code % 256) as u8,
        (code / 256 % 256) as u8,
        (code / 65536 % 256) as u8,
        (code / 16777216) as u8,
    ];
    assert(bytes@ =~= fourcc_bytes(code));
    let r = utf8_lossy(bytes.as_slice());
    proof {
        if forall|i: int| 0 <= i < 4 ==> fourcc_bytes(code)[i] < 128 {
            lemma_ascii_decodes(fourcc_bytes(code));
            assert(r@ =~= Seq::new(4, |i: int| fourcc_bytes(code)[i] as char));
        }
    }
    r
}

// ---------------------------------------------------------------------------
// `FOURCC:0xMODIFIER`
// ---------------------------------------------------------------------------

/// The modifier that a text writes: hexadecimal after `0x`, else decimal.
pub open spec fn modifier_value(m: Seq<char>) -> Option<nat> {
    match unsigned_value(m.skip(2), 16, u64::MAX as nat) {
        Some(v) if begins_with(m, "0x"@) => Some(v),
        _ => unsigned_value(m, 10, u64::MAX as nat),
    }
}

/// The modifier that `text` gives for the fourcc named `wanted`. The fourcc
/// stands before the first colon and the modifier after it; a bare fourcc with
/// no modifier means linear, which is 0.
pub open spec fn drm_modifier(text: Seq<char>, wanted: Seq<char>) -> Option<nat> {
    let t = trimmed(text);
    let n = find(t, ':') as int;
    if trimmed(t.take(n)) != wanted {
        None
    } else if n < t.len() {
        modifier_value(trimmed(t.skip(n + 1)))
    } else {
        Some(0)
    }
}

pub fn parse_drm_format(text: &str, wanted: &str) -> (r: Option<u64>)
    ensures
        match r {
            Some(m) => drm_modifier(text@, wanted@) == Some(m as nat),
            None => drm_modifier(text@, wanted@) is None,
        },
{
    let trimmed_text = trim(text);
    let chars = chars_of(trimmed_text.as_str());
    let colon = find_from(&chars, 0, ':');
    assert(chars@.skip(0) =~= trimmed(text@));
    let fourcc = trim(text_between(&chars, 0, colon).as_str());
    assert(chars@.subrange(0, colon as int) =~= trimmed(text@).take(colon as int));
    if !same_text(fourcc.as_str(), wanted) {
        return None;
    }
    if colon == chars.len() {
        return Some(0);
    }
    let modifier = trim(text_between(&chars, colon + 1, chars.len()).as_str());
    assert(chars@.subrange(colon + 1, chars@.len() as int) =~= trimmed(text@).skip(colon + 1));
    proof {
        reveal_strlit("0x");
    }
    if let Some(digits) = strip_prefix(modifier.as_str(), "0x") {
        if let Some(v) = parse_unsigned(digits.as_str(), 16, u64::MAX) {
            return Some(v);
        }
    }
    parse_unsigned(modifier.as_str(), 10, u64::MAX)
}

/// The text that describes frames of a fourcc with a modifier.
pub open spec fn drm_format_text(name: Seq<char>, modifier: u64) -> Seq<char> {
    name + ":0x"@ + hex(modifier as nat, 16)
}

/// The text that describes frames of `fourcc` with `modifier`, for use in caps.
pub fn drm_format(fourcc: u32, modifier: u64) -> (r: String)
    ensures
        r@ == drm_format_text(lossy_text(fourcc_bytes(fourcc)), modifier),
{
    let mut r = fourcc_name(fourcc);
    r.append(":0x");
    push_hex(&mut r, modifier, 16);
    r
}

/// The modifier of a described format reads back, for fourcc names without a
/// colon and without white space at either end.
pub proof fn drm_format_reads_back(name: Seq<char>, modifier: u64)
    requires
        trimmed(name) == name,
        forall|i: int| 0 <= i < name.len() ==> name[i] != ':',
    ensures
        drm_modifier(drm_format_text(name, modifier), name) == Some(modifier as nat),
{
    reveal_strlit(":0x");
    reveal_strlit("0x");
    let h = hex(modifier as nat, 16);
    let t = drm_format_text(name, modifier);
    let n = name.len() as int;
    lemma_hex(modifier as nat, 16);
    hex_reads_back(modifier);
    assert(forall|i: int| 0 <= i < 16 ==> !white_space(#[trigger] h[i])) by {
        assert forall|i: int| 0 <= i < 16 implies !white_space(#[trigger] h[i]) by {
            let d = choose|d: nat| d < 16 && h[i] == digit(d);
        }
    }
    assert(t.last() == h[15]);
    assert(t.len() == n + 19);
    assert(t[n] == ':');
    // Nothing is trimmed off the whole.
    assert(!white_space(t[0])) by {
        if n > 0 {
            lemma_trimmed_ends(name);
            assert(t[0] == name[0]);
        }
    }
    assert(trimmed(t) == t);
    // The colon found is the one after the name.
    lemma_find(t, ':');
    let k = find(t, ':') as int;
    assert(k == n) by {
        if k < n {
            assert(t[k] == name[k]);
        }
    }
    assert(t.take(n) =~= name);
    // What follows it is the modifier.
    let m = t.skip(n + 1);
    assert(m[0] == '0');
    assert(m.last() == h[15]);
    assert(trimmed(m) == m);
    assert(m.skip(2) =~= h);
    assert(m.subrange(0, 2) =~= "0x"@);
}

proof fn lemma_trimmed_ends(s: Seq<char>)
    requires
        trimmed(s) == s,
        s.len() > 0,
    ensures
        !white_space(s[0]),
        !white_space(s.last()),
{
    if white_space(s[0]) {
        lemma_trim_start_len(s.drop_first());
        lemma_trim_end_len(trim_start(s));
    }
    if white_space(s.last()) && !white_space(s[0]) {
        lemma_trim_end_len(s.drop_last());
    }
}

proof fn lemma_trim_start_len(s: Seq<char>)
    ensures
        trim_start(s).len() <= s.len(),
    decreases s.len(),
{
    if s.len() > 0 && white_space(s[0]) {
        lemma_trim_start_len(s.drop_first());
    }
}

proof fn lemma_trim_end_len(s: Seq<char>)
    ensures
        trim_end(s).len() <= s.len(),
    decreases s.len(),
{
    if s.len() > 0 && white_space(s.last()) {
        lemma_trim_end_len(s.drop_last());
    }
}

// ---------------------------------------------------------------------------
// The modifiers that an element advertises
// ---------------------------------------------------------------------------

/// A `drm-format` value of advertised caps: a single text, or a list of such
/// values. Values of other types advertise nothing.
pub enum CapsValue {
    Text(String),
    List(Vec<CapsValue>),
    Other,
}

/// The texts in a value, in order.
pub open spec fn texts_in(value: CapsValue) -> Seq<Seq<char>>
    decreases value,
{
    match value {
        CapsValue::Text(text) => seq![text@],
        CapsValue::List(items) => texts_in_all(items@),
        CapsValue::Other => seq![],
    }
}

/// The texts in a list of values, in order.
pub open spec fn texts_in_all(values: Seq<CapsValue>) -> Seq<Seq<char>>
    decreases values,
{
    if values.len() == 0 {
        seq![]
    } else {
        texts_in_all(values.drop_last()) + texts_in(values.last())
    }
}

/// `out` and, after it, each modifier that `texts` give for `wanted` and that
/// was not there before.
pub open spec fn with_modifiers(out: Seq<u64>, texts: Seq<Seq<char>>, wanted: Seq<char>) -> Seq<u64>
    decreases texts.len(),
{
    if texts.len() == 0 {
        out
    } else {
        let before = with_modifiers(out, texts.drop_last(), wanted);
        match drm_modifier(texts.last(), wanted) {
            Some(m) if !before.contains(m as u64) => before.push(m as u64),
            _ => before,
        }
    }
}

proof fn lemma_with_modifiers_append(
    out: Seq<u64>,
    a: Seq<Seq<char>>,
    b: Seq<Seq<char>>,
    wanted: Seq<char>,
)
    ensures
        with_modifiers(out, a + b, wanted) == with_modifiers(
            with_modifiers(out, a, wanted),
            b,
            wanted,
        ),
    decreases b.len(),
{
    if b.len() == 0 {
        assert(a + b =~= a);
    } else {
        lemma_with_modifiers_append(out, a, b.drop_last(), wanted);
        assert((a + b).drop_last() =~= a + b.drop_last());
    }
}

fn contains_modifier(list: &Vec<u64>, m: u64) -> (r: bool)
    ensures
        r == list@.contains(m),
{
    let mut i: usize = 0;
    while i < list.len()
        invariant
            i <= list@.len(),
            forall|j: int| 0 <= j < i ==> list@[j] != m,
        decreases list@.len() - i,
    {
        if list[i] == m {
            return true;
        }
        i = i + 1;
    }
    false
}

/// Add the modifiers that a value gives for `wanted` and that `out` does not
/// hold yet.
pub fn collect_modifiers(value: &CapsValue, wanted: &str, out: &mut Vec<u64>)
    ensures
        final(out)@ == with_modifiers(old(out)@, texts_in(*value), wanted@),
    decreases value,
{
    match value {
        CapsValue::Text(text) => {
            let ghost all = texts_in(*value);
            assert(all.drop_last() =~= seq![]);
            assert(with_modifiers(out@, all.drop_last(), wanted@) == out@);
            if let Some(m) = parse_drm_format(text.as_str(), wanted) {
                if !contains_modifier(out, m) {
                    out.push(m);
                }
            }
        },
        CapsValue::List(items) => {
            collect_all(items, wanted, out);
        },
        CapsValue::Other => {},
    }
}

fn collect_all(values: &Vec<CapsValue>, wanted: &str, out: &mut Vec<u64>)
    ensures
        final(out)@ == with_modifiers(old(out)@, texts_in_all(values@), wanted@),
    decreases values,
{
    let mut i: usize = 0;
    while i < values.len()
        invariant
            i <= values@.len(),
            out@ == with_modifiers(old(out)@, texts_in_all(values@.take(i as int)), wanted@),
        decreases values@.len() - i,
    {
        let ghost before = texts_in_all(values@.take(i as int));
        proof {
            assert(values@.take(i + 1).drop_last() =~= values@.take(i as int));
            lemma_with_modifiers_append(
                old(out)@,
                before,
                texts_in(values@[i as int]),
                wanted@,
            );
            assert(decreases_to!(values => values@[i as int]));
        }
        collect_modifiers(&values[i], wanted, out);
        i = i + 1;
    }
    assert(values@.take(i as int) =~= values@);
}

// ---------------------------------------------------------------------------
// What the encoder supports
// ---------------------------------------------------------------------------

/// A pad template of an element: which way its pad points, and the `drm-format`
/// value of each structure of its caps, where the structure has one.
pub struct PadTemplate {
    pub is_sink: bool,
    pub drm_formats: Vec<Option<CapsValue>>,
}

/// The texts in the values that are there, in order.
pub open spec fn texts_in_present(values: Seq<Option<CapsValue>>) -> Seq<Seq<char>>
    decreases values.len(),
{
    if values.len() == 0 {
        seq![]
    } else {
        texts_in_present(values.drop_last()) + match values.last() {
            Some(value) => texts_in(value),
            None => seq![],
        }
    }
}

/// The `drm-format` texts that the sink pads advertise, in order.
pub open spec fn advertised(templates: Seq<PadTemplate>) -> Seq<Seq<char>>
    decreases templates.len(),
{
    if templates.len() == 0 {
        seq![]
    } else {
        advertised(templates.drop_last()) + if templates.last().is_sink {
            texts_in_present(templates.last().drm_formats@)
        } else {
            seq![]
        }
    }
}

/// The modifiers that `texts` give for `wanted`, each once, in the order of
/// their first mention, and linear at the end where none of them is linear.
pub open spec fn modifiers_with_linear(texts: Seq<Seq<char>>, wanted: Seq<char>) -> Seq<u64> {
    let found = with_modifiers(seq![], texts, wanted);
    if found.contains(0) {
        found
    } else {
        found.push(0)
    }
}

fn collect_present(values: &Vec<Option<CapsValue>>, wanted: &str, out: &mut Vec<u64>)
    ensures
        final(out)@ == with_modifiers(old(out)@, texts_in_present(values@), wanted@),
{
    let mut i: usize = 0;
    while i < values.len()
        invariant
            i <= values@.len(),
            out@ == with_modifiers(old(out)@, texts_in_present(values@.take(i as int)), wanted@),
        decreases values@.len() - i,
    {
        let ghost before = texts_in_present(values@.take(i as int));
        assert(values@.take(i + 1).drop_last() =~= values@.take(i as int));
        match &values[i] {
            Some(value) => {
                proof {
                    lemma_with_modifiers_append(old(out)@, before, texts_in(*value), wanted@);
                }
                collect_modifiers(value, wanted, out);
            },
            None => {
                assert(before + seq![] =~= before);
            },
        }
        i = i + 1;
    }
    assert(values@.take(i as int) =~= values@);
}

/// DRM format modifiers that the encoder chain can import for `fourcc`.
///
/// `templates` are the pad templates of the chain's first element, empty where
/// that element is not installed. They must be asked of the element and never
/// assumed: compositors offer modifiers that the encoder cannot read, the
/// accepted set differs from vendor to vendor, and a wrong choice is no error
/// but a silent copy through the CPU. Linear is there in any case.
pub fn supported_modifiers(fourcc: u32, templates: &Vec<PadTemplate>) -> (r: Vec<u64>)
    ensures
        r@ == modifiers_with_linear(advertised(templates@), lossy_text(fourcc_bytes(fourcc))),
{
    let wanted = fourcc_name(fourcc);
    let mut modifiers: Vec<u64> = Vec::new();
    let mut i: usize = 0;
    while i < templates.len()
        invariant
            i <= templates@.len(),
            modifiers@ == with_modifiers(seq![], advertised(templates@.take(i as int)), wanted@),
        decreases templates@.len() - i,
    {
        let ghost before = advertised(templates@.take(i as int));
        assert(templates@.take(i + 1).drop_last() =~= templates@.take(i as int));
        if templates[i].is_sink {
            proof {
                lemma_with_modifiers_append(
                    seq![],
                    before,
                    texts_in_present(templates@[i as int].drm_formats@),
                    wanted@,
                );
            }
            collect_present(&templates[i].drm_formats, wanted.as_str(), &mut modifiers);
        } else {
            assert(before + seq![] =~= before);
        }
        i = i + 1;
    }
    assert(templates@.take(i as int) =~= templates@);
    if !contains_modifier(&modifiers, 0) {
        modifiers.push(0);
    }
    modifiers
}

/// Whether some text gives `m` for `wanted`.
pub open spec fn is_given(texts: Seq<Seq<char>>, wanted: Seq<char>, m: u64) -> bool {
    exists|i: int|
        0 <= i < texts.len() && #[trigger] drm_modifier(texts[i], wanted) == Some(m as nat)
}

proof fn lemma_modifier_value_fits(text: Seq<char>, wanted: Seq<char>)
    ensures
        drm_modifier(text, wanted) matches Some(m) ==> m <= u64::MAX,
{
}

proof fn lemma_with_modifiers(texts: Seq<Seq<char>>, wanted: Seq<char>)
    ensures
        with_modifiers(seq![], texts, wanted).no_duplicates(),
        forall|m: u64|
            #![trigger is_given(texts, wanted, m)]
            with_modifiers(seq![], texts, wanted).contains(m) <==> is_given(texts, wanted, m),
    decreases texts.len(),
{
    let found = with_modifiers(seq![], texts, wanted);
    if texts.len() > 0 {
        let rest = texts.drop_last();
        let before = with_modifiers(seq![], rest, wanted);
        lemma_with_modifiers(rest, wanted);
        lemma_modifier_value_fits(texts.last(), wanted);
        assert forall|m: u64| found.contains(m) <==> is_given(texts, wanted, m) by {
            if found.contains(m) {
                let k = choose|k: int| 0 <= k < found.len() && found[k] == m;
                if k < before.len() {
                    assert(before[k] == m);
                    assert(before.contains(m));
                    assert(is_given(rest, wanted, m));
                    let i = choose|i: int|
                        0 <= i < rest.len() && #[trigger] drm_modifier(rest[i], wanted) == Some(
                            m as nat,
                        );
                    assert(texts[i] == rest[i]);
                } else {
                    assert(drm_modifier(texts[texts.len() - 1], wanted) == Some(m as nat));
                }
            }
            if is_given(texts, wanted, m) {
                let i = choose|i: int|
                    0 <= i < texts.len() && #[trigger] drm_modifier(texts[i], wanted) == Some(
                        m as nat,
                    );
                if i < rest.len() {
                    assert(rest[i] == texts[i]);
                    assert(is_given(rest, wanted, m));
                    let k = choose|k: int| 0 <= k < before.len() && before[k] == m;
                    assert(found[k] == m);
                } else if before.contains(m) {
                    let k = choose|k: int| 0 <= k < before.len() && before[k] == m;
                    assert(found[k] == m);
                } else {
                    assert(found[before.len() as int] == m);
                }
            }
        }
    }
}

/// The supported modifiers are exactly those that are advertised for the
/// fourcc, and linear; none is listed twice.
pub proof fn supported_modifiers_are_those_advertised(texts: Seq<Seq<char>>, wanted: Seq<char>)
    ensures
        modifiers_with_linear(texts, wanted).no_duplicates(),
        forall|m: u64|
            #[trigger] modifiers_with_linear(texts, wanted).contains(m) <==> m == 0 || is_given(
                texts,
                wanted,
                m,
            ),
{
    let found = with_modifiers(seq![], texts, wanted);
    let all = modifiers_with_linear(texts, wanted);
    lemma_with_modifiers(texts, wanted);
    assert forall|m: u64| #[trigger] all.contains(m) <==> m == 0 || is_given(texts, wanted, m) by {
        if all.contains(m) && !found.contains(m) {
            let k = choose|k: int| 0 <= k < all.len() && all[k] == m;
            assert(k == found.len());
        }
        if found.contains(m) {
            let k = choose|k: int| 0 <= k < found.len() && found[k] == m;
            assert(all[k] == m);
        }
        if m == 0 && !found.contains(m) {
            assert(all[found.len() as int] == m);
        }
    }
}

/// The four bytes of a fourcc code write the code, the first of them its lowest
/// eight bits.
pub proof fn fourcc_bytes_write_the_code(code: u32)
    ensures
        fourcc_bytes(code).len() == 4,
        fourcc_bytes(code)[0] + 0x100 * fourcc_bytes(code)[1] + 0x1_0000 * fourcc_bytes(code)[2]
            + 0x100_0000 * fourcc_bytes(code)[3] == code,
{
}

/// A bare name stands for the linear tiling of its own fourcc, and says nothing of
/// any other.
pub proof fn bare_names_are_linear(name: Seq<char>, other: Seq<char>)
    requires
        trimmed(name) == name,
        forall|i: int| 0 <= i < name.len() ==> name[i] != ':',
    ensures
        drm_modifier(name, name) == Some(0nat),
        other != name ==> drm_modifier(name, other) is None,
{
    lemma_find(name, ':');
    assert(name.take(name.len() as int) =~= name);
}

/// A text that writes a tiling says nothing of other fourccs than its own.
pub proof fn formats_speak_for_one_fourcc(name: Seq<char>, other: Seq<char>, rest: Seq<char>)
    requires
        forall|i: int| 0 <= i < name.len() ==> name[i] != ':',
        name.len() > 0,
        !white_space(name[0]),
        !white_space(name.last()),
        rest.len() > 0,
        !white_space(rest.last()),
        other != name,
    ensures
        drm_modifier(name + seq![':'] + rest, other) is None,
{
    let t = name + seq![':'] + rest;
    assert(t[0] == name[0]);
    assert(t.last() == rest.last());
    assert(trimmed(t) == t);
    lemma_find(t, ':');
    let k = find(t, ':') as int;
    assert(t[name.len() as int] == ':');
    assert(k == name.len()) by {
        if k < name.len() {
            assert(t[k] == name[k]);
        }
    }
    assert(t.take(k) =~= name);
    assert(trimmed(name) == name);
}

/// A tiling may be written in decimal too, and is read as the same number.
pub proof fn decimal_modifiers_are_read(m: u64)
    ensures
        modifier_value(decimal(m as nat)) == Some(m as nat),
        modifier_value("0x"@ + hex(m as nat, 16)) == Some(m as nat),
{
    reveal_strlit("0x");
    let d = decimal(m as nat);
    let h = "0x"@ + hex(m as nat, 16);
    decimal_reads_back(m as nat, u64::MAX as nat);
    hex_reads_back(m);
    lemma_hex(m as nat, 16);
    lemma_decimal_digits(m as nat);
    assert(!begins_with(d, "0x"@)) by {
        if begins_with(d, "0x"@) {
            assert(d.subrange(0, 2)[1] == "0x"@[1]);
            assert(d[1] == 'x');
        }
    }
    assert(h.subrange(0, 2) =~= "0x"@);
    assert(h.skip(2) =~= hex(m as nat, 16));
}

/// What a pad that is no sink says is not looked at; what a sink says is, wherever
/// among the templates it stands.
pub proof fn only_sinks_advertise(before: Seq<PadTemplate>, template: PadTemplate)
    ensures
        !template.is_sink ==> advertised(before.push(template)) == advertised(before),
        template.is_sink ==> advertised(before.push(template)) == advertised(before)
            + texts_in_present(template.drm_formats@),
{
    assert(before.push(template).drop_last() =~= before);
    assert(advertised(before) + seq![] =~= advertised(before));
}

} // verus!
