//! Media pipelines as data: which elements to make, in which order to link
//! them, and what each of them is set to.
//!
//! An [`Element`] list is complete. Whoever runs the pipeline makes the elements
//! in order, links each to the next, and needs no further decision.

use crate::text::copy_text;
use vstd::prelude::*;

verus! {

/// What a name stands for in a list of names and values. A name that comes twice
/// stands for the later value.
pub open spec fn value_of<V>(list: Seq<(Seq<char>, V)>, name: Seq<char>) -> Option<V>
    decreases list.len(),
{
    if list.len() == 0 {
        None
    } else if list.last().0 == name {
        Some(list.last().1)
    } else {
        value_of(list.drop_last(), name)
    }
}

/// A name and its value at the end of a list hide what the name stood for, and
/// leave the other names alone.
pub proof fn lemma_value_of<V>()
    ensures
        forall|list: Seq<(Seq<char>, V)>, n: Seq<char>, v: V, name: Seq<char>|
            #[trigger] value_of(list.push((n, v)), name) == (if n == name {
                Some(v)
            } else {
                value_of(list, name)
            }),
        forall|name: Seq<char>| #[trigger] value_of(Seq::<(Seq<char>, V)>::empty(), name) is None,
{
    assert forall|list: Seq<(Seq<char>, V)>, n: Seq<char>, v: V, name: Seq<char>|
        #[trigger] value_of(list.push((n, v)), name) == (if n == name {
            Some(v)
        } else {
            value_of(list, name)
        }) by {
        assert(list.push((n, v)).drop_last() =~= list);
    }
}

/// The value of a field of a structure.
#[derive(Debug)]
pub enum FieldValue {
    Flag(bool),
    Signed(i32),
    Fraction(i32, i32),
    Text(String),
}

/// What a [`FieldValue`] stands for.
#[verifier::ext_equal]
pub ghost enum FieldView {
    Flag(bool),
    Signed(i32),
    Fraction(i32, i32),
    Text(Seq<char>),
}

impl View for FieldValue {
    type V = FieldView;

    open spec fn view(&self) -> FieldView {
        match *self {
            FieldValue::Flag(b) => FieldView::Flag(b),
            FieldValue::Signed(n) => FieldView::Signed(n),
            FieldValue::Fraction(n, d) => FieldView::Fraction(n, d),
            FieldValue::Text(s) => FieldView::Text(s@),
        }
    }
}

/// A named set of fields: a caps structure, with a caps feature where it has
/// one, or a plain structure.
#[derive(Debug)]
pub struct Structure {
    pub name: String,
    pub feature: Option<String>,
    pub fields: Vec<(String, FieldValue)>,
}

/// What a [`Structure`] stands for.
#[verifier::ext_equal]
pub ghost struct StructureView {
    pub name: Seq<char>,
    pub feature: Option<Seq<char>>,
    pub fields: Seq<(Seq<char>, FieldView)>,
}

impl View for Structure {
    type V = StructureView;

    open spec fn view(&self) -> StructureView {
        StructureView {
            name: self.name@,
            feature: match self.feature {
                Some(f) => Some(f@),
                None => None,
            },
            fields: self.fields@.map_values(|f: (String, FieldValue)| (f.0@, f.1@)),
        }
    }
}

impl StructureView {
    /// A structure without feature and fields.
    pub open spec fn named(name: Seq<char>) -> StructureView {
        StructureView { name, feature: None, fields: seq![] }
    }

    /// This structure with a feature.
    pub open spec fn featured(self, feature: Seq<char>) -> StructureView {
        StructureView { feature: Some(feature), ..self }
    }

    /// The value of the field with this name.
    pub open spec fn value(self, name: Seq<char>) -> Option<FieldView> {
        value_of(self.fields, name)
    }

    /// This structure with one more field.
    pub open spec fn field(self, name: Seq<char>, value: FieldView) -> StructureView {
        StructureView { fields: self.fields.push((name, value)), ..self }
    }
}

impl Structure {
    pub fn named(name: &str) -> (r: Structure)
        ensures
            r@ == StructureView::named(name@),
    {
        let r = Structure { name: copy_text(name), feature: None, fields: Vec::new() };
        assert(r@ =~= StructureView::named(name@));
        r
    }

    pub fn featured(self, feature: &str) -> (r: Structure)
        ensures
            r@ == self@.featured(feature@),
    {
        Structure { name: self.name, feature: Some(copy_text(feature)), fields: self.fields }
    }

    pub fn field(self, name: &str, value: FieldValue) -> (r: Structure)
        ensures
            r@ == self@.field(name@, value@),
    {
        let ghost before = self@;
        let mut fields = self.fields;
        fields.push((copy_text(name), value));
        let r = Structure { name: self.name, feature: self.feature, fields };
        assert(r@.fields =~= before.fields.push((name@, value@)));
        r
    }
}

/// What a property of an element is set to.
#[derive(Debug)]
pub enum Setting {
    Flag(bool),
    Signed(i32),
    Unsigned(u32),
    Wide(u64),
    Text(String),
    /// A text that the property's own type parses, such as the name of an enum
    /// value.
    Parsed(String),
    Caps(Structure),
    Structured(Structure),
}

/// What a [`Setting`] stands for.
#[verifier::ext_equal]
pub ghost enum SettingView {
    Flag(bool),
    Signed(i32),
    Unsigned(u32),
    Wide(u64),
    Text(Seq<char>),
    Parsed(Seq<char>),
    Caps(StructureView),
    Structured(StructureView),
}

impl View for Setting {
    type V = SettingView;

    open spec fn view(&self) -> SettingView {
        match *self {
            Setting::Flag(b) => SettingView::Flag(b),
            Setting::Signed(n) => SettingView::Signed(n),
            Setting::Unsigned(n) => SettingView::Unsigned(n),
            Setting::Wide(n) => SettingView::Wide(n),
            Setting::Text(s) => SettingView::Text(s@),
            Setting::Parsed(s) => SettingView::Parsed(s@),
            Setting::Caps(s) => SettingView::Caps(s@),
            Setting::Structured(s) => SettingView::Structured(s@),
        }
    }
}

/// One element of a pipeline: the factory that makes it, the name by which
/// errors speak of it, and its settings in the order in which they are made.
#[derive(Debug)]
pub struct Element {
    pub factory: String,
    pub label: String,
    pub settings: Vec<(String, Setting)>,
}

/// What an [`Element`] stands for.
#[verifier::ext_equal]
pub ghost struct ElementView {
    pub factory: Seq<char>,
    pub label: Seq<char>,
    pub settings: Seq<(Seq<char>, SettingView)>,
}

impl View for Element {
    type V = ElementView;

    open spec fn view(&self) -> ElementView {
        ElementView {
            factory: self.factory@,
            label: self.label@,
            settings: self.settings@.map_values(|p: (String, Setting)| (p.0@, p.1@)),
        }
    }
}

impl ElementView {
    /// An element with its factory's own settings.
    pub open spec fn made(factory: Seq<char>, label: Seq<char>) -> ElementView {
        ElementView { factory, label, settings: seq![] }
    }

    /// What the property with this name is set to.
    pub open spec fn setting(self, name: Seq<char>) -> Option<SettingView> {
        value_of(self.settings, name)
    }

    /// This element with one more setting.
    pub open spec fn set(self, name: Seq<char>, value: SettingView) -> ElementView {
        ElementView { settings: self.settings.push((name, value)), ..self }
    }
}

impl Element {
    pub fn made(factory: &str, label: &str) -> (r: Element)
        ensures
            r@ == ElementView::made(factory@, label@),
    {
        let r = Element {
            factory: copy_text(factory),
            label: copy_text(label),
            settings: Vec::new(),
        };
        assert(r@ =~= ElementView::made(factory@, label@));
        r
    }

    pub fn set(self, name: &str, value: Setting) -> (r: Element)
        ensures
            r@ == self@.set(name@, value@),
    {
        let ghost before = self@;
        let mut settings = self.settings;
        settings.push((copy_text(name), value));
        let r = Element { factory: self.factory, label: self.label, settings };
        assert(r@.settings =~= before.settings.push((name@, value@)));
        r
    }
}

/// What a list of elements stands for.
pub open spec fn element_views(list: Seq<Element>) -> Seq<ElementView> {
    list.map_values(|e: Element| e@)
}

// ---------------------------------------------------------------------------
// Errors of a running pipeline
// ---------------------------------------------------------------------------

/// A message from a pipeline's bus.
#[derive(Debug)]
pub enum BusMessage {
    /// An error, with the path of the element that raised it where it is known,
    /// and debugging details where there are any.
    Error { source: Option<String>, error: String, debug: Option<String> },
    Other,
}

/// The text, or an empty one.
pub open spec fn or_empty(s: Option<String>) -> Seq<char> {
    match s {
        Some(s) => s@,
        None => seq![],
    }
}

impl BusMessage {
    /// The text of an error message.
    pub open spec fn error_text(self) -> Option<Seq<char>> {
        match self {
            BusMessage::Error { source, error, debug } => Some(
                "pipeline error from "@ + or_empty(source) + ": "@ + error@ + " ("@ + or_empty(
                    debug,
                ) + ")"@,
            ),
            BusMessage::Other => None,
        }
    }

    pub fn to_error(&self) -> (r: Option<String>)
        ensures
            match r {
                Some(text) => self.error_text() == Some(text@),
                None => self.error_text() is None,
            },
    {
        match self {
            BusMessage::Error { source, error, debug } => {
                let mut text = copy_text("pipeline error from ");
                if let Some(source) = source {
                    text.append(source.as_str());
                }
                let ghost with_source = "pipeline error from "@ + or_empty(*source);
                assert(text@ =~= with_source);
                text.append(": ");
                text.append(error.as_str());
                text.append(" (");
                let ghost head = text@;
                if let Some(debug) = debug {
                    text.append(debug.as_str());
                }
                assert(text@ =~= head + or_empty(*debug));
                text.append(")");
                Some(text)
            },
            BusMessage::Other => None,
        }
    }
}

/// The text of the first error among messages.
pub open spec fn first_error(messages: Seq<BusMessage>) -> Option<Seq<char>>
    decreases messages.len(),
{
    if messages.len() == 0 {
        None
    } else if messages[0].error_text() is Some {
        messages[0].error_text()
    } else {
        first_error(messages.skip(1))
    }
}

/// Fail with the first error among the messages that were waiting on the bus,
/// rather than let a broken pipeline stall silently.
pub fn check_bus(messages: &Vec<BusMessage>) -> (r: Result<(), String>)
    ensures
        match r {
            Ok(_) => first_error(messages@) is None,
            Err(text) => first_error(messages@) == Some(text@),
        },
{
    let mut i: usize = 0;
    assert(messages@.skip(0) =~= messages@);
    while i < messages.len()
        invariant
            i <= messages@.len(),
            first_error(messages@) == first_error(messages@.skip(i as int)),
        decreases messages@.len() - i,
    {
        assert(messages@.skip(i as int)[0] == messages@[i as int]);
        assert(messages@.skip(i as int).skip(1) =~= messages@.skip(i + 1));
        if let Some(text) = messages[i].to_error() {
            return Err(text);
        }
        i = i + 1;
    }
    Ok(())
}

/// The first error among the messages is the one that counts, whatever comes before
/// and after it, and what is told of it names its source, the error and the details.
/// Messages that are no errors break nothing.
pub proof fn the_first_error_counts(
    before: Seq<BusMessage>,
    message: BusMessage,
    after: Seq<BusMessage>,
)
    requires
        forall|i: int| 0 <= i < before.len() ==> !(#[trigger] before[i] is Error),
    ensures
        first_error(before) is None,
        message matches BusMessage::Error { source, error, debug } ==> first_error(
            before + seq![message] + after,
        ) == Some(
            "pipeline error from "@ + (if source is Some {
                source->Some_0@
            } else {
                seq![]
            }) + ": "@ + error@ + " ("@ + (if debug is Some {
                debug->Some_0@
            } else {
                seq![]
            }) + ")"@,
        ),
    decreases before.len(),
{
    let all = before + seq![message] + after;
    if before.len() > 0 {
        let less = before.skip(1);
        assert forall|i: int| 0 <= i < less.len() implies !(#[trigger] less[i] is Error) by {
            assert(less[i] == before[i + 1]);
        }
        the_first_error_counts(less, message, after);
        assert(!(before[0] is Error));
        assert(all[0] == before[0]);
        assert(all.skip(1) =~= less + seq![message] + after);
    } else {
        assert(all[0] == message);
    }
}

} // verus!
