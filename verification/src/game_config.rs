//! The executable that a game names in its `MicrosoftGame.config`.

use vstd::prelude::*;
use vstd::string::StringExecFns;

use crate::text::{has_prefix, same_text};

verus! {

/// Why a game's executable is not known.
#[derive(Clone, Debug)]
pub enum GameConfigError {
    /// The game has no configuration.
    NotFound,
    /// The configuration could not be read.
    Io(String),
    /// The configuration is no well-formed XML.
    Xml(String),
    /// The configuration names no executable.
    NoExecutable,
}

impl GameConfigError {
    /// The error in words.
    pub fn message(&self) -> (out: String)
        ensures
            out@ == match *self {
                GameConfigError::NotFound => "MicrosoftGame.config not found"@,
                GameConfigError::Io(e) => e@,
                GameConfigError::Xml(e) => e@,
                GameConfigError::NoExecutable => "No executable found in MicrosoftGame.config"@,
            },
    {
        match self {
            GameConfigError::NotFound => String::from_str("MicrosoftGame.config not found"),
            GameConfigError::Io(e) => String::from_str(e),
            GameConfigError::Xml(e) => String::from_str(e),
            GameConfigError::NoExecutable => String::from_str(
                "No executable found in MicrosoftGame.config",
            ),
        }
    }
}

/// The name under which a game's configuration stands in its directory. Two spellings of it are
/// in use.
pub fn choose_config(lower_exists: bool, upper_exists: bool) -> (r: Result<String, GameConfigError>)
    ensures
        lower_exists ==> (r matches Ok(name) && name@ == "MicrosoftGame.config"@),
        !lower_exists && upper_exists ==> (r matches Ok(name) && name@ == "MicrosoftGame.Config"@),
        !lower_exists && !upper_exists ==> r == Err::<String, GameConfigError>(
            GameConfigError::NotFound,
        ),
{
    if lower_exists {
        Ok(String::from_str("MicrosoftGame.config"))
    } else if upper_exists {
        Ok(String::from_str("MicrosoftGame.Config"))
    } else {
        Err(GameConfigError::NotFound)
    }
}

/// What stands next in an XML text.
#[derive(Clone, Debug)]
pub enum XmlEvent {
    /// A tag that opens an element: its name, and all that stands between its angle brackets.
    Start { name: String, tag: String },
    /// A tag that closes an element.
    End { name: String },
    /// Anything else, such as text or an element without content.
    Other,
    /// The end of the text.
    Eof,
}

/// An `XmlEvent` by its characters.
pub enum XmlEventView {
    Start { name: Seq<char>, tag: Seq<char> },
    End { name: Seq<char> },
    Other,
    Eof,
}

impl View for XmlEvent {
    type V = XmlEventView;

    open spec fn view(&self) -> XmlEventView {
        match self {
            XmlEvent::Start { name, tag } => XmlEventView::Start { name: name@, tag: tag@ },
            XmlEvent::End { name } => XmlEventView::End { name: name@ },
            XmlEvent::Other => XmlEventView::Other,
            XmlEvent::Eof => XmlEventView::Eof,
        }
    }
}

/// An event, or the words of the error in its place.
pub open spec fn event_view(r: Result<XmlEvent, String>) -> Result<XmlEventView, Seq<char>> {
    match r {
        Ok(event) => Ok(event@),
        Err(e) => Err(e@),
    }
}

/// What ends a text: its end, or an error.
pub open spec fn is_last(event: Result<XmlEventView, Seq<char>>) -> bool {
    event == Ok::<XmlEventView, Seq<char>>(XmlEventView::Eof) || event is Err
}

/// The events of a whole text: the last of them ends it, and none before.
pub open spec fn event_run(events: Seq<Result<XmlEventView, Seq<char>>>) -> bool {
    &&& events.len() > 0
    &&& forall|i: int|
        0 <= i < events.len() ==> (is_last(#[trigger] events[i]) <==> i == events.len() - 1)
}

/// The XML reader of the `quick-xml` crate.
#[verifier::external_type_specification]
#[verifier::external_body]
#[verifier::reject_recursive_types(R)]
pub struct ExReader<R>(quick_xml::Reader<R>);

/// The events of an XML text, up to its end or the first error, as `quick_xml::Reader` reads them
/// with white space trimmed around text.
pub uninterp spec fn xml_events(text: Seq<char>) -> Seq<Result<XmlEventView, Seq<char>>>;

/// The events that a reader has yet to give, up to the end of its text or the first error.
pub uninterp spec fn events_left(reader: &quick_xml::Reader<&[u8]>) -> Seq<
    Result<XmlEventView, Seq<char>>,
>;

/// `quick_xml::Reader::from_str`, and `trim_text` on its configuration. The reader has the whole
/// text before it, which comes to an end after finitely many events.
#[verifier::external_body]
fn open_reader(text: &str) -> (reader: quick_xml::Reader<&[u8]>)
    ensures
        events_left(&reader) == xml_events(text@),
        event_run(events_left(&reader)),
{
    let mut reader = quick_xml::Reader::from_str(text);
    reader.config_mut().trim_text(true);
    reader
}

/// `quick_xml::Reader::read_event_into`: takes the next event. Before the last event of the text,
/// the others stay to be read. The name of a tag is where the tag starts. What the call leaves in
/// `buf` is not stated.
#[verifier::external_body]
fn read_event(reader: &mut quick_xml::Reader<&[u8]>, buf: &mut Vec<u8>) -> (r: Result<
    XmlEvent,
    String,
>)
    requires
        events_left(old(reader)).len() > 0,
    ensures
        event_view(r) == events_left(old(reader))[0],
        events_left(old(reader)).len() > 1 ==> events_left(final(reader)) == events_left(
            old(reader),
        ).skip(1),
        r matches Ok(XmlEvent::Start { name, tag }) ==> has_prefix(tag@, name@),
{
    match reader.read_event_into(buf) {
        Ok(quick_xml::events::Event::Start(e)) => Ok(XmlEvent::Start {
            name: String::from_utf8_lossy(e.name().as_ref()).into_owned(),
            tag: String::from_utf8_lossy(&e).into_owned(),
        }),
        Ok(quick_xml::events::Event::End(e)) => Ok(XmlEvent::End {
            name: String::from_utf8_lossy(e.name().as_ref()).into_owned(),
        }),
        Ok(quick_xml::events::Event::Eof) => Ok(XmlEvent::Eof),
        Ok(_) => Ok(XmlEvent::Other),
        Err(e) => Err(e.to_string()),
    }
}

/// An attribute as it stands in a tag, its name and its value, or the words of the error in its
/// place.
pub open spec fn attribute_view(a: Result<(String, String), String>) -> Result<
    (Seq<char>, Seq<char>),
    Seq<char>,
> {
    match a {
        Ok((key, value)) => Ok((key@, value@)),
        Err(e) => Err(e@),
    }
}

/// Attributes as they stand in a tag.
pub open spec fn attributes_view(v: Seq<Result<(String, String), String>>) -> Seq<
    Result<(Seq<char>, Seq<char>), Seq<char>>,
> {
    v.map_values(|a: Result<(String, String), String>| attribute_view(a))
}

/// The attributes of a tag that starts with `name`, as `quick-xml` reads them.
pub uninterp spec fn attributes_of(tag: Seq<char>, name: Seq<char>) -> Seq<
    Result<(Seq<char>, Seq<char>), Seq<char>>,
>;

/// `quick_xml::events::attributes::Attributes::new`, walked to its end: the attributes behind the
/// name of a tag are a function of tag and name.
#[verifier::external_body]
fn read_attributes(tag: &str, name: &str) -> (r: Vec<Result<(String, String), String>>)
    requires
        has_prefix(tag@, name@),
    ensures
        attributes_view(r@) == attributes_of(tag@, name@),
{
    quick_xml::events::attributes::Attributes::new(tag, name.len()).map(
        |attr|
            match attr {
                Ok(attr) => Ok((
                    String::from_utf8_lossy(attr.key.as_ref()).into_owned(),
                    String::from_utf8_lossy(attr.value.as_ref()).into_owned(),
                )),
                Err(e) => Err(e.to_string()),
            },
    ).collect()
}

/// The value of the first attribute called `Name`. An error before it is the result in its place.
pub open spec fn name_attribute(
    attributes: Seq<Result<(Seq<char>, Seq<char>), Seq<char>>>,
) -> Result<Option<Seq<char>>, Seq<char>>
    decreases attributes.len(),
{
    if attributes.len() == 0 {
        Ok(None)
    } else {
        match attributes[0] {
            Err(e) => Err(e),
            Ok((key, value)) => if key == "Name"@ {
                Ok(Some(value))
            } else {
                name_attribute(attributes.skip(1))
            },
        }
    }
}

/// How far the search for an executable has come.
pub struct ExecutableSearch {
    /// Whether an executable list is open.
    pub in_list: bool,
    /// The executable found last.
    pub found: Option<String>,
}

/// An `ExecutableSearch` by its characters.
pub struct SearchView {
    pub in_list: bool,
    pub found: Option<Seq<char>>,
}

impl View for ExecutableSearch {
    type V = SearchView;

    open spec fn view(&self) -> SearchView {
        SearchView {
            in_list: self.in_list,
            found: match self.found {
                Some(name) => Some(name@),
                None => None,
            },
        }
    }
}

impl SearchView {
    /// A tag called `name` with these attributes opens an element.
    pub open spec fn entered(
        self,
        name: Seq<char>,
        attributes: Seq<Result<(Seq<char>, Seq<char>), Seq<char>>>,
    ) -> Result<SearchView, Seq<char>> {
        if name == "ExecutableList"@ {
            Ok(SearchView { in_list: true, found: self.found })
        } else if name == "Executable"@ && self.in_list {
            match name_attribute(attributes) {
                Err(e) => Err(e),
                Ok(None) => Ok(self),
                Ok(Some(value)) => Ok(SearchView { in_list: true, found: Some(value) }),
            }
        } else {
            Ok(self)
        }
    }

    /// A tag called `name` closes an element.
    pub open spec fn left(self, name: Seq<char>) -> SearchView {
        if name == "ExecutableList"@ {
            SearchView { in_list: false, found: self.found }
        } else {
            self
        }
    }
}

impl ExecutableSearch {
    /// A search that has seen nothing yet.
    pub fn new() -> (out: Self)
        ensures
            out@ == (SearchView { in_list: false, found: None }),
    {
        ExecutableSearch { in_list: false, found: None }
    }

    /// A tag called `name` opens an element. The first attribute `Name` of an executable in a list
    /// names it, and the executable named last is the one that counts.
    pub fn enter(&mut self, name: &str, attributes: &Vec<Result<(String, String), String>>) -> (r:
        Result<(), GameConfigError>)
        ensures
            match old(self)@.entered(name@, attributes_view(attributes@)) {
                Ok(next) => r is Ok && final(self)@ == next,
                Err(words) => r matches Err(GameConfigError::Xml(e)) && e@ == words && *final(self)
                    == *old(self),
            },
            name@ == "ExecutableList"@ ==> r is Ok && final(self).in_list && final(self)@.found
                == old(self)@.found,
            name@ != "ExecutableList"@ ==> final(self).in_list == old(self).in_list,
            name@ == "Executable"@ && r is Ok ==> final(self)@ == old(self)@ || exists|i: int|
                0 <= i < attributes@.len() && (#[trigger] attributes@[i] matches Ok((key, value))
                    && key@ == "Name"@ && final(self)@.found == Some(value@)) && forall|j: int|
                    0 <= j < i ==> (#[trigger] attributes@[j] matches Ok((key, _)) && key@
                        != "Name"@),
            name@ != "ExecutableList"@ && (name@ != "Executable"@ || !old(self).in_list) ==> r is Ok
                && *final(self) == *old(self),
    {
        proof {
            reveal_strlit("Executable");
            reveal_strlit("ExecutableList");
            assert("Executable"@.len() != "ExecutableList"@.len());
        }
        if same_text(name, "ExecutableList") {
            self.in_list = true;
            return Ok(());
        }
        if !same_text(name, "Executable") || !self.in_list {
            return Ok(());
        }
        let mut i: usize = 0;
        assert(attributes_view(attributes@).skip(0) =~= attributes_view(attributes@));
        while i < attributes.len()
            invariant
                i <= attributes@.len(),
                *self == *old(self),
                name_attribute(attributes_view(attributes@)) == name_attribute(
                    attributes_view(attributes@).skip(i as int),
                ),
                old(self)@.entered(name@, attributes_view(attributes@)) == match name_attribute(
                    attributes_view(attributes@),
                ) {
                    Err(e) => Err(e),
                    Ok(None) => Ok(old(self)@),
                    Ok(Some(value)) => Ok(SearchView { in_list: true, found: Some(value) }),
                },
                old(self).in_list,
                name@ == "Executable"@,
                name@ != "ExecutableList"@,
                forall|j: int|
                    0 <= j < i ==> (#[trigger] attributes@[j] matches Ok((key, _)) && key@
                        != "Name"@),
            decreases attributes@.len() - i,
        {
            let ghost rest = attributes_view(attributes@).skip(i as int);
            assert(rest[0] == attribute_view(attributes@[i as int]));
            match &attributes[i] {
                Err(e) => {
                    return Err(GameConfigError::Xml(String::from_str(e)));
                },
                Ok((key, value)) => {
                    if same_text(key, "Name") {
                        self.found = Some(String::from_str(value));
                        return Ok(());
                    }
                },
            }
            assert(rest.skip(1) =~= attributes_view(attributes@).skip(i + 1));
            i += 1;
        }
        Ok(())
    }

    /// A tag called `name` closes an element.
    pub fn leave(&mut self, name: &str)
        ensures
            final(self)@ == old(self)@.left(name@),
            final(self).in_list == (old(self).in_list && name@ != "ExecutableList"@),
            final(self).found == old(self).found,
    {
        if same_text(name, "ExecutableList") {
            self.in_list = false;
        }
    }

    /// The executable that counts, now that the text is at its end.
    pub fn finish(self) -> (r: Result<String, GameConfigError>)
        ensures
            match self@.found {
                Some(name) => r matches Ok(s) && s@ == name,
                None => r == Err::<String, GameConfigError>(GameConfigError::NoExecutable),
            },
    {
        match self.found {
            Some(name) => Ok(name),
            None => Err(GameConfigError::NoExecutable),
        }
    }
}

/// What a search finds in the events that are left. The attributes of a tag are those that
/// `attributes` gives for the tag and its name.
pub open spec fn search(
    state: SearchView,
    events: Seq<Result<XmlEventView, Seq<char>>>,
    attributes: spec_fn(Seq<char>, Seq<char>) -> Seq<Result<(Seq<char>, Seq<char>), Seq<char>>>,
) -> Result<Option<Seq<char>>, Seq<char>>
    decreases events.len(),
{
    if events.len() == 0 {
        Ok(state.found)
    } else {
        match events[0] {
            Err(e) => Err(e),
            Ok(XmlEventView::Eof) => Ok(state.found),
            Ok(XmlEventView::Other) => search(state, events.skip(1), attributes),
            Ok(XmlEventView::End { name }) => search(state.left(name), events.skip(1), attributes),
            Ok(XmlEventView::Start { name, tag }) => match state.entered(
                name,
                attributes(tag, name),
            ) {
                Err(e) => Err(e),
                Ok(next) => search(next, events.skip(1), attributes),
            },
        }
    }
}

/// The executable that a configuration names.
pub open spec fn executable_in(text: Seq<char>) -> Result<Option<Seq<char>>, Seq<char>> {
    search(
        SearchView { in_list: false, found: None },
        xml_events(text),
        |tag: Seq<char>, name: Seq<char>| attributes_of(tag, name),
    )
}

/// Where no executable list is open and none is opened, no executable is found.
pub proof fn executables_count_only_in_a_list(
    state: SearchView,
    events: Seq<Result<XmlEventView, Seq<char>>>,
    attributes: spec_fn(Seq<char>, Seq<char>) -> Seq<Result<(Seq<char>, Seq<char>), Seq<char>>>,
)
    requires
        !state.in_list,
        forall|i: int|
            0 <= i < events.len() ==> !(#[trigger] events[i] matches Ok(
                XmlEventView::Start { name, .. },
            ) && name == "ExecutableList"@),
    ensures
        search(state, events, attributes) is Err || search(state, events, attributes) == Ok::<
            Option<Seq<char>>,
            Seq<char>,
        >(state.found),
    decreases events.len(),
{
    if events.len() > 0 {
        let rest = events.skip(1);
        assert forall|i: int| 0 <= i < rest.len() implies !(#[trigger] rest[i] matches Ok(
            XmlEventView::Start { name, .. },
        ) && name == "ExecutableList"@) by {
            assert(rest[i] == events[i + 1]);
        }
        assert(!(events[0] matches Ok(XmlEventView::Start { name, .. }) && name
            == "ExecutableList"@));
        match events[0] {
            Ok(XmlEventView::End { name }) => {
                executables_count_only_in_a_list(state.left(name), rest, attributes);
            },
            _ => {
                executables_count_only_in_a_list(state, rest, attributes);
            },
        }
    }
}

/// What was found earlier counts only if nothing is found later.
pub proof fn the_executable_named_last_counts(
    in_list: bool,
    found1: Option<Seq<char>>,
    found2: Option<Seq<char>>,
    events: Seq<Result<XmlEventView, Seq<char>>>,
    attributes: spec_fn(Seq<char>, Seq<char>) -> Seq<Result<(Seq<char>, Seq<char>), Seq<char>>>,
)
    ensures
        ({
            let r1 = search(SearchView { in_list, found: found1 }, events, attributes);
            let r2 = search(SearchView { in_list, found: found2 }, events, attributes);
            r1 == r2 || (r1 == Ok::<Option<Seq<char>>, Seq<char>>(found1) && r2 == Ok::<
                Option<Seq<char>>,
                Seq<char>,
            >(found2))
        }),
    decreases events.len(),
{
    if events.len() > 0 {
        let rest = events.skip(1);
        the_executable_named_last_counts(in_list, found1, found2, rest, attributes);
        the_executable_named_last_counts(true, found1, found2, rest, attributes);
        the_executable_named_last_counts(false, found1, found2, rest, attributes);
    }
}

/// Finds the executable that a configuration names.
pub fn find_executable_from_config(content: &str) -> (r: Result<String, GameConfigError>)
    ensures
        event_run(xml_events(content@)),
        match executable_in(content@) {
            Err(words) => r matches Err(GameConfigError::Xml(e)) && e@ == words,
            Ok(None) => r == Err::<String, GameConfigError>(GameConfigError::NoExecutable),
            Ok(Some(name)) => r matches Ok(s) && s@ == name,
        },
{
    let mut reader = open_reader(content);
    let mut executables = ExecutableSearch::new();
    let mut buf: Vec<u8> = Vec::new();
    let ghost named = |tag: Seq<char>, name: Seq<char>| attributes_of(tag, name);
    loop
        invariant_except_break
            event_run(events_left(&reader)),
            event_run(xml_events(content@)),
            named == (|tag: Seq<char>, name: Seq<char>| attributes_of(tag, name)),
            search(executables@, events_left(&reader), named) == executable_in(content@),
        ensures
            event_run(xml_events(content@)),
            executable_in(content@) == Ok::<Option<Seq<char>>, Seq<char>>(executables@.found),
        decreases events_left(&reader).len(),
    {
        let ghost left = events_left(&reader);
        let event = read_event(&mut reader, &mut buf);
        assert(is_last(left[0]) <==> left.len() == 1);
        match event {
            Ok(XmlEvent::Start { name, tag }) => {
                let attributes = if executables.in_list && same_text(&name, "Executable") {
                    read_attributes(&tag, &name)
                } else {
                    Vec::new()
                };
                match executables.enter(&name, &attributes) {
                    Ok(()) => {},
                    Err(e) => {
                        return Err(e);
                    },
                }
            },
            Ok(XmlEvent::End { name }) => {
                executables.leave(&name);
            },
            Ok(XmlEvent::Eof) => {
                break;
            },
            Ok(XmlEvent::Other) => {},
            Err(e) => {
                return Err(GameConfigError::Xml(e));
            },
        }
        let ghost rest = left.skip(1);
        assert forall|i: int| 0 <= i < rest.len() implies (is_last(#[trigger] rest[i]) <==> i
            == rest.len() - 1) by {
            assert(rest[i] == left[i + 1]);
        }
        buf.clear();
    }
    executables.finish()
}

proof fn lemma_first_name(attributes: Seq<Result<(Seq<char>, Seq<char>), Seq<char>>>) -> (at: int)
    ensures
        match name_attribute(attributes) {
            Ok(Some(value)) => 0 <= at < attributes.len() && attributes[at] == Ok::<
                (Seq<char>, Seq<char>),
                Seq<char>,
            >(("Name"@, value)),
            Ok(None) => at == attributes.len(),
            Err(e) => 0 <= at < attributes.len() && attributes[at] == Err::<
                (Seq<char>, Seq<char>),
                Seq<char>,
            >(e),
        },
        forall|j: int|
            0 <= j < at ==> #[trigger] attributes[j] is Ok && attributes[j]->Ok_0.0 != "Name"@,
    decreases attributes.len(),
{
    if attributes.len() == 0 {
        0
    } else if attributes[0] is Err || attributes[0]->Ok_0.0 == "Name"@ {
        0
    } else {
        let rest = attributes.skip(1);
        let i = lemma_first_name(rest);
        assert forall|j: int| 0 <= j < i + 1 implies #[trigger] attributes[j] is Ok
            && attributes[j]->Ok_0.0 != "Name"@ by {
            if j > 0 {
                assert(rest[j - 1] == attributes[j]);
            }
        }
        if i < rest.len() {
            assert(attributes[i + 1] == rest[i]);
        }
        i + 1
    }
}

/// An executable in a list is named by the value of its attribute called `Name`, and of no other:
/// of the first one, at the place `at` that comes back. Without such an attribute the tag changes
/// nothing, and an attribute before it that cannot be read is the error.
pub proof fn an_executable_is_named_by_its_name_attribute(
    state: SearchView,
    attributes: Seq<Result<(Seq<char>, Seq<char>), Seq<char>>>,
) -> (at: int)
    requires
        state.in_list,
    ensures
        forall|j: int|
            0 <= j < at ==> #[trigger] attributes[j] is Ok && attributes[j]->Ok_0.0 != "Name"@,
        0 <= at <= attributes.len(),
        at == attributes.len() ==> state.entered("Executable"@, attributes) == Ok::<
            SearchView,
            Seq<char>,
        >(state),
        at < attributes.len() ==> match attributes[at] {
            Ok((key, value)) => key == "Name"@ && (state.entered("Executable"@, attributes) matches Ok(
                next,
            ) && next.in_list && next.found == Some(value)),
            Err(e) => state.entered("Executable"@, attributes) == Err::<SearchView, Seq<char>>(e),
        },
{
    reveal_strlit("Executable");
    reveal_strlit("ExecutableList");
    assert("Executable"@.len() != "ExecutableList"@.len());
    lemma_first_name(attributes)
}

/// Only the tags of an executable list, and the executables in one, change anything: a list opens
/// with its start and closes with its end, and neither forgets what was found.
pub proof fn a_search_follows_executable_lists(
    state: SearchView,
    name: Seq<char>,
    attributes: Seq<Result<(Seq<char>, Seq<char>), Seq<char>>>,
)
    ensures
        name == "ExecutableList"@ ==> (state.entered(name, attributes) matches Ok(next)
            && next.in_list && next.found == state.found),
        name != "ExecutableList"@ && (name != "Executable"@ || !state.in_list) ==> state.entered(
            name,
            attributes,
        ) == Ok::<SearchView, Seq<char>>(state),
        name == "ExecutableList"@ ==> !state.left(name).in_list,
        name != "ExecutableList"@ ==> state.left(name).in_list == state.in_list,
        state.left(name).found == state.found,
{
}

/// The event opens an executable list.
pub open spec fn opens_list(event: Result<XmlEventView, Seq<char>>) -> bool {
    event matches Ok(XmlEventView::Start { name, .. }) && name == "ExecutableList"@
}

/// The event closes an executable list.
pub open spec fn closes_list(event: Result<XmlEventView, Seq<char>>) -> bool {
    event matches Ok(XmlEventView::End { name }) && name == "ExecutableList"@
}

/// An executable list was opened before place `i`, and not closed since.
pub open spec fn list_is_open(events: Seq<Result<XmlEventView, Seq<char>>>, i: int) -> bool {
    exists|j: int|
        0 <= j < i && opens_list(#[trigger] events[j]) && forall|k: int|
            j < k < i ==> !closes_list(#[trigger] events[k])
}

/// The executable tag at place `i` stands in an open list, and `value` is that of its first attribute
/// `Name`.
pub open spec fn names_executable(
    events: Seq<Result<XmlEventView, Seq<char>>>,
    attributes: spec_fn(Seq<char>, Seq<char>) -> Seq<Result<(Seq<char>, Seq<char>), Seq<char>>>,
    i: int,
    value: Seq<char>,
) -> bool {
    &&& 0 <= i < events.len()
    &&& events[i] matches Ok(XmlEventView::Start { name, tag })
    &&& name == "Executable"@
    &&& list_is_open(events, i)
    &&& is_first_name(attributes(tag, name), value)
}

/// `value` is that of the first attribute called `Name`, and all before it can be read.
pub open spec fn is_first_name(
    attributes: Seq<Result<(Seq<char>, Seq<char>), Seq<char>>>,
    value: Seq<char>,
) -> bool {
    exists|a: int|
        0 <= a < attributes.len() && #[trigger] attributes[a] == Ok::<
            (Seq<char>, Seq<char>),
            Seq<char>,
        >(("Name"@, value)) && forall|b: int|
            0 <= b < a ==> #[trigger] attributes[b] is Ok && attributes[b]->Ok_0.0 != "Name"@
}

/// What was found is what the last naming before place `n` gave.
spec fn found_before(
    events: Seq<Result<XmlEventView, Seq<char>>>,
    attributes: spec_fn(Seq<char>, Seq<char>) -> Seq<Result<(Seq<char>, Seq<char>), Seq<char>>>,
    n: int,
    found: Option<Seq<char>>,
) -> bool {
    match found {
        Some(value) => exists|i: int|
            0 <= i < n && #[trigger] names_executable(events, attributes, i, value) && forall|
                k: int,
                w: Seq<char>,
            |
                i < k < n ==> !#[trigger] names_executable(events, attributes, k, w),
        None => forall|k: int, w: Seq<char>|
            0 <= k < n ==> !#[trigger] names_executable(events, attributes, k, w),
    }
}

proof fn lemma_list_is_open(events: Seq<Result<XmlEventView, Seq<char>>>, n: int)
    requires
        0 <= n < events.len(),
    ensures
        list_is_open(events, n + 1) <==> opens_list(events[n]) || (list_is_open(events, n)
            && !closes_list(events[n])),
{
    if opens_list(events[n]) {
        assert(list_is_open(events, n + 1));
    }
    if list_is_open(events, n) && !closes_list(events[n]) {
        let j = choose|j: int|
            0 <= j < n && opens_list(#[trigger] events[j]) && forall|k: int|
                j < k < n ==> !closes_list(#[trigger] events[k]);
        assert(opens_list(events[j]));
        assert forall|k: int| j < k < n + 1 implies !closes_list(#[trigger] events[k]) by {}
    }
    if list_is_open(events, n + 1) && !opens_list(events[n]) {
        let j = choose|j: int|
            0 <= j < n + 1 && opens_list(#[trigger] events[j]) && forall|k: int|
                j < k < n + 1 ==> !closes_list(#[trigger] events[k]);
        assert(j != n);
        assert(!closes_list(events[n]));
        assert(opens_list(events[j]) && forall|k: int|
            j < k < n ==> !closes_list(#[trigger] events[k]));
    }
}

proof fn lemma_first_name_is_unique(
    attributes: Seq<Result<(Seq<char>, Seq<char>), Seq<char>>>,
    value: Seq<char>,
)
    ensures
        is_first_name(attributes, value) <==> name_attribute(attributes) == Ok::<
            Option<Seq<char>>,
            Seq<char>,
        >(Some(value)),
{
    let at = lemma_first_name(attributes);
    if is_first_name(attributes, value) {
        let a = choose|a: int|
            0 <= a < attributes.len() && #[trigger] attributes[a] == Ok::<
                (Seq<char>, Seq<char>),
                Seq<char>,
            >(("Name"@, value)) && forall|b: int|
                0 <= b < a ==> #[trigger] attributes[b] is Ok && attributes[b]->Ok_0.0 != "Name"@;
        if a < at {
            assert(attributes[a]->Ok_0.0 != "Name"@);
        } else if at < a {
            assert(attributes[at] is Ok && attributes[at]->Ok_0.0 != "Name"@);
        }
    }
}

proof fn lemma_search(
    events: Seq<Result<XmlEventView, Seq<char>>>,
    attributes: spec_fn(Seq<char>, Seq<char>) -> Seq<Result<(Seq<char>, Seq<char>), Seq<char>>>,
    n: int,
    state: SearchView,
)
    requires
        event_run(events),
        0 <= n < events.len(),
        state.in_list == list_is_open(events, n),
        found_before(events, attributes, n, state.found),
    ensures
        search(state, events.skip(n), attributes) matches Ok(found) ==> found_before(
            events,
            attributes,
            events.len() as int,
            found,
        ),
        search(state, events.skip(n), attributes) matches Err(e) ==> error_in(
            events,
            attributes,
            e,
        ),
        events.last() is Err ==> search(state, events.skip(n), attributes) is Err,
    decreases events.len() - n,
{
    let rest = events.skip(n);
    assert(rest[0] == events[n]);
    assert(rest.skip(1) =~= events.skip(n + 1));
    assert(is_last(events[n]) <==> n == events.len() - 1);
    lemma_list_is_open(events, n);
    assert("Executable"@.len() != "ExecutableList"@.len()) by {
        reveal_strlit("Executable");
        reveal_strlit("ExecutableList");
    }
    match events[n] {
        Err(e) => {
            assert(events[n] == Err::<XmlEventView, Seq<char>>(e));
        },
        Ok(XmlEventView::Eof) => {
            lemma_unnamed(events, attributes, n, state.found);
        },
        Ok(XmlEventView::Other) => {
            lemma_unnamed(events, attributes, n, state.found);
            lemma_search(events, attributes, n + 1, state);
        },
        Ok(XmlEventView::End { name }) => {
            lemma_unnamed(events, attributes, n, state.found);
            lemma_search(events, attributes, n + 1, state.left(name));
        },
        Ok(XmlEventView::Start { name, tag }) => {
            let given = attributes(tag, name);
            match state.entered(name, given) {
                Err(e) => {
                    let at = lemma_first_name(given);
                    assert(given[at] == Err::<(Seq<char>, Seq<char>), Seq<char>>(e));
                    assert(attribute_error(events, attributes, n, e));
                },
                Ok(next) => {
                    if name == "Executable"@ && state.in_list && name_attribute(given) != Ok::<
                        Option<Seq<char>>,
                        Seq<char>,
                    >(None) {
                        let value = next.found->0;
                        lemma_first_name_is_unique(given, value);
                        assert(names_executable(events, attributes, n, value));
                        assert(found_before(events, attributes, n + 1, next.found));
                    } else {
                        assert forall|w: Seq<char>| !#[trigger] names_executable(
                            events,
                            attributes,
                            n,
                            w,
                        ) by {
                            lemma_first_name_is_unique(given, w);
                        }
                        lemma_unnamed(events, attributes, n, state.found);
                    }
                    lemma_search(events, attributes, n + 1, next);
                },
            }
        },
    }
}

proof fn lemma_unnamed(
    events: Seq<Result<XmlEventView, Seq<char>>>,
    attributes: spec_fn(Seq<char>, Seq<char>) -> Seq<Result<(Seq<char>, Seq<char>), Seq<char>>>,
    n: int,
    found: Option<Seq<char>>,
)
    requires
        found_before(events, attributes, n, found),
        0 <= n,
        forall|w: Seq<char>| !#[trigger] names_executable(events, attributes, n, w),
    ensures
        found_before(events, attributes, n + 1, found),
{
    if let Some(value) = found {
        let i = choose|i: int|
            0 <= i < n && #[trigger] names_executable(events, attributes, i, value) && forall|
                k: int,
                w: Seq<char>,
            |
                i < k < n ==> !#[trigger] names_executable(events, attributes, k, w);
        assert(names_executable(events, attributes, i, value));
        assert forall|k: int, w: Seq<char>| i < k < n + 1 implies !#[trigger] names_executable(
            events,
            attributes,
            k,
            w,
        ) by {}
    }
}

/// The executable tag at place `i` stands in an open list, and one of its attributes cannot be read.
pub open spec fn attribute_error(
    events: Seq<Result<XmlEventView, Seq<char>>>,
    attributes: spec_fn(Seq<char>, Seq<char>) -> Seq<Result<(Seq<char>, Seq<char>), Seq<char>>>,
    i: int,
    words: Seq<char>,
) -> bool {
    &&& 0 <= i < events.len()
    &&& events[i] matches Ok(XmlEventView::Start { name, tag })
    &&& name == "Executable"@
    &&& list_is_open(events, i)
    &&& attributes(tag, name).contains(Err(words))
}

/// These are the words of an event that is an error, or of an attribute of a listed executable.
pub open spec fn error_in(
    events: Seq<Result<XmlEventView, Seq<char>>>,
    attributes: spec_fn(Seq<char>, Seq<char>) -> Seq<Result<(Seq<char>, Seq<char>), Seq<char>>>,
    words: Seq<char>,
) -> bool {
    ||| events.contains(Err(words))
    ||| exists|i: int| #[trigger] attribute_error(events, attributes, i, words)
}

/// The executable that a configuration names is the value of the attribute `Name` of an executable in
/// an open list, and no executable behind it in an open list has such an attribute. None is named
/// exactly if no executable in an open list has one. A configuration whose text breaks off in an
/// error gives an error, and any error is one of the text or of a listed executable's attributes.
pub proof fn the_last_listed_executable_with_a_name_is_found(
    content: &str,
    r: Result<String, GameConfigError>,
)
    requires
        call_ensures(find_executable_from_config, (content,), r),
    ensures
        ({
            let events = xml_events(content@);
            let attributes = |tag: Seq<char>, name: Seq<char>| attributes_of(tag, name);
            &&& r matches Ok(found) ==> exists|i: int| #[trigger]
                names_executable(events, attributes, i, found@) && forall|k: int, w: Seq<char>|
                    i < k ==> !#[trigger] names_executable(events, attributes, k, w)
            &&& r matches Err(GameConfigError::NoExecutable) ==> forall|k: int, w: Seq<char>|
                !#[trigger] names_executable(events, attributes, k, w)
            &&& r matches Err(GameConfigError::Xml(e)) ==> error_in(events, attributes, e@)
            &&& events.last() is Err ==> r is Err && r->Err_0 is Xml
            &&& r is Err ==> r->Err_0 is NoExecutable || r->Err_0 is Xml
        }),
{
    let events = xml_events(content@);
    let attributes = |tag: Seq<char>, name: Seq<char>| attributes_of(tag, name);
    let state = SearchView { in_list: false, found: None };
    assert(events.skip(0) =~= events);
    assert(!list_is_open(events, 0));
    lemma_search(events, attributes, 0, state);
    let result = executable_in(content@);
    assert(result == search(state, events, attributes));
    if let Ok(Some(value)) = result {
        let i = choose|i: int|
            0 <= i < events.len() && #[trigger] names_executable(events, attributes, i, value)
                && forall|k: int, w: Seq<char>|
                i < k < events.len() ==> !#[trigger] names_executable(events, attributes, k, w);
        assert(names_executable(events, attributes, i, value));
        assert forall|k: int, w: Seq<char>| i < k implies !#[trigger] names_executable(
            events,
            attributes,
            k,
            w,
        ) by {}
    }
}

/// The configuration that is read is one that is there, and the usual spelling goes before the other.
pub proof fn an_existing_configuration_is_chosen(
    lower_exists: bool,
    upper_exists: bool,
    r: Result<String, GameConfigError>,
)
    requires
        call_ensures(choose_config, (lower_exists, upper_exists), r),
    ensures
        r is Ok <==> lower_exists || upper_exists,
        r matches Ok(name) ==> name@ == if lower_exists {
            "MicrosoftGame.config"@
        } else {
            "MicrosoftGame.Config"@
        },
        r is Err ==> r->Err_0 is NotFound,
{
}

/// An error that has a cause is told in the words of its cause.
pub proof fn a_config_error_is_told_by_its_cause(error: GameConfigError, words: String)
    requires
        call_ensures(GameConfigError::message, (&error,), words),
    ensures
        match error {
            GameConfigError::NotFound => words@ == "MicrosoftGame.config not found"@,
            GameConfigError::Io(e) => words@ == e@,
            GameConfigError::Xml(e) => words@ == e@,
            GameConfigError::NoExecutable => words@
                == "No executable found in MicrosoftGame.config"@,
        },
{
}

} // verus!
