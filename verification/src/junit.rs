//! The adapter of JUnit reports: the suites of an XML text, and their facts.
use vstd::prelude::*;
use quick_xml::events::Event;
use quick_xml::Reader;
use crate::ingest::{
    base, base_fact, facts_result, just, put_array, put_object, slug, slug_suffix, slug_text,
    version_suffix, with_list, with_value, Source, SourceV,
};
use crate::json::{items_view, Json, JsonV};
use crate::text::{cat5, opt_view, parse_unsigned, same, to_u64};

verus! {

// ---------------------------------------------------------------------------
// Events
// ---------------------------------------------------------------------------
/// An attribute of an element.
#[derive(Debug)]
pub struct XmlAttribute {
    pub key: String,
    pub value: String,
}

pub struct AttributeV {
    pub key: Seq<char>,
    pub value: Seq<char>,
}

pub open spec fn attribute_views(v: Seq<XmlAttribute>) -> Seq<AttributeV> {
    v.map_values(|a: XmlAttribute| AttributeV { key: a.key@, value: a.value@ })
}

/// An element's tag: its name, and its attributes or why they cannot be read.
#[derive(Debug)]
pub struct XmlTag {
    pub name: String,
    pub attributes: Result<Vec<XmlAttribute>, String>,
}

pub struct TagV {
    pub name: Seq<char>,
    pub attributes: Result<Seq<AttributeV>, Seq<char>>,
}

impl View for XmlTag {
    type V = TagV;

    open spec fn view(&self) -> TagV {
        TagV {
            name: self.name@,
            attributes: match self.attributes {
                Ok(v) => Ok(attribute_views(v@)),
                Err(m) => Err(m@),
            },
        }
    }
}

/// What is read next of an XML text.
#[derive(Debug)]
pub enum XmlEvent {
    Start(XmlTag),
    Empty(XmlTag),
    End(String),
    /// Text, comments and the like.
    Other,
    Eof,
    /// The text is not well formed from here on.
    Broken(String),
}

pub enum XmlEventV {
    Start(TagV),
    Empty(TagV),
    End(Seq<char>),
    Other,
    Eof,
    Broken(Seq<char>),
}

impl View for XmlEvent {
    type V = XmlEventV;

    open spec fn view(&self) -> XmlEventV {
        match self {
            XmlEvent::Start(t) => XmlEventV::Start(t@),
            XmlEvent::Empty(t) => XmlEventV::Empty(t@),
            XmlEvent::End(n) => XmlEventV::End(n@),
            XmlEvent::Other => XmlEventV::Other,
            XmlEvent::Eof => XmlEventV::Eof,
            XmlEvent::Broken(m) => XmlEventV::Broken(m@),
        }
    }
}

/// `quick_xml::Reader`, which reads a text event by event.
#[verifier::external_type_specification]
#[verifier::external_body]
#[verifier::reject_recursive_types(R)]
pub struct ExReader<R>(quick_xml::Reader<R>);

/// The events of a text, up to its end or to what is not well formed, as
/// `quick_xml::Reader` finds them.
pub uninterp spec fn xml_events(text: Seq<char>) -> Seq<XmlEventV>;

/// The events that a reader has not handed out yet.
pub uninterp spec fn xml_rest(reader: Reader<&[u8]>) -> Seq<XmlEventV>;

/// `quick_xml::Reader::from_str`, trimming text: what the reader hands out is a function
/// of the text.
#[verifier::external_body]
fn open_xml<'a>(text: &'a str) -> (r: Reader<&'a [u8]>)
    ensures
        xml_rest(r) == xml_events(text@),
{
    let mut reader = Reader::from_str(text);
    reader.config_mut().trim_text(true);
    reader
}

/// `quick_xml::events::BytesStart`, the tag of an element.
#[verifier::external_type_specification]
#[verifier::external_body]
pub struct ExBytesStart<'a>(quick_xml::events::BytesStart<'a>);

/// `quick_xml::events::BytesStart`: the name of the tag, and its attributes, each with
/// its value unescaped, in order.
#[verifier::external_body]
fn tag_of(tag: &quick_xml::events::BytesStart<'_>) -> XmlTag {
    let name = String::from_utf8_lossy(tag.name().as_ref()).into_owned();
    let attributes = tag.attributes().with_checks(false).map(|attribute| {
        let attribute = attribute.map_err(|error| error.to_string())?;
        let key = String::from_utf8_lossy(attribute.key.as_ref()).into_owned();
        let value = attribute.decode_and_unescape_value(tag.decoder());
        Ok(XmlAttribute { key, value: value.map_err(|error| error.to_string())?.to_string() })
    }).collect();
    XmlTag { name, attributes }
}

/// `quick_xml::Reader::read_event`: hands out the next event. There is one at least, and
/// the end of the text or what is not well formed comes last.
#[verifier::external_body]
fn next_event(reader: &mut Reader<&[u8]>) -> (r: XmlEvent)
    ensures
        xml_rest(*old(reader)).len() > 0 && r@ == xml_rest(*old(reader))[0],
        r@ is Eof || r@ is Broken || xml_rest(*final(reader)) == xml_rest(*old(reader)).skip(1),
{
    match reader.read_event() {
        Ok(Event::Start(tag)) => XmlEvent::Start(tag_of(&tag)),
        Ok(Event::Empty(tag)) => XmlEvent::Empty(tag_of(&tag)),
        Ok(Event::End(tag)) => {
            XmlEvent::End(String::from_utf8_lossy(tag.name().as_ref()).into_owned())
        },
        Ok(Event::Eof) => XmlEvent::Eof,
        Ok(_) => XmlEvent::Other,
        Err(error) => XmlEvent::Broken(error.to_string()),
    }
}

// ---------------------------------------------------------------------------
// Suites
// ---------------------------------------------------------------------------
/// A test case.
#[derive(Debug)]
pub struct Case {
    pub name: String,
    pub classname: Option<String>,
    pub time: Option<String>,
    pub status: String,
}

pub struct CaseV {
    pub name: Seq<char>,
    pub classname: Option<Seq<char>>,
    pub time: Option<Seq<char>>,
    pub status: Seq<char>,
}

impl View for Case {
    type V = CaseV;

    open spec fn view(&self) -> CaseV {
        CaseV {
            name: self.name@,
            classname: opt_view(self.classname),
            time: opt_view(self.time),
            status: self.status@,
        }
    }
}

/// A test suite.
#[derive(Debug)]
pub struct Suite {
    pub name: String,
    pub tests: u64,
    pub failures: u64,
    pub errors: u64,
    pub skipped: u64,
    pub time: Option<String>,
    pub cases: Vec<Case>,
}

pub struct SuiteV {
    pub name: Seq<char>,
    pub tests: nat,
    pub failures: nat,
    pub errors: nat,
    pub skipped: nat,
    pub time: Option<Seq<char>>,
    pub cases: Seq<CaseV>,
}

pub open spec fn case_views(v: Seq<Case>) -> Seq<CaseV> {
    v.map_values(|c: Case| c@)
}

impl View for Suite {
    type V = SuiteV;

    open spec fn view(&self) -> SuiteV {
        SuiteV {
            name: self.name@,
            tests: self.tests as nat,
            failures: self.failures as nat,
            errors: self.errors as nat,
            skipped: self.skipped as nat,
            time: opt_view(self.time),
            cases: case_views(self.cases@),
        }
    }
}

/// The value of an attribute among the first `n`; the last one counts.
pub open spec fn attribute(a: Seq<AttributeV>, key: Seq<char>, n: int) -> Option<Seq<char>>
    decreases n,
{
    if n <= 0 {
        None
    } else if a[n - 1].key == key {
        Some(a[n - 1].value)
    } else {
        attribute(a, key, n - 1)
    }
}

pub open spec fn attr(a: Seq<AttributeV>, key: Seq<char>) -> Option<Seq<char>> {
    attribute(a, key, a.len() as int)
}

pub fn attribute_value(attributes: &Vec<XmlAttribute>, key: &str) -> (r: Option<String>)
    ensures
        opt_view(r) == attr(attribute_views(attributes@), key@),
{
    let ghost a = attribute_views(attributes@);
    let mut n: usize = attributes.len();
    while n > 0
        invariant
            n <= attributes@.len(),
            a == attribute_views(attributes@),
            attr(a, key@) == attribute(a, key@, n as int),
        decreases n,
    {
        let i = n - 1;
        assert(a[i as int] == (AttributeV {
            key: attributes@[i as int].key@,
            value: attributes@[i as int].value@,
        }));
        if same(attributes[i].key.as_str(), key) {
            return Some(attributes[i].value.clone());
        }
        n = i;
    }
    None
}

/// The number that a text writes, zero where it writes none.
pub open spec fn number_or_zero(text: Option<Seq<char>>) -> nat {
    match text {
        Some(s) => match parse_unsigned(s, u64::MAX as int) {
            Some(n) => n,
            None => 0,
        },
        None => 0,
    }
}

pub fn parse_u64(value: &Option<String>) -> (r: u64)
    ensures
        r == number_or_zero(opt_view(*value)),
{
    match value {
        Some(s) => match to_u64(s.as_str()) {
            Some(n) => n,
            None => 0,
        },
        None => 0,
    }
}

pub open spec fn text_or_empty(o: Option<Seq<char>>) -> Seq<char> {
    match o {
        Some(s) => s,
        None => Seq::empty(),
    }
}

fn or_empty(o: Option<String>) -> (r: String)
    ensures
        r@ == text_or_empty(opt_view(o)),
{
    match o {
        Some(s) => s,
        None => String::new(),
    }
}

pub open spec fn suite_of(a: Seq<AttributeV>) -> SuiteV {
    SuiteV {
        name: text_or_empty(attr(a, "name"@)),
        tests: number_or_zero(attr(a, "tests"@)),
        failures: number_or_zero(attr(a, "failures"@)),
        errors: number_or_zero(attr(a, "errors"@)),
        skipped: number_or_zero(attr(a, "skipped"@)),
        time: attr(a, "time"@),
        cases: Seq::empty(),
    }
}

pub open spec fn case_of(a: Seq<AttributeV>) -> CaseV {
    CaseV {
        name: text_or_empty(attr(a, "name"@)),
        classname: attr(a, "classname"@),
        time: attr(a, "time"@),
        status: "passed"@,
    }
}

pub fn suite_from_attrs(attributes: &Vec<XmlAttribute>) -> (r: Suite)
    ensures
        r@ == suite_of(attribute_views(attributes@)),
{
    let cases: Vec<Case> = Vec::new();
    assert(case_views(cases@) =~= Seq::empty());
    Suite {
        name: or_empty(attribute_value(attributes, "name")),
        tests: parse_u64(&attribute_value(attributes, "tests")),
        failures: parse_u64(&attribute_value(attributes, "failures")),
        errors: parse_u64(&attribute_value(attributes, "errors")),
        skipped: parse_u64(&attribute_value(attributes, "skipped")),
        time: attribute_value(attributes, "time"),
        cases,
    }
}

pub fn case_from_attrs(attributes: &Vec<XmlAttribute>) -> (r: Case)
    ensures
        r@ == case_of(attribute_views(attributes@)),
{
    Case {
        name: or_empty(attribute_value(attributes, "name")),
        classname: attribute_value(attributes, "classname"),
        time: attribute_value(attributes, "time"),
        status: "passed".to_owned(),
    }
}

// ---------------------------------------------------------------------------
// Reading suites
// ---------------------------------------------------------------------------
/// What was read so far: the suites that ended, and the suite and the case that are
/// open.
#[derive(Debug)]
pub struct JunitState {
    pub suites: Vec<Suite>,
    pub suite: Option<Suite>,
    pub case: Option<Case>,
}

pub struct JunitV {
    pub suites: Seq<SuiteV>,
    pub suite: Option<SuiteV>,
    pub case: Option<CaseV>,
}

pub open spec fn suite_views(v: Seq<Suite>) -> Seq<SuiteV> {
    v.map_values(|s: Suite| s@)
}

impl View for JunitState {
    type V = JunitV;

    open spec fn view(&self) -> JunitV {
        JunitV {
            suites: suite_views(self.suites@),
            suite: match self.suite {
                Some(s) => Some(s@),
                None => None,
            },
            case: match self.case {
                Some(c) => Some(c@),
                None => None,
            },
        }
    }
}

pub open spec fn no_suites() -> JunitV {
    JunitV { suites: Seq::empty(), suite: None, case: None }
}

/// A suite with a case at its end.
pub open spec fn with_case(suite: SuiteV, case: CaseV) -> SuiteV {
    SuiteV { cases: suite.cases.push(case), ..suite }
}

/// What a verdict inside a case does to it.
pub open spec fn judged(state: JunitV, name: Seq<char>) -> JunitV {
    match state.case {
        Some(c) => JunitV {
            case: Some(
                CaseV {
                    status: if name == "skipped"@ {
                        "skipped"@
                    } else {
                        "failed"@
                    },
                    ..c
                },
            ),
            ..state
        },
        None => state,
    }
}

pub open spec fn is_verdict(name: Seq<char>) -> bool {
    name == "failure"@ || name == "error"@ || name == "skipped"@
}

/// What an event adds to what was read; an error where attributes that matter cannot
/// be read.
pub open spec fn junit_step(state: JunitV, event: XmlEventV) -> Result<JunitV, Seq<char>> {
    match event {
        XmlEventV::Start(tag) => if tag.name == "testsuite"@ {
            match tag.attributes {
                Ok(a) => Ok(JunitV { suite: Some(suite_of(a)), ..state }),
                Err(m) => Err(m),
            }
        } else if tag.name == "testcase"@ {
            match tag.attributes {
                Ok(a) => Ok(JunitV { case: Some(case_of(a)), ..state }),
                Err(m) => Err(m),
            }
        } else if is_verdict(tag.name) {
            Ok(judged(state, tag.name))
        } else {
            Ok(state)
        },
        XmlEventV::Empty(tag) => if tag.name == "testsuite"@ {
            match tag.attributes {
                Ok(a) => Ok(JunitV { suites: state.suites.push(suite_of(a)), ..state }),
                Err(m) => Err(m),
            }
        } else if tag.name == "testcase"@ {
            match state.suite {
                Some(s) => match tag.attributes {
                    Ok(a) => Ok(JunitV { suite: Some(with_case(s, case_of(a))), ..state }),
                    Err(m) => Err(m),
                },
                None => Ok(state),
            }
        } else if is_verdict(tag.name) {
            Ok(judged(state, tag.name))
        } else {
            Ok(state)
        },
        XmlEventV::End(name) => if name == "testsuite"@ {
            match state.suite {
                Some(s) => Ok(JunitV { suites: state.suites.push(s), suite: None, ..state }),
                None => Ok(state),
            }
        } else if name == "testcase"@ {
            match (state.suite, state.case) {
                (Some(s), Some(c)) => Ok(
                    JunitV { suite: Some(with_case(s, c)), case: None, ..state },
                ),
                _ => Ok(JunitV { case: None, ..state }),
            }
        } else {
            Ok(state)
        },
        _ => Ok(state),
    }
}

/// The suites of what is still to be read after what was read.
pub open spec fn suites_from(state: JunitV, events: Seq<XmlEventV>) -> Result<
    Seq<SuiteV>,
    Seq<char>,
>
    decreases events.len(),
{
    if events.len() == 0 {
        Ok(state.suites)
    } else {
        match events[0] {
            XmlEventV::Eof => Ok(state.suites),
            XmlEventV::Broken(m) => Err(m),
            event => match junit_step(state, event) {
                Ok(next) => suites_from(next, events.skip(1)),
                Err(m) => Err(m),
            },
        }
    }
}

fn push_case(suite: Suite, case: Case) -> (r: Suite)
    ensures
        r@ == with_case(suite@, case@),
{
    let ghost before = suite@;
    let ghost c = case@;
    let mut suite = suite;
    suite.cases.push(case);
    assert(case_views(suite.cases@) =~= before.cases.push(c));
    suite
}

fn push_suite(suites: Vec<Suite>, suite: Suite) -> (r: Vec<Suite>)
    ensures
        suite_views(r@) == suite_views(suites@).push(suite@),
{
    let ghost before = suite_views(suites@);
    let ghost s = suite@;
    let mut suites = suites;
    suites.push(suite);
    assert(suite_views(suites@) =~= before.push(s));
    suites
}

fn judge(state: JunitState, name: &str) -> (r: JunitState)
    ensures
        r@ == judged(state@, name@),
{
    let status = if same(name, "skipped") {
        "skipped"
    } else {
        "failed"
    };
    match state.case {
        Some(c) => JunitState {
            suites: state.suites,
            suite: state.suite,
            case: Some(
                Case {
                    name: c.name,
                    classname: c.classname,
                    time: c.time,
                    status: status.to_owned(),
                },
            ),
        },
        None => JunitState { suites: state.suites, suite: state.suite, case: None },
    }
}

fn verdict(name: &str) -> (r: bool)
    ensures
        r == is_verdict(name@),
{
    same(name, "failure") || same(name, "error") || same(name, "skipped")
}

impl JunitState {
    pub fn new() -> (r: JunitState)
        ensures
            r@ == no_suites(),
    {
        let suites: Vec<Suite> = Vec::new();
        assert(suite_views(suites@) =~= Seq::empty());
        JunitState { suites, suite: None, case: None }
    }

    /// Adds what an event says.
    pub fn step(self, event: &XmlEvent) -> (r: Result<JunitState, String>)
        ensures
            match junit_step(self@, event@) {
                Ok(next) => r matches Ok(s) && s@ == next,
                Err(m) => r matches Err(e) && e@ == m,
            },
    {
        match event {
            XmlEvent::Start(tag) => {
                let name = tag.name.as_str();
                if same(name, "testsuite") {
                    return match &tag.attributes {
                        Ok(a) => Ok(
                            JunitState {
                                suites: self.suites,
                                suite: Some(suite_from_attrs(a)),
                                case: self.case,
                            },
                        ),
                        Err(m) => Err(m.clone()),
                    };
                }
                if same(name, "testcase") {
                    return match &tag.attributes {
                        Ok(a) => Ok(
                            JunitState {
                                suites: self.suites,
                                suite: self.suite,
                                case: Some(case_from_attrs(a)),
                            },
                        ),
                        Err(m) => Err(m.clone()),
                    };
                }
                if verdict(name) {
                    return Ok(judge(self, name));
                }
                Ok(self)
            },
            XmlEvent::Empty(tag) => {
                let name = tag.name.as_str();
                if same(name, "testsuite") {
                    return match &tag.attributes {
                        Ok(a) => Ok(
                            JunitState {
                                suites: push_suite(self.suites, suite_from_attrs(a)),
                                suite: self.suite,
                                case: self.case,
                            },
                        ),
                        Err(m) => Err(m.clone()),
                    };
                }
                if same(name, "testcase") {
                    return match self.suite {
                        Some(s) => match &tag.attributes {
                            Ok(a) => Ok(
                                JunitState {
                                    suites: self.suites,
                                    suite: Some(push_case(s, case_from_attrs(a))),
                                    case: self.case,
                                },
                            ),
                            Err(m) => Err(m.clone()),
                        },
                        None => Ok(
                            JunitState { suites: self.suites, suite: None, case: self.case },
                        ),
                    };
                }
                if verdict(name) {
                    return Ok(judge(self, name));
                }
                Ok(self)
            },
            XmlEvent::End(name) => {
                if same(name.as_str(), "testsuite") {
                    return match self.suite {
                        Some(s) => Ok(
                            JunitState {
                                suites: push_suite(self.suites, s),
                                suite: None,
                                case: self.case,
                            },
                        ),
                        None => Ok(
                            JunitState { suites: self.suites, suite: None, case: self.case },
                        ),
                    };
                }
                if same(name.as_str(), "testcase") {
                    return match (self.suite, self.case) {
                        (Some(s), Some(c)) => Ok(
                            JunitState {
                                suites: self.suites,
                                suite: Some(push_case(s, c)),
                                case: None,
                            },
                        ),
                        (suite, _) => Ok(
                            JunitState { suites: self.suites, suite, case: None },
                        ),
                    };
                }
                Ok(self)
            },
            _ => Ok(self),
        }
    }
}

/// The suites of an XML text.
pub fn parse_suites(input: &str) -> (r: Result<Vec<Suite>, String>)
    ensures
        match suites_from(no_suites(), xml_events(input@)) {
            Ok(suites) => r matches Ok(v) && suite_views(v@) == suites,
            Err(m) => r matches Err(e) && e@ == m,
        },
{
    let mut reader = open_xml(input);
    let mut state = JunitState::new();
    loop
        invariant
            suites_from(state@, xml_rest(reader)) == suites_from(no_suites(), xml_events(input@)),
        decreases xml_rest(reader).len(),
    {
        let ghost rest = xml_rest(reader);
        let event = next_event(&mut reader);
        match &event {
            XmlEvent::Eof => {
                return Ok(state.suites);
            },
            XmlEvent::Broken(m) => {
                return Err(m.clone());
            },
            _ => {},
        }
        match state.step(&event) {
            Ok(next) => {
                state = next;
            },
            Err(m) => {
                return Err(m);
            },
        }
    }
}

// ---------------------------------------------------------------------------
// Facts
// ---------------------------------------------------------------------------
pub open spec fn case_json(case: CaseV) -> JsonV {
    JsonV::empty_object().with("component"@, JsonV::Text(case.name)).with(
        "status"@,
        JsonV::Text(case.status),
    ).with("className"@, JsonV::opt_text(case.classname)).with(
        "time"@,
        JsonV::opt_text(case.time),
    )
}

/// The fact of a suite: it failed where it counts a failure or an error.
pub open spec fn suite_fact(suite: SuiteV, source: SourceV) -> JsonV {
    let name = if suite.name.len() == 0 {
        source.component
    } else {
        suite.name
    };
    let fact = base(
        source,
        "junit."@ + slug_text(source.component) + "."@ + slug_text(name) + version_suffix(
            source.version,
        ),
        "junit-suite"@,
        name,
        source.version,
        if suite.failures + suite.errors > 0 {
            "failed"@
        } else {
            "passed"@
        },
    );
    let provided = JsonV::empty_object().with("capability"@, JsonV::Text("test:junit"@)).with(
        "version"@,
        JsonV::opt_text(source.version),
    ).with("suite"@, JsonV::Text(suite.name));
    let metrics = JsonV::empty_object().with("tests"@, JsonV::number(suite.tests)).with(
        "failures"@,
        JsonV::number(suite.failures),
    ).with("errors"@, JsonV::number(suite.errors)).with(
        "skipped"@,
        JsonV::number(suite.skipped),
    ).with("time"@, JsonV::opt_text(suite.time));
    with_value(
        with_list(
            with_list(fact, "provides"@, seq![provided]),
            "members"@,
            suite.cases.map_values(|c: CaseV| case_json(c)),
        ),
        "metrics"@,
        metrics,
    )
}

fn case_member(case: &Case) -> (r: Json)
    ensures
        r@ == case_json(case@),
{
    Json::object().with("component", Json::text(case.name.as_str())).with(
        "status",
        Json::text(case.status.as_str()),
    ).with("className", Json::opt_text(&case.classname)).with(
        "time",
        Json::opt_text(&case.time),
    )
}

pub fn suite_to_fact(suite: &Suite, source: &Source) -> (r: Json)
    ensures
        r@ == suite_fact(suite@, source@),
{
    let failed = suite.failures > 0 || suite.errors > 0;
    let name = if crate::text::char_count(suite.name.as_str()) == 0 {
        source.component.clone()
    } else {
        suite.name.clone()
    };
    let id = cat5(
        "junit.",
        slug(source.component.as_str()).as_str(),
        ".",
        slug(name.as_str()).as_str(),
        slug_suffix(&source.version).as_str(),
    );
    let status = if failed {
        "failed"
    } else {
        "passed"
    };
    let fact = base_fact(
        source,
        id.as_str(),
        "junit-suite",
        name.as_str(),
        &source.version,
        status,
    );
    let provided = Json::object().with("capability", Json::text("test:junit")).with(
        "version",
        Json::opt_text(&source.version),
    ).with("suite", Json::text(suite.name.as_str()));
    let metrics = Json::object().with("tests", Json::number(suite.tests)).with(
        "failures",
        Json::number(suite.failures),
    ).with("errors", Json::number(suite.errors)).with(
        "skipped",
        Json::number(suite.skipped),
    ).with("time", Json::opt_text(&suite.time));
    let ghost all = suite@.cases.map_values(|c: CaseV| case_json(c));
    let mut members: Vec<Json> = Vec::new();
    let mut i: usize = 0;
    assert(items_view(members@) =~= all.take(0));
    while i < suite.cases.len()
        invariant
            i <= suite.cases@.len(),
            all == suite@.cases.map_values(|c: CaseV| case_json(c)),
            items_view(members@) == all.take(i as int),
        decreases suite.cases@.len() - i,
    {
        let ghost before = items_view(members@);
        let member = case_member(&suite.cases[i]);
        let ghost next = member@;
        members.push(member);
        assert(items_view(members@) =~= before.push(next));
        assert(all[i as int] == next);
        assert(all.take(i as int + 1) =~= before.push(next));
        i += 1;
    }
    assert(all.take(i as int) =~= all);
    put_object(
        put_array(put_array(fact, "provides", just(provided)), "members", members),
        "metrics",
        metrics,
    )
}

/// The facts of suites; a report without one is refused.
pub open spec fn suite_facts(suites: Seq<SuiteV>, source: SourceV) -> Result<
    Seq<JsonV>,
    Seq<char>,
> {
    if suites.len() == 0 {
        Err("JUnit input did not include any testsuite elements"@)
    } else {
        Ok(suites.map_values(|s: SuiteV| suite_fact(s, source)))
    }
}

pub fn facts_of_suites(suites: &Vec<Suite>, source: &Source) -> (r: Result<Vec<Json>, String>)
    ensures
        facts_result(r) == suite_facts(suite_views(suites@), source@),
{
    if suites.len() == 0 {
        return Err("JUnit input did not include any testsuite elements".to_owned());
    }
    let ghost all = suite_views(suites@).map_values(|s: SuiteV| suite_fact(s, source@));
    let mut facts: Vec<Json> = Vec::new();
    let mut i: usize = 0;
    assert(items_view(facts@) =~= all.take(0));
    while i < suites.len()
        invariant
            i <= suites@.len(),
            all == suite_views(suites@).map_values(|s: SuiteV| suite_fact(s, source@)),
            items_view(facts@) == all.take(i as int),
        decreases suites@.len() - i,
    {
        let ghost before = items_view(facts@);
        let fact = suite_to_fact(&suites[i], source);
        let ghost next = fact@;
        facts.push(fact);
        assert(items_view(facts@) =~= before.push(next));
        assert(all[i as int] == next);
        assert(all.take(i as int + 1) =~= before.push(next));
        i += 1;
    }
    assert(all.take(i as int) =~= all);
    Ok(facts)
}

/// What a JUnit report becomes.
pub open spec fn junit_facts(input: Seq<char>, source: SourceV) -> Result<Seq<JsonV>, Seq<char>> {
    match suites_from(no_suites(), xml_events(input)) {
        Ok(suites) => suite_facts(suites, source),
        Err(m) => Err(m),
    }
}

pub fn normalize(input: &str, source: &Source) -> (r: Result<Vec<Json>, String>)
    ensures
        facts_result(r) == junit_facts(input@, source@),
{
    match parse_suites(input) {
        Ok(suites) => facts_of_suites(&suites, source),
        Err(m) => Err(m),
    }
}

} // verus!
