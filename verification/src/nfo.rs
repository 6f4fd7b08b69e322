//! The title that a show's metadata file gives.
//!
//! The file is XML. The reading of it into events is left to the XML reader;
//! which of the events makes the title is settled here.

use vstd::prelude::*;
use quick_xml::events::Event;
use crate::config::opt_text;
use crate::text::{eq_ignore_ascii_case, eq_ignoring_ascii_case, is_blank, trim, trimmed};

verus! {

#[verifier::external_type_specification]
#[verifier::external_body]
#[verifier::reject_recursive_types(R)]
pub struct ExReader<R>(quick_xml::Reader<R>);

/// What the title is read from: the events of a document that open or close
/// an element or carry text. Every other event is `Other`.
#[derive(Debug, Clone)]
pub enum NfoEvent {
    /// An opening tag, with the element's name.
    Start(String),
    /// Text between tags, as written, without the whitespace around it.
    Text(String),
    /// A closing tag, with the element's name.
    End(String),
    /// Anything else.
    Other,
}

/// An event as plain values.
pub enum NfoEventView {
    Start(Seq<char>),
    Text(Seq<char>),
    End(Seq<char>),
    Other,
}

impl View for NfoEvent {
    type V = NfoEventView;

    open spec fn view(&self) -> NfoEventView {
        match *self {
            NfoEvent::Start(n) => NfoEventView::Start(n@),
            NfoEvent::Text(t) => NfoEventView::Text(t@),
            NfoEvent::End(n) => NfoEventView::End(n@),
            NfoEvent::Other => NfoEventView::Other,
        }
    }
}

/// The views of a list of events.
pub open spec fn event_views(events: Seq<NfoEvent>) -> Seq<NfoEventView> {
    Seq::new(events.len(), |i: int| events[i]@)
}

/// Names the events that an XML reader which trims text gives for a
/// document, up to its end or to the first error.
pub uninterp spec fn document_events(content: Seq<char>) -> Seq<NfoEventView>;

/// Names the events that a reader has yet to give, up to the end of its
/// document or to the first error.
pub uninterp spec fn pending(reader: quick_xml::Reader<&[u8]>) -> Seq<NfoEventView>;

/// Names what the XML reader makes of a text with its escapes resolved, or
/// nothing where an escape is not in order.
pub uninterp spec fn unescaped(raw: Seq<char>) -> Option<Seq<char>>;

/// Whether an element's name is `title`, in any case.
pub open spec fn is_title(name: Seq<char>) -> bool {
    eq_ignoring_ascii_case(name, seq!['t', 'i', 't', 'l', 'e'])
}

/// The title that a text gives: the text with its escapes resolved and
/// without the whitespace around it, unless nothing is left of it.
pub open spec fn text_title(raw: Seq<char>) -> Option<Seq<char>> {
    match unescaped(raw) {
        Some(value) => if is_blank(value) {
            None
        } else {
            Some(trimmed(value))
        },
        None => None,
    }
}

/// The first title among the events from index `from` on: the first text
/// that gives a title while a `title` element is open. `in_title` says
/// whether one is open at `from`.
pub open spec fn title_from(events: Seq<NfoEventView>, from: int, in_title: bool) -> Option<
    Seq<char>,
>
    decreases events.len() - from,
{
    if from >= events.len() || from < 0 {
        None
    } else {
        match events[from] {
            NfoEventView::Start(name) => title_from(events, from + 1, in_title || is_title(name)),
            NfoEventView::Text(raw) => if in_title && text_title(raw) is Some {
                text_title(raw)
            } else {
                title_from(events, from + 1, in_title)
            },
            NfoEventView::End(name) => title_from(events, from + 1, in_title && !is_title(name)),
            NfoEventView::Other => title_from(events, from + 1, in_title),
        }
    }
}

/// The title of a document: the first title among its events.
pub open spec fn title_of(content: Seq<char>) -> Option<Seq<char>> {
    title_from(document_events(content), 0, false)
}

/// A reader over `content` that trims the text it hands out.
///
/// Trusted: calls `quick_xml::Reader::from_str` and sets `trim_text` on the
/// reader's configuration. The contract only names the events that the
/// reader will give.
#[verifier::external_body]
fn open_reader<'a>(content: &'a str) -> (r: quick_xml::Reader<&'a [u8]>)
    ensures
        pending(r) == document_events(content@),
{
    let mut reader = quick_xml::Reader::from_str(content);
    reader.config_mut().trim_text(true);
    reader
}

/// The reader's next event, or nothing at the end of the document or at an
/// error.
///
/// Trusted: calls `quick_xml::Reader::read_event_into`. The contract says
/// that the event handed out is the first of those that were pending and
/// that the rest stay pending, and that nothing was pending where nothing is
/// handed out.
#[verifier::external_body]
fn next_event<'a>(reader: &mut quick_xml::Reader<&'a [u8]>) -> (r: Option<NfoEvent>)
    ensures
        match r {
            Some(e) => {
                &&& pending(*old(reader)).len() > 0
                &&& e@ == pending(*old(reader))[0]
                &&& pending(*final(reader)) == pending(*old(reader)).skip(1)
            },
            None => pending(*old(reader)).len() == 0,
        },
{
    let mut buf = Vec::new();
    match reader.read_event_into(&mut buf) {
        Ok(Event::Start(e)) => Some(NfoEvent::Start(String::from_utf8_lossy(e.name().as_ref()).into_owned())),
        Ok(Event::Text(t)) => Some(NfoEvent::Text(String::from_utf8_lossy(&t).into_owned())),
        Ok(Event::End(e)) => Some(NfoEvent::End(String::from_utf8_lossy(e.name().as_ref()).into_owned())),
        Ok(Event::Eof) => None,
        Ok(_) => Some(NfoEvent::Other),
        Err(_) => None,
    }
}

/// A text with its escapes resolved.
///
/// Trusted: calls `quick_xml::events::BytesText::unescape`. The contract
/// only names the outcome.
#[verifier::external_body]
fn unescape_text(raw: &str) -> (r: Option<String>)
    ensures
        opt_text(r) == unescaped(raw@),
{
    match quick_xml::events::BytesText::from_escaped(raw).unescape() {
        Ok(value) => Some(value.into_owned()),
        Err(_) => None,
    }
}

/// The events of a document, up to its end or to the first error.
pub fn read_nfo_events(content: &str) -> (r: Vec<NfoEvent>)
    ensures
        event_views(r@) == document_events(content@),
{
    let mut reader = open_reader(content);
    let mut out: Vec<NfoEvent> = Vec::new();
    assert(event_views(out@) =~= Seq::<NfoEventView>::empty());
    loop
        invariant_except_break
            document_events(content@) == event_views(out@) + pending(reader),
        ensures
            document_events(content@) == event_views(out@),
        decreases pending(reader).len(),
    {
        let ghost before = event_views(out@);
        let ghost rest = pending(reader);
        match next_event(&mut reader) {
            None => {
                assert(before + rest =~= before);
                break ;
            },
            Some(e) => {
                out.push(e);
                assert(event_views(out@) =~= before.push(e@));
                assert(before.push(e@) + rest.skip(1) =~= before + rest);
            },
        }
    }
    out
}

/// The title that a text gives, given the text with its escapes resolved.
pub fn title_of_text(value: &Option<String>) -> (r: Option<String>)
    ensures
        opt_text(r) == match *value {
            Some(v) => if is_blank(v@) {
                None
            } else {
                Some(trimmed(v@))
            },
            None => None,
        },
{
    match value {
        None => None,
        Some(v) => {
            let t = trim(v.as_str());
            if t.unicode_len() == 0 {
                None
            } else {
                Some(t.to_owned())
            }
        },
    }
}

/// The first title among the events of a document.
pub fn title_from_events(events: &Vec<NfoEvent>) -> (r: Option<String>)
    ensures
        opt_text(r) == title_from(event_views(events@), 0, false),
{
    let ghost all = event_views(events@);
    let mut in_title = false;
    let mut i: usize = 0;
    proof {
        reveal_strlit("title");
        assert("title"@ =~= seq!['t', 'i', 't', 'l', 'e']);
    }
    while i < events.len()
        invariant
            i <= events.len(),
            all == event_views(events@),
            "title"@ == seq!['t', 'i', 't', 'l', 'e'],
            title_from(all, 0, false) == title_from(all, i as int, in_title),
        decreases events.len() - i,
    {
        assert(all[i as int] == events@[i as int]@);
        match &events[i] {
            NfoEvent::Start(name) => {
                if eq_ignore_ascii_case(name.as_str(), "title") {
                    in_title = true;
                }
            },
            NfoEvent::Text(raw) => {
                if in_title {
                    let value = unescape_text(raw.as_str());
                    let title = title_of_text(&value);
                    if title.is_some() {
                        return title;
                    }
                }
            },
            NfoEvent::End(name) => {
                if in_title && eq_ignore_ascii_case(name.as_str(), "title") {
                    in_title = false;
                }
            },
            NfoEvent::Other => {},
        }
        i = i + 1;
    }
    None
}

/// The title that a metadata file gives, or nothing where it gives none.
pub fn extract_title_from_nfo(content: &str) -> (r: Option<String>)
    ensures
        opt_text(r) == title_of(content@),
{
    let events = read_nfo_events(content);
    title_from_events(&events)
}

} // verus!
