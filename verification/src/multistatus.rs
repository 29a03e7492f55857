//! The listing a WebDAV server answers a `PROPFIND` with (a `multistatus`
//! document), read from the XML reader's events: one entry per `response`
//! with a name.

use vstd::prelude::*;

use quick_xml::events::Event;

use crate::entry::{Entry, EntryKind};
use crate::net::{dav_basename, dav_basename_spec};
use crate::num::{parse_unsigned, parse_unsigned_chars};
use crate::text::{chars_of, find_char, find_first, str_eq, string_of};

verus! {

/// An event of the XML reader, with the element's qualified name or the
/// decoded text. (Text that does not decode, and comments, declarations
/// and the like, are not handed on.)
#[derive(Debug, Clone)]
pub enum XmlEvent {
    Start(String),
    Empty(String),
    End(String),
    Text(String),
}

/// An event with its text as a character sequence.
pub enum EventView {
    Start(Seq<char>),
    Empty(Seq<char>),
    End(Seq<char>),
    Text(Seq<char>),
}

impl View for XmlEvent {
    type V = EventView;

    open spec fn view(&self) -> EventView {
        match self {
            XmlEvent::Start(n) => EventView::Start(n@),
            XmlEvent::Empty(n) => EventView::Empty(n@),
            XmlEvent::End(n) => EventView::End(n@),
            XmlEvent::Text(t) => EventView::Text(t@),
        }
    }
}

/// The property whose text comes next.
#[derive(Debug, Clone, Copy, PartialEq, Eq, Structural)]
pub enum Target {
    Href,
    DisplayName,
    Length,
    Modified,
}

/// What has been read of the current `response`.
pub struct Props {
    pub href: Option<Seq<char>>,
    pub name: Option<Seq<char>>,
    pub is_collection: bool,
    pub size: Option<nat>,
}

/// The reading state: the entries so far (name, whether a directory,
/// size), the current response, the property whose text is awaited, and
/// whether the reader is inside `resourcetype`.
pub struct ListingState {
    pub entries: Seq<(Seq<char>, bool, u64)>,
    pub cur: Props,
    pub target: Option<Target>,
    pub in_resourcetype: bool,
}

/// A response with nothing read yet.
pub open spec fn empty_props() -> Props {
    Props { href: None, name: None, is_collection: false, size: None }
}

/// The state before any event.
pub open spec fn start_state() -> ListingState {
    ListingState { entries: Seq::empty(), cur: empty_props(), target: None, in_resourcetype: false }
}

/// A qualified name without its namespace prefix (the text after the first
/// `:`).
pub open spec fn local_name(q: Seq<char>) -> Seq<char> {
    if find_first(q, ':') >= 0 {
        q.skip(find_first(q, ':') + 1)
    } else {
        q
    }
}

/// The property an element of this local name carries.
pub open spec fn target_of(l: Seq<char>) -> Option<Target> {
    if l == "href"@ {
        Some(Target::Href)
    } else if l == "displayname"@ {
        Some(Target::DisplayName)
    } else if l == "getcontentlength"@ {
        Some(Target::Length)
    } else if l == "getlastmodified"@ {
        Some(Target::Modified)
    } else {
        None
    }
}

/// The name a finished response lists under: its display name, else the
/// last piece of its `href` below `base`, else nothing.
pub open spec fn response_name(p: Props, base: Seq<char>) -> Seq<char> {
    match p.name {
        Some(n) => n,
        None => match p.href {
            Some(h) => dav_basename_spec(h, base),
            None => Seq::empty(),
        },
    }
}

/// The state after one event. A `response` start clears the current
/// response; a property start awaits its text; `resourcetype` is entered;
/// a `collection` inside it (open or empty) marks a directory. A `response`
/// end lists it when it has a name, with size 0 when none was read; ends
/// of `resourcetype` and of the properties leave them. Text goes to the
/// awaited property: the `href`, a non-empty display name, the length as a
/// decimal `u64` (dropped when it does not parse); a date is not kept.
pub open spec fn listing_step(st: ListingState, ev: EventView, base: Seq<char>) -> ListingState {
    match ev {
        EventView::Start(q) => {
            let l = local_name(q);
            if l == "response"@ {
                ListingState { cur: empty_props(), ..st }
            } else if target_of(l) is Some {
                ListingState { target: target_of(l), ..st }
            } else if l == "resourcetype"@ {
                ListingState { in_resourcetype: true, ..st }
            } else if l == "collection"@ && st.in_resourcetype {
                ListingState { cur: Props { is_collection: true, ..st.cur }, ..st }
            } else {
                st
            }
        },
        EventView::Empty(q) => if local_name(q) == "collection"@ && st.in_resourcetype {
            ListingState { cur: Props { is_collection: true, ..st.cur }, ..st }
        } else {
            st
        },
        EventView::End(q) => {
            let l = local_name(q);
            if l == "response"@ {
                let name = response_name(st.cur, base);
                if name.len() > 0 {
                    let size: u64 = match st.cur.size {
                        Some(n) => n as u64,
                        None => 0,
                    };
                    ListingState { entries: st.entries.push((name, st.cur.is_collection, size)), ..st }
                } else {
                    st
                }
            } else if l == "resourcetype"@ {
                ListingState { in_resourcetype: false, ..st }
            } else if target_of(l) is Some {
                ListingState { target: None, ..st }
            } else {
                st
            }
        },
        EventView::Text(t) => match st.target {
            Some(Target::Href) => ListingState { cur: Props { href: Some(t), ..st.cur }, ..st },
            Some(Target::DisplayName) => if t.len() > 0 {
                ListingState { cur: Props { name: Some(t), ..st.cur }, ..st }
            } else {
                st
            },
            Some(Target::Length) => ListingState { cur: Props { size: parse_unsigned(t, 10, u64::MAX as nat), ..st.cur }, ..st },
            _ => st,
        },
    }
}

/// The state after the events `evs`, in order.
pub open spec fn listing_run(evs: Seq<EventView>, base: Seq<char>) -> ListingState
    decreases evs.len(),
{
    if evs.len() == 0 {
        start_state()
    } else {
        listing_step(listing_run(evs.drop_last(), base), evs.last(), base)
    }
}

/// The views of the events.
pub open spec fn event_views(v: Seq<XmlEvent>) -> Seq<EventView> {
    Seq::new(v.len(), |i: int| v[i]@)
}

/// An entry as the listing gives it: the name, a directory or a file, the
/// size, and nothing else.
pub open spec fn listed_entry(e: Entry, row: (Seq<char>, bool, u64)) -> bool {
    &&& e.name@ == row.0
    &&& e.kind == if row.1 { EntryKind::Dir } else { EntryKind::File }
    &&& e.size == row.2
    &&& e.mtime is None && e.atime is None && e.ctime is None
    &&& e.mode is None && e.uid is None && e.gid is None && e.nlink is None && e.target is None
}

fn local_of(q: &str) -> (r: String)
    ensures
        r@ == local_name(q@),
{
    let v = chars_of(q);
    match find_char(v.as_slice(), ':') {
        Some(i) => {
            assert(i < v@.len());
            assert(v@.len() == v.len());
            let rest = crate::key::slice_from(v.as_slice(), i + 1);
            string_of(rest.as_slice())
        },
        None => string_of(v.as_slice()),
    }
}

fn target_exec(l: &str) -> (r: Option<Target>)
    ensures
        r == target_of(l@),
{
    proof {
        reveal_strlit("href");
        reveal_strlit("displayname");
        reveal_strlit("getcontentlength");
        reveal_strlit("getlastmodified");
    }
    if str_eq(l, "href") {
        Some(Target::Href)
    } else if str_eq(l, "displayname") {
        Some(Target::DisplayName)
    } else if str_eq(l, "getcontentlength") {
        Some(Target::Length)
    } else if str_eq(l, "getlastmodified") {
        Some(Target::Modified)
    } else {
        None
    }
}

/// The reading state held in executable values.
struct Reading {
    href: Option<String>,
    name: Option<String>,
    is_collection: bool,
    size: Option<u64>,
    target: Option<Target>,
    in_resourcetype: bool,
}

impl Reading {
    spec fn props(&self) -> Props {
        Props {
            href: match self.href {
                Some(h) => Some(h@),
                None => None,
            },
            name: match self.name {
                Some(n) => Some(n@),
                None => None,
            },
            is_collection: self.is_collection,
            size: match self.size {
                Some(n) => Some(n as nat),
                None => None,
            },
        }
    }
}

/// `r` lists, in order, the entries [`listing_run`] reads from `evs`.
pub open spec fn lists(r: Seq<Entry>, evs: Seq<EventView>, base: Seq<char>) -> bool {
    &&& r.len() == listing_run(evs, base).entries.len()
    &&& forall|i: int| 0 <= i < r.len() ==> listed_entry(#[trigger] r[i], listing_run(evs, base).entries[i])
}

/// The entries a `multistatus` listing gives, as [`listing_run`] says of
/// its events; `base` is the path part of the listed directory's URL.
pub fn multistatus_entries(events: &Vec<XmlEvent>, base: &str) -> (r: Vec<Entry>)
    ensures
        lists(r@, event_views(events@), base@),
{
    proof {
        reveal_strlit("response");
        reveal_strlit("resourcetype");
        reveal_strlit("collection");
    }
    let ghost evs = event_views(events@);
    let mut out: Vec<Entry> = Vec::new();
    let mut st = Reading { href: None, name: None, is_collection: false, size: None, target: None, in_resourcetype: false };
    let mut i: usize = 0;
    assert(evs.take(0) =~= Seq::<EventView>::empty());
    while i < events.len()
        invariant
            i <= events@.len(),
            evs == event_views(events@),
            ({
                let s = listing_run(evs.take(i as int), base@);
                &&& s.cur == st.props()
                &&& s.target == st.target
                &&& s.in_resourcetype == st.in_resourcetype
                &&& out@.len() == s.entries.len()
                &&& forall|k: int| 0 <= k < out@.len() ==> listed_entry(#[trigger] out@[k], s.entries[k])
            }),
        decreases events@.len() - i,
    {
        let ghost before = listing_run(evs.take(i as int), base@);
        assert(evs.take(i + 1).drop_last() =~= evs.take(i as int));
        assert(evs.take(i + 1).last() == events@[i as int]@);
        let ghost after = listing_step(before, events@[i as int]@, base@);
        assert(listing_run(evs.take(i + 1), base@) == after);
        match &events[i] {
            XmlEvent::Start(q) => {
                let l = local_of(q.as_str());
                if str_eq(l.as_str(), "response") {
                    st.href = None;
                    st.name = None;
                    st.is_collection = false;
                    st.size = None;
                } else if let Some(t) = target_exec(l.as_str()) {
                    st.target = Some(t);
                } else if str_eq(l.as_str(), "resourcetype") {
                    st.in_resourcetype = true;
                } else if str_eq(l.as_str(), "collection") && st.in_resourcetype {
                    st.is_collection = true;
                }
            },
            XmlEvent::Empty(q) => {
                let l = local_of(q.as_str());
                if str_eq(l.as_str(), "collection") && st.in_resourcetype {
                    st.is_collection = true;
                }
            },
            XmlEvent::End(q) => {
                let l = local_of(q.as_str());
                if str_eq(l.as_str(), "response") {
                    let name = match &st.name {
                        Some(n) => n.clone(),
                        None => match &st.href {
                            Some(h) => dav_basename(h.as_str(), base),
                            None => String::new(),
                        },
                    };
                    if name.unicode_len() > 0 {
                        let size = match st.size {
                            Some(n) => n,
                            None => 0,
                        };
                        let kind = if st.is_collection { EntryKind::Dir } else { EntryKind::File };
                        let ghost prev = out@;
                        out.push(Entry {
                            name,
                            kind,
                            size,
                            mtime: None,
                            atime: None,
                            ctime: None,
                            mode: None,
                            uid: None,
                            gid: None,
                            nlink: None,
                            target: None,
                        });
                        assert forall|k: int| 0 <= k < out@.len() implies listed_entry(#[trigger] out@[k], after.entries[k]) by {
                            if k < prev.len() {
                                assert(out@[k] == prev[k]);
                            }
                        }
                    }
                } else if str_eq(l.as_str(), "resourcetype") {
                    st.in_resourcetype = false;
                } else if target_exec(l.as_str()).is_some() {
                    st.target = None;
                }
            },
            XmlEvent::Text(t) => {
                match st.target {
                    Some(Target::Href) => st.href = Some(t.clone()),
                    Some(Target::DisplayName) => {
                        if t.unicode_len() > 0 {
                            st.name = Some(t.clone());
                        }
                    },
                    Some(Target::Length) => {
                        let v = chars_of(t.as_str());
                        st.size = parse_unsigned_chars(v.as_slice(), 10, u64::MAX);
                    },
                    _ => {},
                }
            },
        }
        i = i + 1;
    }
    assert(evs.take(events@.len() as int) =~= evs);
    out
}

#[verifier::external_type_specification]
#[verifier::external_body]
#[verifier::reject_recursive_types(R)]
pub struct ExXmlReader<R>(quick_xml::Reader<R>);

/// What the XML reader gives next: an event the listing reads, one it
/// passes over (comments, declarations, CDATA, entity references, text
/// that does not decode), or the end (of the document, or at a syntax
/// error).
pub enum XmlStep {
    Event(XmlEvent),
    Skip,
    Done,
}

/// A step before the end, in plain values.
pub enum StepView {
    Event(EventView),
    Skip,
}

/// The events among steps, in order.
pub open spec fn step_events(s: Seq<StepView>) -> Seq<EventView>
    decreases s.len(),
{
    if s.len() == 0 {
        Seq::empty()
    } else {
        let head = match s[0] {
            StepView::Event(e) => seq![e],
            StepView::Skip => Seq::empty(),
        };
        head + step_events(s.drop_first())
    }
}

/// The steps quick-xml's reader gives for a document, one per
/// `read_event` call, before the first end of document or syntax error.
pub uninterp spec fn xml_steps(body: Seq<char>) -> Seq<StepView>;

/// The steps a reader still has to give before its end.
pub uninterp spec fn xml_pending(r: quick_xml::Reader<&[u8]>) -> Seq<StepView>;

/// A reader over `body`, through `quick_xml::Reader::from_str`: the steps
/// it has to give are those of the document, named by [`xml_steps`].
#[verifier::external_body]
fn xml_reader<'a>(body: &'a str) -> (r: quick_xml::Reader<&'a [u8]>)
    ensures
        xml_pending(r) == xml_steps(body@),
{
    quick_xml::Reader::from_str(body)
}

/// The next step of `reader`, through `Reader::read_event`, with element
/// names taken as text and text decoded by `BytesText::decode`: the first
/// pending step, which is then dropped; the end when none is pending.
/// Which steps a document gives is left to the names.
#[verifier::external_body]
fn next_xml(reader: &mut quick_xml::Reader<&[u8]>) -> (r: XmlStep)
    ensures
        xml_pending(*old(reader)).len() == 0 ==> r is Done,
        xml_pending(*old(reader)).len() > 0 ==> {
            &&& xml_pending(*final(reader)) == xml_pending(*old(reader)).drop_first()
            &&& match (r, xml_pending(*old(reader))[0]) {
                (XmlStep::Event(e), StepView::Event(v)) => e@ == v,
                (XmlStep::Skip, StepView::Skip) => true,
                _ => false,
            }
        },
{
    match reader.read_event() {
        Ok(Event::Start(e)) => XmlStep::Event(XmlEvent::Start(String::from_utf8_lossy(e.name().0).into_owned())),
        Ok(Event::Empty(e)) => XmlStep::Event(XmlEvent::Empty(String::from_utf8_lossy(e.name().0).into_owned())),
        Ok(Event::End(e)) => XmlStep::Event(XmlEvent::End(String::from_utf8_lossy(e.name().0).into_owned())),
        Ok(Event::Text(t)) => match t.decode() {
            Ok(s) => XmlStep::Event(XmlEvent::Text(s.into_owned())),
            Err(_) => XmlStep::Skip,
        },
        Ok(Event::Eof) | Err(_) => XmlStep::Done,
        Ok(_) => XmlStep::Skip,
    }
}

/// The entries of a `multistatus` body: the events the XML reader gives,
/// up to the end of the document (or its first syntax error), listed as
/// [`multistatus_entries`] says.
pub fn parse_multistatus(body: &str, base: &str) -> (r: Vec<Entry>)
    ensures
        lists(r@, step_events(xml_steps(body@)), base@),
{
    let mut reader = xml_reader(body);
    let mut events: Vec<XmlEvent> = Vec::new();
    let ghost all = step_events(xml_steps(body@));
    assert(event_views(events@) =~= Seq::<EventView>::empty());
    assert(all == event_views(events@) + step_events(xml_pending(reader)));
    loop
        invariant_except_break
            all == event_views(events@) + step_events(xml_pending(reader)),
        invariant
            all == step_events(xml_steps(body@)),
        ensures
            all == event_views(events@),
        decreases xml_pending(reader).len(),
    {
        let ghost p = xml_pending(reader);
        let ghost before = events@;
        match next_xml(&mut reader) {
            XmlStep::Event(e) => {
                events.push(e);
                assert(event_views(events@) =~= event_views(before).push(e@));
                assert(step_events(p) == seq![e@] + step_events(p.drop_first()));
                assert(all =~= event_views(events@) + step_events(xml_pending(reader)));
            },
            XmlStep::Skip => {
                assert(step_events(p) =~= step_events(p.drop_first()));
            },
            XmlStep::Done => {
                assert(step_events(p) =~= Seq::<EventView>::empty());
                assert(all =~= event_views(events@));
                break;
            },
        }
    }
    multistatus_entries(&events, base)
}

/// The state after the events `evs`, from the state `st`.
pub open spec fn run_from(st: ListingState, evs: Seq<EventView>, base: Seq<char>) -> ListingState
    decreases evs.len(),
{
    if evs.len() == 0 {
        st
    } else {
        listing_step(run_from(st, evs.drop_last(), base), evs.last(), base)
    }
}

/// Reading all the events is reading those before a point, then the rest
/// from the state reached.
pub proof fn lemma_listing_run_split(pre: Seq<EventView>, post: Seq<EventView>, base: Seq<char>)
    ensures
        listing_run(pre + post, base) == run_from(listing_run(pre, base), post, base),
    decreases post.len(),
{
    if post.len() == 0 {
        assert(pre + post =~= pre);
    } else {
        lemma_listing_run_split(pre, post.drop_last(), base);
        assert((pre + post).drop_last() =~= pre + post.drop_last());
        assert((pre + post).last() == post.last());
    }
}

/// Whether an event opens a `getcontentlength` element or closes a
/// `response`.
pub open spec fn sets_length_or_ends(e: EventView) -> bool {
    match e {
        EventView::Start(q) => local_name(q) == "getcontentlength"@,
        EventView::End(q) => local_name(q) == "response"@,
        _ => false,
    }
}

proof fn lemma_no_length_inside(st: ListingState, mid: Seq<EventView>, base: Seq<char>)
    requires
        st.cur.size is None,
        st.target != Some(Target::Length),
        forall|i: int| 0 <= i < mid.len() ==> !sets_length_or_ends(#[trigger] mid[i]),
    ensures
        run_from(st, mid, base).cur.size is None,
        run_from(st, mid, base).target != Some(Target::Length),
        run_from(st, mid, base).entries == st.entries,
    decreases mid.len(),
{
    reveal_strlit("getcontentlength");
    reveal_strlit("response");
    reveal_strlit("href");
    reveal_strlit("displayname");
    reveal_strlit("getlastmodified");
    if mid.len() > 0 {
        let d = mid.drop_last();
        assert forall|i: int| 0 <= i < d.len() implies !sets_length_or_ends(#[trigger] d[i]) by {
            assert(d[i] == mid[i]);
        }
        lemma_no_length_inside(st, d, base);
        assert(!sets_length_or_ends(mid[mid.len() - 1]));
    }
}

/// A response's size comes from its own `getcontentlength` alone: whatever
/// was read before, a `response` that has none is listed, if at all, with
/// size 0, after the entries listed before it.
pub proof fn lemma_response_without_length(
    st: ListingState,
    open: Seq<char>,
    mid: Seq<EventView>,
    close: Seq<char>,
    base: Seq<char>,
)
    requires
        local_name(open) == "response"@,
        local_name(close) == "response"@,
        st.target != Some(Target::Length),
        forall|i: int| 0 <= i < mid.len() ==> !sets_length_or_ends(#[trigger] mid[i]),
    ensures
        ({
            let after = run_from(st, seq![EventView::Start(open)] + mid + seq![EventView::End(close)], base);
            &&& after.entries.len() <= st.entries.len() + 1
            &&& after.entries.take(st.entries.len() as int) == st.entries
            &&& after.entries.len() == st.entries.len() + 1 ==> after.entries.last().2 == 0
        }),
{
    reveal_strlit("response");
    let s1 = listing_step(st, EventView::Start(open), base);
    assert(run_from(st, seq![EventView::Start(open)], base) == s1) by {
        let one = seq![EventView::Start(open)];
        assert(one.drop_last() =~= Seq::<EventView>::empty());
        assert(run_from(st, one.drop_last(), base) == st);
        assert(one.last() == EventView::Start(open));
    }
    assert(s1.cur.size is None);
    assert(s1.entries == st.entries);
    assert(s1.target == st.target);
    let evs = seq![EventView::Start(open)] + mid;
    assert forall|i: int| 0 <= i < mid.len() implies !sets_length_or_ends(#[trigger] mid[i]) by {}
    lemma_no_length_inside(s1, mid, base);
    lemma_run_from_split(st, seq![EventView::Start(open)], mid, base);
    let s2 = run_from(st, evs, base);
    let all = evs + seq![EventView::End(close)];
    assert(all.drop_last() =~= evs);
    assert(all.last() == EventView::End(close));
    assert(run_from(st, all, base) == listing_step(s2, EventView::End(close), base));
    assert(st.entries.take(st.entries.len() as int) =~= st.entries);
    let after = run_from(st, all, base);
    if after.entries.len() == st.entries.len() + 1 {
        assert(after.entries == s2.entries.push(after.entries.last()));
        assert(after.entries.take(st.entries.len() as int) =~= st.entries);
    }
}

proof fn lemma_run_from_split(st: ListingState, a: Seq<EventView>, b: Seq<EventView>, base: Seq<char>)
    ensures
        run_from(st, a + b, base) == run_from(run_from(st, a, base), b, base),
    decreases b.len(),
{
    if b.len() == 0 {
        assert(a + b =~= a);
    } else {
        lemma_run_from_split(st, a, b.drop_last(), base);
        assert((a + b).drop_last() =~= a + b.drop_last());
        assert((a + b).last() == b.last());
    }
}

/// Whether an event closes a `response`.
pub open spec fn ends_response(e: EventView) -> bool {
    e matches EventView::End(q) && local_name(q) == "response"@
}

/// Two reading states that differ at most in the entries listed so far.
pub open spec fn same_reading(a: ListingState, b: ListingState) -> bool {
    a.cur == b.cur && a.target == b.target && a.in_resourcetype == b.in_resourcetype
}

proof fn lemma_inside_response(s1: ListingState, s2: ListingState, mid: Seq<EventView>, base: Seq<char>)
    requires
        same_reading(s1, s2),
        forall|i: int| 0 <= i < mid.len() ==> !ends_response(#[trigger] mid[i]),
    ensures
        same_reading(run_from(s1, mid, base), run_from(s2, mid, base)),
        run_from(s1, mid, base).entries == s1.entries,
        run_from(s2, mid, base).entries == s2.entries,
    decreases mid.len(),
{
    reveal_strlit("response");
    if mid.len() > 0 {
        let d = mid.drop_last();
        assert forall|i: int| 0 <= i < d.len() implies !ends_response(#[trigger] d[i]) by {
            assert(d[i] == mid[i]);
        }
        lemma_inside_response(s1, s2, d, base);
        assert(!ends_response(mid[mid.len() - 1]));
    }
}

/// What a `response` lists depends on its own events alone: read from two
/// states that differ only in what was listed before (and so in the
/// properties of earlier responses), a `response` lists the same entry,
/// or nothing in both cases.
pub proof fn lemma_response_independent(
    st1: ListingState,
    st2: ListingState,
    open: Seq<char>,
    mid: Seq<EventView>,
    close: Seq<char>,
    base: Seq<char>,
)
    requires
        local_name(open) == "response"@,
        local_name(close) == "response"@,
        st1.target == st2.target,
        st1.in_resourcetype == st2.in_resourcetype,
        forall|i: int| 0 <= i < mid.len() ==> !ends_response(#[trigger] mid[i]),
    ensures
        ({
            let evs = seq![EventView::Start(open)] + mid + seq![EventView::End(close)];
            let a1 = run_from(st1, evs, base);
            let a2 = run_from(st2, evs, base);
            &&& a1.entries.take(st1.entries.len() as int) == st1.entries
            &&& a2.entries.take(st2.entries.len() as int) == st2.entries
            &&& a1.entries.len() - st1.entries.len() == a2.entries.len() - st2.entries.len()
            &&& a1.entries.len() <= st1.entries.len() + 1
            &&& a1.entries.len() == st1.entries.len() + 1 ==> a1.entries.last() == a2.entries.last()
        }),
{
    reveal_strlit("response");
    let one = seq![EventView::Start(open)];
    assert(one.drop_last() =~= Seq::<EventView>::empty());
    assert(one.last() == EventView::Start(open));
    assert(run_from(st1, one.drop_last(), base) == st1);
    assert(run_from(st2, one.drop_last(), base) == st2);
    let t1 = run_from(st1, one, base);
    let t2 = run_from(st2, one, base);
    assert(t1 == listing_step(st1, EventView::Start(open), base));
    assert(t2 == listing_step(st2, EventView::Start(open), base));
    assert(same_reading(t1, t2));
    lemma_inside_response(t1, t2, mid, base);
    lemma_run_from_split(st1, one, mid, base);
    lemma_run_from_split(st2, one, mid, base);
    let evs = one + mid;
    let all = evs + seq![EventView::End(close)];
    assert(all.drop_last() =~= evs);
    assert(all.last() == EventView::End(close));
    let u1 = run_from(st1, evs, base);
    let u2 = run_from(st2, evs, base);
    assert(run_from(st1, all, base) == listing_step(u1, EventView::End(close), base));
    assert(run_from(st2, all, base) == listing_step(u2, EventView::End(close), base));
    assert(st1.entries.take(st1.entries.len() as int) =~= st1.entries);
    assert(st2.entries.take(st2.entries.len() as int) =~= st2.entries);
    let a1 = run_from(st1, all, base);
    let a2 = run_from(st2, all, base);
    if a1.entries.len() == st1.entries.len() + 1 {
        assert(a1.entries.take(st1.entries.len() as int) =~= st1.entries);
    }
    if a2.entries.len() == st2.entries.len() + 1 {
        assert(a2.entries.take(st2.entries.len() as int) =~= st2.entries);
    }
}

proof fn lemma_run_push(st: ListingState, a: Seq<EventView>, e: EventView, base: Seq<char>)
    ensures
        run_from(st, a.push(e), base) == listing_step(run_from(st, a, base), e, base),
{
    assert(a.push(e).drop_last() =~= a);
}

proof fn lemma_no_colon_local(q: Seq<char>)
    requires
        forall|j: int| 0 <= j < q.len() ==> q[j] != ':',
    ensures
        local_name(q) == q,
    decreases q.len(),
{
    lemma_find_first_absent(q);
}

proof fn lemma_find_first_absent(q: Seq<char>)
    requires
        forall|j: int| 0 <= j < q.len() ==> q[j] != ':',
    ensures
        find_first(q, ':') == -1,
    decreases q.len(),
{
    if q.len() > 0 {
        let q1 = q.skip(1);
        assert forall|j: int| 0 <= j < q1.len() implies q1[j] != ':' by {
            assert(q1[j] == q[j + 1]);
        }
        lemma_find_first_absent(q1);
    }
}

/// The events of one `response` that has an `href`, a display name, a
/// length and a resource type, which holds `collection` when `dir` is set.
pub open spec fn response_events(h: Seq<char>, n: Seq<char>, len: Seq<char>, dir: bool) -> Seq<EventView> {
    seq![
        EventView::Start("response"@),
        EventView::Start("href"@),
        EventView::Text(h),
        EventView::End("href"@),
        EventView::Start("displayname"@),
        EventView::Text(n),
        EventView::End("displayname"@),
        EventView::Start("getcontentlength"@),
        EventView::Text(len),
        EventView::End("getcontentlength"@),
        EventView::Start("resourcetype"@),
    ] + (if dir { seq![EventView::Empty("collection"@)] } else { Seq::empty() }) + seq![
        EventView::End("resourcetype"@),
        EventView::End("response"@),
    ]
}

/// A full `response` is listed under its display name, or, when that is
/// empty, under the last piece of its `href` below the base; as a
/// directory exactly when its resource type holds `collection`; with the
/// length it gives, or 0 when that is not a number; and nothing is listed
/// when the name comes out empty. The entries before it stay.
pub proof fn lemma_response_listed(st: ListingState, h: Seq<char>, n: Seq<char>, len: Seq<char>, dir: bool, base: Seq<char>)
    requires
        st.target is None,
        !st.in_resourcetype,
    ensures
        ({
            let name = if n.len() > 0 { n } else { dav_basename_spec(h, base) };
            let size: u64 = match parse_unsigned(len, 10, u64::MAX as nat) {
                Some(v) => v as u64,
                None => 0,
            };
            run_from(st, response_events(h, n, len, dir), base).entries == if name.len() > 0 {
                st.entries.push((name, dir, size))
            } else {
                st.entries
            }
        }),
{
    reveal_strlit("response");
    reveal_strlit("href");
    reveal_strlit("displayname");
    reveal_strlit("getcontentlength");
    reveal_strlit("getlastmodified");
    reveal_strlit("resourcetype");
    reveal_strlit("collection");
    lemma_no_colon_local("response"@);
    lemma_no_colon_local("href"@);
    lemma_no_colon_local("displayname"@);
    lemma_no_colon_local("getcontentlength"@);
    lemma_no_colon_local("resourcetype"@);
    lemma_no_colon_local("collection"@);
    let evs = response_events(h, n, len, dir);
    let p0 = Seq::<EventView>::empty();
    let s0 = st;
    let p1 = p0.push(EventView::Start("response"@));
    let s1 = listing_step(s0, EventView::Start("response"@), base);
    lemma_run_push(st, p0, EventView::Start("response"@), base);
    let p2 = p1.push(EventView::Start("href"@));
    let s2 = listing_step(s1, EventView::Start("href"@), base);
    lemma_run_push(st, p1, EventView::Start("href"@), base);
    let p3 = p2.push(EventView::Text(h));
    let s3 = listing_step(s2, EventView::Text(h), base);
    lemma_run_push(st, p2, EventView::Text(h), base);
    let p4 = p3.push(EventView::End("href"@));
    let s4 = listing_step(s3, EventView::End("href"@), base);
    lemma_run_push(st, p3, EventView::End("href"@), base);
    let p5 = p4.push(EventView::Start("displayname"@));
    let s5 = listing_step(s4, EventView::Start("displayname"@), base);
    lemma_run_push(st, p4, EventView::Start("displayname"@), base);
    let p6 = p5.push(EventView::Text(n));
    let s6 = listing_step(s5, EventView::Text(n), base);
    lemma_run_push(st, p5, EventView::Text(n), base);
    let p7 = p6.push(EventView::End("displayname"@));
    let s7 = listing_step(s6, EventView::End("displayname"@), base);
    lemma_run_push(st, p6, EventView::End("displayname"@), base);
    let p8 = p7.push(EventView::Start("getcontentlength"@));
    let s8 = listing_step(s7, EventView::Start("getcontentlength"@), base);
    lemma_run_push(st, p7, EventView::Start("getcontentlength"@), base);
    let p9 = p8.push(EventView::Text(len));
    let s9 = listing_step(s8, EventView::Text(len), base);
    lemma_run_push(st, p8, EventView::Text(len), base);
    let p10 = p9.push(EventView::End("getcontentlength"@));
    let s10 = listing_step(s9, EventView::End("getcontentlength"@), base);
    lemma_run_push(st, p9, EventView::End("getcontentlength"@), base);
    let p11 = p10.push(EventView::Start("resourcetype"@));
    let s11 = listing_step(s10, EventView::Start("resourcetype"@), base);
    lemma_run_push(st, p10, EventView::Start("resourcetype"@), base);
    assert(run_from(st, p0, base) == st);
    let (p12, s12) = if dir {
        let e = EventView::Empty("collection"@);
        lemma_run_push(st, p11, e, base);
        (p11.push(e), listing_step(s11, e, base))
    } else {
        (p11, s11)
    };
    let p13 = p12.push(EventView::End("resourcetype"@));
    let s13 = listing_step(s12, EventView::End("resourcetype"@), base);
    lemma_run_push(st, p12, EventView::End("resourcetype"@), base);
    let p14 = p13.push(EventView::End("response"@));
    let s14 = listing_step(s13, EventView::End("response"@), base);
    lemma_run_push(st, p13, EventView::End("response"@), base);
    assert(p14 =~= evs);
    assert(s12.cur.is_collection == dir);
    assert(s12.cur.href == Some(h));
    assert(s12.cur.size == parse_unsigned(len, 10, u64::MAX as nat));
    assert(s12.entries == st.entries);
}

/// A namespace prefix is dropped: `prefix:name` has the local name
/// `name`, for a prefix without `:`; a name without `:` is its own.
pub proof fn lemma_local_name(prefix: Seq<char>, name: Seq<char>)
    requires
        forall|j: int| 0 <= j < prefix.len() ==> prefix[j] != ':',
    ensures
        local_name(prefix + seq![':'] + name) == name,
        (forall|j: int| 0 <= j < name.len() ==> name[j] != ':') ==> local_name(name) == name,
    decreases prefix.len(),
{
    let q = prefix + seq![':'] + name;
    lemma_find_first_split_colon(prefix, name);
    assert(q.skip(prefix.len() as int + 1) =~= name);
    if forall|j: int| 0 <= j < name.len() ==> name[j] != ':' {
        lemma_no_colon_local(name);
    }
}

proof fn lemma_find_first_split_colon(a: Seq<char>, b: Seq<char>)
    requires
        forall|j: int| 0 <= j < a.len() ==> a[j] != ':',
    ensures
        find_first(a + seq![':'] + b, ':') == a.len(),
    decreases a.len(),
{
    let s = a + seq![':'] + b;
    if a.len() > 0 {
        let a1 = a.skip(1);
        assert forall|j: int| 0 <= j < a1.len() implies a1[j] != ':' by {
            assert(a1[j] == a[j + 1]);
        }
        lemma_find_first_split_colon(a1, b);
        assert(s.skip(1) =~= a1 + seq![':'] + b);
        assert(s[0] == a[0]);
    } else {
        assert(s[0] == ':');
    }
}

} // verus!
