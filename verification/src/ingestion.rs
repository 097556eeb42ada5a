//! Ingestion of ISO 20022 `pacs.008` credit transfers.
//!
//! A message is parsed without copying: the fields of a [`Pacs008`] are
//! slices of the message text. [`Pacs008::into_graph_event`] turns a message
//! into a [`GraphEvent`] by hashing its identifiers, and an
//! [`IngestionPipeline`] hands events from the parsing thread to the
//! analysis thread through a bounded lock-free queue.
use vstd::prelude::*;
use vstd::string::StringSliceAdditionalSpecFns;
use vstd::utf8::{decode_utf8, valid_utf8};
use vstd::std_specs::hash::DefaultHasherAdditionalSpecFns;
use std::collections::hash_map::DefaultHasher;
use std::sync::Arc;
use crossbeam::queue::ArrayQueue;
use crate::xml::{read_event, xml_event, xml_position, XmlCursor, XmlEvent, XmlEventView};

verus! {

/// The fields of a `pacs.008` message that the engine needs, as slices of
/// the message text.
///
/// `tx_amount` is the text of the instructed amount (`InstdAmt`); turning it
/// into a number is left to the caller, so that no floating point is
/// computed here.
#[derive(Debug, Default, PartialEq, Eq, Clone, Copy)]
pub struct Pacs008<'a> {
    pub msg_id: &'a str,
    pub instg_agt: &'a str,
    pub instd_agt: &'a str,
    pub tx_amount: &'a str,
}

/// A transfer between two agents, with identifiers hashed to integers and
/// the amount as the IEEE-754 bit pattern of its value.
#[derive(Debug, Default, PartialEq, Eq, Clone, Copy)]
pub struct GraphEvent {
    pub msg_id: u64,
    pub src_node: u64,
    pub dst_node: u64,
    pub amount: u64,
}

/// The element whose text the parser is reading.
#[derive(Debug, PartialEq, Eq, Clone, Copy)]
pub enum Tag {
    MsgId,
    FinInstnId,
    InstdAmt,
    Other,
}

/// The bytes of the tag name `MsgId`.
pub open spec fn msg_id_name() -> Seq<u8> {
    seq![77u8, 115u8, 103u8, 73u8, 100u8]
}

/// The bytes of the tag name `FinInstnId`.
pub open spec fn fin_instn_id_name() -> Seq<u8> {
    seq![70u8, 105u8, 110u8, 73u8, 110u8, 115u8, 116u8, 110u8, 73u8, 100u8]
}

/// The bytes of the tag name `InstdAmt`.
pub open spec fn instd_amt_name() -> Seq<u8> {
    seq![73u8, 110u8, 115u8, 116u8, 100u8, 65u8, 109u8, 116u8]
}

/// The tag that an element name stands for.
pub open spec fn tag_of(name: Seq<u8>) -> Tag {
    if name == msg_id_name() {
        Tag::MsgId
    } else if name == fin_instn_id_name() {
        Tag::FinInstnId
    } else if name == instd_amt_name() {
        Tag::InstdAmt
    } else {
        Tag::Other
    }
}

/// What the parser knows after some events: the texts found so far, the
/// element being read, and how many agents have been seen.
pub struct ParseState {
    pub msg_id: Seq<char>,
    pub instg_agt: Seq<char>,
    pub instd_agt: Seq<char>,
    pub tx_amount: Seq<char>,
    pub tag: Tag,
    pub agents: nat,
}

/// Nothing read yet: all fields empty.
pub open spec fn initial_state() -> ParseState {
    ParseState {
        msg_id: Seq::empty(),
        instg_agt: Seq::empty(),
        instd_agt: Seq::empty(),
        tx_amount: Seq::empty(),
        tag: Tag::Other,
        agents: 0,
    }
}

/// One event's effect. A start tag selects the element; text that is valid
/// UTF-8 is stored in the field of that element, the first agent's
/// `FinInstnId` being the instructing agent and every later one the
/// instructed agent. Everything else changes nothing.
pub open spec fn parse_step(st: ParseState, ev: XmlEventView) -> ParseState {
    match ev {
        XmlEventView::Start(name) => ParseState { tag: tag_of(name), ..st },
        XmlEventView::Text(Some(bytes)) => {
            if valid_utf8(bytes) {
                let text = decode_utf8(bytes);
                match st.tag {
                    Tag::MsgId => ParseState { msg_id: text, ..st },
                    Tag::FinInstnId => if st.agents == 0 {
                        ParseState { instg_agt: text, agents: 1, ..st }
                    } else {
                        ParseState { instd_agt: text, ..st }
                    },
                    Tag::InstdAmt => ParseState { tx_amount: text, ..st },
                    Tag::Other => st,
                }
            } else {
                st
            }
        },
        _ => st,
    }
}

/// The parser's state after the first `n` events of `input`, read with
/// text trimming.
pub open spec fn state_after(input: Seq<u8>, n: nat) -> ParseState
    decreases n,
{
    if n == 0 {
        initial_state()
    } else {
        parse_step(state_after(input, (n - 1) as nat), xml_event(input, true, (n - 1) as nat))
    }
}

/// The element selected after the first `n` events of `input`: the tag of
/// the last start tag among them, `Other` before any.
pub open spec fn selected_tag(input: Seq<u8>, n: nat) -> Tag
    decreases n,
{
    if n == 0 {
        Tag::Other
    } else {
        match xml_event(input, true, (n - 1) as nat) {
            XmlEventView::Start(name) => tag_of(name),
            _ => selected_tag(input, (n - 1) as nat),
        }
    }
}

/// The texts read inside the element `t` among the first `n` events of
/// `input`, in document order: every text event that is valid UTF-8 and
/// comes while `t` is the selected element.
pub open spec fn texts_in(input: Seq<u8>, n: nat, t: Tag) -> Seq<Seq<char>>
    decreases n,
{
    if n == 0 {
        Seq::empty()
    } else {
        let k = (n - 1) as nat;
        let before = texts_in(input, k, t);
        match xml_event(input, true, k) {
            XmlEventView::Text(Some(bytes)) => if valid_utf8(bytes) && selected_tag(input, k) == t {
                before.push(decode_utf8(bytes))
            } else {
                before
            },
            _ => before,
        }
    }
}

/// The last of some texts; empty when there are none.
pub open spec fn last_text(texts: Seq<Seq<char>>) -> Seq<char> {
    if texts.len() == 0 {
        Seq::empty()
    } else {
        texts.last()
    }
}

/// What a message says after its first `n` events, read off the events:
/// the last `MsgId` text, the first `FinInstnId` text as the instructing
/// agent, the last of the later ones as the instructed agent, and the last
/// `InstdAmt` text, each of them whatever other elements come before or
/// after it.
pub open spec fn fields_read(input: Seq<u8>, n: nat) -> ParseState {
    let agents = texts_in(input, n, Tag::FinInstnId);
    ParseState {
        msg_id: last_text(texts_in(input, n, Tag::MsgId)),
        instg_agt: if agents.len() > 0 { agents[0] } else { Seq::empty() },
        instd_agt: if agents.len() > 1 { agents.last() } else { Seq::empty() },
        tx_amount: last_text(texts_in(input, n, Tag::InstdAmt)),
        tag: selected_tag(input, n),
        agents: if agents.len() > 0 { 1 } else { 0 },
    }
}

/// The end of the document or an error.
pub open spec fn is_terminal(ev: XmlEventView) -> bool {
    ev is Eof || ev is Failure
}

/// Event `n` is the first end of the document or error in `input`.
pub open spec fn stops_at(input: Seq<u8>, n: nat) -> bool {
    &&& forall|k: nat| k < n ==> !is_terminal(#[trigger] xml_event(input, true, k))
    &&& is_terminal(xml_event(input, true, n))
}

/// The message text that [`Pacs008::parse`] reports on failure.
pub open spec fn parse_error_text() -> Seq<char> {
    "Fatal XML parsing error"@
}

/// Whether two byte strings are equal.
fn bytes_equal(a: &[u8], b: &[u8]) -> (r: bool)
    ensures
        r == (a@ == b@),
{
    if a.len() != b.len() {
        return false;
    }
    let mut i: usize = 0;
    while i < a.len()
        invariant
            0 <= i <= a@.len(),
            a@.len() == b@.len(),
            forall|k: int| 0 <= k < i ==> a@[k] == b@[k],
        decreases a@.len() - i,
    {
        if a[i] != b[i] {
            return false;
        }
        i = i + 1;
    }
    assert(a@ =~= b@);
    true
}

/// The tag that an element name stands for.
fn classify_tag(name: &[u8]) -> (t: Tag)
    ensures
        t == tag_of(name@),
{
    let msg_id: [u8; 5] = [77, 115, 103, 73, 100];
    let fin_instn_id: [u8; 10] = [70, 105, 110, 73, 110, 115, 116, 110, 73, 100];
    let instd_amt: [u8; 8] = [73, 110, 115, 116, 100, 65, 109, 116];
    if bytes_equal(name, msg_id.as_slice()) {
        Tag::MsgId
    } else if bytes_equal(name, fin_instn_id.as_slice()) {
        Tag::FinInstnId
    } else if bytes_equal(name, instd_amt.as_slice()) {
        Tag::InstdAmt
    } else {
        Tag::Other
    }
}

/// Calls `std::str::from_utf8`: the text the bytes encode, when they are
/// valid UTF-8.
#[verifier::external_body]
fn utf8_str<'a>(bytes: &'a [u8]) -> (r: Option<&'a str>)
    ensures
        r is Some <==> valid_utf8(bytes@),
        r matches Some(s) ==> s@ == decode_utf8(bytes@),
{
    std::str::from_utf8(bytes).ok()
}

/// A message being parsed: the fields found so far, the element whose text
/// is being read, and how many agents have been seen.
pub struct ParseProgress<'a> {
    pub parsed: Pacs008<'a>,
    pub tag: Tag,
    pub agents: usize,
}

impl<'a> ParseProgress<'a> {
    /// What the parser knows.
    pub open spec fn state(&self) -> ParseState {
        ParseState {
            msg_id: self.parsed.msg_id@,
            instg_agt: self.parsed.instg_agt@,
            instd_agt: self.parsed.instd_agt@,
            tx_amount: self.parsed.tx_amount@,
            tag: self.tag,
            agents: self.agents as nat,
        }
    }

    /// Nothing read yet: empty fields, no element, no agent.
    pub fn new() -> (p: Self)
        ensures
            p.state() == initial_state(),
    {
        proof {
            reveal_strlit("");
            assert(""@ =~= Seq::<char>::empty());
        }
        ParseProgress {
            parsed: Pacs008 { msg_id: "", instg_agt: "", instd_agt: "", tx_amount: "" },
            tag: Tag::Other,
            agents: 0,
        }
    }

    /// Takes one event into account (see [`parse_step`]): a start tag
    /// selects the element, text that is valid UTF-8 goes to the field of
    /// the selected element, and every other event changes nothing.
    pub fn step(&mut self, ev: XmlEvent<'a>)
        ensures
            final(self).state() == parse_step(old(self).state(), ev@),
    {
        match ev {
            XmlEvent::Start(name) => {
                self.tag = classify_tag(name.as_slice());
            },
            XmlEvent::Text(Some(bytes)) => {
                if let Some(text) = utf8_str(bytes) {
                    match self.tag {
                        Tag::MsgId => self.parsed.msg_id = text,
                        Tag::FinInstnId => {
                            if self.agents == 0 {
                                self.parsed.instg_agt = text;
                                self.agents += 1;
                            } else {
                                self.parsed.instd_agt = text;
                            }
                        },
                        Tag::InstdAmt => self.parsed.tx_amount = text,
                        Tag::Other => {},
                    }
                }
            },
            _ => {},
        }
    }
}

impl<'a> Pacs008<'a> {
    /// The fields agree with a parser state.
    pub open spec fn holds(&self, st: ParseState) -> bool {
        &&& self.msg_id@ == st.msg_id
        &&& self.instg_agt@ == st.instg_agt
        &&& self.instd_agt@ == st.instd_agt
        &&& self.tx_amount@ == st.tx_amount
    }

    /// Parses a `pacs.008` message.
    ///
    /// Reads the XML events of `xml` with whitespace trimming until the end
    /// of the document. The text of `MsgId` becomes `msg_id`; the text of the
    /// first `FinInstnId` becomes `instg_agt` and that of every later one
    /// `instd_agt`; the text of `InstdAmt` becomes `tx_amount`. A field whose
    /// tag does not occur stays empty; where a tag occurs again, its last text
    /// counts. Any XML error makes the whole parse fail.
    pub fn parse(xml: &'a str) -> (r: Result<Self, &'static str>)
        ensures
            match r {
                Ok(p) => exists|n: nat|
                    #[trigger] stops_at(xml.spec_bytes(), n)
                    && xml_event(xml.spec_bytes(), true, n) is Eof
                    && p.holds(state_after(xml.spec_bytes(), n))
                    && p.holds(fields_read(xml.spec_bytes(), n)),
                Err(e) => e@ == parse_error_text() && exists|n: nat|
                    #[trigger] stops_at(xml.spec_bytes(), n)
                    && xml_event(xml.spec_bytes(), true, n) is Failure,
            },
    {
        let ghost input = xml.spec_bytes();
        let mut reader = XmlCursor::open(xml);
        reader.trim_text(true);
        let mut progress = ParseProgress::new();
        loop
            invariant
                input == xml.spec_bytes(),
                reader.input() == input,
                reader.trims(),
                forall|k: nat| k < reader.events_read() ==> !is_terminal(#[trigger] xml_event(input, true, k)),
                progress.state() == state_after(input, reader.events_read()),
            decreases input.len() - xml_position(input, true, reader.events_read()),
        {
            let ghost n = reader.events_read();
            let ev = read_event(&mut reader);
            match ev {
                XmlEvent::Eof => {
                    assert(stops_at(input, n));
                    proof {
                        law_parse_reads_each_field(input, n);
                    }
                    return Ok(progress.parsed);
                },
                XmlEvent::Failure => {
                    let msg = "Fatal XML parsing error";
                    assert(stops_at(input, n));
                    return Err(msg);
                },
                _ => {
                    progress.step(ev);
                },
            }
        }
    }

    /// The event of this message: its identifier and the two agents hashed
    /// with [`hash_str`], and the amount given as the bit pattern of its
    /// value (the decoding of [`Pacs008::tx_amount`] is the caller's).
    pub fn into_graph_event(&self, amount: u64) -> (ev: GraphEvent)
        ensures
            ev.msg_id == str_hash(self.msg_id@),
            ev.src_node == str_hash(self.instg_agt@),
            ev.dst_node == str_hash(self.instd_agt@),
            ev.amount == amount,
            self.instg_agt@ != self.instd_agt@ ==> str_hash_writes(self.instg_agt@) != str_hash_writes(
                self.instd_agt@,
            ),
    {
        GraphEvent {
            msg_id: hash_str(self.msg_id),
            src_node: hash_str(self.instg_agt),
            dst_node: hash_str(self.instd_agt),
            amount,
        }
    }
}

/// The writes that `<str as Hash>::hash` performs on a hasher for `s`.
pub uninterp spec fn str_hash_writes(s: Seq<char>) -> Seq<Seq<u8>>;

/// What [`hash_str`] returns: the `DefaultHasher` digest of `s`.
pub open spec fn str_hash(s: Seq<char>) -> u64 {
    DefaultHasher::spec_finish(str_hash_writes(s))
}

/// Calls `<str as std::hash::Hash>::hash`: feeds `s` into the hasher. The
/// writes it adds depend on `s` alone, and, as the `Hash` trait's
/// documentation asks of every implementation ("values which are not equal
/// should cause two different sequences of values to be written"), no
/// other string would have added the same writes.
#[verifier::external_body]
fn hash_str_into(s: &str, state: &mut DefaultHasher)
    ensures
        final(state)@ == old(state)@ + str_hash_writes(s@),
        forall|t: Seq<char>| old(state)@ + #[trigger] str_hash_writes(t) == final(state)@ ==> t == s@,
{
    std::hash::Hash::hash(s, state)
}

/// The 64-bit `DefaultHasher` digest of a string: equal strings give equal
/// digests, and the hasher is fed the whole string, so that different
/// strings feed it different data.
pub fn hash_str(s: &str) -> (h: u64)
    ensures
        h == str_hash(s@),
        forall|t: Seq<char>| #[trigger] str_hash_writes(t) == str_hash_writes(s@) ==> t == s@,
{
    let mut hasher = DefaultHasher::new();
    let ghost fresh = hasher@;
    hash_str_into(s, &mut hasher);
    proof {
        assert forall|t: Seq<char>| #[trigger] str_hash_writes(t) == str_hash_writes(s@) implies t == s@ by {
            assert(fresh + str_hash_writes(t) == hasher@);
        }
    }
    std::hash::Hasher::finish(&hasher)
}

#[verifier::external_type_specification]
#[verifier::external_body]
#[verifier::reject_recursive_types(T)]
pub struct ExArrayQueue<T>(ArrayQueue<T>);

/// The capacity that a `crossbeam` `ArrayQueue` of events was made with
/// (what its `capacity()` returns).
pub uninterp spec fn queue_capacity(q: ArrayQueue<GraphEvent>) -> nat;

/// Calls `crossbeam::queue::ArrayQueue::new`: an empty queue of the given
/// capacity. The queue panics on a zero capacity and on one whose buffer of
/// slots (40 bytes each for an event: the event and a 64-bit stamp) does
/// not fit in `isize::MAX` bytes, so those are left out.
#[verifier::external_body]
fn new_queue(capacity: usize) -> (q: ArrayQueue<GraphEvent>)
    requires
        0 < capacity,
        capacity * 40 <= isize::MAX,
    ensures
        queue_capacity(q) == capacity,
{
    ArrayQueue::new(capacity)
}

/// Calls `ArrayQueue::push`: enqueues the event unless the queue is full, in
/// which case the event is handed back. Whether the queue is full depends on
/// the other threads that share it, so which of the two happens is not
/// stated.
#[verifier::external_body]
fn queue_push(q: &ArrayQueue<GraphEvent>, event: GraphEvent) -> (r: Result<(), GraphEvent>)
    ensures
        r matches Err(back) ==> back == event,
{
    q.push(event)
}

/// Calls `ArrayQueue::pop`: the oldest event, if any. What the queue holds
/// depends on the other threads that share it, so nothing is stated of the
/// result.
#[verifier::external_body]
fn queue_pop(q: &ArrayQueue<GraphEvent>) -> Option<GraphEvent> {
    q.pop()
}

/// Hands events from the parsing thread to the analysis thread through a
/// bounded lock-free queue shared by both.
pub struct IngestionPipeline {
    pub queue: Arc<ArrayQueue<GraphEvent>>,
}

impl IngestionPipeline {
    /// A pipeline whose queue holds at most `capacity` events.
    pub fn new(capacity: usize) -> (p: Self)
        requires
            0 < capacity,
            capacity * 40 <= isize::MAX,
        ensures
            queue_capacity(*p.queue) == capacity,
    {
        IngestionPipeline { queue: Arc::new(new_queue(capacity)) }
    }

    /// Offers an event to the queue; when the queue is full the event comes
    /// back unchanged.
    pub fn push_event(&self, event: GraphEvent) -> (r: Result<(), GraphEvent>)
        ensures
            r matches Err(back) ==> back == event,
    {
        queue_push(&self.queue, event)
    }

    /// Takes the oldest event from the queue, if there is one.
    pub fn pop_event(&self) -> Option<GraphEvent> {
        queue_pop(&self.queue)
    }
}

/// The parser's state after any number of events is what those events say
/// (see [`fields_read`]): each field is the text of its own element, last
/// occurrence first, and in particular the amount is the last `InstdAmt`
/// text however many agents come before or after it.
pub proof fn law_parse_reads_each_field(input: Seq<u8>, n: nat)
    ensures
        state_after(input, n).msg_id == fields_read(input, n).msg_id,
        state_after(input, n).instg_agt == fields_read(input, n).instg_agt,
        state_after(input, n).instd_agt == fields_read(input, n).instd_agt,
        state_after(input, n).tx_amount == fields_read(input, n).tx_amount,
        state_after(input, n).tag == fields_read(input, n).tag,
        state_after(input, n).agents == fields_read(input, n).agents,
    decreases n,
{
    if n > 0 {
        let k = (n - 1) as nat;
        law_parse_reads_each_field(input, k);
        let ev = xml_event(input, true, k);
        let ag = texts_in(input, k, Tag::FinInstnId);
        match ev {
            XmlEventView::Text(Some(bytes)) => {
                if valid_utf8(bytes) && selected_tag(input, k) == Tag::FinInstnId {
                    let t = decode_utf8(bytes);
                    assert(texts_in(input, n, Tag::FinInstnId) == ag.push(t));
                    if ag.len() > 0 {
                        assert(ag.push(t)[0] == ag[0]);
                    }
                }
            },
            _ => {},
        }
    }
}

/// Parsing stops at one well-defined event: the first end of the document
/// or error, so a message parses to exactly one outcome.
pub proof fn law_parse_stops_once(input: Seq<u8>, n: nat, m: nat)
    requires
        stops_at(input, n),
        stops_at(input, m),
    ensures
        n == m,
{
    // the earlier of two stops would come before the later one's first stop
    if n < m {
        assert(!is_terminal(xml_event(input, true, n)));
    } else if m < n {
        assert(!is_terminal(xml_event(input, true, m)));
    }
}

/// Equal account texts are hashed to equal node identifiers.
pub proof fn law_hash_deterministic(a: Seq<char>, b: Seq<char>)
    requires
        a == b,
    ensures
        str_hash(a) == str_hash(b),
{
}

} // verus!
