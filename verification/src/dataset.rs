//! Datasets: named, ordered lists of sample sources, published to every
//! detector through a bounded broadcast channel.
//!
//! The channel, the file reads and the glob expansion are performed by the
//! surrounding process; this module holds the data model, the identifier
//! rules, and the decisions of a load run: which outcomes are reported,
//! which stop the run, and what is published.

use vstd::prelude::*;
use vstd::string::StringExecFns;

use crate::handler::{ErrorHandler, RunError};
use crate::identifier::Identifier;

verus! {

/// The declaration of the outside channel and byte-buffer types.
#[verifier::external_type_specification]
#[verifier::external_body]
pub struct ExBytes(bytes::Bytes);

#[verifier::external_type_specification]
#[verifier::external_body]
#[verifier::reject_recursive_types(T)]
pub struct ExSender<T>(async_broadcast::Sender<T>);

#[verifier::external_type_specification]
#[verifier::external_body]
#[verifier::reject_recursive_types(T)]
pub struct ExReceiver<T>(async_broadcast::Receiver<T>);

/// The contents of a shared byte buffer.
pub uninterp spec fn bytes_view(b: bytes::Bytes) -> Seq<u8>;

/// Relies on `Bytes::from(Vec<u8>)`: the buffer holds exactly the vector's
/// contents.
#[verifier::external_body]
fn bytes_from_vec(v: Vec<u8>) -> (r: bytes::Bytes)
    ensures
        bytes_view(r) == v@,
{
    bytes::Bytes::from(v)
}

/// Relies on `<Bytes as AsRef<[u8]>>::as_ref`: a slice of the same contents.
#[verifier::external_body]
fn bytes_as_slice(b: &bytes::Bytes) -> (r: &[u8])
    ensures
        r@ == bytes_view(*b),
{
    b.as_ref()
}

/// Relies on `<Bytes as Clone>::clone`: a cheap copy with the same contents.
#[verifier::external_body]
fn bytes_clone(b: &bytes::Bytes) -> (r: bytes::Bytes)
    ensures
        bytes_view(r) == bytes_view(*b),
{
    b.clone()
}

/// The receiving end a detector drains its samples from.
pub type Samples = async_broadcast::Receiver<Sample>;

/// Relies on `async_broadcast::broadcast`: a bounded, non-replaying channel
/// with one sender and one initial receiver. It panics on zero capacity,
/// which the precondition excludes.
#[verifier::external_body]
fn new_channel(cap: usize) -> (r: (async_broadcast::Sender<Sample>, Samples))
    requires
        cap >= 1,
{
    async_broadcast::broadcast(cap)
}

/// Relies on `Sender::new_receiver`: registers one more receiver on the same
/// channel; it sees only what is published after this call.
#[verifier::external_body]
fn channel_receiver(s: &async_broadcast::Sender<Sample>) -> (r: Samples) {
    s.new_receiver()
}

/// One unit of input data beside its identity.
#[derive(Debug)]
pub struct Sample {
    pub content: bytes::Bytes,
    pub identifier: Identifier,
}

impl Sample {
    /// The bytes this sample carries.
    pub open spec fn content_bytes(&self) -> Seq<u8> {
        bytes_view(self.content)
    }

    /// Builds the sample read from `path` in the dataset called `name`.
    pub fn new(name: &str, path: &str, content: Vec<u8>) -> (r: Sample)
        ensures
            r.content_bytes() == content@,
            r.identifier@ == name@ + ":"@ + path@,
    {
        Sample {
            content: bytes_from_vec(content),
            identifier: Identifier::from_path(name, path),
        }
    }

    /// The identifier text of the sample at `path` in the dataset `name`.
    pub fn create_identifier(name: &str, path: &str) -> (r: String)
        ensures
            r@ == name@ + ":"@ + path@,
    {
        let mut text = name.to_owned();
        text.append(":");
        text.append(path);
        text
    }

    /// The sample's bytes as a slice.
    pub fn as_ref(&self) -> (r: &[u8])
        ensures
            r@ == self.content_bytes(),
    {
        bytes_as_slice(&self.content)
    }
}

impl Clone for Sample {
    fn clone(&self) -> (r: Self)
        ensures
            r.identifier == self.identifier,
            r.content_bytes() == self.content_bytes(),
    {
        Sample { content: bytes_clone(&self.content), identifier: self.identifier.clone() }
    }
}

/// Holds when the text is read as a glob pattern rather than a literal path:
/// it mentions one of the wildcard characters.
pub open spec fn is_pattern_text(s: Seq<char>) -> bool {
    exists|i: int| 0 <= i < s.len() && (s[i] == '*' || s[i] == '?' || s[i] == '[')
}

/// One source of samples: a literal path or a glob pattern.
#[derive(Debug, Clone, PartialEq, Eq)]
pub enum Entry {
    Path(String),
    Pattern(String),
}

impl Entry {
    /// The text of the entry.
    pub open spec fn text(&self) -> Seq<char> {
        match self {
            Entry::Path(t) => t@,
            Entry::Pattern(t) => t@,
        }
    }

    /// Reads an entry from its text: wildcards make it a pattern.
    pub fn classify(text: String) -> (r: Entry)
        ensures
            r.text() == text@,
            r is Pattern <==> is_pattern_text(text@),
    {
        let n = text.as_str().unicode_len();
        let mut i: usize = 0;
        while i < n
            invariant
                i <= n,
                n == text@.len(),
                forall|k: int|
                    0 <= k < i ==> !(text@[k] == '*' || text@[k] == '?' || text@[k] == '['),
            decreases n - i,
        {
            let c = text.as_str().get_char(i);
            if c == '*' || c == '?' || c == '[' {
                return Entry::Pattern(text);
            }
            i += 1;
        }
        Entry::Path(text)
    }

    /// Decodes an entry from a JSON body holding a single string.
    pub fn decode(bytes: &[u8]) -> (r: Option<Entry>)
        ensures
            match crate::json::spec_parse_json(bytes@) {
                Some(crate::json::JsonSpec::Str(s)) => if crate::text::utf8_valid(s) {
                    r matches Some(e) && e.text() == crate::text::utf8_chars(s) && (e is Pattern
                        <==> is_pattern_text(crate::text::utf8_chars(s)))
                } else {
                    r is None
                },
                _ => r is None,
            },
    {
        match crate::json::parse_json(bytes) {
            Some(crate::json::Json::Str(s)) => {
                match crate::text::utf8_string(&s) {
                    Some(text) => Some(Entry::classify(text)),
                    None => None,
                }
            },
            _ => None,
        }
    }
}

/// Why a dataset could not deliver a sample.
#[derive(Debug)]
pub struct Error {
    pub dataset: String,
    pub details: ErrorType,
}

/// What went wrong while loading; only `Aborted` stops the run.
#[derive(Debug)]
pub enum ErrorType {
    /// Reading one sample failed; carries its identifier and the reason.
    Io(Identifier, String),
    /// A glob pattern could not be compiled.
    PatternInvalid(String),
    /// Walking a glob pattern failed on one path.
    GlobIo(String),
    /// Every subscriber is gone, so loading stopped early.
    Aborted,
}

impl Error {
    /// The human-readable description of this error.
    pub open spec fn spec_message(&self) -> Seq<char> {
        match self.details {
            ErrorType::Io(identifier, error) => "loading sample '"@ + identifier@ + "' failed: "@
                + error@,
            ErrorType::PatternInvalid(error) => "invalid pattern for loading samples: "@ + error@,
            ErrorType::GlobIo(error) => "querying samples given expression failed: "@ + error@,
            ErrorType::Aborted => "loading and sending samples was aborted"@,
        }
    }

    /// Renders the description.
    pub fn message(&self) -> (r: String)
        ensures
            r@ == self.spec_message(),
    {
        match &self.details {
            ErrorType::Io(identifier, error) => {
                let mut t = "loading sample '".to_owned();
                t.append(identifier.as_str());
                t.append("' failed: ");
                t.append(error.as_str());
                t
            },
            ErrorType::PatternInvalid(error) => {
                let mut t = "invalid pattern for loading samples: ".to_owned();
                t.append(error.as_str());
                t
            },
            ErrorType::GlobIo(error) => {
                let mut t = "querying samples given expression failed: ".to_owned();
                t.append(error.as_str());
                t
            },
            ErrorType::Aborted => "loading and sending samples was aborted".to_owned(),
        }
    }
}

/// A named dataset, its entries still to be loaded, and the sending side of
/// its broadcast channel.
#[derive(Debug)]
pub struct Dataset {
    pub name: String,
    pub patterns: Vec<Entry>,
    input: async_broadcast::Sender<Sample>,
    output: Option<Samples>,
}

impl Dataset {
    /// The dataset's name.
    pub closed spec fn spec_name(&self) -> Seq<char> {
        self.name@
    }

    /// The dataset's entries, in order.
    pub closed spec fn entries(&self) -> Seq<Entry> {
        self.patterns@
    }

    /// A dataset over the given entries, with a fresh bounded channel of
    /// sixteen in-flight samples: enough to keep detectors busy, small
    /// enough to cap memory and give backpressure against slow ones.
    pub fn new(name: String, patterns: Vec<Entry>) -> (r: Dataset)
        ensures
            r.spec_name() == name@,
            r.entries() == patterns@,
    {
        let (input, receiver) = new_channel(16);
        Dataset { name, patterns, input, output: Some(receiver) }
    }

    /// A receiving end for one detector. It must be taken before loading
    /// starts: the channel does not replay earlier samples.
    pub fn create_connection(&mut self) -> (r: Samples)
        ensures
            final(self).spec_name() == old(self).spec_name(),
            final(self).entries() == old(self).entries(),
    {
        let taken = self.output.take();
        match taken {
            Some(receiver) => receiver,
            None => channel_receiver(&self.input),
        }
    }

    /// Takes the dataset apart for loading: its name, its entries in order,
    /// and the sending end of the channel. The entries are consumed; a
    /// dataset is loaded once.
    pub fn into_loader(self) -> (r: (LoadRun, Vec<Entry>, async_broadcast::Sender<Sample>))
        ensures
            r.0.dataset_name() == self.spec_name(),
            !r.0.stopped(),
            r.1@ == self.entries(),
    {
        (LoadRun { name: self.name, stopped: false }, self.patterns, self.input)
    }
}

// ---------------------------------------------------------------------------
// The load run: decisions of one pass over a dataset's entries
// ---------------------------------------------------------------------------

/// One outcome the surrounding process observed while loading.
pub enum LoadEvent {
    /// A path was read, or failed to read with the given reason.
    FileRead { path: String, result: Result<Vec<u8>, String> },
    /// A glob pattern failed to compile.
    PatternInvalid { message: String },
    /// Walking a glob pattern failed on one path.
    GlobIo { message: String },
    /// A published sample reached the channel.
    Delivered,
    /// The channel reports that no subscriber is left.
    Closed,
}

/// The kind of report an event provokes, if any.
#[derive(Debug, Clone, Copy, PartialEq, Eq, Structural)]
pub enum ReportKind {
    Io,
    PatternInvalid,
    GlobIo,
    Aborted,
}

/// The report an event provokes.
pub open spec fn spec_report_of(e: LoadEvent) -> Option<ReportKind> {
    match e {
        LoadEvent::FileRead { path, result } => match result {
            Ok(_) => None,
            Err(_) => Some(ReportKind::Io),
        },
        LoadEvent::PatternInvalid { message } => Some(ReportKind::PatternInvalid),
        LoadEvent::GlobIo { message } => Some(ReportKind::GlobIo),
        LoadEvent::Delivered => None,
        LoadEvent::Closed => Some(ReportKind::Aborted),
    }
}

/// Whether an event publishes a sample.
pub open spec fn spec_publishes(e: LoadEvent) -> bool {
    e matches LoadEvent::FileRead { path, result: Ok(_) }
}

/// The reports and the publish count of a whole load run over `events`:
/// events are processed in order, and the first `Closed` ends the run after
/// its own report.
pub open spec fn spec_load_outcome(events: Seq<LoadEvent>) -> (Seq<ReportKind>, int)
    decreases events.len(),
{
    if events.len() == 0 {
        (Seq::empty(), 0)
    } else {
        let e = events[0];
        if e is Closed {
            (seq![ReportKind::Aborted], 0)
        } else {
            let rest = spec_load_outcome(events.drop_first());
            let reports = match spec_report_of(e) {
                Some(k) => seq![k] + rest.0,
                None => rest.0,
            };
            let published: int = if spec_publishes(e) {
                1 + rest.1
            } else {
                rest.1
            };
            (reports, published)
        }
    }
}

/// Once every subscriber is gone, the run ends with exactly one `Aborted`
/// report, as its last report, and nothing read before the closure is lost:
/// the outcome equals that of the events before the first `Closed`, plus the
/// one `Aborted`; no later event publishes or reports anything.
pub proof fn lemma_closed_ends_load(events: Seq<LoadEvent>, c: int)
    requires
        0 <= c < events.len(),
        events[c] is Closed,
        forall|k: int| 0 <= k < c ==> !(#[trigger] events[k] is Closed),
    ensures
        spec_load_outcome(events).0 == spec_load_outcome(events.take(c)).0.push(
            ReportKind::Aborted,
        ),
        spec_load_outcome(events).1 == spec_load_outcome(events.take(c)).1,
        forall|k: int|
            0 <= k < spec_load_outcome(events.take(c)).0.len() ==> spec_load_outcome(
                events.take(c),
            ).0[k] != ReportKind::Aborted,
    decreases events.len(),
{
    if c == 0 {
        assert(spec_load_outcome(events.take(0)).0 =~= Seq::<ReportKind>::empty());
        assert(spec_load_outcome(events).0 =~= Seq::<ReportKind>::empty().push(
            ReportKind::Aborted,
        ));
    } else {
        let e = events[0];
        lemma_closed_ends_load(events.drop_first(), c - 1);
        assert(events.drop_first().take(c - 1) =~= events.take(c).drop_first());
        assert(events.take(c)[0] == e);
        match spec_report_of(e) {
            Some(k) => {
                assert(!(e is Closed));
                assert(k != ReportKind::Aborted);
                assert(spec_load_outcome(events).0 =~= spec_load_outcome(events.take(c)).0.push(
                    ReportKind::Aborted,
                ));
            },
            None => {
                assert(spec_load_outcome(events).0 =~= spec_load_outcome(events.take(c)).0.push(
                    ReportKind::Aborted,
                ));
            },
        }
    }
}

/// The state of one load run.
pub struct LoadRun {
    name: String,
    stopped: bool,
}

impl LoadRun {
    /// The dataset this run loads.
    pub closed spec fn dataset_name(&self) -> Seq<char> {
        self.name@
    }

    /// Whether the run has ended early because the channel closed.
    pub closed spec fn stopped(&self) -> bool {
        self.stopped
    }

    /// Holds when `re` is the report this run files for `event`: a dataset
    /// error naming this dataset, whose kind and payload come from the
    /// event — for a failed read, the sample's identifier and the reason;
    /// for a failed pattern or walk, its message.
    pub open spec fn reports_event(&self, re: RunError, event: LoadEvent) -> bool {
        &&& re matches RunError::Dataset(err)
        &&& err.dataset@ == self.dataset_name()
        &&& match event {
            LoadEvent::FileRead { path, result } => result matches Err(reason)
                && (err.details matches ErrorType::Io(identifier, m) && identifier@
                == self.dataset_name() + ":"@ + path@ && m@ == reason@),
            LoadEvent::PatternInvalid { message } => err.details
                matches ErrorType::PatternInvalid(m) && m@ == message@,
            LoadEvent::GlobIo { message } => err.details matches ErrorType::GlobIo(m) && m@
                == message@,
            LoadEvent::Delivered => false,
            LoadEvent::Closed => err.details is Aborted,
        }
    }

    /// Feeds one observed outcome into the run. A successful read yields the
    /// sample to publish; a failed read, a bad pattern or a failed walk is
    /// reported to the handler and the run goes on; a closed channel is
    /// reported as aborted and stops the run.
    pub fn step<H: ErrorHandler>(&mut self, event: LoadEvent, handler: &mut H) -> (publish: Option<
        Sample,
    >)
        requires
            !old(self).stopped(),
        ensures
            final(self).dataset_name() == old(self).dataset_name(),
            final(self).stopped() == (event is Closed),
            match spec_report_of(event) {
                None => final(handler).handled() == old(handler).handled(),
                Some(k) => final(handler).handled().len() == old(handler).handled().len() + 1
                    && final(handler).handled().take(old(handler).handled().len() as int) == old(
                    handler,
                ).handled() && old(self).reports_event(final(handler).handled().last(), event),
            },
            match publish {
                Some(sample) => spec_publishes(event) && (event matches LoadEvent::FileRead {
                    path,
                    result: Ok(content),
                } && sample.identifier@ == old(self).dataset_name() + ":"@ + path@
                    && sample.content_bytes() == content@),
                None => !spec_publishes(event),
            },
    {
        match event {
            LoadEvent::FileRead { path, result } => {
                match result {
                    Ok(content) => Some(Sample::new(self.name.as_str(), path.as_str(), content)),
                    Err(message) => {
                        let identifier = Identifier::from_path(
                            self.name.as_str(),
                            path.as_str(),
                        );
                        handler.handle(
                            RunError::Dataset(
                                Error {
                                    dataset: self.name.clone(),
                                    details: ErrorType::Io(identifier, message),
                                },
                            ),
                        );
                        None
                    },
                }
            },
            LoadEvent::PatternInvalid { message } => {
                handler.handle(
                    RunError::Dataset(
                        Error {
                            dataset: self.name.clone(),
                            details: ErrorType::PatternInvalid(message),
                        },
                    ),
                );
                None
            },
            LoadEvent::GlobIo { message } => {
                handler.handle(
                    RunError::Dataset(
                        Error { dataset: self.name.clone(), details: ErrorType::GlobIo(message) },
                    ),
                );
                None
            },
            LoadEvent::Delivered => None,
            LoadEvent::Closed => {
                self.stopped = true;
                handler.handle(
                    RunError::Dataset(
                        Error { dataset: self.name.clone(), details: ErrorType::Aborted },
                    ),
                );
                None
            },
        }
    }
}

} // verus!
