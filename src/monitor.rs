use vstd::prelude::*;

verus! {

/// The sampling period, in milliseconds, when none is configured.
pub const DEFAULT_INTERVAL_MS: u64 = 10;

/// How often the clipboard is sampled.
pub struct MonitorConfig {
    pub interval_ms: u64,
}

impl Default for MonitorConfig {
    fn default() -> (r: MonitorConfig)
        ensures
            r.interval_ms == DEFAULT_INTERVAL_MS,
    {
        MonitorConfig { interval_ms: DEFAULT_INTERVAL_MS }
    }
}

/// The text a clipboard read stands for: a failed or empty read is the empty text.
pub open spec fn sample_text(sample: Option<String>) -> Seq<char> {
    match sample {
        Some(t) => t@,
        None => seq![],
    }
}

/// What the loop does after a sample.
pub enum Tick {
    /// Nothing changed: sleep until the next sample.
    Wait,
    /// The clipboard changed: append this content to the store.
    Append(String),
    /// Shutdown was requested: leave the loop.
    Stop,
}

/// The change detector: it remembers the last content seen or recorded.
pub struct Monitor {
    last_content: String,
}

impl View for Monitor {
    type V = Seq<char>;

    closed spec fn view(&self) -> Seq<char> {
        self.last_content@
    }
}

impl Monitor {
    /// A monitor seeded with the clipboard as it is at startup, so that what is
    /// already there is never recorded.
    pub fn start(first_read: Option<String>) -> (m: Monitor)
        ensures
            m@ == sample_text(first_read),
    {
        match first_read {
            Some(t) => Monitor { last_content: t },
            None => Monitor { last_content: String::new() },
        }
    }

    /// The content the monitor compares the next sample against.
    pub fn last_content(&self) -> (r: &String)
        ensures
            r@ == self@,
    {
        &self.last_content
    }

    /// Decides one tick from the sample just read: stop when asked to, append the
    /// sample when it differs from the last content, wait otherwise.
    pub fn decide(&self, sample: Option<String>, stop_requested: bool) -> (t: Tick)
        ensures
            stop_requested ==> t is Stop,
            !stop_requested && sample_text(sample) == self@ ==> t is Wait,
            !stop_requested && sample_text(sample) != self@ ==> (t matches Tick::Append(c)
                && c@ == sample_text(sample)),
    {
        if stop_requested {
            return Tick::Stop;
        }
        let current = match sample {
            Some(t) => t,
            None => String::new(),
        };
        if current == self.last_content {
            Tick::Wait
        } else {
            Tick::Append(current)
        }
    }

    /// Notes that `content` was appended to the store: it is the new last content.
    pub fn record_append(&mut self, content: String)
        ensures
            final(self)@ == content@,
    {
        self.last_content = content;
    }
}

/// The last content after a run of samples, each change having been appended.
pub open spec fn content_after(start: Seq<char>, samples: Seq<Seq<char>>) -> Seq<char> {
    if samples.len() == 0 {
        start
    } else {
        samples.last()
    }
}

/// The contents appended, in order, when the monitor starts from `start` and reads
/// `samples`: a sample is appended exactly when it differs from the content before it.
pub open spec fn recorded(start: Seq<char>, samples: Seq<Seq<char>>) -> Seq<Seq<char>>
    decreases samples.len(),
{
    if samples.len() == 0 {
        seq![]
    } else {
        let before = samples.drop_last();
        if samples.last() == content_after(start, before) {
            recorded(start, before)
        } else {
            recorded(start, before).push(samples.last())
        }
    }
}

/// One more sample adds that sample to the record exactly when it differs from
/// the last content, as `Monitor::decide` decides, and becomes the last content.
pub proof fn lemma_next_sample(start: Seq<char>, samples: Seq<Seq<char>>, x: Seq<char>)
    ensures
        recorded(start, samples.push(x)) == (if x == content_after(start, samples) {
            recorded(start, samples)
        } else {
            recorded(start, samples).push(x)
        }),
        content_after(start, samples.push(x)) == x,
{
    assert(samples.push(x).drop_last() =~= samples);
}

proof fn lemma_recorded_tail(start: Seq<char>, samples: Seq<Seq<char>>)
    ensures
        recorded(start, samples).len() == 0 ==> content_after(start, samples) == start,
        recorded(start, samples).len() > 0 ==> recorded(start, samples).last() == content_after(
            start,
            samples,
        ),
    decreases samples.len(),
{
    if samples.len() > 0 {
        lemma_recorded_tail(start, samples.drop_last());
    }
}

/// Reading the same content again appends nothing more: a run of equal samples
/// gives one entry at most.
pub proof fn lemma_repeated_sample_adds_nothing(
    start: Seq<char>,
    samples: Seq<Seq<char>>,
    x: Seq<char>,
)
    ensures
        recorded(start, samples.push(x).push(x)) == recorded(start, samples.push(x)),
{
    assert(samples.push(x).push(x).drop_last() =~= samples.push(x));
}

/// No two consecutive entries appended are equal, and the first differs from the
/// content seen at startup.
pub proof fn lemma_no_consecutive_duplicates(start: Seq<char>, samples: Seq<Seq<char>>)
    ensures
        forall|i: int|
            0 <= i < recorded(start, samples).len() - 1 ==> #[trigger] recorded(start, samples)[i]
                != recorded(start, samples)[i + 1],
        recorded(start, samples).len() > 0 ==> recorded(start, samples)[0] != start,
    decreases samples.len(),
{
    if samples.len() > 0 {
        let before = samples.drop_last();
        lemma_no_consecutive_duplicates(start, before);
        lemma_recorded_tail(start, before);
        let r0 = recorded(start, before);
        if samples.last() != content_after(start, before) {
            let r = r0.push(samples.last());
            assert forall|i: int| 0 <= i < r.len() - 1 implies #[trigger] r[i] != r[i + 1] by {
                if i < r0.len() - 1 {
                    assert(r[i] == r0[i] && r[i + 1] == r0[i + 1]);
                }
            }
        }
    }
}

/// When the clipboard never changes from what it held at startup, nothing is
/// appended, however many samples are read.
pub proof fn lemma_unchanged_clipboard_records_nothing(start: Seq<char>, samples: Seq<Seq<char>>)
    requires
        forall|i: int| 0 <= i < samples.len() ==> #[trigger] samples[i] == start,
    ensures
        recorded(start, samples).len() == 0,
    decreases samples.len(),
{
    if samples.len() > 0 {
        let before = samples.drop_last();
        assert forall|i: int| 0 <= i < before.len() implies #[trigger] before[i] == start by {
            assert(before[i] == samples[i]);
        }
        lemma_unchanged_clipboard_records_nothing(start, before);
        lemma_recorded_tail(start, before);
    }
}

/// Empty reads never append anything while the clipboard was empty before them;
/// an empty entry is appended only right after a non-empty content.
pub proof fn lemma_empty_read_is_no_change(start: Seq<char>, samples: Seq<Seq<char>>)
    ensures
        start.len() == 0 && (forall|i: int| 0 <= i < samples.len() ==> (#[trigger] samples[i]).len()
            == 0) ==> recorded(start, samples).len() == 0,
        forall|i: int|
            0 <= i < recorded(start, samples).len() && (#[trigger] recorded(start, samples)[i]).len()
                == 0 ==> (if i == 0 {
                start.len() > 0
            } else {
                recorded(start, samples)[i - 1].len() > 0
            }),
{
    if start.len() == 0 && (forall|i: int| 0 <= i < samples.len() ==> (#[trigger] samples[i]).len()
        == 0) {
        assert forall|i: int| 0 <= i < samples.len() implies #[trigger] samples[i] == start by {
            assert(samples[i] =~= start);
        }
        lemma_unchanged_clipboard_records_nothing(start, samples);
    }
    lemma_no_consecutive_duplicates(start, samples);
    let r = recorded(start, samples);
    assert forall|i: int| 0 <= i < r.len() && (#[trigger] r[i]).len() == 0 implies (if i == 0 {
        start.len() > 0
    } else {
        r[i - 1].len() > 0
    }) by {
        if i == 0 {
            if start.len() == 0 {
                assert(r[0] =~= start);
            }
        } else {
            assert(r[i - 1] != r[i - 1 + 1]);
            if r[i - 1].len() == 0 {
                assert(r[i - 1] =~= r[i]);
            }
        }
    }
}

} // verus!
