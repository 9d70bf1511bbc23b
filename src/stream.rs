//! Classification of a process's output lines into events.
//!
//! The first line that is JSON is a snapshot, every later JSON line a patch,
//! and any other non-blank line console text. Blank lines give nothing. A read
//! failure gives one error event and ends the reading; the exit of the process
//! gives the one completion event, last of all.
use vstd::prelude::*;
use crate::event::{EventKind, EventTag, ExecutionEvent, opt_tag, opt_view};
use crate::json::{is_json, parse_json};
use crate::registry::Registry;
use crate::text::{trimmed, trim_text};

verus! {

/// A line that carries JSON once trimmed.
pub open spec fn is_json_line(l: Seq<char>) -> bool {
    trimmed(l).len() > 0 && is_json(trimmed(l))
}

/// Whether any of the lines carries JSON.
pub open spec fn any_json(lines: Seq<Seq<char>>) -> bool {
    exists|j: int| 0 <= j < lines.len() && #[trigger] is_json_line(lines[j])
}

/// What one line gives, given whether a JSON line came before it.
pub open spec fn line_outcome(l: Seq<char>, seen_json: bool) -> Option<EventTag> {
    if trimmed(l).len() == 0 {
        None
    } else if is_json(trimmed(l)) {
        Some(if seen_json { EventTag::Patch } else { EventTag::Initial })
    } else {
        Some(EventTag::Console(trimmed(l)))
    }
}

/// What each line of an output gives, one entry per line.
pub open spec fn outcomes(lines: Seq<Seq<char>>) -> Seq<Option<EventTag>> {
    Seq::new(lines.len(), |i: int| line_outcome(lines[i], any_json(lines.take(i))))
}

/// An optional event as a sequence of none or one.
pub open spec fn opt_seq(o: Option<EventTag>) -> Seq<EventTag> {
    match o {
        Some(t) => seq![t],
        None => Seq::empty(),
    }
}

/// The events that the lines give, in order, blank lines left out.
pub open spec fn line_events(lines: Seq<Seq<char>>) -> Seq<EventTag>
    decreases lines.len(),
{
    if lines.len() == 0 {
        Seq::empty()
    } else {
        line_events(lines.drop_last()) + opt_seq(
            line_outcome(lines.last(), any_json(lines.drop_last())),
        )
    }
}

/// The events of the reading: those of the lines, then the read failure if
/// there was one.
pub open spec fn stream_events(lines: Seq<Seq<char>>, failure: Option<Seq<char>>) -> Seq<EventTag> {
    line_events(lines) + match failure {
        Some(m) => seq![EventTag::Error(m)],
        None => Seq::empty(),
    }
}

/// Every event of an execution whose process ran to its exit.
pub open spec fn execution_events(
    lines: Seq<Seq<char>>,
    failure: Option<Seq<char>>,
    exit_code: int,
    command: Option<Seq<char>>,
) -> Seq<EventTag> {
    stream_events(lines, failure).push(EventTag::Complete(exit_code, command))
}

proof fn lemma_line_events_no_completion(lines: Seq<Seq<char>>)
    ensures
        forall|i: int| 0 <= i < line_events(lines).len() ==> !(#[trigger] line_events(lines)[i] is Complete),
    decreases lines.len(),
{
    if lines.len() > 0 {
        lemma_line_events_no_completion(lines.drop_last());
        let prev = line_events(lines.drop_last());
        let tail = opt_seq(line_outcome(lines.last(), any_json(lines.drop_last())));
        assert forall|i: int| 0 <= i < line_events(lines).len() implies !(#[trigger] line_events(lines)[i] is Complete) by {
            if i >= prev.len() {
                assert(line_events(lines)[i] == tail[i - prev.len()]);
            } else {
                assert(line_events(lines)[i] == prev[i]);
            }
        }
    }
}

/// An execution that runs to its exit has exactly one completion event, and
/// that event is its last.
pub proof fn lemma_single_completion(
    lines: Seq<Seq<char>>,
    failure: Option<Seq<char>>,
    exit_code: int,
    command: Option<Seq<char>>,
)
    ensures
        execution_events(lines, failure, exit_code, command).last() == EventTag::Complete(exit_code, command),
        forall|i: int|
            0 <= i < execution_events(lines, failure, exit_code, command).len() - 1
                ==> !(#[trigger] execution_events(lines, failure, exit_code, command)[i] is Complete),
{
    lemma_line_events_no_completion(lines);
    let le = line_events(lines);
    let se = stream_events(lines, failure);
    let all = execution_events(lines, failure, exit_code, command);
    assert forall|i: int| 0 <= i < all.len() - 1 implies !(#[trigger] all[i] is Complete) by {
        assert(all[i] == se[i]);
        if i < le.len() {
            assert(se[i] == le[i]);
        }
    }
}

/// The first line that carries JSON gives the snapshot, and every later one a
/// patch, whatever other lines stand between them.
pub proof fn lemma_first_json_line_is_snapshot(lines: Seq<Seq<char>>, i: int)
    requires
        0 <= i < lines.len(),
        is_json_line(lines[i]),
    ensures
        outcomes(lines)[i] == Some(EventTag::Initial)
            <==> (forall|j: int| 0 <= j < i ==> !#[trigger] is_json_line(lines[j])),
        outcomes(lines)[i] == Some(EventTag::Patch)
            <==> (exists|j: int| 0 <= j < i && #[trigger] is_json_line(lines[j])),
{
    let pre = lines.take(i);
    if any_json(pre) {
        let j = choose|j: int| 0 <= j < pre.len() && #[trigger] is_json_line(pre[j]);
        assert(is_json_line(lines[j]));
    }
    if exists|j: int| 0 <= j < i && #[trigger] is_json_line(lines[j]) {
        let j = choose|j: int| 0 <= j < i && #[trigger] is_json_line(lines[j]);
        assert(is_json_line(pre[j]));
    }
}

/// Leaving out a line that carries no JSON changes what no other line gives.
pub proof fn lemma_non_json_line_is_neutral(lines: Seq<Seq<char>>, k: int)
    requires
        0 <= k < lines.len(),
        !is_json_line(lines[k]),
    ensures
        outcomes(lines.remove(k)) == outcomes(lines).remove(k),
{
    let rest = lines.remove(k);
    assert forall|i: int| 0 <= i < rest.len() implies #[trigger] outcomes(rest)[i] == outcomes(lines).remove(k)[i] by {
        if i < k {
            assert(rest.take(i) == lines.take(i));
        } else {
            let a = lines.take(i + 1);
            let b = rest.take(i);
            if any_json(a) {
                let j = choose|j: int| 0 <= j < a.len() && #[trigger] is_json_line(a[j]);
                if j < k {
                    assert(is_json_line(b[j]));
                } else {
                    assert(j != k);
                    assert(b[j - 1] == a[j]);
                    assert(is_json_line(b[j - 1]));
                }
            }
            if any_json(b) {
                let j = choose|j: int| 0 <= j < b.len() && #[trigger] is_json_line(b[j]);
                if j < k {
                    assert(is_json_line(a[j]));
                } else {
                    assert(b[j] == a[j + 1]);
                    assert(is_json_line(a[j + 1]));
                }
            }
            assert(rest[i] == lines[i + 1]);
        }
    }
    assert(outcomes(rest) =~= outcomes(lines).remove(k));
}

/// Turns one trimmed line and the outcome of parsing it into the event it
/// gives: nothing for a blank line, the parsed value as snapshot or patch,
/// and otherwise the line as console text.
pub fn classify_line(
    execution_id: &String,
    text: String,
    parsed: Option<serde_json::Value>,
    seen_json: bool,
) -> (r: Option<ExecutionEvent>)
    ensures
        text@.len() == 0 ==> r is None,
        text@.len() > 0 ==> r is Some && r->0.execution_id@ == execution_id@ && match parsed {
            Some(v) => r->0.kind == if seen_json {
                EventKind::Patch(v)
            } else {
                EventKind::Initial(v)
            },
            None => r->0.kind == EventKind::Console(text),
        },
{
    if text.as_str().is_empty() {
        return None;
    }
    let kind = match parsed {
        Some(v) => if seen_json {
            EventKind::Patch(v)
        } else {
            EventKind::Initial(v)
        },
        None => EventKind::Console(text),
    };
    Some(ExecutionEvent { execution_id: execution_id.clone(), kind })
}

/// The reading side of one execution.
pub struct StreamClassifier {
    execution_id: String,
    seen_json: bool,
    stopped: bool,
    lines: Ghost<Seq<Seq<char>>>,
    failure: Ghost<Option<Seq<char>>>,
}

impl StreamClassifier {
    /// The execution whose output this reads.
    pub closed spec fn id(&self) -> Seq<char> {
        self.execution_id@
    }

    /// The lines read so far.
    pub closed spec fn lines(&self) -> Seq<Seq<char>> {
        self.lines@
    }

    /// The read failure, once there was one.
    pub closed spec fn failure(&self) -> Option<Seq<char>> {
        self.failure@
    }

    /// The flag and the stop mark agree with the lines and failure read.
    pub closed spec fn wf(&self) -> bool {
        &&& self.seen_json == any_json(self.lines@)
        &&& self.stopped == (self.failure@ is Some)
    }

    /// The events handed out so far.
    pub open spec fn emitted(&self) -> Seq<EventTag> {
        stream_events(self.lines(), self.failure())
    }

    /// A classifier for the output of one execution, nothing read yet.
    pub fn new(execution_id: String) -> (r: StreamClassifier)
        ensures
            r.wf(),
            r.id() == execution_id@,
            r.lines() == Seq::<Seq<char>>::empty(),
            r.failure() is None,
    {
        StreamClassifier {
            execution_id,
            seen_json: false,
            stopped: false,
            lines: Ghost(Seq::empty()),
            failure: Ghost(None),
        }
    }

    /// Whether a read failure has ended the reading.
    pub fn is_stopped(&self) -> (r: bool)
        requires
            self.wf(),
        ensures
            r == (self.failure() is Some),
    {
        self.stopped
    }

    /// Takes one line of output, without its line terminator.
    pub fn on_line(&mut self, line: &str) -> (r: Option<ExecutionEvent>)
        requires
            old(self).wf(),
            old(self).failure() is None,
        ensures
            final(self).wf(),
            final(self).id() == old(self).id(),
            final(self).failure() is None,
            final(self).lines() == old(self).lines().push(line@),
            opt_tag(r) == line_outcome(line@, any_json(old(self).lines())),
            opt_tag(r) == outcomes(final(self).lines()).last(),
            final(self).emitted() == old(self).emitted() + opt_seq(opt_tag(r)),
            r is Some ==> r->0.execution_id@ == old(self).id(),
    {
        let text = trim_text(line);
        let parsed = match parse_json(text) {
            Ok(v) => Some(v),
            Err(_) => None,
        };
        let is_value = parsed.is_some();
        let r = classify_line(&self.execution_id, text.to_string(), parsed, self.seen_json);
        let ghost old_lines = self.lines@;
        let ghost new_lines = old_lines.push(line@);
        if r.is_some() && is_value {
            self.seen_json = true;
        }
        self.lines = Ghost(new_lines);
        proof {
            assert(new_lines.drop_last() == old_lines);
            assert(new_lines.take(old_lines.len() as int) == old_lines);
            if is_json_line(line@) {
                assert(is_json_line(new_lines[old_lines.len() as int]));
            }
            if any_json(old_lines) {
                let j = choose|j: int| 0 <= j < old_lines.len() && #[trigger] is_json_line(old_lines[j]);
                assert(is_json_line(new_lines[j]));
            }
            if any_json(new_lines) {
                let j = choose|j: int| 0 <= j < new_lines.len() && #[trigger] is_json_line(new_lines[j]);
                if j < old_lines.len() {
                    assert(is_json_line(old_lines[j]));
                }
            }
        }
        r
    }

    /// Takes the failure of a read; the reading ends with it.
    pub fn on_read_error(&mut self, message: String) -> (r: ExecutionEvent)
        requires
            old(self).wf(),
            old(self).failure() is None,
        ensures
            final(self).wf(),
            final(self).id() == old(self).id(),
            final(self).lines() == old(self).lines(),
            final(self).failure() == Some(message@),
            r.execution_id@ == old(self).id(),
            r.kind == EventKind::Error(message),
            final(self).emitted() == old(self).emitted().push(r.kind.tag()),
    {
        self.stopped = true;
        self.failure = Ghost(Some(message@));
        let r = ExecutionEvent { execution_id: self.execution_id.clone(), kind: EventKind::Error(message) };
        proof {
            assert(stream_events(self.lines@, None) == line_events(self.lines@));
        }
        r
    }

    /// The completion event, from the exit status of the process (`None`
    /// where the platform reported no code) and the diagnostic command line.
    fn complete(self, exit_status: Option<i32>, command: Option<String>) -> (r: ExecutionEvent)
        requires
            self.wf(),
        ensures
            r.execution_id@ == self.id(),
            r.kind == (EventKind::Complete {
                exit_code: match exit_status {
                    Some(c) => c,
                    None => -1i32,
                },
                command,
            }),
            self.emitted().push(r.kind.tag()) == execution_events(
                self.lines(),
                self.failure(),
                r.kind.tag()->Complete_0,
                opt_view(command),
            ),
    {
        let exit_code: i32 = match exit_status {
            Some(c) => c,
            None => -1,
        };
        ExecutionEvent { execution_id: self.execution_id, kind: EventKind::Complete { exit_code, command } }
    }

    /// Ends the execution once its process has exited: removes it from the
    /// table of running executions and gives the completion event. Nothing
    /// else of the table changes.
    pub fn finish(
        self,
        registry: &mut Registry,
        exit_status: Option<i32>,
        command: Option<String>,
    ) -> (r: ExecutionEvent)
        requires
            self.wf(),
            old(registry).wf(),
        ensures
            final(registry).wf(),
            final(registry)@ == old(registry)@.remove(self.id()),
            !final(registry)@.contains_key(self.id()),
            r.execution_id@ == self.id(),
            r.kind == (EventKind::Complete {
                exit_code: match exit_status {
                    Some(c) => c,
                    None => -1i32,
                },
                command,
            }),
            self.emitted().push(r.kind.tag()) == execution_events(
                self.lines(),
                self.failure(),
                r.kind.tag()->Complete_0,
                opt_view(command),
            ),
    {
        registry.unregister(&self.execution_id);
        self.complete(exit_status, command)
    }
}

} // verus!
