//! Buffering of the tool calls of one step of a model session.
use vstd::prelude::*;
use crate::schemas::{ToolCall, ToolData, ToolError, ToolOutput};

verus! {

/// A tool result keyed by call id: `(call id, (tool name, data))`.
pub type ToolResult = (String, (String, ToolData));

/// A tool result by value: `(call id, tool name, data)`.
pub type ToolResultView = (Seq<char>, Seq<char>, ToolData);

/// The tool results by value.
pub open spec fn results_view(rs: Seq<ToolResult>) -> Seq<ToolResultView> {
    rs.map_values(|r: ToolResult| (r.0@, r.1.0@, r.1.1))
}

/// Whether some result answers the call `id`.
pub open spec fn has_result(rv: Seq<ToolResultView>, id: Seq<char>) -> bool {
    exists|k: int| 0 <= k < rv.len() && rv[k].0 == id
}

/// Whether no two results answer the same call.
pub open spec fn unique_ids(rv: Seq<ToolResultView>) -> bool {
    forall|i: int, j: int| 0 <= i < rv.len() && 0 <= j < rv.len() && i != j ==> rv[i].0 != rv[j].0
}

/// The position of the result of call `id` (meaningful when there is one).
pub open spec fn result_index(rv: Seq<ToolResultView>, id: Seq<char>) -> int {
    choose|k: int| 0 <= k < rv.len() && rv[k].0 == id
}

/// The results once `(id, name, data)` is recorded: it replaces the result of
/// the same call, or is added last.
pub open spec fn results_with(
    rv: Seq<ToolResultView>,
    id: Seq<char>,
    name: Seq<char>,
    data: ToolData,
) -> Seq<ToolResultView> {
    if has_result(rv, id) {
        rv.update(result_index(rv, id), (id, name, data))
    } else {
        rv.push((id, name, data))
    }
}

/// Recording a result keeps one result per call: the result of call `id` is
/// the one recorded, the results of other calls stay where they were, and the
/// list grows only when `id` had no result yet.
pub proof fn lemma_results_with_records(rv: Seq<ToolResultView>, id: Seq<char>, name: Seq<char>, data: ToolData)
    requires
        unique_ids(rv),
    ensures
        ({
            let r = results_with(rv, id, name, data);
            &&& unique_ids(r)
            &&& has_result(r, id)
            &&& r[result_index(r, id)] == (id, name, data)
            &&& r.len() == rv.len() + if has_result(rv, id) { 0int } else { 1int }
            &&& forall|j: int| 0 <= j < rv.len() && rv[j].0 != id ==> #[trigger] r[j] == rv[j]
        }),
{
    let r = results_with(rv, id, name, data);
    if has_result(rv, id) {
        let k = result_index(rv, id);
        assert(rv[k].0 == id);
        assert(r[k].0 == id);
        assert(unique_ids(r)) by {
            assert forall|i: int, j: int| 0 <= i < r.len() && 0 <= j < r.len() && i != j implies r[i].0
                != r[j].0 by {
                if i != k && j != k {
                    assert(rv[i].0 != rv[j].0);
                } else if i == k {
                    assert(rv[j].0 != rv[k].0);
                } else {
                    assert(rv[i].0 != rv[k].0);
                }
            }
        }
        let m = result_index(r, id);
        assert(r[m].0 == id);
        assert(m == k);
    } else {
        let k = rv.len() as int;
        assert(r[k].0 == id);
        assert(unique_ids(r)) by {
            assert forall|i: int, j: int| 0 <= i < r.len() && 0 <= j < r.len() && i != j implies r[i].0
                != r[j].0 by {
                if i != k && j != k {
                    assert(rv[i].0 != rv[j].0);
                } else if i == k {
                    assert(rv[j].0 != id);
                } else {
                    assert(rv[i].0 != id);
                }
            }
        }
        let m = result_index(r, id);
        assert(r[m].0 == id);
        assert(m == k);
    }
}

/// A tool outcome as it comes back from running a call: the call id, the
/// tool's name and what the call gave.
pub type ToolOutcome = (String, String, Result<ToolOutput, ToolError>);

/// The results once each outcome of `outcomes` is recorded in turn (a failed
/// one is not recorded).
pub open spec fn results_after(rv: Seq<ToolResultView>, outcomes: Seq<ToolOutcome>) -> Seq<
    ToolResultView,
>
    decreases outcomes.len(),
{
    if outcomes.len() == 0 {
        rv
    } else {
        let before = results_after(rv, outcomes.drop_last());
        let o = outcomes.last();
        match o.2 {
            Ok(output) => results_with(before, o.0@, o.1@, output.data),
            Err(_) => before,
        }
    }
}

/// The results of a buffered step (none when no step is buffered).
pub open spec fn buffered_results<C: CallId>(step: Option<BufferedStep<C>>) -> Seq<ToolResultView> {
    match step {
        Some(s) => s.results_v(),
        None => Seq::empty(),
    }
}

/// A tool call that can be told apart by an identifier.
pub trait CallId {
    /// The identifier of the call.
    spec fn call_id(&self) -> Seq<char>;

    /// Returns the unique identifier of the call.
    fn id(&self) -> (r: &str)
        ensures
            r@ == self.call_id(),
    ;
}

impl CallId for ToolCall {
    open spec fn call_id(&self) -> Seq<char> {
        self.id@
    }

    fn id(&self) -> (r: &str) {
        self.id.as_str()
    }
}

/// The step buffered in [`StepBuffer`].
#[derive(Debug)]
pub struct BufferedStep<C: CallId> {
    /// The "thought" portion of the model output that started the step.
    pub thought: Option<String>,
    /// The tool calls.
    pub calls: Vec<C>,
    /// The tool results: for each answered call, its id, the tool's name and
    /// its output. No two results have the same call id.
    pub results: Vec<ToolResult>,
}

impl<C: CallId> BufferedStep<C> {
    /// Whether no two results answer the same call.
    pub open spec fn wf(&self) -> bool {
        unique_ids(results_view(self.results@))
    }

    /// The results by value.
    pub open spec fn results_v(&self) -> Seq<ToolResultView> {
        results_view(self.results@)
    }

    /// A step with the given thought and calls and no result yet.
    fn new(thought: Option<String>, calls: Vec<C>) -> (r: Self)
        ensures
            r.thought == thought,
            r.calls == calls,
            r.results@.len() == 0,
            r.wf(),
    {
        BufferedStep { thought, calls, results: Vec::new() }
    }
}

impl<C: CallId> Default for BufferedStep<C> {
    fn default() -> (r: Self)
        ensures
            r.thought is None,
            r.calls@.len() == 0,
            r.results@.len() == 0,
            r.wf(),
    {
        BufferedStep { thought: None, calls: Vec::new(), results: Vec::new() }
    }
}

/// A buffer for the tool calls of one step of a session.
///
/// When a model requests several tool calls in one step, the failed ones can be
/// left out of the chat history: the calls and their results are held here and
/// inserted once the step is over.
#[derive(Debug)]
pub struct StepBuffer<C: CallId>(Option<BufferedStep<C>>);

impl<C: CallId> StepBuffer<C> {
    /// The buffered step, if any.
    pub closed spec fn step(&self) -> Option<BufferedStep<C>> {
        self.0
    }

    /// No two results of the buffered step answer the same call.
    #[verifier::type_invariant]
    closed spec fn step_wf(&self) -> bool {
        self.0 matches Some(s) ==> s.wf()
    }

    /// Constructs a new empty [`StepBuffer`].
    pub fn new() -> (r: Self)
        ensures
            r.step() is None,
    {
        StepBuffer(None)
    }

    /// Starts a new step with the given thought and calls, dropping any
    /// buffered step.
    pub fn init_step(&mut self, thought: Option<String>, calls: Vec<C>)
        ensures
            final(self).step() matches Some(s) && s.thought == thought && s.calls == calls
                && s.results@.len() == 0,
    {
        self.0 = Some(BufferedStep::new(thought, calls));
    }

    /// Records the result of the call `id` of tool `tool_name` in the current
    /// step (starting an empty step if there is none). A failed result is not
    /// recorded.
    pub fn push_result(&mut self, id: &str, tool_name: &str, result: Result<ToolOutput, ToolError>)
        ensures
            result is Err ==> final(self).step() == old(self).step(),
            result matches Ok(output) ==> {
                let before = match old(self).step() {
                    Some(s) => s.results_v(),
                    None => Seq::empty(),
                };
                &&& final(self).step() matches Some(s)
                &&& s.thought == (match old(self).step() {
                    Some(o) => o.thought,
                    None => None,
                })
                &&& s.calls@ == (match old(self).step() {
                    Some(o) => o.calls@,
                    None => Seq::empty(),
                })
                &&& s.results_v() == results_with(before, id@, tool_name@, output.data)
            },
    {
        proof {
            use_type_invariant(&*self);
        }
        let output = match result {
            Ok(output) => output,
            Err(_) => {
                return;
            },
        };
        let mut slot: Option<BufferedStep<C>> = None;
        std::mem::swap(&mut slot, &mut self.0);
        let mut step = match slot {
            Some(s) => s,
            None => BufferedStep::default(),
        };
        let key = id.to_owned();
        let name = tool_name.to_owned();
        insert_result(&mut step.results, key, name, output.data);
        self.0 = Some(step);
    }

    /// Takes the buffered step for insertion into the history, keeping only
    /// the calls that have a result. Nothing is returned when no step (or a
    /// step without calls) is buffered; an error is returned when none of the
    /// calls has a result. The buffer is empty afterwards.
    pub fn try_take(&mut self) -> (r: Result<Option<BufferedStep<C>>, ToolError>)
        ensures
            final(self).step() is None,
            match old(self).step() {
                None => r == Ok::<Option<BufferedStep<C>>, ToolError>(None),
                Some(s) => {
                    let kept = s.calls@.filter(|c: C| has_result(s.results_v(), c.call_id()));
                    if s.calls@.len() == 0 {
                        r == Ok::<Option<BufferedStep<C>>, ToolError>(None)
                    } else if kept.len() == 0 {
                        r == Err::<Option<BufferedStep<C>>, ToolError>(ToolError::AllToolsFailed)
                    } else {
                        r matches Ok(Some(t)) && t.thought == s.thought && t.calls@ == kept
                            && t.results == s.results && t.wf()
                    }
                },
            },
    {
        proof {
            use_type_invariant(&*self);
        }
        let mut slot: Option<BufferedStep<C>> = None;
        std::mem::swap(&mut slot, &mut self.0);
        let step = match slot {
            Some(s) => s,
            None => {
                return Ok(None);
            },
        };
        if step.calls.is_empty() {
            return Ok(None);
        }
        let BufferedStep { thought, calls, results } = step;
        let ghost rv = results_view(results@);
        let ghost all = calls@;
        let ghost pred = |c: C| has_result(rv, c.call_id());
        let mut completed: Vec<C> = Vec::new();
        proof {
            reveal_with_fuel(Seq::filter, 1);
            assert(all.take(0) =~= Seq::<C>::empty());
        }
        for call in it: calls
            invariant
                it.seq() == all,
                rv == results_view(results@),
                pred == (|c: C| has_result(rv, c.call_id())),
                completed@ == all.take(it.index() as int).filter(pred),
        {
            let cid = call.id();
            let found = has_result_for(&results, cid);
            assert(found == has_result(rv, call.call_id()));
            proof {
                reveal_with_fuel(Seq::filter, 1);
                assert(all.take(it.index() + 1).drop_last() =~= all.take(it.index() as int));
                assert(all.take(it.index() + 1).last() == call);
            }
            let ghost before = completed@;
            let ghost c = call;
            if found {
                completed.push(call);
            }
            proof {
                assert(pred(c) == found);
                assert(completed@ =~= all.take(it.index() + 1).filter(pred));
            }
        }
        proof {
            assert(all.take(all.len() as int) =~= all);
        }
        if completed.is_empty() {
            return Err(ToolError::AllToolsFailed);
        }
        Ok(Some(BufferedStep { thought, calls: completed, results }))
    }
}

/// Records `(key, (name, data))` in `results`: it replaces the result with the
/// same key, or is added last.
fn insert_result(results: &mut Vec<ToolResult>, key: String, name: String, data: ToolData)
    requires
        unique_ids(results_view(old(results)@)),
    ensures
        unique_ids(results_view(final(results)@)),
        results_view(final(results)@) == results_with(results_view(old(results)@), key@, name@, data),
{
    let ghost rv = results_view(results@);
    let mut k: usize = 0;
    while k < results.len()
        invariant
            k <= results@.len(),
            results@ == old(results)@,
            rv == results_view(results@),
            unique_ids(rv),
            forall|j: int| 0 <= j < k ==> rv[j].0 != key@,
        decreases results@.len() - k,
    {
        if results[k].0 == key {
            let ghost idx = result_index(rv, key@);
            assert(rv[k as int].0 == key@);
            assert(idx == k) by {
                assert(0 <= idx < rv.len() && rv[idx].0 == key@);
            }
            let ghost kv = key@;
            let ghost nv = name@;
            results.set(k, (key, (name, data)));
            assert(results_view(results@) =~= rv.update(k as int, (kv, nv, data)));
            return;
        }
        k = k + 1;
    }
    let ghost kv = key@;
    let ghost nv = name@;
    results.push((key, (name, data)));
    assert(results_view(results@) =~= rv.push((kv, nv, data)));
}

/// Whether some result of `results` answers the call `id`.
fn has_result_for(results: &Vec<ToolResult>, id: &str) -> (b: bool)
    ensures
        b == has_result(results_view(results@), id@),
{
    let key = id.to_owned();
    let ghost rv = results_view(results@);
    let mut k: usize = 0;
    while k < results.len()
        invariant
            k <= results@.len(),
            rv == results_view(results@),
            key@ == id@,
            forall|j: int| 0 <= j < k ==> rv[j].0 != id@,
        decreases results@.len() - k,
    {
        if results[k].0 == key {
            assert(rv[k as int].0 == id@);
            return true;
        }
        k = k + 1;
    }
    false
}

/// When every call of a step has a result, taking the step keeps every call.
pub proof fn lemma_all_answered_calls_kept<C: CallId>(calls: Seq<C>, rv: Seq<ToolResultView>)
    requires
        forall|i: int| 0 <= i < calls.len() ==> has_result(rv, #[trigger] calls[i].call_id()),
    ensures
        calls.filter(|c: C| has_result(rv, c.call_id())) == calls,
    decreases calls.len(),
{
    reveal_with_fuel(Seq::filter, 1);
    if calls.len() > 0 {
        lemma_all_answered_calls_kept(calls.drop_last(), rv);
        assert(has_result(rv, calls[calls.len() - 1].call_id()));
        assert(calls.drop_last().push(calls.last()) =~= calls);
    }
}

} // verus!
