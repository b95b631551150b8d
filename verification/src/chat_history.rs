//! The messages of a chat, and how a history is brought into the order that chat
//! providers demand: behind a message that calls tools stand the outputs of these
//! tools, and no output stands anywhere else.
use crate::text::{opt_text, same_text, texts};
use vstd::prelude::*;

verus! {

#[derive(Clone, Debug, PartialEq, Eq, Default)]
pub struct ChatToolCallFunction {
    pub name: String,
    pub arguments: String,
}

#[derive(Clone, Debug, PartialEq, Eq, Default)]
pub struct ChatToolCall {
    pub id: String,
    pub kind: String,
    pub function: ChatToolCallFunction,
}

#[derive(Clone, Debug, PartialEq, Eq, Default)]
pub struct ChatMessage {
    pub role: String,
    pub content: Option<String>,
    pub reasoning_content: Option<String>,
    pub tool_call_id: Option<String>,
    pub tool_calls: Vec<ChatToolCall>,
}

// ---------------------------------------------------------------------------
// Models
// ---------------------------------------------------------------------------

#[verifier::ext_equal]
pub struct CallModel {
    pub id: Seq<char>,
    pub kind: Seq<char>,
    pub name: Seq<char>,
    pub arguments: Seq<char>,
}

impl View for ChatToolCall {
    type V = CallModel;

    open spec fn view(&self) -> CallModel {
        CallModel {
            id: self.id@,
            kind: self.kind@,
            name: self.function.name@,
            arguments: self.function.arguments@,
        }
    }
}

#[verifier::ext_equal]
pub struct MessageModel {
    pub role: Seq<char>,
    pub content: Option<Seq<char>>,
    pub reasoning_content: Option<Seq<char>>,
    pub tool_call_id: Option<Seq<char>>,
    pub tool_calls: Seq<CallModel>,
}

pub open spec fn call_models(v: Seq<ChatToolCall>) -> Seq<CallModel> {
    v.map_values(|c: ChatToolCall| c@)
}

impl View for ChatMessage {
    type V = MessageModel;

    open spec fn view(&self) -> MessageModel {
        MessageModel {
            role: self.role@,
            content: opt_text(self.content),
            reasoning_content: opt_text(self.reasoning_content),
            tool_call_id: opt_text(self.tool_call_id),
            tool_calls: call_models(self.tool_calls@),
        }
    }
}

pub open spec fn message_models(v: Seq<ChatMessage>) -> Seq<MessageModel> {
    v.map_values(|m: ChatMessage| m@)
}

/// Whether a message is the output of a tool.
pub open spec fn is_output(m: MessageModel) -> bool {
    m.role == "tool"@
}

/// Whether a message is the output of this call.
pub open spec fn answers_call(m: MessageModel, id: Seq<char>) -> bool {
    is_output(m) && m.tool_call_id == Some(id)
}

/// The calls that a message makes.
pub open spec fn called_ids(m: MessageModel) -> Seq<Seq<char>> {
    m.tool_calls.map_values(|c: CallModel| c.id)
}

/// The output of a call.
pub open spec fn output_message(id: Seq<char>, content: Seq<char>) -> MessageModel {
    MessageModel {
        role: "tool"@,
        content: Some(content),
        reasoning_content: None,
        tool_call_id: Some(id),
        tool_calls: Seq::empty(),
    }
}

/// What stands for the output of a call that has none.
pub open spec fn missing_output(id: Seq<char>) -> MessageModel {
    output_message(id, "aborted"@)
}

/// The messages behind the outputs that `s` begins with.
pub open spec fn after_outputs(s: Seq<MessageModel>) -> Seq<MessageModel>
    decreases s.len(),
{
    if s.len() > 0 && is_output(s[0]) {
        after_outputs(s.skip(1))
    } else {
        s
    }
}

/// Whether an output is the first one of one of the calls; `done` lists those
/// that have one.
pub open spec fn is_awaited(m: MessageModel, ids: Seq<Seq<char>>, done: Seq<Seq<char>>) -> bool {
    m.tool_call_id matches Some(id) && ids.contains(id) && !done.contains(id)
}

/// Of the outputs that `s` begins with, the first one of each call.
pub open spec fn awaited_outputs(
    s: Seq<MessageModel>,
    ids: Seq<Seq<char>>,
    done: Seq<Seq<char>>,
) -> Seq<MessageModel>
    decreases s.len(),
{
    if s.len() > 0 && is_output(s[0]) {
        if is_awaited(s[0], ids, done) {
            seq![s[0]] + awaited_outputs(s.skip(1), ids, done.push(s[0].tool_call_id->0))
        } else {
            awaited_outputs(s.skip(1), ids, done)
        }
    } else {
        Seq::empty()
    }
}

/// The calls that have an output behind those that `s` begins with.
pub open spec fn done_calls(
    s: Seq<MessageModel>,
    ids: Seq<Seq<char>>,
    done: Seq<Seq<char>>,
) -> Seq<Seq<char>>
    decreases s.len(),
{
    if s.len() > 0 && is_output(s[0]) {
        if is_awaited(s[0], ids, done) {
            done_calls(s.skip(1), ids, done.push(s[0].tool_call_id->0))
        } else {
            done_calls(s.skip(1), ids, done)
        }
    } else {
        done
    }
}

/// The place of the first output of a call, or the end.
pub open spec fn output_place(s: Seq<MessageModel>, id: Seq<char>) -> int
    decreases s.len(),
{
    if s.len() == 0 || answers_call(s[0], id) {
        0
    } else {
        1 + output_place(s.skip(1), id)
    }
}

/// The messages without the first output of a call.
pub open spec fn without_output(s: Seq<MessageModel>, id: Seq<char>) -> Seq<MessageModel> {
    if output_place(s, id) < s.len() {
        s.remove(output_place(s, id))
    } else {
        s
    }
}

/// The first output of a call, wherever it stands, or what stands for it.
pub open spec fn found_output(s: Seq<MessageModel>, id: Seq<char>) -> MessageModel {
    if output_place(s, id) < s.len() {
        s[output_place(s, id)]
    } else {
        missing_output(id)
    }
}

/// The outputs of the calls that are not done, in the order of the calls.
pub open spec fn fetched_outputs(
    ids: Seq<Seq<char>>,
    done: Seq<Seq<char>>,
    s: Seq<MessageModel>,
) -> Seq<MessageModel>
    decreases ids.len(),
{
    if ids.len() == 0 {
        Seq::empty()
    } else if done.contains(ids[0]) {
        fetched_outputs(ids.skip(1), done, s)
    } else {
        seq![found_output(s, ids[0])] + fetched_outputs(
            ids.skip(1),
            done,
            without_output(s, ids[0]),
        )
    }
}

/// The messages that are left when these outputs were fetched.
pub open spec fn left_messages(
    ids: Seq<Seq<char>>,
    done: Seq<Seq<char>>,
    s: Seq<MessageModel>,
) -> Seq<MessageModel>
    decreases ids.len(),
{
    if ids.len() == 0 {
        s
    } else if done.contains(ids[0]) {
        left_messages(ids.skip(1), done, s)
    } else {
        left_messages(ids.skip(1), done, without_output(s, ids[0]))
    }
}

/// The outputs that a message which calls tools is followed by: of those that
/// stand right behind it the first one of each call, and then those of the other
/// calls, from further behind.
pub open spec fn outputs_for(m: MessageModel, behind: Seq<MessageModel>) -> Seq<MessageModel> {
    let ids = called_ids(m);
    let none = Seq::<Seq<char>>::empty();
    awaited_outputs(behind, ids, none) + fetched_outputs(
        ids,
        done_calls(behind, ids, none),
        after_outputs(behind),
    )
}

/// The messages behind these outputs.
pub open spec fn behind_outputs(m: MessageModel, behind: Seq<MessageModel>) -> Seq<MessageModel> {
    let ids = called_ids(m);
    let none = Seq::<Seq<char>>::empty();
    left_messages(ids, done_calls(behind, ids, none), after_outputs(behind))
}

pub proof fn lemma_shorter(ids: Seq<Seq<char>>, done: Seq<Seq<char>>, s: Seq<MessageModel>)
    ensures
        left_messages(ids, done, s).len() <= s.len(),
    decreases ids.len(),
{
    if ids.len() > 0 {
        if done.contains(ids[0]) {
            lemma_shorter(ids.skip(1), done, s);
        } else {
            lemma_output_place(s, ids[0]);
            lemma_shorter(ids.skip(1), done, without_output(s, ids[0]));
        }
    }
}

pub proof fn lemma_after_outputs(s: Seq<MessageModel>)
    ensures
        after_outputs(s).len() <= s.len(),
        after_outputs(s) == s.skip(s.len() - after_outputs(s).len()),
        after_outputs(s).len() > 0 ==> !is_output(after_outputs(s)[0]),
        forall|i: int| 0 <= i < s.len() - after_outputs(s).len() ==> is_output(#[trigger] s[i]),
    decreases s.len(),
{
    if s.len() > 0 && is_output(s[0]) {
        let t = s.skip(1);
        lemma_after_outputs(t);
        assert(after_outputs(s) =~= s.skip(s.len() - after_outputs(s).len()));
        assert forall|i: int| 0 <= i < s.len() - after_outputs(s).len() implies is_output(
            #[trigger] s[i],
        ) by {
            if i > 0 {
                assert(t[i - 1] == s[i]);
            }
        }
    } else {
        assert(s.skip(0) =~= s);
    }
}

pub proof fn lemma_output_place(s: Seq<MessageModel>, id: Seq<char>)
    ensures
        0 <= output_place(s, id) <= s.len(),
        output_place(s, id) < s.len() ==> answers_call(s[output_place(s, id)], id),
        forall|i: int| 0 <= i < output_place(s, id) ==> !answers_call(#[trigger] s[i], id),
    decreases s.len(),
{
    if s.len() > 0 && !answers_call(s[0], id) {
        let t = s.skip(1);
        lemma_output_place(t, id);
        let k = output_place(t, id);
        assert(k < t.len() ==> t[k] == s[k + 1]);
        assert forall|i: int| 0 <= i < output_place(s, id) implies !answers_call(
            #[trigger] s[i],
            id,
        ) by {
            if i > 0 {
                assert(t[i - 1] == s[i]);
            }
        }
    }
}

proof fn lemma_behind_outputs(m: MessageModel, behind: Seq<MessageModel>)
    ensures
        behind_outputs(m, behind).len() <= behind.len(),
{
    let ids = called_ids(m);
    lemma_after_outputs(behind);
    lemma_shorter(ids, done_calls(behind, ids, Seq::empty()), after_outputs(behind));
}

/// A history in the order that chat providers demand. Outputs that no call asks
/// for are left out; those of a call come behind it.
pub open spec fn repaired(s: Seq<MessageModel>) -> Seq<MessageModel>
    decreases s.len(),
    via repaired_decreases
{
    if s.len() == 0 {
        Seq::empty()
    } else if is_output(s[0]) {
        repaired(s.skip(1))
    } else if s[0].tool_calls.len() == 0 {
        seq![s[0]] + repaired(s.skip(1))
    } else {
        seq![s[0]] + outputs_for(s[0], s.skip(1)) + repaired(behind_outputs(s[0], s.skip(1)))
    }
}

#[via_fn]
proof fn repaired_decreases(s: Seq<MessageModel>) {
    if s.len() > 0 {
        lemma_behind_outputs(s[0], s.skip(1));
    }
}

// ---------------------------------------------------------------------------
// Functions
// ---------------------------------------------------------------------------

impl ChatMessage {
    /// The output of a call.
    pub fn tool_output(call_id: &str, content: &str) -> (r: ChatMessage)
        ensures
            r@ == output_message(call_id@, content@),
    {
        let r = ChatMessage {
            role: "tool".to_string(),
            content: Some(content.to_string()),
            reasoning_content: None,
            tool_call_id: Some(call_id.to_string()),
            tool_calls: Vec::new(),
        };
        assert(r@ =~= output_message(call_id@, content@));
        r
    }
}

fn ids_of(message: &ChatMessage) -> (r: Vec<String>)
    ensures
        texts(r@) == called_ids(message@),
{
    let ghost all = called_ids(message@);
    let mut out: Vec<String> = Vec::new();
    let mut i: usize = 0;
    assert(texts(out@) =~= all.take(0));
    while i < message.tool_calls.len()
        invariant
            i <= message.tool_calls@.len(),
            all == called_ids(message@),
            texts(out@) == all.take(i as int),
        decreases message.tool_calls@.len() - i,
    {
        let ghost before = texts(out@);
        out.push(message.tool_calls[i].id.clone());
        i = i + 1;
        assert(texts(out@) =~= before.push(message.tool_calls@[i - 1].id@));
        assert(all.take(i as int) =~= all.take(i - 1).push(all[i - 1]));
    }
    assert(all.take(i as int) =~= all);
    out
}

fn has_id(ids: &Vec<String>, id: &str) -> (r: bool)
    ensures
        r == texts(ids@).contains(id@),
{
    let mut i: usize = 0;
    while i < ids.len()
        invariant
            i <= ids@.len(),
            forall|k: int| 0 <= k < i ==> #[trigger] texts(ids@)[k] != id@,
        decreases ids@.len() - i,
    {
        if same_text(ids[i].as_str(), id) {
            assert(texts(ids@)[i as int] == id@);
            return true;
        }
        assert(texts(ids@)[i as int] != id@);
        i = i + 1;
    }
    false
}

fn is_tool_output(message: &ChatMessage) -> (r: bool)
    ensures
        r == is_output(message@),
{
    same_text(message.role.as_str(), "tool")
}

fn find_output(messages: &Vec<ChatMessage>, from: usize, id: &str) -> (r: Option<usize>)
    requires
        from <= messages@.len(),
    ensures
        ({
            let s = message_models(messages@).skip(from as int);
            match r {
                Some(k) => output_place(s, id@) == k - from && from <= k < messages@.len(),
                None => output_place(s, id@) == s.len(),
            }
        }),
{
    let ghost s = message_models(messages@).skip(from as int);
    let mut k: usize = from;
    assert(s.skip(0) =~= s);
    while k < messages.len()
        invariant
            from <= k <= messages@.len(),
            s == message_models(messages@).skip(from as int),
            output_place(s, id@) == (k - from) + output_place(s.skip(k - from), id@),
        decreases messages@.len() - k,
    {
        let ghost t = s.skip(k - from);
        assert(t[0] == messages@[k as int]@);
        assert(t.skip(1) =~= s.skip(k + 1 - from));
        if is_tool_output(&messages[k]) {
            if let Some(other) = &messages[k].tool_call_id {
                if same_text(other.as_str(), id) {
                    return Some(k);
                }
            }
        }
        k = k + 1;
    }
    None
}

/// Drops from the outputs behind `start` all but the first one of each call. Says
/// where they end, and which calls are done.
fn keep_awaited(messages: &mut Vec<ChatMessage>, start: usize, ids: &Vec<String>) -> (r: (
    usize,
    Vec<String>,
))
    requires
        start <= old(messages)@.len(),
    ensures
        ({
            let before = message_models(old(messages)@);
            let behind = before.skip(start as int);
            let kept = awaited_outputs(behind, texts(ids@), Seq::empty());
            &&& message_models(final(messages)@) == before.take(start as int) + kept
                + after_outputs(behind)
            &&& r.0 == start + kept.len()
            &&& texts(r.1@) == done_calls(behind, texts(ids@), Seq::empty())
        }),
{
    let ghost before = message_models(messages@);
    let ghost front = before.take(start as int);
    let ghost behind = before.skip(start as int);
    let ghost wanted = texts(ids@);
    let none: Vec<String> = Vec::new();
    let mut done: Vec<String> = none;
    let mut at: usize = start;
    let ghost mut kept: Seq<MessageModel> = Seq::empty();
    let ghost mut rest = behind;
    proof {
        assert(texts(done@) =~= Seq::<Seq<char>>::empty());
        assert(before =~= front + kept + rest);
        assert(kept + awaited_outputs(rest, wanted, texts(done@)) =~= awaited_outputs(
            behind,
            wanted,
            Seq::empty(),
        ));
    }
    while at < messages.len() && is_tool_output(&messages[at])
        invariant
            front.len() == start,
            wanted == texts(ids@),
            message_models(messages@) == front + kept + rest,
            at == start + kept.len(),
            kept + awaited_outputs(rest, wanted, texts(done@)) == awaited_outputs(
                behind,
                wanted,
                Seq::empty(),
            ),
            done_calls(rest, wanted, texts(done@)) == done_calls(behind, wanted, Seq::empty()),
            after_outputs(rest) == after_outputs(behind),
        decreases rest.len(),
    {
        let ghost all = message_models(messages@);
        let ghost next = rest[0];
        proof {
            assert(all.len() == messages@.len());
            assert(all[at as int] == next);
            assert(messages@[at as int]@ == all[at as int]);
        }
        let awaited = match &messages[at].tool_call_id {
            Some(id) => has_id(ids, id.as_str()) && !has_id(&done, id.as_str()),
            None => false,
        };
        if awaited {
            if let Some(id) = &messages[at].tool_call_id {
                let ghost so_far = texts(done@);
                done.push(id.clone());
                assert(texts(done@) =~= so_far.push(id@));
            }
            proof {
                let more = kept.push(next);
                assert(front + kept + rest =~= front + more + rest.skip(1));
                assert(kept + (seq![next] + awaited_outputs(rest.skip(1), wanted, texts(done@)))
                    =~= more + awaited_outputs(rest.skip(1), wanted, texts(done@)));
                kept = more;
                rest = rest.skip(1);
            }
            at = at + 1;
        } else {
            messages.remove(at);
            proof {
                assert(message_models(messages@) =~= all.remove(at as int));
                assert(all.remove(at as int) =~= front + kept + rest.skip(1));
                rest = rest.skip(1);
            }
        }
    }
    proof {
        let all = message_models(messages@);
        if rest.len() > 0 {
            assert(all[at as int] == rest[0]);
            assert(messages@[at as int]@ == all[at as int]);
        }
        assert(awaited_outputs(rest, wanted, texts(done@)) =~= Seq::<MessageModel>::empty());
        assert(kept =~= awaited_outputs(behind, wanted, Seq::empty()));
        assert(after_outputs(rest) == rest);
    }
    (at, done)
}

/// Fetches the outputs of the calls that are not done to `start`. Says where they
/// end.
fn fetch_missing(
    messages: &mut Vec<ChatMessage>,
    start: usize,
    ids: &Vec<String>,
    done: &Vec<String>,
) -> (r: usize)
    requires
        start <= old(messages)@.len(),
    ensures
        ({
            let before = message_models(old(messages)@);
            let behind = before.skip(start as int);
            let fetched = fetched_outputs(texts(ids@), texts(done@), behind);
            &&& message_models(final(messages)@) == before.take(start as int) + fetched
                + left_messages(texts(ids@), texts(done@), behind)
            &&& r == start + fetched.len()
        }),
{
    let ghost before = message_models(messages@);
    let ghost front = before.take(start as int);
    let ghost behind = before.skip(start as int);
    let ghost wanted = texts(ids@);
    let ghost settled = texts(done@);
    let ghost mut fetched: Seq<MessageModel> = Seq::empty();
    let ghost mut rest = behind;
    let mut at: usize = start;
    let mut i: usize = 0;
    proof {
        assert(wanted.skip(0) =~= wanted);
        assert(before =~= front + fetched + rest);
        assert(fetched + fetched_outputs(wanted, settled, rest) =~= fetched_outputs(
            wanted,
            settled,
            behind,
        ));
    }
    while i < ids.len()
        invariant
            i <= ids@.len(),
            front.len() == start,
            wanted == texts(ids@),
            settled == texts(done@),
            message_models(messages@) == front + fetched + rest,
            at == start + fetched.len(),
            fetched + fetched_outputs(wanted.skip(i as int), settled, rest) == fetched_outputs(
                wanted,
                settled,
                behind,
            ),
            left_messages(wanted.skip(i as int), settled, rest) == left_messages(
                wanted,
                settled,
                behind,
            ),
        decreases ids@.len() - i,
    {
        let ghost todo = wanted.skip(i as int);
        let ghost all = message_models(messages@);
        let id = ids[i].as_str();
        proof {
            assert(todo[0] == id@);
            assert(todo.skip(1) =~= wanted.skip(i + 1));
            assert(all.skip(at as int) =~= rest);
            assert(all.len() == messages@.len());
            lemma_output_place(rest, id@);
        }
        if !has_id(done, id) {
            let ghost output = found_output(rest, id@);
            let ghost left = without_output(rest, id@);
            match find_output(messages, at, id) {
                Some(k) => {
                    let message = messages.remove(k);
                    proof {
                        assert(message@ == all[k as int]);
                        assert(message_models(messages@) =~= all.remove(k as int));
                        assert(all[k as int] == rest[k - at]);
                    }
                    messages.insert(at, message);
                    proof {
                        assert(message_models(messages@) =~= all.remove(k as int).insert(
                            at as int,
                            output,
                        ));
                        assert(all.remove(k as int) =~= front + fetched + left);
                    }
                },
                None => {
                    messages.insert(at, ChatMessage::tool_output(id, "aborted"));
                    proof {
                        assert(message_models(messages@) =~= all.insert(at as int, output));
                    }
                },
            }
            proof {
                assert(message_models(messages@) =~= front + fetched.push(output) + left);
                assert(fetched + (seq![output] + fetched_outputs(todo.skip(1), settled, left))
                    =~= fetched.push(output) + fetched_outputs(todo.skip(1), settled, left));
                fetched = fetched.push(output);
                rest = left;
                assert(message_models(messages@).len() == messages@.len());
            }
            let total: usize = messages.len();
            assert(at < total);
            at = at + 1;
        }
        i = i + 1;
    }
    proof {
        assert(wanted.skip(i as int).len() == 0);
        assert(fetched + fetched_outputs(wanted.skip(i as int), settled, rest) =~= fetched);
    }
    at
}

/// Brings a history into the order that chat providers demand.
pub fn repair_chat_tool_message_sequence(messages: &mut Vec<ChatMessage>)
    ensures
        message_models(final(messages)@) == repaired(message_models(old(messages)@)),
{
    let ghost given = message_models(messages@);
    let ghost mut front: Seq<MessageModel> = Seq::empty();
    let ghost mut rest = given;
    let mut index: usize = 0;
    proof {
        assert(given =~= front + rest);
        assert(front + repaired(rest) =~= repaired(given));
    }
    while index < messages.len()
        invariant
            message_models(messages@) == front + rest,
            index == front.len(),
            front + repaired(rest) == repaired(given),
        decreases rest.len(),
    {
        let ghost all = message_models(messages@);
        let ghost next = rest[0];
        let ghost behind = rest.skip(1);
        proof {
            assert(all.len() == messages@.len());
            assert(all[index as int] == next);
            assert(messages@[index as int]@ == all[index as int]);
        }
        if is_tool_output(&messages[index]) {
            messages.remove(index);
            proof {
                assert(message_models(messages@) =~= all.remove(index as int));
                assert(all.remove(index as int) =~= front + behind);
                rest = behind;
            }
        } else if messages[index].tool_calls.len() == 0 {
            proof {
                assert(next.tool_calls.len() == 0);
                assert(front + rest =~= front.push(next) + behind);
                assert(front + (seq![next] + repaired(behind)) =~= front.push(next) + repaired(
                    behind,
                ));
                front = front.push(next);
                rest = behind;
            }
            index = index + 1;
        } else {
            let ids = ids_of(&messages[index]);
            let ghost none = Seq::<Seq<char>>::empty();
            let ghost wanted = texts(ids@);
            let ghost kept = awaited_outputs(behind, wanted, none);
            let ghost tail = after_outputs(behind);
            let ghost settled = done_calls(behind, wanted, none);
            let ghost head = front.push(next);
            proof {
                assert(next.tool_calls.len() > 0);
                assert(all.take(index + 1) =~= head);
                assert(all.skip(index + 1) =~= behind);
            }
            let (at, done) = keep_awaited(messages, index + 1, &ids);
            let ghost middle = message_models(messages@);
            proof {
                assert(middle =~= head + kept + tail);
                assert(middle.take(at as int) =~= head + kept);
                assert(middle.skip(at as int) =~= tail);
                assert(middle.len() == messages@.len());
            }
            index = fetch_missing(messages, at, &ids, &done);
            proof {
                let fetched = fetched_outputs(wanted, settled, tail);
                let left = left_messages(wanted, settled, tail);
                lemma_after_outputs(behind);
                lemma_shorter(wanted, settled, tail);
                let outputs = outputs_for(next, behind);
                assert(outputs =~= kept + fetched);
                assert(left == behind_outputs(next, behind));
                assert(message_models(messages@) =~= head + outputs + left);
                assert(front + (seq![next] + outputs + repaired(left)) =~= head + outputs
                    + repaired(left));
                front = head + outputs;
                rest = left;
            }
        }
    }
    proof {
        assert(message_models(messages@).len() == messages@.len());
        assert(repaired(rest) =~= Seq::<MessageModel>::empty());
        assert(front + rest =~= front);
        assert(front + repaired(rest) =~= front);
    }
}

// ---------------------------------------------------------------------------
// Laws
// ---------------------------------------------------------------------------

/// The calls that outputs are for.
pub open spec fn answered_ids(s: Seq<MessageModel>) -> Seq<Seq<char>> {
    s.map_values(|m: MessageModel| m.tool_call_id->0)
}

/// Whether these are outputs of calls.
pub open spec fn all_outputs(s: Seq<MessageModel>) -> bool {
    forall|i: int| 0 <= i < s.len() ==> is_output(#[trigger] s[i]) && s[i].tool_call_id is Some
}

/// Whether these are the outputs of just these calls: each call has one, and each
/// output is for one of them.
pub open spec fn settles(outputs: Seq<MessageModel>, ids: Seq<Seq<char>>) -> bool {
    &&& all_outputs(outputs)
    &&& forall|id: Seq<char>| answered_ids(outputs).contains(id) <==> ids.contains(id)
}

/// The outputs that `s` begins with.
pub open spec fn leading_outputs(s: Seq<MessageModel>) -> Seq<MessageModel> {
    s.take(s.len() - after_outputs(s).len())
}

/// The order that chat providers demand: right behind a message that calls tools
/// stand the outputs of these calls, and no output stands anywhere else.
pub open spec fn in_order(s: Seq<MessageModel>) -> bool
    decreases s.len(),
    via in_order_decreases
{
    s.len() > 0 ==> {
        &&& !is_output(s[0])
        &&& s[0].tool_calls.len() == 0 ==> in_order(s.skip(1))
        &&& s[0].tool_calls.len() > 0 ==> settles(leading_outputs(s.skip(1)), called_ids(s[0]))
            && in_order(after_outputs(s.skip(1)))
    }
}

#[via_fn]
proof fn in_order_decreases(s: Seq<MessageModel>) {
    if s.len() > 0 {
        lemma_after_outputs(s.skip(1));
    }
}

/// Whether no call has two outputs behind it.
pub open spec fn answered_once(s: Seq<MessageModel>) -> bool
    decreases s.len(),
    via answered_once_decreases
{
    s.len() > 0 ==> {
        &&& s[0].tool_calls.len() == 0 ==> answered_once(s.skip(1))
        &&& s[0].tool_calls.len() > 0 ==> answered_ids(
            leading_outputs(s.skip(1)),
        ).no_duplicates() && answered_once(after_outputs(s.skip(1)))
    }
}

#[via_fn]
proof fn answered_once_decreases(s: Seq<MessageModel>) {
    if s.len() > 0 {
        lemma_after_outputs(s.skip(1));
    }
}

/// Whether no message makes two calls under one id.
pub open spec fn calls_are_distinct(s: Seq<MessageModel>) -> bool {
    forall|i: int| 0 <= i < s.len() ==> called_ids(#[trigger] s[i]).no_duplicates()
}

proof fn lemma_awaited(s: Seq<MessageModel>, ids: Seq<Seq<char>>, done: Seq<Seq<char>>)
    ensures
        all_outputs(awaited_outputs(s, ids, done)),
        done_calls(s, ids, done) == done + answered_ids(awaited_outputs(s, ids, done)),
        forall|id: Seq<char>| #[trigger]
            done_calls(s, ids, done).contains(id) ==> done.contains(id) || ids.contains(id),
        done.no_duplicates() ==> done_calls(s, ids, done).no_duplicates(),
    decreases s.len(),
{
    if s.len() > 0 && is_output(s[0]) {
        let t = s.skip(1);
        if is_awaited(s[0], ids, done) {
            let id = s[0].tool_call_id->0;
            let more = done.push(id);
            lemma_awaited(t, ids, more);
            let a = awaited_outputs(t, ids, more);
            assert(answered_ids(seq![s[0]] + a) =~= seq![id] + answered_ids(a));
            assert(more + answered_ids(a) =~= done + (seq![id] + answered_ids(a)));
            assert forall|x: Seq<char>| #[trigger]
                done_calls(s, ids, done).contains(x) implies done.contains(x) || ids.contains(
                x,
            ) by {
                if more.contains(x) && !done.contains(x) {
                    let k = choose|k: int| 0 <= k < more.len() && more[k] == x;
                    assert(k == done.len() || done[k] == x);
                }
            }
        } else {
            lemma_awaited(t, ids, done);
        }
    } else {
        assert(done + answered_ids(awaited_outputs(s, ids, done)) =~= done);
    }
}

proof fn lemma_fetched(ids: Seq<Seq<char>>, done: Seq<Seq<char>>, s: Seq<MessageModel>)
    ensures
        all_outputs(fetched_outputs(ids, done, s)),
        answered_ids(fetched_outputs(ids, done, s)) == ids.filter(
            |id: Seq<char>| !done.contains(id),
        ),
    decreases ids.len(),
{
    let open = |id: Seq<char>| !done.contains(id);
    if ids.len() == 0 {
        reveal(Seq::filter);
        assert(answered_ids(fetched_outputs(ids, done, s)) =~= ids.filter(open));
    } else {
        let first = seq![ids[0]];
        let others = ids.skip(1);
        assert(ids =~= first + others);
        Seq::filter_distributes_over_add(first, others, open);
        assert(first.filter(open) == (if done.contains(ids[0]) {
            Seq::<Seq<char>>::empty()
        } else {
            first
        })) by {
            reveal(Seq::filter);
            assert(first.drop_last() =~= Seq::<Seq<char>>::empty());
            assert(first.drop_last().filter(open) =~= Seq::<Seq<char>>::empty());
            assert(first.last() == ids[0]);
        }
        if done.contains(ids[0]) {
            lemma_fetched(others, done, s);
            assert(Seq::<Seq<char>>::empty() + others.filter(open) =~= others.filter(open));
        } else {
            let output = found_output(s, ids[0]);
            let left = without_output(s, ids[0]);
            lemma_output_place(s, ids[0]);
            assert(answers_call(output, ids[0]));
            lemma_fetched(others, done, left);
            let f = fetched_outputs(others, done, left);
            assert(answered_ids(seq![output] + f) =~= first + answered_ids(f));
        }
    }
}

proof fn lemma_outputs_settle(m: MessageModel, behind: Seq<MessageModel>)
    ensures
        settles(outputs_for(m, behind), called_ids(m)),
        called_ids(m).no_duplicates() ==> answered_ids(outputs_for(m, behind)).no_duplicates(),
{
    let ids = called_ids(m);
    let none = Seq::<Seq<char>>::empty();
    let done = done_calls(behind, ids, none);
    let a = awaited_outputs(behind, ids, none);
    let f = fetched_outputs(ids, done, after_outputs(behind));
    let open = |id: Seq<char>| !done.contains(id);
    lemma_awaited(behind, ids, none);
    lemma_fetched(ids, done, after_outputs(behind));
    assert(done =~= answered_ids(a));
    let rest = ids.filter(open);
    let all = answered_ids(a + f);
    assert(all =~= done + rest);
    broadcast use vstd::seq_lib::group_filter_ensures;
    assert forall|id: Seq<char>| all.contains(id) == ids.contains(id) by {
        if all.contains(id) {
            let k = choose|k: int| 0 <= k < all.len() && all[k] == id;
            if k < done.len() {
                assert(done[k] == id);
                assert(done.contains(id));
            } else {
                assert(rest[k - done.len()] == id);
                assert(rest.contains(id));
                lemma_filtered(ids, done, id);
            }
        }
        if ids.contains(id) {
            lemma_filtered(ids, done, id);
            if done.contains(id) {
                let k = choose|k: int| 0 <= k < done.len() && done[k] == id;
                assert(all[k] == id);
            } else {
                let k = choose|k: int| 0 <= k < rest.len() && rest[k] == id;
                assert(all[done.len() + k] == id);
            }
        }
    }
    if ids.no_duplicates() {
        lemma_filtered_once(ids, done);
        assert forall|i: int, j: int| 0 <= i < j < all.len() implies all[i] != all[j] by {
            if i < done.len() && j >= done.len() {
                let id = rest[j - done.len()];
                assert(rest.contains(id));
                lemma_filtered(ids, done, id);
                assert(done[i] == all[i]);
            } else if i >= done.len() {
                assert(all[i] == rest[i - done.len()]);
                assert(all[j] == rest[j - done.len()]);
            } else {
                assert(all[i] == done[i]);
                assert(all[j] == done[j]);
            }
        }
    }
}

proof fn lemma_filtered(ids: Seq<Seq<char>>, done: Seq<Seq<char>>, id: Seq<char>)
    ensures
        ids.filter(|x: Seq<char>| !done.contains(x)).contains(id) <==> ids.contains(id)
            && !done.contains(id),
    decreases ids.len(),
{
    reveal(Seq::filter);
    let open = |x: Seq<char>| !done.contains(x);
    if ids.len() > 0 {
        let t = ids.drop_last();
        lemma_filtered(t, done, id);
        let f = t.filter(open);
        assert(ids =~= t.push(ids.last()));
        assert(ids.contains(id) <==> t.contains(id) || ids.last() == id) by {
            if ids.contains(id) {
                let k = choose|k: int| 0 <= k < ids.len() && ids[k] == id;
                if k < t.len() {
                    assert(t[k] == id);
                }
            }
            if t.contains(id) {
                let k = choose|k: int| 0 <= k < t.len() && t[k] == id;
                assert(ids[k] == id);
            }
            if ids.last() == id {
                assert(ids[ids.len() - 1] == id);
            }
        }
        if open(ids.last()) {
            let g = f.push(ids.last());
            assert(g.contains(id) <==> f.contains(id) || ids.last() == id) by {
                if g.contains(id) {
                    let k = choose|k: int| 0 <= k < g.len() && g[k] == id;
                    if k < f.len() {
                        assert(f[k] == id);
                    }
                }
                if f.contains(id) {
                    let k = choose|k: int| 0 <= k < f.len() && f[k] == id;
                    assert(g[k] == id);
                }
                if ids.last() == id {
                    assert(g[g.len() - 1] == id);
                }
            }
        }
    }
}

proof fn lemma_filtered_once(ids: Seq<Seq<char>>, done: Seq<Seq<char>>)
    requires
        ids.no_duplicates(),
    ensures
        ids.filter(|x: Seq<char>| !done.contains(x)).no_duplicates(),
    decreases ids.len(),
{
    reveal(Seq::filter);
    let open = |x: Seq<char>| !done.contains(x);
    if ids.len() > 0 {
        let t = ids.drop_last();
        lemma_filtered_once(t, done);
        lemma_filtered(t, done, ids.last());
        let f = t.filter(open);
        assert(!t.contains(ids.last())) by {
            if t.contains(ids.last()) {
                let k = choose|k: int| 0 <= k < t.len() && t[k] == ids.last();
                assert(ids[k] == ids[ids.len() - 1]);
            }
        }
        if open(ids.last()) {
            let g = f.push(ids.last());
            assert forall|i: int, j: int| 0 <= i < j < g.len() implies g[i] != g[j] by {
                if j == f.len() {
                    assert(f[i] == g[i]);
                    assert(f.contains(g[i]));
                }
            }
        }
    }
}

/// Behind outputs that end where no output follows comes what follows.
proof fn lemma_outputs_end(outputs: Seq<MessageModel>, rest: Seq<MessageModel>)
    requires
        all_outputs(outputs),
        rest.len() > 0 ==> !is_output(rest[0]),
    ensures
        after_outputs(outputs + rest) == rest,
        leading_outputs(outputs + rest) == outputs,
    decreases outputs.len(),
{
    let all = outputs + rest;
    if outputs.len() == 0 {
        assert(all =~= rest);
        assert(all.take(0) =~= outputs);
    } else {
        assert(is_output(outputs[0]));
        let t = outputs.skip(1);
        assert forall|i: int| 0 <= i < t.len() implies is_output(#[trigger] t[i])
            && t[i].tool_call_id is Some by {
            assert(t[i] == outputs[i + 1]);
        }
        lemma_outputs_end(t, rest);
        assert(all.skip(1) =~= t + rest);
        assert(all.take(outputs.len() as int) =~= outputs);
    }
}

proof fn lemma_repaired_start(s: Seq<MessageModel>)
    ensures
        repaired(s).len() > 0 ==> !is_output(repaired(s)[0]),
    decreases s.len(),
{
    if s.len() > 0 && is_output(s[0]) {
        lemma_repaired_start(s.skip(1));
    }
}

/// A repaired history is in the order that chat providers demand.
pub proof fn law_repaired_history_is_in_order(s: Seq<MessageModel>)
    ensures
        in_order(repaired(s)),
        calls_are_distinct(s) ==> answered_once(repaired(s)),
    decreases s.len(),
{
    if s.len() > 0 {
        let t = s.skip(1);
        let m = s[0];
        if is_output(m) {
            law_repaired_history_is_in_order(t);
            lemma_distinct_below(s, t);
        } else if m.tool_calls.len() == 0 {
            law_repaired_history_is_in_order(t);
            lemma_distinct_below(s, t);
            let r = repaired(s);
            assert(r.skip(1) =~= repaired(t));
        } else {
            let outputs = outputs_for(m, t);
            let left = behind_outputs(m, t);
            lemma_behind_outputs(m, t);
            law_repaired_history_is_in_order(left);
            lemma_outputs_settle(m, t);
            lemma_repaired_start(left);
            lemma_outputs_end(outputs, repaired(left));
            let r = repaired(s);
            assert(r.skip(1) =~= outputs + repaired(left));
            lemma_left_is_part(called_ids(m), done_calls(t, called_ids(m), Seq::empty()), after_outputs(t));
            lemma_after_outputs(t);
            assert(calls_are_distinct(s) ==> calls_are_distinct(left)) by {
                if calls_are_distinct(s) {
                    assert forall|i: int| 0 <= i < left.len() implies called_ids(
                        #[trigger] left[i],
                    ).no_duplicates() by {
                        let k = choose|k: int|
                            0 <= k < after_outputs(t).len() && after_outputs(t)[k] == left[i];
                        assert(after_outputs(t)[k] == s[1 + t.len() - after_outputs(t).len() + k]);
                    }
                }
            }
            assert(calls_are_distinct(s) ==> called_ids(m).no_duplicates()) by {
                assert(s[0] == m);
            }
        }
    } else {
        assert(repaired(s) =~= Seq::<MessageModel>::empty());
    }
}

proof fn lemma_distinct_below(s: Seq<MessageModel>, t: Seq<MessageModel>)
    requires
        s.len() > 0,
        t == s.skip(1),
    ensures
        calls_are_distinct(s) ==> calls_are_distinct(t),
{
    if calls_are_distinct(s) {
        assert forall|i: int| 0 <= i < t.len() implies called_ids(
            #[trigger] t[i],
        ).no_duplicates() by {
            assert(t[i] == s[i + 1]);
        }
    }
}

proof fn lemma_left_is_part(ids: Seq<Seq<char>>, done: Seq<Seq<char>>, s: Seq<MessageModel>)
    ensures
        forall|i: int|
            0 <= i < left_messages(ids, done, s).len() ==> s.contains(
                #[trigger] left_messages(ids, done, s)[i],
            ),
    decreases ids.len(),
{
    if ids.len() == 0 {
        assert forall|i: int| 0 <= i < s.len() implies s.contains(
            #[trigger] left_messages(ids, done, s)[i],
        ) by {
            assert(s.contains(s[i]));
        }
    } else {
        if done.contains(ids[0]) {
            lemma_left_is_part(ids.skip(1), done, s);
            let l = left_messages(ids.skip(1), done, s);
            assert(left_messages(ids, done, s) == l);
            assert forall|i: int| 0 <= i < l.len() implies s.contains(
                #[trigger] left_messages(ids, done, s)[i],
            ) by {
                assert(s.contains(l[i]));
            }
        } else {
            let w = without_output(s, ids[0]);
            lemma_output_place(s, ids[0]);
            lemma_left_is_part(ids.skip(1), done, w);
            let l = left_messages(ids.skip(1), done, w);
            assert(left_messages(ids, done, s) == l);
            assert forall|i: int| 0 <= i < left_messages(ids, done, s).len() implies s.contains(
                #[trigger] left_messages(ids, done, s)[i],
            ) by {
                let x = left_messages(ids, done, s)[i];
                assert(w.contains(l[i]));
                let k = choose|k: int| 0 <= k < w.len() && w[k] == x;
                if k < output_place(s, ids[0]) || output_place(s, ids[0]) == s.len() {
                    assert(s[k] == x);
                } else {
                    assert(s[k + 1] == x);
                }
            }
        }
    }
}

/// What is said in a history: all but the outputs of tools.
pub open spec fn said(s: Seq<MessageModel>) -> Seq<MessageModel> {
    s.filter(|m: MessageModel| !is_output(m))
}

pub proof fn lemma_said_of_one(m: MessageModel)
    ensures
        said(seq![m]) == (if is_output(m) {
            Seq::<MessageModel>::empty()
        } else {
            seq![m]
        }),
{
    reveal(Seq::filter);
    let one = seq![m];
    let p = |m: MessageModel| !is_output(m);
    assert(one.drop_last() =~= Seq::<MessageModel>::empty());
    assert(one.drop_last().filter(p) =~= Seq::<MessageModel>::empty());
    assert(one.last() == m);
}

pub proof fn lemma_said_of_two(a: Seq<MessageModel>, b: Seq<MessageModel>)
    ensures
        said(a + b) == said(a) + said(b),
{
    Seq::filter_distributes_over_add(a, b, |m: MessageModel| !is_output(m));
}

pub proof fn lemma_nothing_said(s: Seq<MessageModel>)
    requires
        forall|i: int| 0 <= i < s.len() ==> is_output(#[trigger] s[i]),
    ensures
        said(s) == Seq::<MessageModel>::empty(),
    decreases s.len(),
{
    reveal(Seq::filter);
    if s.len() > 0 {
        let t = s.drop_last();
        assert forall|i: int| 0 <= i < t.len() implies is_output(#[trigger] t[i]) by {
            assert(t[i] == s[i]);
        }
        lemma_nothing_said(t);
        assert(is_output(s[s.len() - 1]));
    } else {
        assert(said(s) =~= Seq::<MessageModel>::empty());
    }
}

proof fn lemma_said_without_output(s: Seq<MessageModel>, id: Seq<char>)
    ensures
        said(without_output(s, id)) == said(s),
{
    lemma_output_place(s, id);
    let k = output_place(s, id);
    if k < s.len() {
        let a = s.take(k);
        let b = s.skip(k + 1);
        assert(s =~= a + seq![s[k]] + b);
        assert(s.remove(k) =~= a + b);
        lemma_said_of_one(s[k]);
        lemma_said_of_two(a + seq![s[k]], b);
        lemma_said_of_two(a, seq![s[k]]);
        lemma_said_of_two(a, b);
        assert(said(a) + Seq::<MessageModel>::empty() =~= said(a));
    }
}

proof fn lemma_said_left(ids: Seq<Seq<char>>, done: Seq<Seq<char>>, s: Seq<MessageModel>)
    ensures
        said(left_messages(ids, done, s)) == said(s),
    decreases ids.len(),
{
    if ids.len() > 0 {
        if done.contains(ids[0]) {
            lemma_said_left(ids.skip(1), done, s);
        } else {
            lemma_said_without_output(s, ids[0]);
            lemma_said_left(ids.skip(1), done, without_output(s, ids[0]));
        }
    }
}

proof fn lemma_said_behind(m: MessageModel, t: Seq<MessageModel>)
    ensures
        said(behind_outputs(m, t)) == said(t),
{
    let ids = called_ids(m);
    let done = done_calls(t, ids, Seq::empty());
    let rest = after_outputs(t);
    lemma_said_left(ids, done, rest);
    lemma_after_outputs(t);
    let n = t.len() - rest.len();
    let outputs = t.take(n);
    assert forall|i: int| 0 <= i < outputs.len() implies is_output(#[trigger] outputs[i]) by {
        assert(outputs[i] == t[i]);
    }
    lemma_nothing_said(outputs);
    assert(t =~= outputs + rest);
    lemma_said_of_two(outputs, rest);
    assert(Seq::<MessageModel>::empty() + said(rest) =~= said(rest));
}

proof fn lemma_said_with_outputs(m: MessageModel, t: Seq<MessageModel>, rest: Seq<MessageModel>)
    requires
        !is_output(m),
    ensures
        said(seq![m] + outputs_for(m, t) + rest) == seq![m] + said(rest),
{
    let outputs = outputs_for(m, t);
    lemma_outputs_settle(m, t);
    lemma_nothing_said(outputs);
    lemma_said_of_two(seq![m] + outputs, rest);
    lemma_said_of_two(seq![m], outputs);
    lemma_said_of_one(m);
    assert(seq![m] + Seq::<MessageModel>::empty() =~= seq![m]);
}

/// Repairing a history changes nothing of what is said in it, nor the order.
pub proof fn law_repair_keeps_what_is_said(s: Seq<MessageModel>)
    ensures
        said(repaired(s)) == said(s),
    decreases s.len(),
{
    if s.len() > 0 {
        let m = s[0];
        let t = s.skip(1);
        assert(s =~= seq![m] + t);
        lemma_said_of_one(m);
        lemma_said_of_two(seq![m], t);
        if is_output(m) {
            law_repair_keeps_what_is_said(t);
            assert(Seq::<MessageModel>::empty() + said(t) =~= said(t));
        } else if m.tool_calls.len() == 0 {
            law_repair_keeps_what_is_said(t);
            lemma_said_of_two(seq![m], repaired(t));
        } else {
            let left = behind_outputs(m, t);
            lemma_behind_outputs(m, t);
            law_repair_keeps_what_is_said(left);
            lemma_said_behind(m, t);
            lemma_said_with_outputs(m, t, repaired(left));
        }
    } else {
        assert(repaired(s) =~= s);
    }
}

/// Outputs that settle calls, each once, are awaited, all of them.
proof fn lemma_all_awaited(
    outputs: Seq<MessageModel>,
    rest: Seq<MessageModel>,
    ids: Seq<Seq<char>>,
    done: Seq<Seq<char>>,
)
    requires
        all_outputs(outputs),
        rest.len() > 0 ==> !is_output(rest[0]),
        (done + answered_ids(outputs)).no_duplicates(),
        forall|i: int| 0 <= i < outputs.len() ==> ids.contains(#[trigger] outputs[i].tool_call_id->0),
    ensures
        awaited_outputs(outputs + rest, ids, done) == outputs,
        done_calls(outputs + rest, ids, done) == done + answered_ids(outputs),
    decreases outputs.len(),
{
    let all = outputs + rest;
    if outputs.len() == 0 {
        assert(all =~= rest);
        assert(awaited_outputs(all, ids, done) =~= outputs);
        assert(done + answered_ids(outputs) =~= done);
    } else {
        let m = outputs[0];
        let id = m.tool_call_id->0;
        let t = outputs.skip(1);
        let both = done + answered_ids(outputs);
        let more = done.push(id);
        assert(is_output(m));
        assert(both[done.len() as int] == id);
        assert(!done.contains(id)) by {
            if done.contains(id) {
                let k = choose|k: int| 0 <= k < done.len() && done[k] == id;
                assert(both[k] == id);
            }
        }
        assert(all[0] == m);
        assert(all.skip(1) =~= t + rest);
        assert(more + answered_ids(t) =~= both);
        assert forall|i: int| 0 <= i < t.len() implies is_output(#[trigger] t[i])
            && t[i].tool_call_id is Some by {
            assert(t[i] == outputs[i + 1]);
        }
        assert forall|i: int| 0 <= i < t.len() implies ids.contains(
            #[trigger] t[i].tool_call_id->0,
        ) by {
            assert(t[i] == outputs[i + 1]);
        }
        lemma_all_awaited(t, rest, ids, more);
        assert(seq![m] + t =~= outputs);
    }
}

proof fn lemma_nothing_left_to_fetch(
    ids: Seq<Seq<char>>,
    done: Seq<Seq<char>>,
    s: Seq<MessageModel>,
)
    requires
        forall|i: int| 0 <= i < ids.len() ==> done.contains(#[trigger] ids[i]),
    ensures
        fetched_outputs(ids, done, s) == Seq::<MessageModel>::empty(),
        left_messages(ids, done, s) == s,
    decreases ids.len(),
{
    if ids.len() > 0 {
        assert(done.contains(ids[0]));
        let t = ids.skip(1);
        assert forall|i: int| 0 <= i < t.len() implies done.contains(#[trigger] t[i]) by {
            assert(t[i] == ids[i + 1]);
        }
        lemma_nothing_left_to_fetch(t, done, s);
    }
}

/// A history that is in order, with one output for each call, is left as it is.
pub proof fn law_history_in_order_is_unchanged(s: Seq<MessageModel>)
    requires
        in_order(s),
        answered_once(s),
    ensures
        repaired(s) == s,
    decreases s.len(),
{
    if s.len() == 0 {
        assert(repaired(s) =~= s);
    } else {
        let m = s[0];
        let t = s.skip(1);
        if m.tool_calls.len() == 0 {
            law_history_in_order_is_unchanged(t);
            assert(seq![m] + t =~= s);
        } else {
            let ids = called_ids(m);
            let none = Seq::<Seq<char>>::empty();
            let rest = after_outputs(t);
            let outputs = leading_outputs(t);
            lemma_after_outputs(t);
            law_history_in_order_is_unchanged(rest);
            assert(t =~= outputs + rest);
            assert(none + answered_ids(outputs) =~= answered_ids(outputs));
            assert forall|i: int| 0 <= i < outputs.len() implies ids.contains(
                #[trigger] outputs[i].tool_call_id->0,
            ) by {
                assert(answered_ids(outputs)[i] == outputs[i].tool_call_id->0);
                assert(answered_ids(outputs).contains(outputs[i].tool_call_id->0));
            }
            lemma_all_awaited(outputs, rest, ids, none);
            let done = answered_ids(outputs);
            assert forall|i: int| 0 <= i < ids.len() implies done.contains(#[trigger] ids[i]) by {
                assert(ids.contains(ids[i]));
            }
            lemma_nothing_left_to_fetch(ids, done, rest);
            assert(outputs_for(m, t) =~= outputs);
            assert(seq![m] + outputs + rest =~= s);
        }
    }
}

/// Repairing twice is repairing once, where no message makes two calls under one
/// id.
pub proof fn law_repair_is_idempotent(s: Seq<MessageModel>)
    requires
        calls_are_distinct(s),
    ensures
        repaired(repaired(s)) == repaired(s),
{
    law_repaired_history_is_in_order(s);
    law_history_in_order_is_unchanged(repaired(s));
}

/// The calls that are made in these messages, in their order.
pub open spec fn calls_made(v: Seq<MessageModel>) -> Seq<Seq<char>>
    decreases v.len(),
{
    if v.len() == 0 {
        Seq::empty()
    } else {
        called_ids(v[0]) + calls_made(v.skip(1))
    }
}

/// Whether the message at `i` of a history stands at `p` of another one, with one
/// output for each of its calls right behind it: the first one that comes behind
/// the message in the history, or what stands for a missing one.
pub open spec fn has_its_outputs(
    s: Seq<MessageModel>,
    i: int,
    r: Seq<MessageModel>,
    p: int,
) -> bool {
    let outputs = leading_outputs(r.skip(p + 1));
    &&& 0 <= p < r.len()
    &&& r[p] == s[i]
    &&& outputs.len() == s[i].tool_calls.len()
    &&& forall|id: Seq<char>| #[trigger]
        called_ids(s[i]).contains(id) ==> outputs.contains(found_output(s.skip(i + 1), id))
}

pub proof fn lemma_found_behind(s: Seq<MessageModel>, id: Seq<char>)
    requires
        s.len() > 0,
        !answers_call(s[0], id),
    ensures
        found_output(s, id) == found_output(s.skip(1), id),
{
    lemma_output_place(s.skip(1), id);
    let k = output_place(s.skip(1), id);
    if k < s.len() - 1 {
        assert(s.skip(1)[k] == s[k + 1]);
    }
}

/// Taking the output of another call away leaves the output of a call.
proof fn lemma_found_without(s: Seq<MessageModel>, other: Seq<char>, id: Seq<char>)
    requires
        other != id,
    ensures
        found_output(without_output(s, other), id) == found_output(s, id),
    decreases s.len(),
{
    if s.len() > 0 {
        let t = s.skip(1);
        lemma_output_place(s, other);
        lemma_output_place(t, other);
        if answers_call(s[0], other) {
            assert(s.remove(0) =~= t);
            lemma_found_behind(s, id);
        } else {
            let w = without_output(s, other);
            assert(w =~= seq![s[0]] + without_output(t, other));
            assert(w.skip(1) =~= without_output(t, other));
            if !answers_call(s[0], id) {
                lemma_found_without(t, other, id);
                lemma_found_behind(s, id);
                lemma_found_behind(w, id);
            }
        }
    }
}

/// Where a message stands when the output of a call is taken away. What is found
/// behind it for other calls is the same.
proof fn lemma_stays_without(s: Seq<MessageModel>, other: Seq<char>, i: int) -> (p: int)
    requires
        0 <= i < s.len(),
        !is_output(s[i]),
    ensures
        0 <= p < without_output(s, other).len(),
        without_output(s, other)[p] == s[i],
        forall|id: Seq<char>|
            id != other ==> #[trigger] found_output(without_output(s, other).skip(p + 1), id)
                == found_output(s.skip(i + 1), id),
{
    lemma_output_place(s, other);
    let k = output_place(s, other);
    let w = without_output(s, other);
    if k == s.len() {
        i
    } else if k < i {
        assert(w.skip(i) =~= s.skip(i + 1));
        i - 1
    } else {
        let t = s.skip(i + 1);
        lemma_output_place(t, other);
        let j = output_place(t, other);
        assert(t[k - i - 1] == s[k]);
        assert(j <= k - i - 1);
        assert(t[j] == s[j + i + 1]);
        assert(j == k - i - 1);
        assert(w.skip(i + 1) =~= without_output(t, other));
        assert forall|id: Seq<char>| id != other implies #[trigger] found_output(
            w.skip(i + 1),
            id,
        ) == found_output(t, id) by {
            lemma_found_without(t, other, id);
        }
        i
    }
}

/// Where a message stands when the outputs of calls were fetched. What is found
/// behind it for other calls is the same.
proof fn lemma_stays_left(
    ids: Seq<Seq<char>>,
    done: Seq<Seq<char>>,
    s: Seq<MessageModel>,
    i: int,
) -> (p: int)
    requires
        0 <= i < s.len(),
        !is_output(s[i]),
    ensures
        0 <= p < left_messages(ids, done, s).len(),
        left_messages(ids, done, s)[p] == s[i],
        forall|id: Seq<char>|
            !ids.contains(id) ==> #[trigger] found_output(
                left_messages(ids, done, s).skip(p + 1),
                id,
            ) == found_output(s.skip(i + 1), id),
    decreases ids.len(),
{
    if ids.len() == 0 {
        i
    } else {
        let others = ids.skip(1);
        assert forall|id: Seq<char>| !ids.contains(id) implies !#[trigger] others.contains(id)
            && id != ids[0] by {
            if others.contains(id) {
                let k = choose|k: int| 0 <= k < others.len() && others[k] == id;
                assert(ids[k + 1] == id);
            }
        }
        if done.contains(ids[0]) {
            let p = lemma_stays_left(others, done, s, i);
            let l = left_messages(ids, done, s);
            assert forall|id: Seq<char>| !ids.contains(id) implies #[trigger] found_output(
                l.skip(p + 1),
                id,
            ) == found_output(s.skip(i + 1), id) by {
                assert(!others.contains(id));
            }
            p
        } else {
            let w = without_output(s, ids[0]);
            let q = lemma_stays_without(s, ids[0], i);
            let p = lemma_stays_left(others, done, w, q);
            let l = left_messages(ids, done, s);
            assert forall|id: Seq<char>| !ids.contains(id) implies #[trigger] found_output(
                l.skip(p + 1),
                id,
            ) == found_output(s.skip(i + 1), id) by {
                assert(!others.contains(id));
                assert(found_output(w.skip(q + 1), id) == found_output(s.skip(i + 1), id));
            }
            p
        }
    }
}

/// Of the outputs right behind a message, the first one of a call is kept; where
/// there is none, it is to be found further behind.
proof fn lemma_awaited_is_first(
    s: Seq<MessageModel>,
    ids: Seq<Seq<char>>,
    done: Seq<Seq<char>>,
    id: Seq<char>,
)
    requires
        ids.contains(id),
        !done.contains(id),
    ensures
        if done_calls(s, ids, done).contains(id) {
            awaited_outputs(s, ids, done).contains(found_output(s, id))
        } else {
            found_output(s, id) == found_output(after_outputs(s), id)
        },
    decreases s.len(),
{
    if s.len() > 0 && is_output(s[0]) {
        let t = s.skip(1);
        if is_awaited(s[0], ids, done) {
            let first = s[0].tool_call_id->0;
            let more = done.push(first);
            let a = awaited_outputs(t, ids, more);
            let all = awaited_outputs(s, ids, done);
            assert(all =~= seq![s[0]] + a);
            if first == id {
                lemma_awaited(t, ids, more);
                assert(more[done.len() as int] == id);
                assert(done_calls(s, ids, done)[done.len() as int] == id);
                assert(all[0] == s[0]);
            } else {
                assert(!more.contains(id)) by {
                    if more.contains(id) {
                        let k = choose|k: int| 0 <= k < more.len() && more[k] == id;
                        assert(done[k] == id);
                    }
                }
                lemma_awaited_is_first(t, ids, more, id);
                lemma_found_behind(s, id);
                if done_calls(s, ids, done).contains(id) {
                    let k = choose|k: int| 0 <= k < a.len() && a[k] == found_output(t, id);
                    assert(all[k + 1] == found_output(s, id));
                }
            }
        } else {
            lemma_awaited_is_first(t, ids, done, id);
            lemma_found_behind(s, id);
        }
    }
}

proof fn lemma_fetches_first(
    ids: Seq<Seq<char>>,
    done: Seq<Seq<char>>,
    s: Seq<MessageModel>,
    id: Seq<char>,
)
    requires
        ids.no_duplicates(),
        ids.contains(id),
        !done.contains(id),
    ensures
        fetched_outputs(ids, done, s).contains(found_output(s, id)),
    decreases ids.len(),
{
    let others = ids.skip(1);
    let all = fetched_outputs(ids, done, s);
    if ids[0] == id {
        assert(all[0] == found_output(s, id));
    } else {
        assert(others.contains(id)) by {
            let k = choose|k: int| 0 <= k < ids.len() && ids[k] == id;
            assert(others[k - 1] == id);
        }
        if done.contains(ids[0]) {
            lemma_fetches_first(others, done, s, id);
        } else {
            let w = without_output(s, ids[0]);
            lemma_fetches_first(others, done, w, id);
            lemma_found_without(s, ids[0], id);
            let f = fetched_outputs(others, done, w);
            let k = choose|k: int| 0 <= k < f.len() && f[k] == found_output(w, id);
            assert(all[k + 1] == f[k]);
        }
    }
}

/// The outputs that a message is given are the first ones of its calls, one each.
proof fn lemma_outputs_are_first(m: MessageModel, behind: Seq<MessageModel>)
    requires
        called_ids(m).no_duplicates(),
    ensures
        outputs_for(m, behind).len() == m.tool_calls.len(),
        forall|id: Seq<char>| #[trigger]
            called_ids(m).contains(id) ==> outputs_for(m, behind).contains(
                found_output(behind, id),
            ),
{
    let ids = called_ids(m);
    let none = Seq::<Seq<char>>::empty();
    let done = done_calls(behind, ids, none);
    let a = awaited_outputs(behind, ids, none);
    let f = fetched_outputs(ids, done, after_outputs(behind));
    let all = outputs_for(m, behind);
    lemma_outputs_settle(m, behind);
    let answered = answered_ids(all);
    ids.unique_seq_to_set();
    answered.unique_seq_to_set();
    assert(answered.to_set() =~= ids.to_set());
    assert forall|id: Seq<char>| #[trigger] ids.contains(id) implies all.contains(
        found_output(behind, id),
    ) by {
        lemma_awaited_is_first(behind, ids, none, id);
        if done.contains(id) {
            let k = choose|k: int| 0 <= k < a.len() && a[k] == found_output(behind, id);
            assert(all[k] == a[k]);
        } else {
            lemma_fetches_first(ids, done, after_outputs(behind), id);
            let k = choose|k: int| 0 <= k < f.len() && f[k] == found_output(behind, id);
            assert(all[a.len() + k] == f[k]);
        }
    }
}

proof fn lemma_call_is_made(v: Seq<MessageModel>, i: int, id: Seq<char>)
    requires
        0 <= i < v.len(),
        called_ids(v[i]).contains(id),
    ensures
        calls_made(v).contains(id),
    decreases v.len(),
{
    let first = called_ids(v[0]);
    let others = calls_made(v.skip(1));
    if i == 0 {
        let k = choose|k: int| 0 <= k < first.len() && first[k] == id;
        assert(calls_made(v)[k] == id);
    } else {
        assert(v.skip(1)[i - 1] == v[i]);
        lemma_call_is_made(v.skip(1), i - 1, id);
        let k = choose|k: int| 0 <= k < others.len() && others[k] == id;
        assert(calls_made(v)[first.len() + k] == id);
    }
}

/// What is said behind the first message, if that is said too.
pub proof fn lemma_said_behind_first(s: Seq<MessageModel>)
    requires
        s.len() > 0,
    ensures
        is_output(s[0]) ==> said(s) == said(s.skip(1)),
        !is_output(s[0]) ==> calls_made(said(s)) == called_ids(s[0]) + calls_made(said(s.skip(1))),
        !is_output(s[0]) ==> said(s).len() == 1 + said(s.skip(1)).len(),
{
    let t = s.skip(1);
    assert(s =~= seq![s[0]] + t);
    lemma_said_of_two(seq![s[0]], t);
    lemma_said_of_one(s[0]);
    if is_output(s[0]) {
        assert(Seq::<MessageModel>::empty() + said(t) =~= said(t));
    } else {
        assert(said(s).skip(1) =~= said(t));
    }
}

proof fn lemma_parts_are_distinct(a: Seq<Seq<char>>, b: Seq<Seq<char>>)
    requires
        (a + b).no_duplicates(),
    ensures
        a.no_duplicates(),
        b.no_duplicates(),
        forall|id: Seq<char>| b.contains(id) ==> !a.contains(id),
{
    let all = a + b;
    assert forall|i: int, j: int| 0 <= i < j < a.len() implies a[i] != a[j] by {
        assert(all[i] == a[i] && all[j] == a[j]);
    }
    assert forall|i: int, j: int| 0 <= i < j < b.len() implies b[i] != b[j] by {
        assert(all[a.len() + i] == b[i] && all[a.len() + j] == b[j]);
    }
    assert forall|id: Seq<char>| b.contains(id) implies !a.contains(id) by {
        let j = choose|j: int| 0 <= j < b.len() && b[j] == id;
        assert(all[a.len() + j] == id);
        if a.contains(id) {
            let i = choose|i: int| 0 <= i < a.len() && a[i] == id;
            assert(all[i] == id);
        }
    }
}

proof fn lemma_found_its_outputs(s: Seq<MessageModel>, i: int) -> (p: int)
    requires
        calls_made(said(s)).no_duplicates(),
        0 <= i < s.len(),
        !is_output(s[i]),
    ensures
        has_its_outputs(s, i, repaired(s), p),
    decreases s.len(),
{
    let m = s[0];
    let t = s.skip(1);
    let r = repaired(s);
    lemma_said_behind_first(s);
    if is_output(m) {
        let p = lemma_found_its_outputs(t, i - 1);
        assert(t.skip(i) =~= s.skip(i + 1));
        p
    } else {
        lemma_parts_are_distinct(called_ids(m), calls_made(said(t)));
        let outputs = if m.tool_calls.len() == 0 {
            Seq::<MessageModel>::empty()
        } else {
            outputs_for(m, t)
        };
        let left = if m.tool_calls.len() == 0 {
            t
        } else {
            behind_outputs(m, t)
        };
        lemma_behind_outputs(m, t);
        lemma_repaired_start(left);
        assert(r =~= seq![m] + outputs + repaired(left));
        if i == 0 {
            lemma_outputs_are_first(m, t);
            lemma_outputs_settle(m, t);
            lemma_outputs_end(outputs, repaired(left));
            assert(r.skip(1) =~= outputs + repaired(left));
            0
        } else if m.tool_calls.len() == 0 {
            let p = lemma_found_its_outputs(t, i - 1);
            assert(t.skip(i) =~= s.skip(i + 1));
            assert(r.skip(p + 2) =~= repaired(t).skip(p + 1));
            p + 1
        } else {
            let ids = called_ids(m);
            let done = done_calls(t, ids, Seq::empty());
            let rest = after_outputs(t);
            lemma_after_outputs(t);
            let n = t.len() - rest.len();
            assert(t[i - 1] == s[i]);
            assert(rest[i - 1 - n] == s[i]);
            assert(rest.skip(i - n) =~= s.skip(i + 1));
            let q = lemma_stays_left(ids, done, rest, i - 1 - n);
            lemma_said_behind(m, t);
            let p = lemma_found_its_outputs(left, q);
            let b = 1 + outputs.len();
            assert(r.skip(b + p + 1) =~= repaired(left).skip(p + 1));
            let mine = leading_outputs(r.skip(b + p + 1));
            assert forall|id: Seq<char>| #[trigger] called_ids(s[i]).contains(id) implies mine.contains(
                found_output(s.skip(i + 1), id),
            ) by {
                lemma_said_contains(t, i - 1);
                let k = choose|k: int| 0 <= k < said(t).len() && said(t)[k] == t[i - 1];
                lemma_call_is_made(said(t), k, id);
                assert(!ids.contains(id));
                assert(found_output(left.skip(q + 1), id) == found_output(rest.skip(i - n), id));
                assert(called_ids(left[q]).contains(id));
            }
            b + p
        }
    }
}

proof fn lemma_said_contains(s: Seq<MessageModel>, i: int)
    requires
        0 <= i < s.len(),
        !is_output(s[i]),
    ensures
        said(s).contains(s[i]),
{
    broadcast use vstd::seq_lib::group_filter_ensures;

    assert(s.contains(s[i]));
}

/// Where no two calls of a history have the same id, every message that is said
/// is followed by one output for each of its calls: the first one that comes
/// behind it in the history, or what stands for a missing one.
pub proof fn law_calls_get_their_first_outputs(s: Seq<MessageModel>, i: int)
    requires
        calls_made(said(s)).no_duplicates(),
        0 <= i < s.len(),
        !is_output(s[i]),
    ensures
        exists|p: int| has_its_outputs(s, i, repaired(s), p),
{
    let p = lemma_found_its_outputs(s, i);
}

/// Where no two calls of a history have the same id, a repaired history holds
/// what is said, one output for each call, and nothing else.
pub proof fn law_repaired_history_holds_nothing_else(s: Seq<MessageModel>)
    requires
        calls_made(said(s)).no_duplicates(),
    ensures
        said(repaired(s)) == said(s),
        repaired(s).len() == said(s).len() + calls_made(said(s)).len(),
    decreases s.len(),
{
    law_repair_keeps_what_is_said(s);
    if s.len() == 0 {
        assert(said(s) =~= Seq::<MessageModel>::empty()) by {
            reveal(Seq::filter);
        }
    } else {
        let m = s[0];
        let t = s.skip(1);
        lemma_said_behind_first(s);
        if is_output(m) {
            law_repaired_history_holds_nothing_else(t);
        } else {
            lemma_parts_are_distinct(called_ids(m), calls_made(said(t)));
            if m.tool_calls.len() == 0 {
                law_repaired_history_holds_nothing_else(t);
            } else {
                let left = behind_outputs(m, t);
                lemma_behind_outputs(m, t);
                lemma_said_behind(m, t);
                lemma_outputs_are_first(m, t);
                law_repaired_history_holds_nothing_else(left);
            }
        }
    }
}

/// What stands for an output that is missing answers its call and says that it was
/// aborted; an output answers its call with what it is given.
pub proof fn law_missing_outputs_are_aborted(id: Seq<char>, content: Seq<char>)
    ensures
        missing_output(id).role == "tool"@,
        missing_output(id).tool_call_id == Some(id),
        missing_output(id).content == Some("aborted"@),
        missing_output(id).tool_calls.len() == 0,
        output_message(id, content).role == "tool"@,
        output_message(id, content).tool_call_id == Some(id),
        output_message(id, content).content == Some(content),
{
}

} // verus!
