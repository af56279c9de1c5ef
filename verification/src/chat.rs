//! Conversation: the chat template, the history of a session and its commands, and the windows of
//! a trace that a report shows.

use vstd::prelude::*;
use vstd::string::*;

use crate::text;

verus! {

/// Who said something.
#[derive(Clone, Copy, Debug, PartialEq, Eq, Structural)]
pub enum Role {
    User,
    Assistant,
}

/// The name of a role.
pub open spec fn role_text(r: Role) -> Seq<char> {
    match r {
        Role::User => "user"@,
        Role::Assistant => "assistant"@,
    }
}

impl Role {
    /// The name of a role.
    pub fn as_str(self) -> (r: &'static str)
        ensures
            r@ == role_text(self),
    {
        match self {
            Role::User => "user",
            Role::Assistant => "assistant",
        }
    }
}

/// One thing that was said.
#[derive(Debug)]
pub struct Message {
    pub role: Role,
    pub content: String,
}

/// The mathematical value of a message.
pub struct MessageView {
    pub role: Role,
    pub content: Seq<char>,
}

impl View for Message {
    type V = MessageView;

    open spec fn view(&self) -> MessageView {
        MessageView { role: self.role, content: self.content@ }
    }
}

/// The values of some messages.
pub open spec fn messages(s: Seq<Message>) -> Seq<MessageView> {
    s.map_values(|m: Message| m@)
}

/// One turn in the template.
pub open spec fn turn(role: Seq<char>, content: Seq<char>) -> Seq<char> {
    "<|im_start|>"@ + role + "\n"@ + content + "<|im_end|>"@ + "\n"@
}

/// The turns of some messages, one behind the other.
pub open spec fn turns(history: Seq<MessageView>) -> Seq<char>
    decreases history.len(),
{
    if history.len() == 0 {
        Seq::empty()
    } else {
        let m = history.last();
        turns(history.drop_last()) + turn(role_text(m.role), m.content)
    }
}

/// The prompt for the next answer: what the system was told, what was said, and the start of an
/// answer that thinks first.
pub open spec fn chat_prompt(system: Option<Seq<char>>, history: Seq<MessageView>) -> Seq<char> {
    let head = match system {
        Some(s) => turn("system"@, s),
        None => Seq::<char>::empty(),
    };
    head + turns(history) + "<|im_start|>assistant\n<think>\n"@
}

fn push_turn(s: &mut String, role: &str, content: &str)
    ensures
        final(s)@ == old(s)@ + turn(role@, content@),
{
    let ghost before = s@;
    s.append("<|im_start|>");
    s.append(role);
    s.append("\n");
    s.append(content);
    s.append("<|im_end|>");
    s.append("\n");
    assert(s@ =~= before + turn(role@, content@));
}

/// The value of an optional text.
pub open spec fn optional(s: Option<&str>) -> Option<Seq<char>> {
    match s {
        Some(t) => Some(t@),
        None => None,
    }
}

/// The prompt for the next answer.
pub fn render_chat(system: Option<&str>, history: &[Message]) -> (r: String)
    ensures
        r@ == chat_prompt(optional(system), messages(history@)),
{
    let mut s = "".to_owned();
    proof {
        reveal_strlit("");
    }
    match system {
        Some(sys) => {
            push_turn(&mut s, "system", sys);
        },
        None => {},
    }
    let ghost head = s@;
    let ghost all = messages(history@);
    proof {
        match system {
            Some(sys) => {
                assert(head =~= turn("system"@, sys@));
            },
            None => {
                assert(head =~= Seq::<char>::empty());
            },
        }
        assert(all.take(0) =~= Seq::<MessageView>::empty());
        assert(head + turns(all.take(0)) =~= head);
    }
    let mut i: usize = 0;
    while i < history.len()
        invariant
            i <= history@.len(),
            all == messages(history@),
            s@ == head + turns(all.take(i as int)),
        decreases history@.len() - i,
    {
        proof {
            assert(all.take(i + 1).drop_last() =~= all.take(i as int));
            assert(all.take(i + 1).last() == history@[i as int]@);
        }
        push_turn(&mut s, history[i].role.as_str(), history[i].content.as_str());
        assert(s@ =~= head + turns(all.take(i + 1)));
        i += 1;
    }
    assert(all.take(all.len() as int) =~= all);
    s.append("<|im_start|>assistant\n<think>\n");
    s
}

/// The part of a generated text behind its first closing tag of thought, or all of it, without
/// white space around it.
pub open spec fn answer_of(full: Seq<char>) -> Seq<char> {
    if exists|i: int| #[trigger] text::first_at(full, "</think>"@, i) {
        let i = choose|i: int| #[trigger] text::first_at(full, "</think>"@, i);
        text::trimmed(full.skip(i + "</think>"@.len()))
    } else {
        text::trimmed(full)
    }
}

proof fn lemma_one_first(s: Seq<char>, p: Seq<char>, i: int, j: int)
    requires
        text::first_at(s, p, i),
        text::first_at(s, p, j),
    ensures
        i == j,
{
    if i < j {
        assert(text::stands_at(s, p, i));
    } else if j < i {
        assert(text::stands_at(s, p, j));
    }
}

/// The answer in a generated text, without what was thought before.
pub fn answer_only(full: &str) -> (r: String)
    ensures
        r@ == answer_of(full@),
{
    let chars = text::chars_of(full);
    let tag = text::chars_of("</think>");
    let n: usize = chars.len();
    match text::find_chars(&chars, &tag) {
        Some(i) => {
            assert(text::stands_at(full@, "</think>"@, i as int));
            let from: usize = i + tag.len();
            let rest = vstd::slice::slice_subrange(chars.as_slice(), from, n);
            proof {
                let k = choose|k: int| #[trigger] text::first_at(full@, "</think>"@, k);
                lemma_one_first(full@, "</think>"@, k, i as int);
                assert(rest@ =~= full@.skip(from as int));
            }
            text::string_of(text::trim_chars(rest))
        },
        None => {
            proof {
                assert forall|k: int| !#[trigger] text::first_at(full@, "</think>"@, k) by {
                    assert(!text::stands_at(full@, "</think>"@, k));
                }
            }
            text::string_of(text::trim_chars(chars.as_slice()))
        },
    }
}

/// A prompt with the escapes for a line break, a tabulator, a carriage return and a backslash
/// replaced, each kind after the other.
pub open spec fn unescaped(s: Seq<char>) -> Seq<char> {
    text::replaced(
        text::replaced(
            text::replaced(text::replaced(s, "\\n"@, "\n"@), "\\t"@, "\t"@),
            "\\r"@,
            "\r"@,
        ),
        "\\\\"@,
        "\\"@,
    )
}

fn replace_text(s: &[char], from: &str, to: &str) -> (r: Vec<char>)
    requires
        from@.len() > 0,
    ensures
        r@ == text::replaced(s@, from@, to@),
{
    let f = text::chars_of(from);
    let t = text::chars_of(to);
    text::replace_chars(s, &f, &t)
}

/// A prompt with its escapes replaced.
pub fn unescape(s: &str) -> (r: String)
    ensures
        r@ == unescaped(s@),
{
    proof {
        reveal_strlit("\\n");
        reveal_strlit("\\t");
        reveal_strlit("\\r");
        reveal_strlit("\\\\");
    }
    let a = text::chars_of(s);
    let b = replace_text(&a, "\\n", "\n");
    let c = replace_text(&b, "\\t", "\t");
    let d = replace_text(&c, "\\r", "\r");
    let e = replace_text(&d, "\\\\", "\\");
    text::string_of(&e)
}

/// The windows of a trace of `len` entries that are shown: the end of the first, the start and end
/// of the middle one, and the start of the last.
pub open spec fn windows(len: nat) -> (nat, nat, nat, nat) {
    let w = if len < 4 {
        len
    } else {
        4
    };
    let middle = ((len - w) / 2) as nat;
    (w, middle, middle + w, (len - w) as nat)
}

/// The windows of a trace of `len` entries that are shown.
pub fn trace_window_bounds(len: usize) -> (r: (usize, usize, usize, usize))
    ensures
        (r.0 as nat, r.1 as nat, r.2 as nat, r.3 as nat) == windows(len as nat),
{
    let w: usize = if len < 4 {
        len
    } else {
        4
    };
    let middle: usize = (len - w) / 2;
    (w, middle, middle + w, len - w)
}

/// Law: each window lies in the trace and has four entries, or all of them where there are fewer;
/// the first starts the trace, the last ends it, and the middle one is as far from both ends, but
/// for an odd entry.
pub proof fn law_windows_lie_in_trace(len: nat)
    ensures
        ({
            let (first_end, middle_start, middle_end, last_start) = windows(len);
            let w = if len < 4 {
                len
            } else {
                4
            };
            &&& first_end == w
            &&& middle_end - middle_start == w
            &&& len - last_start == w
            &&& first_end <= len && middle_end <= len && last_start <= len
            &&& 0 <= (len - middle_end) - middle_start <= 1
        }),
{
}

/// What a line of a session means.
pub enum Command {
    /// Nothing was said.
    Empty,
    /// The session ends.
    Exit,
    /// The history is forgotten.
    Reset,
    /// Something was said.
    Say(String),
}

/// The mathematical value of what a line means.
pub enum CommandView {
    Empty,
    Exit,
    Reset,
    Say(Seq<char>),
}

impl View for Command {
    type V = CommandView;

    open spec fn view(&self) -> CommandView {
        match self {
            Command::Empty => CommandView::Empty,
            Command::Exit => CommandView::Exit,
            Command::Reset => CommandView::Reset,
            Command::Say(s) => CommandView::Say(s@),
        }
    }
}

/// What a line means, without the white space around it.
pub open spec fn meaning(line: Seq<char>) -> CommandView {
    let s = text::trimmed(line);
    if s.len() == 0 {
        CommandView::Empty
    } else if s == "exit"@ || s == "quit"@ {
        CommandView::Exit
    } else if s == "reset"@ {
        CommandView::Reset
    } else {
        CommandView::Say(s)
    }
}

/// What a line means.
pub fn parse_command(line: &str) -> (r: Command)
    ensures
        r@ == meaning(line@),
{
    let chars = text::chars_of(line);
    let trimmed = text::trim_chars(&chars);
    if trimmed.len() == 0 {
        return Command::Empty;
    }
    let s = text::string_of(trimmed);
    if text::same_text(s.as_str(), "exit") || text::same_text(s.as_str(), "quit") {
        Command::Exit
    } else if text::same_text(s.as_str(), "reset") {
        Command::Reset
    } else {
        Command::Say(s)
    }
}

/// A session: whether it uses the template, what the system was told, and what was said.
#[derive(Debug)]
pub struct Session {
    use_chat: bool,
    system: Option<String>,
    history: Vec<Message>,
}

/// The mathematical value of a session.
#[verifier::ext_equal]
pub struct SessionView {
    pub use_chat: bool,
    pub system: Option<Seq<char>>,
    pub history: Seq<MessageView>,
}

impl View for Session {
    type V = SessionView;

    closed spec fn view(&self) -> SessionView {
        SessionView {
            use_chat: self.use_chat,
            system: match self.system {
                Some(s) => Some(s@),
                None => None,
            },
            history: messages(self.history@),
        }
    }
}

/// What a session does with a line.
pub enum Reaction {
    /// Nothing.
    Ignore,
    /// It ends.
    Quit,
    /// It has forgotten what was said.
    Cleared,
    /// It asks the model.
    Ask(String),
}

/// The mathematical value of what a session does.
pub enum ReactionView {
    Ignore,
    Quit,
    Cleared,
    Ask(Seq<char>),
}

impl View for Reaction {
    type V = ReactionView;

    open spec fn view(&self) -> ReactionView {
        match self {
            Reaction::Ignore => ReactionView::Ignore,
            Reaction::Quit => ReactionView::Quit,
            Reaction::Cleared => ReactionView::Cleared,
            Reaction::Ask(s) => ReactionView::Ask(s@),
        }
    }
}

/// A session after a line.
pub open spec fn after_line(s: SessionView, line: Seq<char>) -> SessionView {
    match meaning(line) {
        CommandView::Reset => SessionView { history: Seq::empty(), ..s },
        CommandView::Say(t) if s.use_chat => SessionView {
            history: s.history.push(MessageView { role: Role::User, content: t }),
            ..s
        },
        _ => s,
    }
}

/// What a session does with a line.
pub open spec fn reaction(s: SessionView, line: Seq<char>) -> ReactionView {
    match meaning(line) {
        CommandView::Empty => ReactionView::Ignore,
        CommandView::Exit => ReactionView::Quit,
        CommandView::Reset => ReactionView::Cleared,
        CommandView::Say(t) => if s.use_chat {
            ReactionView::Ask(chat_prompt(s.system, after_line(s, line).history))
        } else {
            ReactionView::Ask(t)
        },
    }
}

/// A session after the model has answered.
pub open spec fn after_answer(s: SessionView, full: Seq<char>) -> SessionView {
    if s.use_chat {
        SessionView {
            history: s.history.push(
                MessageView { role: Role::Assistant, content: answer_of(full) },
            ),
            ..s
        }
    } else {
        s
    }
}

impl Session {
    /// A session in which nothing was said yet.
    pub fn new(use_chat: bool, system: Option<String>) -> (r: Session)
        ensures
            r@ == (SessionView {
                use_chat,
                system: match system {
                    Some(s) => Some(s@),
                    None => None,
                },
                history: Seq::empty(),
            }),
    {
        let r = Session { use_chat, system, history: Vec::new() };
        assert(r@.history =~= Seq::<MessageView>::empty());
        r
    }

    fn say(&mut self, role: Role, content: String)
        ensures
            final(self)@ == (SessionView {
                history: old(self)@.history.push(MessageView { role, content: content@ }),
                ..old(self)@
            }),
    {
        let ghost before = self@.history;
        let ghost said = content@;
        self.history.push(Message { role, content });
        assert(self@.history =~= before.push(MessageView { role, content: said }));
    }

    /// Takes a line.
    pub fn on_line(&mut self, line: &str) -> (r: Reaction)
        ensures
            final(self)@ == after_line(old(self)@, line@),
            r@ == reaction(old(self)@, line@),
    {
        match parse_command(line) {
            Command::Empty => Reaction::Ignore,
            Command::Exit => Reaction::Quit,
            Command::Reset => {
                self.history = Vec::new();
                assert(self@.history =~= Seq::<MessageView>::empty());
                Reaction::Cleared
            },
            Command::Say(input) => {
                if self.use_chat {
                    self.say(Role::User, input);
                    let prompt = match &self.system {
                        Some(s) => render_chat(Some(s.as_str()), &self.history),
                        None => render_chat(None, &self.history),
                    };
                    Reaction::Ask(prompt)
                } else {
                    Reaction::Ask(input)
                }
            },
        }
    }

    /// Takes what the model generated.
    pub fn on_answer(&mut self, full: &str)
        ensures
            final(self)@ == after_answer(old(self)@, full@),
    {
        if self.use_chat {
            self.say(Role::Assistant, answer_only(full));
        }
    }
}

/// Law: in a session that uses the template, what was said stays in the history, in its order,
/// until it is reset; each line that says something and its answer add two messages.
pub proof fn law_history_grows(s: SessionView, line: Seq<char>, full: Seq<char>)
    requires
        s.use_chat,
        meaning(line) is Say,
    ensures
        ({
            let t = after_answer(after_line(s, line), full);
            &&& s.history.is_prefix_of(t.history)
            &&& t.history.len() == s.history.len() + 2
            &&& t.history[t.history.len() - 2] == (MessageView {
                role: Role::User,
                content: text::trimmed(line),
            })
            &&& t.history.last() == (MessageView {
                role: Role::Assistant,
                content: answer_of(full),
            })
        }),
{
    let t = after_answer(after_line(s, line), full);
    assert(t.history.take(s.history.len() as int) =~= s.history);
}

/// The word for a role in the template.
pub open spec fn spoken(role: Role) -> Seq<char> {
    if role is User {
        "user"@
    } else {
        "assistant"@
    }
}

/// Law: a prompt without a history is what the system was told, if anything, and the opening of an
/// answer that thinks first.
pub proof fn law_prompt_of_nothing(s: Seq<char>)
    ensures
        chat_prompt(None, Seq::empty()) == "<|im_start|>assistant\n<think>\n"@,
        chat_prompt(Some(s), Seq::empty()) == "<|im_start|>"@ + "system"@ + "\n"@ + s
            + "<|im_end|>"@ + "\n"@ + "<|im_start|>assistant\n<think>\n"@,
{
    assert(chat_prompt(None, Seq::empty()) =~= "<|im_start|>assistant\n<think>\n"@);
    assert(chat_prompt(Some(s), Seq::empty()) =~= "<|im_start|>"@ + "system"@ + "\n"@ + s
        + "<|im_end|>"@ + "\n"@ + "<|im_start|>assistant\n<think>\n"@);
}

/// Law: one more message changes a prompt only by its turn, which stands behind all that was said
/// before and in front of the opening of the answer.
pub proof fn law_message_inserts_its_turn(
    system: Option<Seq<char>>,
    history: Seq<MessageView>,
    m: MessageView,
)
    ensures
        ({
            let opening = "<|im_start|>assistant\n<think>\n"@;
            let before = chat_prompt(system, history);
            let said = before.take(before.len() - opening.len());
            &&& before == said + opening
            &&& chat_prompt(system, history.push(m)) == said + ("<|im_start|>"@ + spoken(m.role)
                + "\n"@ + m.content + "<|im_end|>"@ + "\n"@) + opening
        }),
{
    let opening = "<|im_start|>assistant\n<think>\n"@;
    let before = chat_prompt(system, history);
    let said = before.take(before.len() - opening.len());
    let head = match system {
        Some(s) => turn("system"@, s),
        None => Seq::<char>::empty(),
    };
    assert(said =~= head + turns(history));
    assert(before =~= said + opening);
    assert(history.push(m).drop_last() =~= history);
    assert(chat_prompt(system, history.push(m)) =~= said + turn(role_text(m.role), m.content)
        + opening);
}

/// What the system was told, in the template; nothing where it was told nothing.
pub open spec fn opening_words(system: Option<Seq<char>>) -> Seq<char> {
    match system {
        Some(s) => "<|im_start|>"@ + "system"@ + "\n"@ + s + "<|im_end|>"@ + "\n"@,
        None => Seq::empty(),
    }
}

/// Law: a prompt holds the turn of every message, in order: what the system was told, the turns of
/// the messages before, that of the message, and what follows.
pub proof fn law_prompt_holds_every_message(
    system: Option<Seq<char>>,
    history: Seq<MessageView>,
    i: int,
)
    requires
        0 <= i < history.len(),
    ensures
        ({
            let opening = "<|im_start|>assistant\n<think>\n"@;
            let m = history[i];
            let first = chat_prompt(system, history.take(i));
            let before = first.take(first.len() - opening.len());
            let through = before + ("<|im_start|>"@ + spoken(m.role) + "\n"@ + m.content
                + "<|im_end|>"@ + "\n"@);
            &&& through.is_prefix_of(chat_prompt(system, history))
            &&& opening_words(system).is_prefix_of(before)
            &&& text::has_suffix(chat_prompt(system, history), opening)
        }),
    decreases history.len(),
{
    let opening = "<|im_start|>assistant\n<think>\n"@;
    let m = history[i];
    let first = chat_prompt(system, history.take(i));
    let before = first.take(first.len() - opening.len());
    let through = before + ("<|im_start|>"@ + spoken(m.role) + "\n"@ + m.content + "<|im_end|>"@
        + "\n"@);
    let all = chat_prompt(system, history);
    law_message_inserts_its_turn(system, history.take(i), m);
    assert(before =~= opening_words(system) + turns(history.take(i)));
    assert(before.take(opening_words(system).len() as int) =~= opening_words(system));
    lemma_said_grows(system, history, i + 1);
    assert(history.take(i).push(m) =~= history.take(i + 1));
    let upto = chat_prompt(system, history.take(i + 1));
    assert(upto.take(upto.len() - opening.len()) =~= through);
    let said = all.take(all.len() - opening.len());
    assert(all.take(through.len() as int) =~= said.take(through.len() as int));
    assert(all.skip(all.len() - opening.len()) =~= opening);
}

proof fn lemma_said_grows(system: Option<Seq<char>>, history: Seq<MessageView>, n: int)
    requires
        0 <= n <= history.len(),
    ensures
        ({
            let opening = "<|im_start|>assistant\n<think>\n"@;
            let a = chat_prompt(system, history.take(n));
            let b = chat_prompt(system, history);
            &&& a.len() >= opening.len() && b.len() >= opening.len()
            &&& a.take(a.len() - opening.len()).is_prefix_of(b.take(b.len() - opening.len()))
        }),
    decreases history.len(),
{
    let opening = "<|im_start|>assistant\n<think>\n"@;
    let b = chat_prompt(system, history);
    if n == history.len() {
        assert(history.take(n) =~= history);
        assert(b.len() >= opening.len());
        let t = b.take(b.len() - opening.len());
        assert(t.take(t.len() as int) =~= t);
    } else {
        let h = history.drop_last();
        lemma_said_grows(system, h, n);
        assert(h.take(n) =~= history.take(n));
        law_message_inserts_its_turn(system, h, history.last());
        assert(h.push(history.last()) =~= history);
        let a = chat_prompt(system, history.take(n));
        let c = chat_prompt(system, h);
        let sa = a.take(a.len() - opening.len());
        let sc = c.take(c.len() - opening.len());
        let sb = b.take(b.len() - opening.len());
        assert(sb.take(sc.len() as int) =~= sc);
        assert(sb.take(sa.len() as int) =~= sc.take(sa.len() as int));
    }
}

/// Law: the answer in a generated text is what stands behind the first closing tag of thought, or
/// all of it where there is none, without the white space around it.
pub proof fn law_answer_is_behind_the_thought(thought: Seq<char>, rest: Seq<char>, plain: Seq<char>)
    requires
        forall|i: int|
            0 <= i < thought.len() ==> !#[trigger] text::stands_at(
                thought + "</think>"@ + rest,
                "</think>"@,
                i,
            ),
        forall|i: int| !#[trigger] text::stands_at(plain, "</think>"@, i),
    ensures
        answer_of(thought + "</think>"@ + rest) == text::trimmed(rest),
        answer_of(plain) == text::trimmed(plain),
{
    let tag = "</think>"@;
    let full = thought + tag + rest;
    let i = thought.len() as int;
    assert(full.subrange(i, i + tag.len()) =~= tag);
    assert(text::first_at(full, tag, i));
    let k = choose|k: int| #[trigger] text::first_at(full, tag, k);
    lemma_one_first(full, tag, k, i);
    assert(full.skip(i + tag.len()) =~= rest);
    assert forall|j: int| !#[trigger] text::first_at(plain, tag, j) by {
        assert(!text::stands_at(plain, tag, j));
    }
}

/// Law: a line means the same with and without white space around it: nothing where that is all,
/// the end where it says `exit` or `quit`, a new start where it says `reset`, and else what it says.
pub proof fn law_lines_mean_what_they_say(line: Seq<char>)
    ensures
        ({
            let s = text::trimmed(line);
            &&& meaning(line) is Empty <==> s.len() == 0
            &&& meaning(line) is Exit <==> s == "exit"@ || s == "quit"@
            &&& meaning(line) is Reset <==> s == "reset"@
            &&& meaning(line) is Say ==> meaning(line)->Say_0 == s
        }),
{
    reveal_strlit("exit");
    reveal_strlit("quit");
    reveal_strlit("reset");
    let s = text::trimmed(line);
    if s == "exit"@ || s == "quit"@ {
        assert(s.len() == 4);
    }
    if s == "reset"@ {
        assert(s.len() == 5);
    }
}

/// Law: in a session that uses the template, a line that says something is asked with all that was
/// said before it and itself as the last message; its answer is added without what was thought; and
/// what the system was told stays.  A reset forgets what was said, and nothing else.
pub proof fn law_session_asks_with_its_history(
    s: SessionView,
    line: Seq<char>,
    full: Seq<char>,
    reset: Seq<char>,
)
    requires
        text::trimmed(line).len() > 0,
        text::trimmed(line) != "exit"@,
        text::trimmed(line) != "quit"@,
        text::trimmed(line) != "reset"@,
        text::trimmed(reset) == "reset"@,
    ensures
        ({
            let said = s.history + seq![
                MessageView { role: Role::User, content: text::trimmed(line) },
            ];
            let answered = said + seq![
                MessageView { role: Role::Assistant, content: answer_of(full) },
            ];
            &&& s.use_chat ==> {
                &&& reaction(s, line) == ReactionView::Ask(chat_prompt(s.system, said))
                &&& after_line(s, line) == (SessionView { history: said, ..s })
                &&& after_answer(after_line(s, line), full) == (SessionView {
                    history: answered,
                    ..s
                })
            }
            &&& !s.use_chat ==> {
                &&& reaction(s, line) == ReactionView::Ask(text::trimmed(line))
                &&& after_line(s, line) == s
                &&& after_answer(s, full) == s
            }
            &&& after_line(s, reset) == (SessionView { history: Seq::empty(), ..s })
            &&& reaction(s, reset) is Cleared
        }),
{
    reveal_strlit("reset");
    reveal_strlit("exit");
    reveal_strlit("quit");
    assert("reset"@.len() == 5 && "exit"@.len() == 4 && "quit"@.len() == 4);
    let said = s.history + seq![MessageView { role: Role::User, content: text::trimmed(line) }];
    assert(s.history.push(MessageView { role: Role::User, content: text::trimmed(line) }) =~= said);
    assert(said.push(MessageView { role: Role::Assistant, content: answer_of(full) }) =~= said
        + seq![MessageView { role: Role::Assistant, content: answer_of(full) }]);
}

/// Law: an empty line and one that ends the session change nothing.
pub proof fn law_other_lines_change_nothing(s: SessionView, line: Seq<char>)
    requires
        text::trimmed(line).len() == 0 || text::trimmed(line) == "exit"@ || text::trimmed(line)
            == "quit"@,
    ensures
        after_line(s, line) == s,
        text::trimmed(line).len() == 0 ==> reaction(s, line) is Ignore,
        text::trimmed(line).len() > 0 ==> reaction(s, line) is Quit,
{
}

proof fn lemma_front_stays(a: Seq<char>, x: Seq<char>, from: Seq<char>, to: Seq<char>)
    requires
        from.len() == 2,
        forall|i: int|
            0 <= i < a.len() && i + 1 < (a + x).len() ==> !((#[trigger] (a + x)[i]) == from[0] && (a
                + x)[i + 1] == from[1]),
    ensures
        text::replaced(a + x, from, to) == a + text::replaced(x, from, to),
    decreases a.len(),
{
    let s = a + x;
    if a.len() == 0 {
        assert(s =~= x);
        assert(a + text::replaced(x, from, to) =~= text::replaced(x, from, to));
    } else {
        let b = a.drop_first();
        assert(s.drop_first() =~= b + x);
        assert forall|i: int| 0 <= i < b.len() && i + 1 < (b + x).len() implies !((#[trigger] (b
            + x)[i]) == from[0] && (b + x)[i + 1] == from[1]) by {
            assert(s[i + 1] == (b + x)[i] && s[i + 2] == (b + x)[i + 1]);
        }
        lemma_front_stays(b, x, from, to);
        assert(!text::stands_at(s, from, 0)) by {
            if text::stands_at(s, from, 0) {
                let t = s.subrange(0, 2);
                assert(t[0] == s[0] && t[1] == s[1]);
            }
        }
        assert(seq![s[0]] + (b + text::replaced(x, from, to)) =~= a + text::replaced(x, from, to));
    }
}

proof fn lemma_front_gives_way(x: Seq<char>, from: Seq<char>, to: Seq<char>)
    requires
        from.len() == 2,
    ensures
        text::replaced(from + x, from, to) == to + text::replaced(x, from, to),
{
    let s = from + x;
    assert(s.subrange(0, 2) =~= from);
    assert(s.skip(2) =~= x);
}

proof fn lemma_first_after(s: Seq<char>, from: Seq<char>, to: Seq<char>)
    requires
        from.len() == 2,
        to.len() == 1,
    ensures
        s.len() == 0 ==> text::replaced(s, from, to).len() == 0,
        s.len() > 0 ==> text::replaced(s, from, to).len() > 0 && (text::replaced(s, from, to)[0]
            == s[0] || text::replaced(s, from, to)[0] == to[0]),
{
}

/// Law: a text in which no backslash stands is left as it is.  Behind such a text, a backslash with
/// `n`, `t` or `r` gives way to a line break, a tabulator or a carriage return, and two backslashes
/// to one where no such letter follows; then what follows has its escapes replaced in turn.
pub proof fn law_escapes_are_replaced(front: Seq<char>, tail: Seq<char>)
    requires
        !front.contains('\\'),
    ensures
        unescaped(front) == front,
        unescaped(front + seq!['\\', 'n'] + tail) == front + seq!['\n'] + unescaped(tail),
        unescaped(front + seq!['\\', 't'] + tail) == front + seq!['\t'] + unescaped(tail),
        unescaped(front + seq!['\\', 'r'] + tail) == front + seq!['\r'] + unescaped(tail),
        tail.len() == 0 || (tail[0] != 'n' && tail[0] != 't' && tail[0] != 'r') ==> unescaped(
            front + seq!['\\', '\\'] + tail,
        ) == front + seq!['\\'] + unescaped(tail),
{
    reveal_strlit("\\n");
    reveal_strlit("\\t");
    reveal_strlit("\\r");
    reveal_strlit("\\\\");
    reveal_strlit("\n");
    reveal_strlit("\t");
    reveal_strlit("\r");
    reveal_strlit("\\");
    let fs = seq!["\\n"@, "\\t"@, "\\r"@, "\\\\"@];
    let ts = seq!["\n"@, "\t"@, "\r"@, "\\"@];
    let c = seq!['n', 't', 'r', '\\'];
    assert forall|i: int| 0 <= i < 4 implies #[trigger] fs[i] == seq!['\\', c[i]] && ts[i].len()
        == 1 by {
        assert(fs[0] =~= seq!['\\', 'n']);
        assert(fs[1] =~= seq!['\\', 't']);
        assert(fs[2] =~= seq!['\\', 'r']);
        assert(fs[3] =~= seq!['\\', '\\']);
    }
    assert(ts[0] =~= seq!['\n'] && ts[1] =~= seq!['\t'] && ts[2] =~= seq!['\r'] && ts[3] =~= seq![
        '\\',
    ]);
    assert forall|i: int| 0 <= i < front.len() implies #[trigger] front[i] != '\\' by {}
    let t1 = text::replaced(tail, fs[0], ts[0]);
    let t2 = text::replaced(t1, fs[1], ts[1]);
    let t3 = text::replaced(t2, fs[2], ts[2]);
    let t4 = text::replaced(t3, fs[3], ts[3]);
    assert(unescaped(tail) == t4);
    lemma_clean(front, Seq::empty(), fs[0], ts[0]);
    lemma_clean(front, Seq::empty(), fs[1], ts[1]);
    lemma_clean(front, Seq::empty(), fs[2], ts[2]);
    lemma_clean(front, Seq::empty(), fs[3], ts[3]);
    assert(front + Seq::<char>::empty() =~= front);
    // A line break.
    let a = front + ts[0];
    assert(front + seq!['\\', 'n'] + tail =~= front + (fs[0] + tail));
    lemma_clean(front, fs[0] + tail, fs[0], ts[0]);
    lemma_front_gives_way(tail, fs[0], ts[0]);
    assert(front + (ts[0] + t1) =~= a + t1);
    lemma_clean(a, t1, fs[1], ts[1]);
    lemma_clean(a, t2, fs[2], ts[2]);
    lemma_clean(a, t3, fs[3], ts[3]);
    // A tabulator.
    let b = front + ts[1];
    let b0 = front + fs[1];
    assert(front + seq!['\\', 't'] + tail =~= b0 + tail);
    lemma_front_stays(b0, tail, fs[0], ts[0]);
    assert(b0 + t1 =~= front + (fs[1] + t1));
    lemma_clean(front, fs[1] + t1, fs[1], ts[1]);
    lemma_front_gives_way(t1, fs[1], ts[1]);
    assert(front + (ts[1] + t2) =~= b + t2);
    lemma_clean(b, t2, fs[2], ts[2]);
    lemma_clean(b, t3, fs[3], ts[3]);
    // A carriage return.
    let d = front + ts[2];
    let d0 = front + fs[2];
    assert(front + seq!['\\', 'r'] + tail =~= d0 + tail);
    lemma_front_stays(d0, tail, fs[0], ts[0]);
    lemma_front_stays(d0, t1, fs[1], ts[1]);
    assert(d0 + t2 =~= front + (fs[2] + t2));
    lemma_clean(front, fs[2] + t2, fs[2], ts[2]);
    lemma_front_gives_way(t2, fs[2], ts[2]);
    assert(front + (ts[2] + t3) =~= d + t3);
    lemma_clean(d, t3, fs[3], ts[3]);
    // A backslash.
    if tail.len() == 0 || (tail[0] != 'n' && tail[0] != 't' && tail[0] != 'r') {
        let e0 = front + fs[3];
        lemma_first_after(tail, fs[0], ts[0]);
        lemma_first_after(t1, fs[1], ts[1]);
        assert(front + seq!['\\', '\\'] + tail =~= e0 + tail);
        lemma_front_stays(e0, tail, fs[0], ts[0]);
        lemma_front_stays(e0, t1, fs[1], ts[1]);
        lemma_front_stays(e0, t2, fs[2], ts[2]);
        assert(e0 + t3 =~= front + (fs[3] + t3));
        lemma_clean(front, fs[3] + t3, fs[3], ts[3]);
        lemma_front_gives_way(t3, fs[3], ts[3]);
        assert(front + (ts[3] + t4) =~= front + seq!['\\'] + t4);
    }
}

proof fn lemma_clean(a: Seq<char>, x: Seq<char>, from: Seq<char>, to: Seq<char>)
    requires
        from.len() == 2,
        from[0] == '\\',
        forall|i: int| 0 <= i < a.len() ==> #[trigger] a[i] != '\\',
    ensures
        text::replaced(a + x, from, to) == a + text::replaced(x, from, to),
{
    lemma_front_stays(a, x, from, to);
}

} // verus!
