//! The terminal dashboard's state: its tabs, its activity log, its input
//! line and its spinner, and what a key press does to them.

use vstd::prelude::*;
use crate::text::{chars_occur_at, concat, from_chars, occurs_at, to_chars};

verus! {

/// The dashboard's tabs.
#[derive(Debug, Clone, Copy, PartialEq, Eq, Structural)]
pub enum Tab {
    Agents,
    Memory,
    Tools,
    Config,
}

/// The tab after `t`, the last wrapping to the first.
pub open spec fn tab_after(t: Tab) -> Tab {
    match t {
        Tab::Agents => Tab::Memory,
        Tab::Memory => Tab::Tools,
        Tab::Tools => Tab::Config,
        Tab::Config => Tab::Agents,
    }
}

/// The position of a tab in the tab bar.
pub open spec fn tab_index(t: Tab) -> nat {
    match t {
        Tab::Agents => 0,
        Tab::Memory => 1,
        Tab::Tools => 2,
        Tab::Config => 3,
    }
}

/// The log holds at most this many lines.
pub const MAX_LOG_LINES: usize = 1000;

/// How many of the oldest lines go when the log is full.
pub const LOG_DROP: usize = 100;

/// The log after one more line: when it then exceeds the limit, its oldest
/// hundred lines are dropped.
pub open spec fn log_after(logs: Seq<Seq<char>>, line: Seq<char>) -> Seq<Seq<char>> {
    let l = logs.push(line);
    if l.len() > MAX_LOG_LINES {
        l.subrange(LOG_DROP as int, l.len() as int)
    } else {
        l
    }
}

/// The dashboard's state.
pub struct DashboardState {
    active_tab: Tab,
    logs: Vec<String>,
    input: Vec<char>,
    should_quit: bool,
    is_thinking: bool,
    thinking_step: usize,
}

impl DashboardState {
    #[verifier::type_invariant]
    spec fn inv(self) -> bool {
        self.thinking_step < 4
    }

    pub closed spec fn tab(&self) -> Tab {
        self.active_tab
    }

    pub closed spec fn logs(&self) -> Seq<Seq<char>> {
        Seq::new(self.logs@.len(), |i: int| self.logs@[i]@)
    }

    pub closed spec fn thinking(&self) -> bool {
        self.is_thinking
    }

    pub closed spec fn step(&self) -> nat {
        self.thinking_step as nat
    }

    /// What has been typed on the input line.
    pub closed spec fn input(&self) -> Seq<char> {
        self.input@
    }

    /// Whether the user asked to leave.
    pub closed spec fn quitting(&self) -> bool {
        self.should_quit
    }

    /// A fresh dashboard on the agents tab, its log opened by `first_line`.
    pub fn new(first_line: String) -> (d: Self)
        ensures
            d.tab() == Tab::Agents,
            d.logs() == seq![first_line@],
            !d.thinking(),
            d.step() == 0,
            d.input() == Seq::<char>::empty(),
            !d.quitting(),
    {
        let mut logs: Vec<String> = Vec::new();
        let ghost l = first_line@;
        logs.push(first_line);
        let d = DashboardState {
            active_tab: Tab::Agents,
            logs,
            input: Vec::new(),
            should_quit: false,
            is_thinking: false,
            thinking_step: 0,
        };
        assert(d.logs() =~= seq![l]);
        d
    }

    pub fn active_tab(&self) -> (t: Tab)
        ensures
            t == self.tab(),
    {
        self.active_tab
    }

    /// The position of the active tab in the tab bar.
    pub fn tab_position(&self) -> (i: usize)
        ensures
            i == tab_index(self.tab()),
    {
        match self.active_tab {
            Tab::Agents => 0,
            Tab::Memory => 1,
            Tab::Tools => 2,
            Tab::Config => 3,
        }
    }

    /// Moves to the next tab.
    pub fn next_tab(&mut self)
        ensures
            final(self).tab() == tab_after(old(self).tab()),
            final(self).logs() == old(self).logs(),
            final(self).input() == old(self).input(),
            final(self).quitting() == old(self).quitting(),
            final(self).thinking() == old(self).thinking(),
            final(self).step() == old(self).step(),
    {
        proof {
            use_type_invariant(&*self);
        }
        self.active_tab = match self.active_tab {
            Tab::Agents => Tab::Memory,
            Tab::Memory => Tab::Tools,
            Tab::Tools => Tab::Config,
            Tab::Config => Tab::Agents,
        };
    }

    /// Appends a line to the activity log.
    pub fn push_log(&mut self, line: String)
        ensures
            final(self).logs() == log_after(old(self).logs(), line@),
            final(self).tab() == old(self).tab(),
            final(self).input() == old(self).input(),
            final(self).quitting() == old(self).quitting(),
            final(self).thinking() == old(self).thinking(),
            final(self).step() == old(self).step(),
    {
        proof {
            use_type_invariant(&*self);
        }
        let ghost before = self.logs();
        let ghost l = line@;
        let mut logs = Vec::new();
        std::mem::swap(&mut logs, &mut self.logs);
        logs.push(line);
        assert(Seq::new(logs@.len(), |i: int| logs@[i]@) =~= before.push(l));
        if logs.len() > MAX_LOG_LINES {
            let mut kept: Vec<String> = Vec::new();
            let mut i: usize = LOG_DROP;
            while i < logs.len()
                invariant
                    LOG_DROP <= i <= logs@.len(),
                    kept@.len() == i - LOG_DROP,
                    forall|k: int| 0 <= k < kept@.len() ==> #[trigger] kept@[k]@ == logs@[k + LOG_DROP]@,
                decreases logs@.len() - i,
            {
                kept.push(logs[i].clone());
                i = i + 1;
            }
            assert(Seq::new(kept@.len(), |i: int| kept@[i]@) =~= before.push(l).subrange(
                LOG_DROP as int,
                before.len() + 1int,
            ));
            self.logs = kept;
        } else {
            self.logs = logs;
        }
    }

    /// The log lines, oldest first.
    pub fn log_lines(&self) -> (r: Vec<String>)
        ensures
            Seq::new(r@.len(), |i: int| r@[i]@) == self.logs(),
    {
        let r = crate::text::clone_strings(&self.logs);
        assert(Seq::new(r@.len(), |i: int| r@[i]@) =~= crate::text::strings_view(r@));
        assert(self.logs() =~= crate::text::strings_view(self.logs@));
        r
    }

    /// Starts or stops the thinking spinner.
    pub fn set_thinking(&mut self, on: bool)
        ensures
            final(self).thinking() == on,
            final(self).step() == old(self).step(),
            final(self).logs() == old(self).logs(),
            final(self).tab() == old(self).tab(),
    {
        proof {
            use_type_invariant(&*self);
        }
        self.is_thinking = on;
    }

    /// One clock tick: the spinner advances while thinking.
    pub fn tick(&mut self)
        ensures
            final(self).step() == if old(self).thinking() { (old(self).step() + 1) % 4 } else { old(self).step() },
            final(self).thinking() == old(self).thinking(),
            final(self).logs() == old(self).logs(),
            final(self).tab() == old(self).tab(),
    {
        proof {
            use_type_invariant(&*self);
        }
        if self.is_thinking {
            self.thinking_step = (self.thinking_step + 1) % 4;
        }
    }

    /// The spinner's position.
    pub fn thinking_step(&self) -> (s: usize)
        ensures
            s == self.step(),
            s < 4,
    {
        proof {
            use_type_invariant(self);
        }
        self.thinking_step
    }
}

/// A key pressed at the dashboard.
#[derive(Debug, Clone, Copy, PartialEq, Eq, Structural)]
pub enum Key {
    /// A character key, and whether Control was held.
    Char { c: char, control: bool },
    Tab,
    Enter,
    Backspace,
    Other,
}

/// `s` with every occurrence of `pat` taken out, from left to right.
pub open spec fn without(s: Seq<char>, pat: Seq<char>) -> Seq<char>
    decreases s.len(),
{
    if s.len() == 0 {
        s
    } else if pat.len() > 0 && pat.is_prefix_of(s) {
        without(s.subrange(pat.len() as int, s.len() as int), pat)
    } else {
        seq![s[0]] + without(s.drop_first(), pat)
    }
}

/// The log after a line is entered: the line, and for a `search` while the
/// bus is connected, the search it starts.
pub open spec fn logs_after_enter(logs: Seq<Seq<char>>, msg: Seq<char>, bus: bool) -> Seq<Seq<char>> {
    let l = log_after(logs, "▸ "@ + msg);
    if "search "@.is_prefix_of(msg) && bus {
        log_after(l, "[MEMORY] Searching for: "@ + without(msg, "search "@))
    } else {
        l
    }
}

/// The tab, log, input line and leave request after a key press: `q`, or
/// Control and `c`, asks to leave; another character is typed; Tab moves to
/// the next tab; Enter logs a non-empty line and clears it; Backspace takes
/// the last character back.
pub open spec fn after_key(
    tab: Tab,
    logs: Seq<Seq<char>>,
    input: Seq<char>,
    quit: bool,
    key: Key,
    bus: bool,
) -> (Tab, Seq<Seq<char>>, Seq<char>, bool) {
    match key {
        Key::Char { c, control } => if c == 'q' || (c == 'c' && control) {
            (tab, logs, input, true)
        } else {
            (tab, logs, input.push(c), quit)
        },
        Key::Tab => (tab_after(tab), logs, input, quit),
        Key::Enter => if input.len() == 0 {
            (tab, logs, input, quit)
        } else {
            (tab, logs_after_enter(logs, input, bus), Seq::empty(), quit)
        },
        Key::Backspace => (tab, logs, if input.len() > 0 { input.drop_last() } else { input }, quit),
        Key::Other => (tab, logs, input, quit),
    }
}

/// The spinner's mark at each step.
pub open spec fn spinner_mark(step: nat) -> Seq<char> {
    if step == 0 {
        "⠋"@
    } else if step == 1 {
        "⠙"@
    } else if step == 2 {
        "⠹"@
    } else {
        "⠸"@
    }
}

/// The status shown beside the activity log.
pub open spec fn status_text(thinking: bool, step: nat) -> Seq<char> {
    if thinking {
        spinner_mark(step) + " Thinking..."@
    } else {
        "IDLE"@
    }
}

/// The name of a tab as the status bar shows it.
pub open spec fn tab_label(t: Tab) -> Seq<char> {
    match t {
        Tab::Agents => "Agents"@,
        Tab::Memory => "Memory"@,
        Tab::Tools => "Tools"@,
        Tab::Config => "Config"@,
    }
}

impl Tab {
    pub fn label(self) -> (s: &'static str)
        ensures
            s@ == tab_label(self),
    {
        match self {
            Tab::Agents => "Agents",
            Tab::Memory => "Memory",
            Tab::Tools => "Tools",
            Tab::Config => "Config",
        }
    }
}

/// `s` with every occurrence of `pat` taken out.
pub fn remove_all(s: &Vec<char>, pat: &Vec<char>) -> (r: Vec<char>)
    ensures
        r@ == without(s@, pat@),
{
    let n = s.len();
    let p = pat.len();
    let mut out: Vec<char> = Vec::new();
    let mut i: usize = 0;
    assert(s@.subrange(0, n as int) =~= s@);
    while i < n
        invariant
            n == s@.len(),
            p == pat@.len(),
            i <= n,
            out@ + without(s@.subrange(i as int, n as int), pat@) == without(s@, pat@),
        decreases n - i,
    {
        let ghost t = s@.subrange(i as int, n as int);
        if p > 0 && chars_occur_at(pat, s, i) {
            assert(t.subrange(0, p as int) =~= s@.subrange(i as int, i + p));
            assert(pat@.is_prefix_of(t));
            assert(t.subrange(p as int, t.len() as int) =~= s@.subrange(i + p, n as int));
            i = i + p;
        } else {
            assert(!(p > 0 && pat@.is_prefix_of(t))) by {
                if p > 0 && pat@.is_prefix_of(t) {
                    assert(s@.subrange(i as int, i + p) =~= t.subrange(0, p as int));
                }
            }
            assert(t.drop_first() =~= s@.subrange(i + 1, n as int));
            let ghost before = out@;
            out.push(s[i]);
            assert(out@ + without(s@.subrange(i + 1, n as int), pat@) =~= before + (seq![t[0]] + without(
                t.drop_first(),
                pat@,
            )));
            i = i + 1;
        }
    }
    assert(s@.subrange(n as int, n as int) =~= Seq::<char>::empty());
    assert(out@ + Seq::<char>::empty() =~= out@);
    out
}

impl DashboardState {
    /// What has been typed on the input line.
    pub fn input_text(&self) -> (s: String)
        ensures
            s@ == self.input(),
    {
        from_chars(self.input.as_slice())
    }

    /// Whether the user asked to leave.
    pub fn should_quit(&self) -> (b: bool)
        ensures
            b == self.quitting(),
    {
        self.should_quit
    }

    /// The input line as drawn: the prompt, what has been typed, and a cursor.
    pub fn prompt_line(&self) -> (s: String)
        ensures
            s@ == "  cortex > "@ + self.input() + "_"@,
    {
        let typed = from_chars(self.input.as_slice());
        let head = concat("  cortex > ", typed.as_str());
        concat(head.as_str(), "_")
    }

    /// The status shown beside the activity log.
    pub fn status(&self) -> (s: String)
        ensures
            s@ == status_text(self.thinking(), self.step()),
    {
        proof {
            use_type_invariant(self);
        }
        if self.is_thinking {
            let mark = match self.thinking_step {
                0 => "⠋",
                1 => "⠙",
                2 => "⠹",
                _ => "⠸",
            };
            concat(mark, " Thinking...")
        } else {
            "IDLE".to_owned()
        }
    }

    /// Takes a key press; `bus` says whether the message bus is connected.
    pub fn on_key(&mut self, key: Key, bus: bool)
        ensures
            (final(self).tab(), final(self).logs(), final(self).input(), final(self).quitting()) == after_key(
                old(self).tab(),
                old(self).logs(),
                old(self).input(),
                old(self).quitting(),
                key,
                bus,
            ),
            final(self).thinking() == old(self).thinking(),
            final(self).step() == old(self).step(),
    {
        proof {
            use_type_invariant(&*self);
        }
        match key {
            Key::Char { c, control } => {
                if c == 'q' || (c == 'c' && control) {
                    self.should_quit = true;
                } else {
                    let mut typed: Vec<char> = Vec::new();
                    std::mem::swap(&mut typed, &mut self.input);
                    typed.push(c);
                    self.input = typed;
                }
            },
            Key::Tab => {
                self.next_tab();
            },
            Key::Enter => {
                if self.input.len() > 0 {
                    let msg = from_chars(self.input.as_slice());
                    let mut cleared: Vec<char> = Vec::new();
                    std::mem::swap(&mut cleared, &mut self.input);
                    self.push_log(concat("▸ ", msg.as_str()));
                    let prefix = to_chars("search ");
                    let is_search = if prefix.len() <= cleared.len() {
                        let hit = chars_occur_at(&prefix, &cleared, 0);
                        proof {
                            if hit {
                                assert(cleared@.subrange(0, prefix@.len() as int) =~= prefix@);
                            } else if "search "@.is_prefix_of(cleared@) {
                                assert(cleared@.subrange(0, prefix@.len() as int) =~= prefix@);
                            }
                        }
                        hit
                    } else {
                        false
                    };
                    if is_search && bus {
                        let query = from_chars(remove_all(&cleared, &prefix).as_slice());
                        self.push_log(concat("[MEMORY] Searching for: ", query.as_str()));
                    }
                }
            },
            Key::Backspace => {
                if self.input.len() > 0 {
                    let mut typed: Vec<char> = Vec::new();
                    std::mem::swap(&mut typed, &mut self.input);
                    typed.pop();
                    self.input = typed;
                }
            },
            Key::Other => {},
        }
    }
}

/// Four moves to the next tab come back to the same tab.
pub proof fn lemma_tabs_cycle(t: Tab)
    ensures
        tab_after(tab_after(tab_after(tab_after(t)))) == t,
        tab_after(t) != t,
{
}

/// A log within its limit stays within it, and keeps the line just pushed last.
pub proof fn lemma_log_bounded(logs: Seq<Seq<char>>, line: Seq<char>)
    requires
        logs.len() <= MAX_LOG_LINES,
    ensures
        log_after(logs, line).len() <= MAX_LOG_LINES,
        log_after(logs, line).last() == line,
{
}

/// Typing a character and taking it back with Backspace leaves the input line
/// as it was, and changes nothing else.
pub proof fn lemma_type_then_erase(tab: Tab, logs: Seq<Seq<char>>, input: Seq<char>, quit: bool, c: char, control: bool, bus: bool)
    requires
        c != 'q',
        !(c == 'c' && control),
    ensures
        ({
            let typed = after_key(tab, logs, input, quit, Key::Char { c, control }, bus);
            after_key(typed.0, typed.1, typed.2, typed.3, Key::Backspace, bus) == (tab, logs, input, quit)
        }),
{
    assert(input.push(c).drop_last() =~= input);
}

} // verus!
