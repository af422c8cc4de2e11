use vstd::prelude::*;

use crate::node::{value_text, EntryView, NodeView};
use crate::output::{
    cyan_color, red_color, result_span, white_color, ColoredConsole, Rgba, TextSpan,
};
use crate::registry::{
    accepts, help_text, kind_at, lemma_lookup_found, lookup, parsed, prop_index, reset_entry, search_text,
    with_value, FilterView, Invocation, PathFilter, Registry,
};
use crate::result::{is_ok_with, CmdType, ConsoleError, ConsoleResult};
use crate::text::{lemma_split_nonempty, split_spaces, split_spaces_of, views_of};

verus! {

/// The commands every console window offers, ahead of the host's entries.
pub open spec fn builtin_entries() -> Seq<EntryView> {
    seq![
        EntryView {
            path: "help"@,
            node: NodeView::Action { description: "\nList all commands and properties"@ },
        },
        EntryView { path: "clear"@, node: NodeView::Action { description: "\nClear the screen"@ } },
        EntryView {
            path: "find"@,
            node: NodeView::Action { description: "<text>\nSearch for matching commands"@ },
        },
        EntryView {
            path: "reset"@,
            node: NodeView::Action { description: "<var>\nSet a property to its default"@ },
        },
    ]
}

/// Listing text in the normal color, or the error message when it is empty.
pub open spec fn listing_span(t: Seq<char>, normal: Rgba, error: Rgba, missing: Seq<char>) -> (
    Rgba,
    Seq<char>,
) {
    if t.len() > 0 {
        (normal, t)
    } else {
        (error, missing)
    }
}

/// What `help` prints: one entry's details, or every entry's.
pub open spec fn help_span(s: Seq<EntryView>, args: Seq<Seq<char>>, n: Rgba, e: Rgba) -> (
    Rgba,
    Seq<char>,
) {
    if args.len() > 0 {
        listing_span(help_text(s, args[0]), n, e, "Unknown property"@)
    } else {
        listing_span(search_text(s, FilterView::All), n, e, "No results"@)
    }
}

/// What `find` prints.
pub open spec fn find_span(s: Seq<EntryView>, args: Seq<Seq<char>>, n: Rgba, e: Rgba) -> (
    Rgba,
    Seq<char>,
) {
    if args.len() > 0 {
        listing_span(search_text(s, FilterView::Search(args[0])), n, e, "No results"@)
    } else {
        (e, "Usage: "@ + "find <name>"@)
    }
}

/// The entries after `reset`.
pub open spec fn reset_entries(s: Seq<EntryView>, args: Seq<Seq<char>>) -> Seq<EntryView> {
    if args.len() > 0 {
        match prop_index(s, args[0]) {
            Some(i) => s.update(i, reset_entry(s[i])),
            None => s,
        }
    } else {
        s.map_values(|x: EntryView| reset_entry(x))
    }
}

/// What `reset` prints.
pub open spec fn reset_span(s: Seq<EntryView>, args: Seq<Seq<char>>, n: Rgba, e: Rgba) -> (
    Rgba,
    Seq<char>,
) {
    if args.len() > 0 {
        if prop_index(s, args[0]) is Some {
            (n, Seq::empty())
        } else {
            (e, "Unknown property"@)
        }
    } else {
        (n, "OK"@)
    }
}

/// The colors of a console window.
pub struct ConsoleConfig {
    normal: Rgba,
    error: Rgba,
    prompt: Rgba,
}

impl Default for ConsoleConfig {
    fn default() -> (r: ConsoleConfig)
        ensures
            r.normal_spec() == white_color(),
            r.error_spec() == red_color(),
            r.prompt_spec() == cyan_color(),
    {
        ConsoleConfig { normal: Rgba::white(), error: Rgba::red(), prompt: Rgba::cyan() }
    }
}

impl ConsoleConfig {
    pub closed spec fn normal_spec(&self) -> Rgba {
        self.normal
    }

    pub closed spec fn error_spec(&self) -> Rgba {
        self.error
    }

    pub closed spec fn prompt_spec(&self) -> Rgba {
        self.prompt
    }

    /// The same configuration with other colors.
    pub fn colors(self, normal: Rgba, error: Rgba, prompt: Rgba) -> (r: ConsoleConfig)
        ensures
            r.normal_spec() == normal,
            r.error_spec() == error,
            r.prompt_spec() == prompt,
    {
        ConsoleConfig { normal, error, prompt }
    }

    /// A window over `node`'s entries, every property at its default.
    pub fn build(self, node: Registry) -> (w: ConsoleWindow)
        requires
            node.wf(),
        ensures
            w.wf(),
            w.entries() == (builtin_entries() + node@).map_values(|x: EntryView| reset_entry(x)),
            w.log() == Seq::<(Rgba, Seq<char>)>::empty(),
            w.requests() == node.requests(),
            w.normal() == self.normal_spec(),
            w.error() == self.error_spec(),
            w.prompt_color() == self.prompt_spec(),
    {
        let mut reg = Registry::new();
        reg.add_action("help", "\nList all commands and properties");
        reg.add_action("clear", "\nClear the screen");
        reg.add_action("find", "<text>\nSearch for matching commands");
        reg.add_action("reset", "<var>\nSet a property to its default");
        assert(reg@ =~= builtin_entries());
        reg.append(node);
        assert(reg.requests() =~= node.requests());
        let ghost joined_entries = reg@;
        let _ = reg.reset_all();
        let w = ConsoleWindow {
            reg,
            console: ColoredConsole::with_colors(self.normal, self.error),
            prompt_color: self.prompt,
        };
        assert(w.entries().subrange(0, 4) =~= builtin_entries()) by {
            assert forall|j: int| 0 <= j < 4 implies #[trigger] w.entries()[j] == builtin_entries()[j] by {
                assert(joined_entries[j] == builtin_entries()[j]);
            }
        }
        w
    }
}

/// A console: the built-in commands and a host registry, and the log of what
/// the commands printed.
pub struct ConsoleWindow {
    reg: Registry,
    console: ColoredConsole,
    prompt_color: Rgba,
}

impl ConsoleWindow {
    /// Built-in commands first, then the host's entries.
    pub closed spec fn entries(&self) -> Seq<EntryView> {
        self.reg@
    }

    /// The spans shown to the user.
    pub closed spec fn log(&self) -> Seq<(Rgba, Seq<char>)> {
        self.console@
    }

    /// Host actions requested and not yet handed over.
    pub closed spec fn requests(&self) -> Seq<(Seq<char>, Seq<Seq<char>>)> {
        self.reg.requests()
    }

    pub closed spec fn normal(&self) -> Rgba {
        self.console.normal()
    }

    pub closed spec fn error(&self) -> Rgba {
        self.console.error()
    }

    pub closed spec fn prompt_color(&self) -> Rgba {
        self.prompt_color
    }

    pub closed spec fn wf(&self) -> bool {
        &&& self.reg.wf()
        &&& self.reg@.len() >= 4
        &&& self.reg@.subrange(0, 4) == builtin_entries()
    }

    /// The colors and the built-in commands stay.
    pub open spec fn keeps_frame(old: ConsoleWindow, new: ConsoleWindow) -> bool {
        &&& new.wf()
        &&& new.normal() == old.normal()
        &&& new.error() == old.error()
        &&& new.prompt_color() == old.prompt_color()
    }

    /// Entries, log and requests stay.
    pub open spec fn unchanged(old: ConsoleWindow, new: ConsoleWindow) -> bool {
        &&& new.entries() == old.entries()
        &&& new.log() == old.log()
        &&& new.requests() == old.requests()
    }

    /// What invoking the action `cmd` with `args` does, and returns.
    pub open spec fn called(
        old: ConsoleWindow,
        new: ConsoleWindow,
        cmd: Seq<char>,
        args: Seq<Seq<char>>,
        r: ConsoleResult,
    ) -> bool {
        let s = old.entries();
        let n = old.normal();
        let e = old.error();
        &&& Self::keeps_frame(old, new)
        &&& if lookup(s, cmd) == Some(0int) {
            &&& is_ok_with(r, Seq::empty())
            &&& new.entries() == s
            &&& new.requests() == old.requests()
            &&& new.log() == old.log().push(help_span(s, args, n, e))
        } else if lookup(s, cmd) == Some(1int) {
            &&& is_ok_with(r, Seq::empty())
            &&& new.entries() == s
            &&& new.requests() == old.requests()
            &&& new.log() == Seq::<(Rgba, Seq<char>)>::empty()
        } else if lookup(s, cmd) == Some(2int) {
            &&& is_ok_with(r, Seq::empty())
            &&& new.entries() == s
            &&& new.requests() == old.requests()
            &&& new.log() == old.log().push(find_span(s, args, n, e))
        } else if lookup(s, cmd) == Some(3int) {
            &&& is_ok_with(r, Seq::empty())
            &&& new.entries() == reset_entries(s, args)
            &&& new.requests() == old.requests()
            &&& new.log() == old.log().push(reset_span(s, args, n, e))
        } else if kind_at(s, cmd) == CmdType::Action {
            &&& is_ok_with(r, Seq::empty())
            &&& new.entries() == s
            &&& new.log() == old.log()
            &&& new.requests() == old.requests().push((cmd, args))
        } else {
            &&& r.0 == Err::<String, ConsoleError>(ConsoleError::UnknownCommand)
            &&& Self::unchanged(old, new)
        }
    }

    /// What running the command `cmd` with `args` does, and returns.
    pub open spec fn dispatched(
        old: ConsoleWindow,
        new: ConsoleWindow,
        cmd: Seq<char>,
        args: Seq<Seq<char>>,
        r: ConsoleResult,
    ) -> bool {
        let s = old.entries();
        match kind_at(s, cmd) {
            CmdType::Prop => {
                let i = prop_index(s, cmd)->0;
                let v = s[i].node->value;
                &&& Self::keeps_frame(old, new)
                &&& new.log() == old.log()
                &&& new.requests() == old.requests()
                &&& if args.len() == 0 {
                    is_ok_with(r, value_text(v)) && new.entries() == s
                } else if accepts(v, args[0]) {
                    &&& is_ok_with(r, Seq::empty())
                    &&& new.entries() == s.update(i, with_value(s[i], parsed(v, args[0])))
                } else {
                    r.0 is Err && r.0->Err_0 is InvalidValue && new.entries() == s
                }
            },
            CmdType::Action => Self::called(old, new, cmd, args, r),
            CmdType::List => {
                let t = search_text(s, FilterView::Prefix(cmd));
                &&& Self::keeps_frame(old, new)
                &&& Self::unchanged(old, new)
                &&& t.len() > 0 ==> is_ok_with(r, t)
                &&& t.len() == 0 ==> r.0 == Err::<String, ConsoleError>(ConsoleError::NoResults)
            },
            CmdType::NotFound => {
                &&& Self::keeps_frame(old, new)
                &&& Self::unchanged(old, new)
                &&& r.0 == Err::<String, ConsoleError>(ConsoleError::UnknownCommand)
            },
        }
    }

    /// A window with the default colors.
    pub fn new(node: Registry) -> (w: ConsoleWindow)
        requires
            node.wf(),
        ensures
            w.wf(),
            w.entries() == (builtin_entries() + node@).map_values(|x: EntryView| reset_entry(x)),
            w.log() == Seq::<(Rgba, Seq<char>)>::empty(),
            w.requests() == node.requests(),
            w.normal() == white_color(),
            w.error() == red_color(),
            w.prompt_color() == cyan_color(),
    {
        ConsoleConfig::default().build(node)
    }

    /// The entries, built-in commands first.
    pub fn registry(&self) -> (r: &Registry)
        ensures
            r@ == self.entries(),
            r.requests() == self.requests(),
    {
        &self.reg
    }

    /// The log.
    pub fn console(&self) -> (r: &ColoredConsole)
        ensures
            r@ == self.log(),
            r.normal() == self.normal(),
            r.error() == self.error(),
    {
        &self.console
    }

    /// Hands the requested host actions over, oldest first, and forgets them.
    pub fn take_invocations(&mut self) -> (r: Vec<Invocation>)
        requires
            old(self).wf(),
        ensures
            Self::keeps_frame(*old(self), *final(self)),
            final(self).entries() == old(self).entries(),
            final(self).log() == old(self).log(),
            final(self).requests() == Seq::<(Seq<char>, Seq<Seq<char>>)>::empty(),
            r@.map_values(|v: Invocation| (v.path@, v.args@.map_values(|a: String| a@)))
                == old(self).requests(),
    {
        self.reg.take_invocations()
    }

    /// Empties the log.
    pub fn clear(&mut self)
        requires
            old(self).wf(),
        ensures
            Self::keeps_frame(*old(self), *final(self)),
            final(self).entries() == old(self).entries(),
            final(self).requests() == old(self).requests(),
            final(self).log() == Seq::<(Rgba, Seq<char>)>::empty(),
    {
        self.console.clear();
    }

    /// Appends a span to the log.
    pub fn write(&mut self, span: TextSpan)
        requires
            old(self).wf(),
        ensures
            Self::keeps_frame(*old(self), *final(self)),
            final(self).entries() == old(self).entries(),
            final(self).requests() == old(self).requests(),
            final(self).log() == old(self).log().push(span@),
    {
        self.console.write(span);
    }

    /// Appends a span as one line without its trailing whitespace; nothing
    /// when it is all whitespace.
    pub fn writeln(&mut self, span: TextSpan)
        requires
            old(self).wf(),
        ensures
            Self::keeps_frame(*old(self), *final(self)),
            final(self).entries() == old(self).entries(),
            final(self).requests() == old(self).requests(),
            crate::output::trimmed_end(span@.1).len() == 0 ==> final(self).log() == old(self).log(),
            crate::output::trimmed_end(span@.1).len() > 0 ==> final(self).log() == old(self).log().push(
                (span@.0, crate::output::trimmed_end(span@.1) + "\n"@),
            ),
    {
        self.console.write_line(span);
    }

    /// Appends the prompt marker.
    pub fn draw_prompt(&mut self)
        requires
            old(self).wf(),
        ensures
            Self::keeps_frame(*old(self), *final(self)),
            final(self).entries() == old(self).entries(),
            final(self).requests() == old(self).requests(),
            final(self).log() == old(self).log().push((old(self).prompt_color(), " > "@)),
    {
        let c = self.prompt_color;
        self.console.write_colored(c, " > ");
    }

    /// The `help` command.
    pub fn cmd_help(&mut self, args: &[&str])
        requires
            old(self).wf(),
        ensures
            Self::keeps_frame(*old(self), *final(self)),
            final(self).entries() == old(self).entries(),
            final(self).requests() == old(self).requests(),
            final(self).log() == old(self).log().push(
                help_span(old(self).entries(), views_of(args@), old(self).normal(), old(self).error()),
            ),
    {
        let out = if args.len() > 0 {
            self.reg.help(args[0])
        } else {
            self.reg.find(&PathFilter::All)
        };
        self.console.write_result(out);
    }

    /// The `find` command.
    pub fn cmd_find(&mut self, args: &[&str])
        requires
            old(self).wf(),
        ensures
            Self::keeps_frame(*old(self), *final(self)),
            final(self).entries() == old(self).entries(),
            final(self).requests() == old(self).requests(),
            final(self).log() == old(self).log().push(
                find_span(old(self).entries(), views_of(args@), old(self).normal(), old(self).error()),
            ),
    {
        let out = if args.len() > 0 {
            self.reg.find(&PathFilter::Search(args[0].to_string()))
        } else {
            ConsoleResult::err(ConsoleError::InvalidUsage("find <name>".to_string()))
        };
        self.console.write_result(out);
    }

    /// The `reset` command.
    pub fn cmd_reset(&mut self, args: &[&str])
        requires
            old(self).wf(),
        ensures
            Self::keeps_frame(*old(self), *final(self)),
            final(self).entries() == reset_entries(old(self).entries(), views_of(args@)),
            final(self).requests() == old(self).requests(),
            final(self).log() == old(self).log().push(
                reset_span(old(self).entries(), views_of(args@), old(self).normal(), old(self).error()),
            ),
    {
        let ghost s = self.reg@;
        let out = if args.len() > 0 {
            let r = self.reg.reset(args[0]);
            assert(views_of(args@)[0] == args@[0]@);
            r
        } else {
            self.reg.reset_all()
        };
        assert(self.reg@ == reset_entries(s, views_of(args@)));
        self.console.write_result(out);
        proof {
            let a = views_of(args@);
            if a.len() > 0 {
                lemma_lookup_found(s, a[0]);
                match prop_index(s, a[0]) {
                    Some(i) => {
                        assert(self.reg@ == s.update(i, reset_entry(s[i])));
                        assert(self.reg@.len() == s.len());
                    },
                    None => {},
                }
            } else {
                assert(self.reg@ == s.map_values(|x: EntryView| reset_entry(x)));
            }
            assert forall|j: int| 0 <= j < s.len() implies #[trigger] self.reg@[j] == s[j]
                || self.reg@[j] == reset_entry(s[j]) by {
                if a.len() > 0 {
                    match prop_index(s, a[0]) {
                        Some(i) => {
                            if i == j {
                                assert(self.reg@[j] == reset_entry(s[j]));
                            }
                        },
                        None => {},
                    }
                }
            }
            self.lemma_builtins_kept(s);
        }
    }

    /// What running the command line `line` does: the command and its
    /// arguments are the pieces between spaces, and the rendered result
    /// follows whatever the command printed.
    pub open spec fn ran(old: ConsoleWindow, new: ConsoleWindow, line: Seq<char>) -> bool {
        let p = split_spaces(line);
        &&& Self::keeps_frame(old, new)
        &&& exists|mid: ConsoleWindow, r: ConsoleResult|
            #[trigger] Self::dispatched(old, mid, p[0], p.drop_first(), r)
                && new.entries() == mid.entries() && new.requests() == mid.requests()
                && new.log() == mid.log().push(result_span(r, old.normal(), old.error()))
    }

    /// Runs the action `cmd`: a built-in command here, a host action by
    /// request.
    pub fn call(&mut self, cmd: &str, args: &[&str]) -> (r: ConsoleResult)
        requires
            old(self).wf(),
        ensures
            Self::called(*old(self), *final(self), cmd@, views_of(args@), r),
    {
        match self.reg.index_of(cmd) {
            Some(0) => {
                self.cmd_help(args);
                ConsoleResult::empty()
            },
            Some(1) => {
                self.clear();
                ConsoleResult::empty()
            },
            Some(2) => {
                self.cmd_find(args);
                ConsoleResult::empty()
            },
            Some(3) => {
                self.cmd_reset(args);
                ConsoleResult::empty()
            },
            _ => {
                let r = self.reg.call(cmd, args);
                assert(args@.map_values(|a: &str| a@) == views_of(args@));
                r
            },
        }
    }

    /// Runs one command: reads or sets a property, runs an action, or lists
    /// the entries under a group.
    pub fn dispatch(&mut self, cmd: &str, args: &[&str]) -> (r: ConsoleResult)
        requires
            old(self).wf(),
        ensures
            Self::dispatched(*old(self), *final(self), cmd@, views_of(args@), r),
    {
        let ghost s = self.reg@;
        match self.reg.cmdtype(cmd) {
            CmdType::Prop => {
                proof {
                    lemma_lookup_found(s, cmd@);
                    let i = lookup(s, cmd@)->0;
                    assert(i >= 4) by {
                        if i < 4 {
                            assert(s[i] == s.subrange(0, 4)[i]);
                        }
                    }
                }
                if args.len() > 0 {
                    let r = self.reg.set(cmd, args[0]);
                    assert(views_of(args@)[0] == args@[0]@);
                    assert(self.reg@.subrange(0, 4) =~= s.subrange(0, 4));
                    r
                } else {
                    self.reg.get(cmd)
                }
            },
            CmdType::Action => self.call(cmd, args),
            CmdType::List => self.reg.find(&PathFilter::Prefix(cmd.to_string())),
            CmdType::NotFound => ConsoleResult::err(ConsoleError::UnknownCommand),
        }
    }

    /// Runs one command and renders its result into `console`.
    pub fn exec(&mut self, cmd: &str, args: Vec<&str>, console: &mut ColoredConsole)
        requires
            old(self).wf(),
        ensures
            exists|r: ConsoleResult|
                #[trigger] Self::dispatched(*old(self), *final(self), cmd@, views_of(args@), r)
                    && final(console)@ == old(console)@.push(
                    result_span(r, old(console).normal(), old(console).error()),
                ),
            final(console).normal() == old(console).normal(),
            final(console).error() == old(console).error(),
    {
        let ret = self.dispatch(cmd, args.as_slice());
        let ghost g = ret;
        console.write_result(ret);
        assert(Self::dispatched(*old(self), *self, cmd@, views_of(args@), g));
    }

    /// Runs a command line: the command, then its space-separated arguments.
    pub fn run_cmd(&mut self, cmd: String)
        requires
            old(self).wf(),
        ensures
            Self::ran(*old(self), *final(self), cmd@),
    {
        let mut args = split_spaces_of(cmd.as_str());
        proof {
            lemma_split_nonempty(cmd@);
        }
        let ghost parts = args@;
        let rest = args.split_off(1);
        let name: &str = args[0];
        assert(views_of(parts)[0] == name@);
        assert(views_of(rest@) =~= views_of(parts).drop_first());
        let mut out = ColoredConsole::with_colors(
            self.console.normal_color(),
            self.console.error_color(),
        );
        self.exec(name, rest, &mut out);
        let ghost mid = *self;
        let ghost printed = out@;
        self.console.append(&mut out);
        assert(self.console@ =~= mid.console@ + printed);
        assert(printed.len() == 1);
        assert(self.console@ =~= mid.console@.push(printed[0]));
    }

    /// Echoes a submitted line after the prompt marker, then runs it.
    pub fn submit(&mut self, line: &str)
        requires
            old(self).wf(),
        ensures
            exists|pre: ConsoleWindow|
                #[trigger] Self::ran(pre, *final(self), line@) && Self::keeps_frame(*old(self), pre)
                    && pre.entries() == old(self).entries() && pre.requests() == old(self).requests()
                    && pre.log() == old(self).log().push((old(self).prompt_color(), " > "@)).push(
                    (old(self).normal(), line@ + "\n"@),
                ),
    {
        self.draw_prompt();
        let mut echo = line.to_string();
        echo.append("\n");
        self.console.write_str(echo.as_str());
        let ghost pre = *self;
        self.run_cmd(line.to_string());
        assert(Self::ran(pre, *self, line@));
    }

    /// Resetting never touches the built-in commands.
    proof fn lemma_builtins_kept(&self, s: Seq<EntryView>)
        requires
            s.len() >= 4,
            s.subrange(0, 4) == builtin_entries(),
            self.reg@.len() == s.len(),
            forall|j: int| 0 <= j < s.len() ==> #[trigger] self.reg@[j] == s[j] || self.reg@[j] == reset_entry(s[j]),
        ensures
            self.reg@.subrange(0, 4) == builtin_entries(),
    {
        assert forall|j: int| 0 <= j < 4 implies #[trigger] self.reg@[j] == builtin_entries()[j] by {
            assert(s[j] == s.subrange(0, 4)[j]);
        }
        assert(self.reg@.subrange(0, 4) =~= builtin_entries());
    }
}

/// A console window over `node` with the given colors.
pub fn init_with_config(node: Registry, config: ConsoleConfig) -> (w: ConsoleWindow)
    requires
        node.wf(),
    ensures
        w.wf(),
        w.entries() == (builtin_entries() + node@).map_values(|x: EntryView| reset_entry(x)),
        w.log() == Seq::<(Rgba, Seq<char>)>::empty(),
        w.requests() == node.requests(),
        w.normal() == config.normal_spec(),
        w.error() == config.error_spec(),
        w.prompt_color() == config.prompt_spec(),
{
    config.build(node)
}

/// A console window over `node` with the default colors.
pub fn init(node: Registry) -> (w: ConsoleWindow)
    requires
        node.wf(),
    ensures
        w.wf(),
        w.entries() == (builtin_entries() + node@).map_values(|x: EntryView| reset_entry(x)),
        w.log() == Seq::<(Rgba, Seq<char>)>::empty(),
        w.requests() == node.requests(),
        w.normal() == white_color(),
        w.error() == red_color(),
        w.prompt_color() == cyan_color(),
{
    init_with_config(node, ConsoleConfig::default())
}

} // verus!
