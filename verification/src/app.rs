//! The application: its commands, its default action, and how a run is
//! routed among them.

use crate::args::{
    contains_help, has_help_flag, lemma_normalize_keeps_help, normalize, normalized_args,
    same_token, Token,
};
use crate::command::{
    accepts_all, invoked_with, Command, CommandPlan, CommandPlanView, CommandView, Outcome,
};
use crate::error::{ActionError, DuplicateCommand};
use crate::help::{append_block, append_row, block, lemma_widest_bounds, row, text_width, widest};
use vstd::prelude::*;
use vstd::string::StringExecFns;

verus! {

/// A plain function as an action.
pub type Action = fn(Vec<String>);

/// An application. `A` is the type of the actions, of the commands and of
/// the application itself.
pub struct App<A> {
    /// How the application is called, for the help text.
    pub usage: String,
    /// The commands, in the order in which they were registered.
    pub commands: Vec<Command<A>>,
    /// What is invoked when no command is called.
    pub action: A,
}

/// An application as dispatch and help see it.
pub struct AppView {
    /// The usage line.
    pub usage: Seq<char>,
    /// The commands, in the order in which they were registered.
    pub commands: Seq<CommandView>,
}

/// What an application is to do with its arguments.
#[derive(Debug, Clone, PartialEq, Eq)]
pub enum Plan {
    /// The command at `index` was called, and is to carry out `plan`.
    Command { index: usize, plan: CommandPlan },
    /// No command was called: invoke the default action with these
    /// arguments.
    Default { args: Vec<String> },
    /// No command was called, and help was asked for: show the
    /// application's help.
    Help,
}

/// An application's plan, with the arguments as tokens.
pub enum PlanView {
    /// The command at `index` carries out `plan`.
    Command { index: int, plan: CommandPlanView },
    /// The default action is invoked with the tokens.
    Default { tokens: Seq<Token> },
    /// The application's help is shown.
    Help,
}

impl<A> View for App<A> {
    type V = AppView;

    open spec fn view(&self) -> AppView {
        AppView {
            usage: self.usage@,
            commands: self.commands@.map_values(|command: Command<A>| command@),
        }
    }
}

impl View for Plan {
    type V = PlanView;

    open spec fn view(&self) -> PlanView {
        match self {
            Plan::Command { index, plan } => PlanView::Command { index: *index as int, plan: plan@ },
            Plan::Default { args } => PlanView::Default { tokens: args.deep_view() },
            Plan::Help => PlanView::Help,
        }
    }
}

/// The tokens from position `n` on; none where there are not that many.
pub open spec fn tokens_from(tokens: Seq<Token>, n: int) -> Seq<Token> {
    if 0 <= n <= tokens.len() {
        tokens.skip(n)
    } else {
        Seq::empty()
    }
}

/// The rows of the command table, one for each command, in order.
pub open spec fn rows(commands: Seq<CommandView>, column: nat) -> Seq<char>
    decreases commands.len(),
{
    if commands.len() == 0 {
        Seq::empty()
    } else {
        rows(commands.drop_last(), column) + row(
            commands.last().label(),
            column,
            commands.last().summary(),
        )
    }
}

impl AppView {
    /// Some command is registered under the name.
    pub open spec fn has_name(self, name: Token) -> bool {
        exists|i: int| 0 <= i < self.commands.len() && (#[trigger] self.commands[i]).name == name
    }

    /// No two commands share a name.
    pub open spec fn names_distinct(self) -> bool {
        forall|i: int, j: int|
            0 <= i < j < self.commands.len() ==> (#[trigger] self.commands[i]).name != (
            #[trigger] self.commands[j]).name
    }

    /// The command at `i` is the first in order of registration that the
    /// token calls.
    pub open spec fn is_first_match(self, token: Token, i: int) -> bool {
        &&& 0 <= i < self.commands.len()
        &&& self.commands[i].matches(token)
        &&& forall|j: int| 0 <= j < i ==> !(#[trigger] self.commands[j]).matches(token)
    }

    /// The position of the command that the token calls, if it calls one.
    pub open spec fn find(self, token: Token) -> Option<int> {
        if exists|i: int| self.is_first_match(token, i) {
            Some(choose|i: int| self.is_first_match(token, i))
        } else {
            None
        }
    }

    /// The command that normalized arguments call: the one that the first
    /// token after the program's own calls.
    pub open spec fn called(self, tokens: Seq<Token>) -> Option<int> {
        if tokens.len() >= 2 {
            self.find(tokens[1])
        } else {
            None
        }
    }

    /// What the application does with normalized arguments. A command that
    /// is called gets the tokens after its name. Else a help flag anywhere
    /// asks for the application's help, and without one the default action
    /// gets the tokens after the program's own.
    pub open spec fn route(self, tokens: Seq<Token>) -> PlanView {
        match self.called(tokens) {
            Some(index) => PlanView::Command {
                index,
                plan: self.commands[index].plan(tokens_from(tokens, 2)),
            },
            None => if contains_help(tokens) {
                PlanView::Help
            } else {
                PlanView::Default { tokens: tokens_from(tokens, 1) }
            },
        }
    }

    /// What the application does with raw arguments, the program's own
    /// token first among them.
    pub open spec fn plan(self, raw: Seq<Token>) -> PlanView {
        self.route(normalize(raw))
    }

    /// The entries of the commands, in order.
    pub open spec fn labels(self) -> Seq<Seq<char>> {
        self.commands.map_values(|command: CommandView| command.label())
    }

    /// The list of commands: a heading, and a row for each command, the
    /// entries filled up to the width of the widest.
    pub open spec fn command_help_text(self) -> Seq<char> {
        "\nCommands:\n"@ + rows(self.commands, widest(self.labels()))
    }

    /// The application's help: the usage, then the list of commands.
    pub open spec fn help_text(self) -> Seq<char> {
        block("Usage"@, self.usage) + self.command_help_text()
    }
}

/// A token calls at most one command first.
pub proof fn lemma_first_match_unique(app: AppView, token: Token, i: int)
    requires
        app.is_first_match(token, i),
    ensures
        app.find(token) == Some(i),
{
    let k = choose|k: int| app.is_first_match(token, k);
    assert(app.is_first_match(token, k));
    if k < i {
        assert(!app.commands[k].matches(token));
    } else if i < k {
        assert(!app.commands[i].matches(token));
    }
}

/// A token that calls no command finds none.
pub proof fn lemma_no_match(app: AppView, token: Token)
    requires
        forall|j: int| 0 <= j < app.commands.len() ==> !(#[trigger] app.commands[j]).matches(token),
    ensures
        app.find(token) is None,
{
    if exists|i: int| app.is_first_match(token, i) {
        let i = choose|i: int| app.is_first_match(token, i);
        assert(!app.commands[i].matches(token));
    }
}

/// A token that calls some command finds one: the first that it calls.
pub proof fn lemma_match_found(app: AppView, token: Token, i: int)
    requires
        0 <= i < app.commands.len(),
        app.commands[i].matches(token),
    ensures
        app.find(token) is Some,
        app.is_first_match(token, app.find(token)->0),
        app.find(token)->0 <= i,
    decreases i,
{
    if exists|j: int| 0 <= j < i && (#[trigger] app.commands[j]).matches(token) {
        let j = choose|j: int| 0 <= j < i && (#[trigger] app.commands[j]).matches(token);
        lemma_match_found(app, token, j);
    } else {
        lemma_first_match_unique(app, token, i);
    }
}

/// What a token finds is the first command that it calls, and where it
/// finds none it calls none.
pub proof fn lemma_find(app: AppView, token: Token)
    ensures
        match app.find(token) {
            Some(i) => app.is_first_match(token, i),
            None => forall|j: int|
                0 <= j < app.commands.len() ==> !(#[trigger] app.commands[j]).matches(token),
        },
{
    if app.find(token) is None {
        assert forall|j: int| 0 <= j < app.commands.len() implies !(
        #[trigger] app.commands[j]).matches(token) by {
            if app.commands[j].matches(token) {
                lemma_match_found(app, token, j);
            }
        }
    }
}

/// A command is found by its name and by each of its aliases alike, unless
/// a command registered before it answers to the token too.
pub proof fn lemma_found_by_name_or_alias(app: AppView, i: int, token: Token)
    requires
        0 <= i < app.commands.len(),
        token == app.commands[i].name || app.commands[i].aliases().contains(token),
    ensures
        app.find(token) is Some,
        app.find(token)->0 <= i,
        app.commands[app.find(token)->0].matches(token),
        (forall|j: int| 0 <= j < i ==> !(#[trigger] app.commands[j]).matches(token))
            ==> app.find(token) == Some(i),
{
    lemma_match_found(app, token, i);
    if forall|j: int| 0 <= j < i ==> !(#[trigger] app.commands[j]).matches(token) {
        lemma_first_match_unique(app, token, i);
    }
}

/// Where no two commands share a name, a name finds its own command unless
/// it is an alias of a command registered before.
pub proof fn lemma_name_finds_own(app: AppView, i: int)
    requires
        app.names_distinct(),
        0 <= i < app.commands.len(),
        forall|j: int|
            0 <= j < i ==> !(#[trigger] app.commands[j]).aliases().contains(app.commands[i].name),
    ensures
        app.find(app.commands[i].name) == Some(i),
{
    lemma_first_match_unique(app, app.commands[i].name, i);
}

/// The route depends on the token that calls a command only through the
/// command that it finds: called by an alias, a command does what it does
/// called by its name.
pub proof fn lemma_route_by_any_name(app: AppView, called: Seq<Token>, other: Seq<Token>)
    requires
        called.len() >= 2,
        other.len() >= 2,
        app.find(called[1]) is Some,
        app.find(called[1]) == app.find(other[1]),
        called.skip(2) == other.skip(2),
    ensures
        app.route(called) == app.route(other),
{
}

/// Arguments that call no command and hold no help flag go to the default
/// action, all but the program's own token.
pub proof fn lemma_unknown_falls_back(app: AppView, raw: Seq<Token>)
    requires
        app.called(normalize(raw)) is None,
        !contains_help(normalize(raw)),
    ensures
        app.plan(raw) == (PlanView::Default { tokens: tokens_from(normalize(raw), 1) }),
{
}

/// A help flag invokes no action at its level. Among arguments that call
/// no command it asks for the application's help, wherever it stands.
/// After the name of a command it asks for that command's help.
pub proof fn lemma_help_short_circuits(app: AppView, raw: Seq<Token>)
    requires
        contains_help(raw),
    ensures
        !(app.plan(raw) is Default),
        app.called(normalize(raw)) is None ==> app.plan(raw) == PlanView::Help,
        app.called(normalize(raw)) is Some && contains_help(tokens_from(normalize(raw), 2))
            ==> app.plan(raw) == (PlanView::Command {
            index: app.called(normalize(raw))->0,
            plan: CommandPlanView::Help,
        }),
{
    lemma_normalize_keeps_help(raw);
    if app.called(normalize(raw)) is Some {
        if contains_help(tokens_from(normalize(raw), 2)) {
            lemma_normalize_keeps_help(tokens_from(normalize(raw), 2));
        }
    }
}

/// An application never reports an error of its own: a run fails only where
/// a command is called that has no action, and no help is asked of it.
pub proof fn lemma_errors_come_from_commands(app: AppView, raw: Seq<Token>)
    ensures
        app.plan(raw) matches PlanView::Command { index, plan: CommandPlanView::Missing } ==> {
            &&& app.called(normalize(raw)) == Some(index)
            &&& 0 <= index < app.commands.len()
            &&& !app.commands[index].has_action
            &&& !contains_help(normalize(tokens_from(normalize(raw), 2)))
        },
{
    let tokens = normalize(raw);
    if app.called(tokens) is Some {
        lemma_find(app, tokens[1]);
    }
}

impl<A> App<A> {
    /// An application with the usage `cli [command] [arg]`, no command, and
    /// the given default action.
    pub fn new(action: A) -> (app: Self)
        ensures
            app@ == (AppView { usage: "cli [command] [arg]"@, commands: Seq::empty() }),
            app.commands@.len() == 0,
            app.action == action,
            app@.names_distinct(),
    {
        let app = App { usage: String::from_str("cli [command] [arg]"), commands: Vec::new(), action };
        assert(app@.commands =~= Seq::empty());
        app
    }

    /// Sets the usage line.
    pub fn usage(self, usage: &str) -> (app: Self)
        ensures
            app@ == (AppView { usage: usage@, ..self@ }),
            app.commands == self.commands,
            app.action == self.action,
    {
        let mut app = self;
        app.usage = usage.to_owned();
        app
    }

    /// Puts another default action in the place of the one that the
    /// application has.
    pub fn action(self, action: A) -> (app: Self)
        ensures
            app@ == self@,
            app.commands == self.commands,
            app.action == action,
    {
        let mut app = self;
        app.action = action;
        app
    }

    /// Whether a command is registered under the name.
    pub fn has_command(&self, name: &str) -> (found: bool)
        ensures
            found == self@.has_name(name@),
    {
        let mut i: usize = 0;
        while i < self.commands.len()
            invariant
                i <= self.commands.len(),
                forall|j: int| 0 <= j < i ==> (#[trigger] self@.commands[j]).name != name@,
            decreases self.commands.len() - i,
        {
            if same_token(self.commands[i].name.as_str(), name) {
                assert(self@.commands[i as int].name == name@);
                return true;
            }
            i = i + 1;
        }
        false
    }

    /// Registers a command, after those that are registered. The name must
    /// be a new one: `try_command` is the step that tests this.
    pub fn command(self, command: Command<A>) -> (app: Self)
        requires
            !self@.has_name(command@.name),
        ensures
            app@ == (AppView { commands: self@.commands.push(command@), ..self@ }),
            app.commands@ == self.commands@.push(command),
            app.action == self.action,
            self@.names_distinct() ==> app@.names_distinct(),
    {
        let mut app = self;
        app.commands.push(command);
        assert(app@.commands =~= self@.commands.push(command@));
        app
    }

    /// Registers a command unless its name is taken.
    pub fn try_command(self, command: Command<A>) -> (result: Result<Self, DuplicateCommand>)
        ensures
            match result {
                Ok(app) => {
                    &&& !self@.has_name(command@.name)
                    &&& app@ == (AppView { commands: self@.commands.push(command@), ..self@ })
                    &&& app.commands@ == self.commands@.push(command)
                    &&& app.action == self.action
                    &&& self@.names_distinct() ==> app@.names_distinct()
                },
                Err(error) => self@.has_name(command@.name) && error.name == command.name,
            },
    {
        if self.has_command(command.name.as_str()) {
            Err(DuplicateCommand { name: command.name })
        } else {
            Ok(self.command(command))
        }
    }

    /// The position of the first command that the token calls.
    pub fn find_command(&self, token: &str) -> (found: Option<usize>)
        ensures
            match found {
                Some(i) => i < self.commands.len() && self@.find(token@) == Some(i as int),
                None => self@.find(token@) is None,
            },
    {
        let mut i: usize = 0;
        while i < self.commands.len()
            invariant
                i <= self.commands.len(),
                forall|j: int| 0 <= j < i ==> !(#[trigger] self@.commands[j]).matches(token@),
            decreases self.commands.len() - i,
        {
            if self.commands[i].matches(token) {
                proof {
                    lemma_first_match_unique(self@, token@, i as int);
                }
                return Some(i);
            }
            i = i + 1;
        }
        proof {
            lemma_no_match(self@, token@);
        }
        None
    }

    /// Decides what the application does with raw arguments, the program's
    /// own token first among them.
    pub fn plan(&self, args: Vec<String>) -> (plan: Plan)
        ensures
            plan@ == self@.plan(args.deep_view()),
            plan matches Plan::Command { index, plan } ==> {
                &&& index < self.commands.len()
                &&& plan is Invoke ==> self.commands[index as int].action is Some
            },
    {
        let mut args = normalized_args(args);
        let ghost tokens = args.deep_view();
        let called = if args.len() >= 2 {
            self.find_command(args[1].as_str())
        } else {
            None
        };
        match called {
            Some(index) => {
                let rest = args.split_off(2);
                assert(rest.deep_view() =~= tokens_from(tokens, 2));
                Plan::Command { index, plan: self.commands[index].plan(rest) }
            },
            None => {
                if has_help_flag(&args) {
                    Plan::Help
                } else if args.len() >= 1 {
                    let rest = args.split_off(1);
                    assert(rest.deep_view() =~= tokens_from(tokens, 1));
                    Plan::Default { args: rest }
                } else {
                    assert(args.deep_view() =~= tokens_from(tokens, 1));
                    Plan::Default { args }
                }
            },
        }
    }

    /// The list of commands, as it stands in the help text.
    pub fn command_help_text(&self) -> (text: String)
        ensures
            text@ == self@.command_help_text(),
    {
        let mut labels: Vec<String> = Vec::new();
        let mut column: usize = 0;
        let mut i: usize = 0;
        while i < self.commands.len()
            invariant
                i <= self.commands.len(),
                labels.deep_view() == self@.labels().take(i as int),
                column == widest(self@.labels().take(i as int)),
            decreases self.commands.len() - i,
        {
            let label = self.commands[i].label();
            let w = text_width(label.as_str());
            proof {
                let all = self@.labels();
                assert(all.take(i + 1).drop_last() =~= all.take(i as int));
                assert(all.take(i + 1).last() == label@);
            }
            if w > column {
                column = w;
            }
            let ghost before = labels.deep_view();
            labels.push(label);
            assert(labels.deep_view() =~= before.push(label@));
            assert(labels.deep_view() =~= self@.labels().take(i + 1));
            i = i + 1;
        }
        assert(self@.labels().take(i as int) =~= self@.labels());

        let mut text = String::from_str("\nCommands:\n");
        let mut k: usize = 0;
        while k < self.commands.len()
            invariant
                k <= self.commands.len(),
                labels.deep_view() == self@.labels(),
                column == widest(self@.labels()),
                text@ == "\nCommands:\n"@ + rows(self@.commands.take(k as int), column as nat),
            decreases self.commands.len() - k,
        {
            proof {
                lemma_widest_bounds(self@.labels(), k as int);
                assert(self@.labels()[k as int] == labels[k as int]@);
            }
            match &self.commands[k].description {
                Some(description) => {
                    append_row(&mut text, labels[k].as_str(), column, description.as_str());
                },
                None => {
                    append_row(&mut text, labels[k].as_str(), column, "");
                    proof {
                        reveal_strlit("");
                        assert(""@ =~= Seq::<char>::empty());
                    }
                },
            }
            proof {
                let all = self@.commands;
                assert(all.take(k + 1).drop_last() =~= all.take(k as int));
                assert(all.take(k + 1).last() == all[k as int]);
                assert(text@ =~= "\nCommands:\n"@ + rows(all.take(k + 1), column as nat));
            }
            k = k + 1;
        }
        assert(self@.commands.take(k as int) =~= self@.commands);
        text
    }

    /// The application's help text.
    pub fn help_text(&self) -> (text: String)
        ensures
            text@ == self@.help_text(),
    {
        let mut text = String::new();
        append_block(&mut text, "Usage", self.usage.as_str());
        text.append(self.command_help_text().as_str());
        assert(text@ =~= self@.help_text());
        text
    }
}

impl<A: Fn(Vec<String>)> App<A> {
    /// Every action, of the commands and of the application, can be called
    /// with any arguments.
    pub open spec fn callable(&self) -> bool {
        &&& accepts_all(self.action)
        &&& forall|i: int| 0 <= i < self.commands.len() ==> (#[trigger] self.commands[i]).callable()
    }

    /// `result` is what carrying out `plan` hands back.
    pub open spec fn performed(&self, plan: PlanView, result: Result<Outcome, ActionError>) -> bool {
        match plan {
            PlanView::Command { index, plan } => {
                &&& 0 <= index < self.commands.len()
                &&& self.commands[index].performed(plan, result)
            },
            PlanView::Default { tokens } => {
                &&& result matches Ok(Outcome::Done)
                &&& invoked_with(self.action, tokens)
            },
            PlanView::Help => {
                &&& result matches Ok(Outcome::Help(text))
                &&& text@ == self@.help_text()
            },
        }
    }

    /// The run of these raw arguments ends without an error: they do not
    /// call a command that has no action, unless to ask for its help.
    pub open spec fn succeeds(&self, raw: Seq<Token>) -> bool {
        !(self@.plan(raw) matches PlanView::Command { plan: CommandPlanView::Missing, .. })
    }

    /// The plan can be carried out: it names a command that is there, and
    /// invokes its action only if it has one.
    pub open spec fn admits(&self, plan: PlanView) -> bool {
        plan matches PlanView::Command { index, plan } ==> {
            &&& 0 <= index < self.commands.len()
            &&& plan is Invoke ==> self.commands[index].action is Some
        }
    }

    /// Carries out a plan: invokes the action that it names, or hands back
    /// the help text that it asks for.
    pub fn perform(&self, plan: Plan) -> (result: Result<Outcome, ActionError>)
        requires
            self.callable(),
            self.admits(plan@),
        ensures
            self.performed(plan@, result),
    {
        match plan {
            Plan::Command { index, plan } => self.commands[index].perform(plan),
            Plan::Default { args } => {
                let ghost handed = args;
                (self.action)(args);
                assert(invoked_with(self.action, handed.deep_view()));
                Ok(Outcome::Done)
            },
            Plan::Help => Ok(Outcome::Help(self.help_text())),
        }
    }

    /// Runs the application on the raw arguments, the program's own token
    /// first among them. The arguments are normalized, and the first token
    /// after the program's own is looked up among the commands. A command
    /// that is called runs on the tokens after its name. Else the help text
    /// is handed back where `-h` or `--help` is among the tokens, and the
    /// default action is invoked with the tokens after the program's own
    /// where it is not.
    pub fn run_with_result(&self, args: Vec<String>) -> (result: Result<Outcome, ActionError>)
        requires
            self.callable(),
        ensures
            self.performed(self@.plan(args.deep_view()), result),
            result is Ok <==> self.succeeds(args.deep_view()),
    {
        let plan = self.plan(args);
        self.perform(plan)
    }

    /// Runs the application on arguments whose run ends without an error.
    pub fn run(&self, args: Vec<String>) -> (outcome: Outcome)
        requires
            self.callable(),
            self.succeeds(args.deep_view()),
        ensures
            self.performed(self@.plan(args.deep_view()), Ok(outcome)),
    {
        match self.run_with_result(args) {
            Ok(outcome) => outcome,
            Err(error) => Outcome::Help(error.help),
        }
    }
}

} // verus!
