//! A named unit of dispatch: its texts, its aliases and its action.

use crate::args::{
    contains_help, has_help_flag, lemma_normalize_keeps_help, normalize, normalized_args,
    same_token, Token,
};
use crate::error::{ActionError, ActionErrorKind};
use crate::help::{append_block, block, join, join_strings};
use vstd::prelude::*;
use vstd::string::StringExecFns;

verus! {

/// A command of an application. `A` is the type of its action: anything
/// that can be called with the arguments left for the command.
pub struct Command<A> {
    /// The name by which the command is called and registered.
    pub name: String,
    /// Further names by which the command is called.
    pub alias: Option<Vec<String>>,
    /// What the command does, for the help text.
    pub description: Option<String>,
    /// How the command is called, for the help text.
    pub usage: Option<String>,
    /// What is invoked when the command is called.
    pub action: Option<A>,
}

/// A command as dispatch and help see it.
pub struct CommandView {
    /// The name.
    pub name: Token,
    /// The aliases, in the order in which they were given, if any was.
    pub alias: Option<Seq<Token>>,
    /// The description, if there is one.
    pub description: Option<Seq<char>>,
    /// The usage line, if there is one.
    pub usage: Option<Seq<char>>,
    /// Whether there is an action.
    pub has_action: bool,
}

/// What a command is to do with the arguments handed to it.
#[derive(Debug, Clone, PartialEq, Eq)]
pub enum CommandPlan {
    /// Invoke the command's action with these arguments.
    Invoke { args: Vec<String> },
    /// Show the command's help.
    Help,
    /// The command has no action: show its help and report that.
    Missing,
}

/// A command's plan, with the arguments as tokens.
pub enum CommandPlanView {
    /// The action is invoked with the tokens.
    Invoke { tokens: Seq<Token> },
    /// The command's help is shown.
    Help,
    /// There is no action: the help is shown and that is reported.
    Missing,
}

/// What a run has done, and what is left for the caller to do.
#[derive(Debug, Clone, PartialEq, Eq)]
pub enum Outcome {
    /// Nothing is left to do: the action that was due has been invoked.
    Done,
    /// No action was invoked; this help text is to be shown.
    Help(String),
}

impl<A> View for Command<A> {
    type V = CommandView;

    open spec fn view(&self) -> CommandView {
        CommandView {
            name: self.name@,
            alias: self.alias.deep_view(),
            description: self.description.deep_view(),
            usage: self.usage.deep_view(),
            has_action: self.action is Some,
        }
    }
}

impl View for CommandPlan {
    type V = CommandPlanView;

    open spec fn view(&self) -> CommandPlanView {
        match self {
            CommandPlan::Invoke { args } => CommandPlanView::Invoke { tokens: args.deep_view() },
            CommandPlan::Help => CommandPlanView::Help,
            CommandPlan::Missing => CommandPlanView::Missing,
        }
    }
}

impl CommandView {
    /// The aliases, in the order in which they were given.
    pub open spec fn aliases(self) -> Seq<Token> {
        match self.alias {
            Some(alias) => alias,
            None => Seq::empty(),
        }
    }

    /// A token calls the command when it is the name or one of the aliases.
    pub open spec fn matches(self, token: Token) -> bool {
        self.name == token || self.aliases().contains(token)
    }

    /// The command's entry in a list of commands: the aliases, then the
    /// name, with `, ` between them.
    pub open spec fn label(self) -> Seq<char> {
        match self.alias {
            Some(alias) => join(alias, ", "@) + ", "@ + self.name,
            None => self.name,
        }
    }

    /// The text of the description, empty where there is none.
    pub open spec fn summary(self) -> Seq<char> {
        match self.description {
            Some(description) => description,
            None => Seq::empty(),
        }
    }

    /// The command's help: a block for the description and one for the
    /// usage, each only where the command has it.
    pub open spec fn help_text(self) -> Seq<char> {
        (match self.description {
            Some(description) => block("Description"@, description),
            None => Seq::empty(),
        }) + (match self.usage {
            Some(usage) => block("Usage"@, usage),
            None => Seq::empty(),
        })
    }

    /// What the command does with raw arguments: they are normalized; a
    /// help flag among them asks for help; else the action is invoked with
    /// all of them, if there is one.
    pub open spec fn plan(self, raw: Seq<Token>) -> CommandPlanView {
        let tokens = normalize(raw);
        if contains_help(tokens) {
            CommandPlanView::Help
        } else if self.has_action {
            CommandPlanView::Invoke { tokens }
        } else {
            CommandPlanView::Missing
        }
    }
}

/// What a call of the action with arguments that read as `tokens`
/// establishes: the action's postcondition for such arguments.
pub open spec fn invoked_with<A: Fn(Vec<String>)>(action: A, tokens: Seq<Token>) -> bool {
    exists|args: Vec<String>| #[trigger] args.deep_view() == tokens && call_ensures(action, (args,), ())
}

/// The action can be called with any arguments.
pub open spec fn accepts_all<A: Fn(Vec<String>)>(action: A) -> bool {
    forall|args: Vec<String>| call_requires(action, (args,))
}

impl<A> Command<A> {
    /// A command of the given name, with no alias, text or action.
    pub fn new(name: &str) -> (command: Self)
        ensures
            command@ == (CommandView {
                name: name@,
                alias: None,
                description: None,
                usage: None,
                has_action: false,
            }),
    {
        Command { name: name.to_owned(), alias: None, description: None, usage: None, action: None }
    }

    /// Sets the description.
    pub fn description(self, description: &str) -> (command: Self)
        ensures
            command@ == (CommandView { description: Some(description@), ..self@ }),
            command.action == self.action,
    {
        let mut command = self;
        command.description = Some(description.to_owned());
        command
    }

    /// Sets the usage line.
    pub fn usage(self, usage: &str) -> (command: Self)
        ensures
            command@ == (CommandView { usage: Some(usage@), ..self@ }),
            command.action == self.action,
    {
        let mut command = self;
        command.usage = Some(usage.to_owned());
        command
    }

    /// Sets the action.
    pub fn action(self, action: A) -> (command: Self)
        ensures
            command@ == (CommandView { has_action: true, ..self@ }),
            command.action == Some(action),
    {
        let mut command = self;
        command.action = Some(action);
        command
    }

    /// Adds an alias after those that the command has.
    pub fn alias(self, name: &str) -> (command: Self)
        ensures
            command@ == (CommandView { alias: Some(self@.aliases().push(name@)), ..self@ }),
            command.action == self.action,
    {
        let Command { name: own, alias, description, usage, action } = self;
        let mut names = match alias {
            Some(names) => names,
            None => Vec::new(),
        };
        let ghost before = names.deep_view();
        assert(before =~= self@.aliases());
        names.push(name.to_owned());
        assert(names.deep_view() =~= before.push(name@));
        Command { name: own, alias: Some(names), description, usage, action }
    }

    /// Whether the token is the command's name or one of its aliases.
    pub fn matches(&self, token: &str) -> (yes: bool)
        ensures
            yes == self@.matches(token@),
    {
        if same_token(self.name.as_str(), token) {
            return true;
        }
        match &self.alias {
            Some(alias) => {
                let mut i: usize = 0;
                while i < alias.len()
                    invariant
                        i <= alias.len(),
                        self@.aliases() == alias.deep_view(),
                        forall|j: int| 0 <= j < i ==> alias.deep_view()[j] != token@,
                    decreases alias.len() - i,
                {
                    if same_token(alias[i].as_str(), token) {
                        assert(self@.aliases()[i as int] == token@);
                        return true;
                    }
                    i = i + 1;
                }
                false
            },
            None => false,
        }
    }

    /// The command's entry in a list of commands.
    pub fn label(&self) -> (label: String)
        ensures
            label@ == self@.label(),
    {
        match &self.alias {
            Some(alias) => {
                let mut label = join_strings(alias, ", ");
                label.append(", ");
                label.append(self.name.as_str());
                label
            },
            None => self.name.clone(),
        }
    }

    /// The command's help text.
    pub fn help_text(&self) -> (text: String)
        ensures
            text@ == self@.help_text(),
    {
        let mut text = String::new();
        if let Some(description) = &self.description {
            append_block(&mut text, "Description", description.as_str());
        }
        if let Some(usage) = &self.usage {
            append_block(&mut text, "Usage", usage.as_str());
        }
        assert(text@ =~= self@.help_text());
        text
    }

    /// Decides what the command does with raw arguments.
    pub fn plan(&self, args: Vec<String>) -> (plan: CommandPlan)
        ensures
            plan@ == self@.plan(args.deep_view()),
    {
        let args = normalized_args(args);
        if has_help_flag(&args) {
            CommandPlan::Help
        } else if self.action.is_some() {
            CommandPlan::Invoke { args }
        } else {
            CommandPlan::Missing
        }
    }
}

impl<A> Default for Command<A> {
    /// A command with an empty name and nothing else.
    fn default() -> (command: Self)
        ensures
            command@ == (CommandView {
                name: Seq::empty(),
                alias: None,
                description: None,
                usage: None,
                has_action: false,
            }),
    {
        Command { name: String::new(), alias: None, description: None, usage: None, action: None }
    }
}

impl<A: Fn(Vec<String>)> Command<A> {
    /// The action, if there is one, can be called with any arguments.
    pub open spec fn callable(&self) -> bool {
        self.action matches Some(action) ==> accepts_all(action)
    }

    /// `result` is what carrying out `plan` hands back.
    pub open spec fn performed(
        &self,
        plan: CommandPlanView,
        result: Result<Outcome, ActionError>,
    ) -> bool {
        match plan {
            CommandPlanView::Invoke { tokens } => {
                &&& result matches Ok(Outcome::Done)
                &&& self.action matches Some(action)
                &&& invoked_with(action, tokens)
            },
            CommandPlanView::Help => {
                &&& result matches Ok(Outcome::Help(text))
                &&& text@ == self@.help_text()
            },
            CommandPlanView::Missing => {
                &&& result matches Err(error)
                &&& error.kind == ActionErrorKind::NotFound
                &&& error.help@ == self@.help_text()
            },
        }
    }

    /// Carries out a plan: invokes the action, or hands back the help text.
    pub fn perform(&self, plan: CommandPlan) -> (result: Result<Outcome, ActionError>)
        requires
            self.callable(),
            plan is Invoke ==> self.action is Some,
        ensures
            self.performed(plan@, result),
    {
        match plan {
            CommandPlan::Invoke { args } => {
                match &self.action {
                    Some(action) => {
                        let ghost handed = args;
                        action(args);
                        assert(handed.deep_view() == plan@->tokens);
                        Ok(Outcome::Done)
                    },
                    None => Err(
                        ActionError { kind: ActionErrorKind::NotFound, help: self.help_text() },
                    ),
                }
            },
            CommandPlan::Help => Ok(Outcome::Help(self.help_text())),
            CommandPlan::Missing => Err(
                ActionError { kind: ActionErrorKind::NotFound, help: self.help_text() },
            ),
        }
    }

    /// Runs the command on the arguments left for it. The arguments are
    /// normalized. With `-h` or `--help` among them the command's help text
    /// is handed back. Else the action is invoked with all of them. A
    /// command without an action reports `NotFound`, with its help text.
    pub fn run_with_result(&self, args: Vec<String>) -> (result: Result<Outcome, ActionError>)
        requires
            self.callable(),
        ensures
            self.performed(self@.plan(args.deep_view()), result),
    {
        let plan = self.plan(args);
        self.perform(plan)
    }
}

/// A command is called by its name and by each of its aliases alike.
pub proof fn lemma_name_and_aliases_match(command: CommandView, i: int)
    ensures
        command.matches(command.name),
        0 <= i < command.aliases().len() ==> command.matches(command.aliases()[i]),
{
}

/// A help flag among the raw arguments of a command asks for its help,
/// whether or not the command has an action.
pub proof fn lemma_command_help_first(command: CommandView, raw: Seq<Token>)
    requires
        contains_help(raw),
    ensures
        command.plan(raw) == CommandPlanView::Help,
{
    lemma_normalize_keeps_help(raw);
}

/// Without a help flag, a command with an action invokes it with all its
/// normalized arguments, and one without reports that it has none.
pub proof fn lemma_command_without_help(command: CommandView, raw: Seq<Token>)
    requires
        !contains_help(normalize(raw)),
    ensures
        command.has_action ==> command.plan(raw) == (CommandPlanView::Invoke {
            tokens: normalize(raw),
        }),
        !command.has_action ==> command.plan(raw) == CommandPlanView::Missing,
{
}

} // verus!
