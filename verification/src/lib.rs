//! A minimal command-line dispatcher.
//!
//! An [`App`] holds a usage line, a list of named [`Command`]s and a default
//! action. A run normalizes the raw arguments, looks the first user-supplied
//! token up among the commands and either invokes an action or hands back the
//! help text that is to be shown.
//!
//! The library neither reads the process arguments nor prints: a run takes
//! the argument vector and returns what is to be written out.
//!
//! ```
//! use suihorse::{Action, App, Command, Outcome};
//!
//! fn greet(args: Vec<String>) {
//!     println!("hello, {:?}", args);
//! }
//!
//! fn fallback(args: Vec<String>) {
//!     println!("nothing to do with {:?}", args);
//! }
//!
//! let app = App::<Action>::new(fallback)
//!     .usage("greet [command] [arg]")
//!     .command(Command::new("hello").alias("hi").usage("greet hello [name]").action(greet));
//!
//! let args = vec!["greet".to_string(), "hi".to_string(), "--to=world".to_string()];
//! match app.run_with_result(args) {
//!     Ok(Outcome::Done) => {}
//!     Ok(Outcome::Help(text)) => println!("{}", text),
//!     Err(error) => eprintln!("{}\n{}", error.to_string(), error.help),
//! }
//! ```

pub mod app;
pub mod args;
pub mod command;
pub mod error;
pub mod help;

pub use app::{Action, App, Plan};
pub use args::normalized_args;
pub use command::{Command, CommandPlan, Outcome};
pub use error::{ActionError, ActionErrorKind, DuplicateCommand};
