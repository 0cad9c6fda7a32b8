//! Reading desktop entries and turning them into command lines.
//!
//! A desktop file describes one application: a text of sections, each a
//! header in brackets followed by lines `key=value`, where a key may carry a
//! locale in brackets. This crate reads such files for a locale, builds the
//! applications and their actions from them, splits their command templates,
//! fills in the files or URLs that a launch brings, and decides, step by
//! step, how an application is launched.
//!
//! The crate reads no file, looks at no directory and starts no process: the
//! caller hands in texts, and what it found at the paths that the crate asks
//! for, and is told what to do next. The one thing that the crate asks the
//! system itself is who runs the process, and who belongs to a group, when it
//! decides whether a file may be executed.
//!
//! Every function states what it returns over the mathematical value of its
//! arguments: texts are sequences of characters, lists are sequences, and a
//! table is the sequence of its entries.
//!
//! - [`text`]: characters and strings, trimming and searching.
//! - [`locale`]: locales, and how well one matches another.
//! - [`table`]: a map from text to values that keeps the order of its keys.
//! - [`localised`]: the variants of a value, and the choice among them.
//! - [`parse`]: the sections of a desktop file.
//! - [`entry`], [`desktopfile`]: applications and actions as a file describes
//!   them.
//! - [`exec`]: command templates and command lines.
//! - [`application`]: applications as they are launched, and the search for
//!   their programs.
//! - [`visible`]: the applications that a desktop shows.
//! - [`freedesktop`]: a set of desktop files.
//! - [`env`], [`keyword`], [`search`]: all that can be launched, and finding
//!   one of them by a keyword.
//! - [`launch`]: the steps of a launch.
//! - [`iteratorext`]: filtering sequences of results.
//! - [`errors`]: what can go wrong.

pub mod application;
pub mod desktopfile;
pub mod entry;
pub mod env;
pub mod errors;
pub mod exec;
pub mod freedesktop;
pub mod iteratorext;
pub mod keyword;
pub mod launch;
pub mod locale;
pub mod localised;
pub mod parse;
pub mod search;
pub mod table;
pub mod text;
pub mod visible;
