//! Semantic analysis for Chronlang, a language for describing how languages
//! change over time. A source is parsed to a stream of statements; the
//! statements are compiled, in order, into a project: a table of named
//! symbols and the lists of languages, words, sound changes, milestones and
//! tags. Imports are followed through a resolver and bring, from the project
//! of the imported module, the requested symbols with everything that they
//! depend on.
//!
//! - [`syntax`]: the parser's tree and the views that contracts speak of;
//! - [`parsing`]: the step from text to statements;
//! - [`tag`], [`language`], [`word`]: what statements turn into;
//! - [`project`]: the symbol table and imports between projects;
//! - [`resolver`]: where the text of a module comes from;
//! - [`semantics`]: what each statement makes of a compilation;
//! - [`compiler`]: the compiler itself;
//! - [`table_laws`], [`compiler_laws`]: what holds of every table and of
//!   every compilation.

pub mod compiler;
pub mod compiler_laws;
pub mod language;
pub mod parsing;
pub mod project;
pub mod resolver;
pub mod semantics;
pub mod syntax;
pub mod table_laws;
pub mod tag;
pub mod word;
