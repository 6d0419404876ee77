//! Incremental SQL statement engine.
//!
//! The library splits raw SQL source text into individually addressable
//! statement ranges without requiring a full grammar parse, tracks those
//! statements across successive edits under stable identities, and memoizes
//! per-statement derived artifacts (typed summaries, lossless trees, embedded
//! function bodies, lightweight annotations) in independent cache stores.

pub mod annotation;
pub mod change;
pub mod completions;
pub mod console;
pub mod cst;
pub mod diagnostics;
pub mod document;
pub mod lexer;
pub mod parsed_document;
pub mod pg_query;
pub mod splitter;
pub mod sql_function;
pub mod statement_identifier;
pub mod store;
pub mod text_range;

pub use annotation::{AnnotationStore, StatementAnnotations};
pub use change::{ChangeFileParams, ChangeParams, StatementChange};
pub use completions::{
    get_statement_for_completions, ClauseType, CompletionItem, CompletionItemKind,
    CompletionResult, CompletionText, CompletionsResult, GetCompletionsParams, InputQuery,
    WrappingNode, CURSOR_POS,
};
pub use console::{
    BufferConsole, Bytes, ColorMode, Console, ConsoleExt, LogLevel, MarkupBuf, MarkupElement,
    MarkupElements, MarkupNode, Message,
};
pub use cst::{CstStore, SyntaxTree};
pub use diagnostics::{SplitDiagnostic, SyntaxDiagnostic};
pub use document::Document;
pub use lexer::{SyntaxKind, Token};
pub use parsed_document::{
    AsyncDiagnosticsMapper, CursorPositionFilter, DefaultMapper, ExecuteStatementMapper,
    GetCompletionsFilter, GetCompletionsMapper, IdFilter, NoFilter, ParsedDocument,
    StatementFilter, StatementMapper, SyncDiagnosticsMapper,
};
pub use pg_query::{PgQueryStore, SqlAst};
pub use sql_function::{SQLFunctionBody, SQLFunctionBodyStore};
pub use statement_identifier::{RootId, StatementId, StatementIdGenerator};
pub use text_range::TextRange;
