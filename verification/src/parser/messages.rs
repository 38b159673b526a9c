//! The diagnostics that `Error` statements carry.

use vstd::prelude::*;

verus! {

/// No term begins with the token that was found.
pub const UNEXPECTED_TOKEN: &'static str = "予期しないトークン";

/// The `)` that closes the arguments of a call is missing.
pub const UNCLOSED_CALL: &'static str = "関数呼び出しの)が必要";

/// The `}` that closes a block is missing.
pub const UNCLOSED_BLOCK: &'static str = "} が必要です";

/// `for` is not followed by the name of the loop variable.
pub const FOR_NEEDS_VARIABLE: &'static str = "forの後に変数名が必要です";

/// The loop variable is not followed by `in`.
pub const FOR_NEEDS_IN: &'static str = "in が必要です";

/// `import` is followed neither by a file nor by a module.
pub const IMPORT_NEEDS_FILE: &'static str = "importの後にファイル名が必要です";

/// `use` is followed neither by a module nor by a file.
pub const USE_NEEDS_MODULE: &'static str = "useの後にモジュール名が必要です";

/// The `)` that closes the argument of `print` is missing.
pub const UNCLOSED_PRINT: &'static str = "printの)が必要";

/// A `let` statement does not begin with `let`.
pub const LET_NEEDS_KEYWORD: &'static str = "let が必要です";

/// `let` is not followed by the name of the variable.
pub const LET_NEEDS_NAME: &'static str = "変数名が必要です";

/// The `:` behind the variable is not followed by the name of a type.
pub const LET_NEEDS_TYPE: &'static str = ": の後に型名が必要です";

/// The `=` of a `let` statement is missing.
pub const LET_NEEDS_VALUE: &'static str = "= が必要です";

/// A function definition does not begin with `fn`.
pub const FN_NEEDS_KEYWORD: &'static str = "fnキーワードが必要です";

/// `fn` is not followed by the name of the function.
pub const FN_NEEDS_NAME: &'static str = "関数名が必要です";

/// The `(` that opens the parameters is missing.
pub const FN_NEEDS_PARAMS: &'static str = "( が必要です";

/// The parameters are not names between commas, closed by `)`.
pub const FN_BAD_PARAMS: &'static str = "引数リストが不正です";

/// The `{` that opens the body is missing.
pub const FN_NEEDS_BODY: &'static str = "{ が必要です";

/// What is put behind the name of a module to name its file.
pub const MODULE_EXTENSION: &'static str = ".nasl";

} // verus!
