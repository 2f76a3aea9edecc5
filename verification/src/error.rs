//! Error-message shaping shared by the surrounding application: uniform
//! conversions from library and I/O errors to user-facing text.

use vstd::prelude::*;
use crate::strutil::{dec_rep, u64_to_string};

verus! {

/// The kinds of I/O failure given a message of their own.
#[derive(Debug, Clone, Copy, PartialEq, Eq, Structural)]
pub enum IoErrorClass {
    NotFound,
    PermissionDenied,
    AlreadyExists,
    WouldBlock,
    InvalidInput,
    InvalidData,
    TimedOut,
    WriteZero,
    Interrupted,
    UnexpectedEof,
    Other,
}

/// Relies on std::io::Error: declared so values can pass through.
#[verifier::external_type_specification]
#[verifier::external_body]
pub struct ExIoError(std::io::Error);

/// Relies on anyhow::Error: declared so values can pass through.
#[verifier::external_type_specification]
#[verifier::external_body]
pub struct ExAnyhowError(anyhow::Error);

/// Relies on std::io::Error::kind: one arm per error kind, telling the
/// variants apart; nothing is promised of which class comes back.
#[verifier::external_body]
fn io_error_class(e: &std::io::Error) -> IoErrorClass {
    match e.kind() {
        std::io::ErrorKind::NotFound => IoErrorClass::NotFound,
        std::io::ErrorKind::PermissionDenied => IoErrorClass::PermissionDenied,
        std::io::ErrorKind::AlreadyExists => IoErrorClass::AlreadyExists,
        std::io::ErrorKind::WouldBlock => IoErrorClass::WouldBlock,
        std::io::ErrorKind::InvalidInput => IoErrorClass::InvalidInput,
        std::io::ErrorKind::InvalidData => IoErrorClass::InvalidData,
        std::io::ErrorKind::TimedOut => IoErrorClass::TimedOut,
        std::io::ErrorKind::WriteZero => IoErrorClass::WriteZero,
        std::io::ErrorKind::Interrupted => IoErrorClass::Interrupted,
        std::io::ErrorKind::UnexpectedEof => IoErrorClass::UnexpectedEof,
        _ => IoErrorClass::Other,
    }
}

/// Relies on std::io::Error's Display form; nothing is promised of the
/// text.
#[verifier::external_body]
fn io_error_text(e: &std::io::Error) -> String {
    format!("{}", e)
}

/// Relies on anyhow::Error's Display form; nothing is promised of the
/// text.
#[verifier::external_body]
fn anyhow_text(e: &anyhow::Error) -> String {
    format!("{}", e)
}

/// The message for an I/O failure of this class, around its own text.
pub open spec fn io_message_spec(class: IoErrorClass, text: Seq<char>) -> Seq<char> {
    match class {
        IoErrorClass::NotFound => "文件或目录不存在: "@ + text,
        IoErrorClass::PermissionDenied => "权限不足: "@ + text,
        IoErrorClass::AlreadyExists => "文件或目录已存在: "@ + text,
        IoErrorClass::WouldBlock => "操作将会阻塞"@,
        IoErrorClass::InvalidInput => "无效的输入: "@ + text,
        IoErrorClass::InvalidData => "无效的数据: "@ + text,
        IoErrorClass::TimedOut => "操作超时"@,
        IoErrorClass::WriteZero => "无法写入数据"@,
        IoErrorClass::Interrupted => "操作被中断"@,
        IoErrorClass::UnexpectedEof => "意外的文件结束"@,
        IoErrorClass::Other => "IO 错误: "@ + text,
    }
}

/// Builds the user-facing message for an I/O failure class and its text.
pub fn io_message_for(class: IoErrorClass, text: &str) -> (r: String)
    ensures
        r@ == io_message_spec(class, text@),
{
    match class {
        IoErrorClass::NotFound => prefixed_with("文件或目录不存在: ", text),
        IoErrorClass::PermissionDenied => prefixed_with("权限不足: ", text),
        IoErrorClass::AlreadyExists => prefixed_with("文件或目录已存在: ", text),
        IoErrorClass::WouldBlock => "操作将会阻塞".to_owned(),
        IoErrorClass::InvalidInput => prefixed_with("无效的输入: ", text),
        IoErrorClass::InvalidData => prefixed_with("无效的数据: ", text),
        IoErrorClass::TimedOut => "操作超时".to_owned(),
        IoErrorClass::WriteZero => "无法写入数据".to_owned(),
        IoErrorClass::Interrupted => "操作被中断".to_owned(),
        IoErrorClass::UnexpectedEof => "意外的文件结束".to_owned(),
        IoErrorClass::Other => prefixed_with("IO 错误: ", text),
    }
}

/// `head` followed by `tail`.
fn prefixed_with(head: &str, tail: &str) -> (r: String)
    ensures
        r@ == head@ + tail@,
{
    let mut s = head.to_owned();
    crate::strutil::push_str(&mut s, tail);
    s
}

/// Turns an I/O error into a user-facing message, classed by its kind.
pub fn io_error_to_string(e: std::io::Error) -> (r: String)
    ensures
        exists|class: IoErrorClass, text: Seq<char>| r@ == io_message_spec(class, text),
{
    let class = io_error_class(&e);
    let text = io_error_text(&e);
    let r = io_message_for(class, text.as_str());
    proof {
        assert(r@ == io_message_spec(class, text@));
    }
    r
}

/// Maps the error of a fallible result to its display text; the success
/// value passes through untouched.
pub fn to_string_error<T>(result: Result<T, anyhow::Error>) -> (r: Result<T, String>)
    ensures
        result is Ok <==> r is Ok,
        result is Ok ==> r == Result::<T, String>::Ok(result.unwrap()),
{
    match result {
        Ok(v) => Ok(v),
        Err(e) => Err(anyhow_text(&e)),
    }
}

/// Like `to_string_error`, with a context prefix before the error text.
pub fn to_string_error_ctx<T>(result: Result<T, anyhow::Error>, context: &str) -> (r: Result<
    T,
    String,
>)
    ensures
        result is Ok <==> r is Ok,
        result is Ok ==> r == Result::<T, String>::Ok(result.unwrap()),
        result is Err ==> r is Err && (exists|rest: Seq<char>|
            (r->Err_0)@ == context@ + ": "@ + rest),
{
    match result {
        Ok(v) => Ok(v),
        Err(e) => {
            let text = anyhow_text(&e);
            let mut s = context.to_owned();
            crate::strutil::push_str(&mut s, ": ");
            crate::strutil::push_str(&mut s, text.as_str());
            proof {
                assert(s@ == context@ + ": "@ + text@);
            }
            Err(s)
        },
    }
}

/// One database failure, told apart and carried as plain values.
#[derive(Debug)]
pub enum DbErrorInfo {
    QueryReturnedNoRows,
    /// The extended result code and the accompanying message, if any.
    SqliteFailure(i32, Option<String>),
    /// Column index, column name, and the type's display text.
    InvalidColumnType(usize, String, String),
    InvalidColumnIndex(usize),
    InvalidColumnName(String),
    ExecuteReturnedResults,
    InvalidQuery,
    /// Any other failure, as its display text.
    Other(String),
}

/// Relies on rusqlite::Error: declared so values can pass through.
#[verifier::external_type_specification]
#[verifier::external_body]
pub struct ExRusqliteError(rusqlite::Error);

/// Relies on rusqlite::Error's variants: one arm each, moving the fields
/// out; the column type and the fallback carry their display text.
#[verifier::external_body]
fn db_error_info(e: rusqlite::Error) -> DbErrorInfo {
    match e {
        rusqlite::Error::QueryReturnedNoRows => DbErrorInfo::QueryReturnedNoRows,
        rusqlite::Error::SqliteFailure(err, msg) => DbErrorInfo::SqliteFailure(err.extended_code, msg),
        rusqlite::Error::InvalidColumnType(idx, name, ty) => DbErrorInfo::InvalidColumnType(idx, name, format!("{:?}", ty)),
        rusqlite::Error::InvalidColumnIndex(idx) => DbErrorInfo::InvalidColumnIndex(idx),
        rusqlite::Error::InvalidColumnName(name) => DbErrorInfo::InvalidColumnName(name),
        rusqlite::Error::ExecuteReturnedResults => DbErrorInfo::ExecuteReturnedResults,
        rusqlite::Error::InvalidQuery => DbErrorInfo::InvalidQuery,
        other => DbErrorInfo::Other(format!("{}", other)),
    }
}

/// The decimal rendering of a signed number.
pub open spec fn dec_rep_signed(v: int) -> Seq<char> {
    if v < 0 {
        seq!['-'] + dec_rep((-v) as nat)
    } else {
        dec_rep(v as nat)
    }
}

/// Renders a signed number in decimal.
fn i64_to_string(v: i64) -> (r: String)
    ensures
        r@ == dec_rep_signed(v as int),
{
    if v < 0 {
        let mut s = "-".to_owned();
        let mag: u64 = if v == i64::MIN {
            9223372036854775808u64
        } else {
            (-v) as u64
        };
        let num = u64_to_string(mag);
        crate::strutil::push_str(&mut s, num.as_str());
        proof {
            reveal_strlit("-");
            assert("-"@ =~= seq!['-']);
        }
        s
    } else {
        u64_to_string(v as u64)
    }
}

/// The message for one database failure.
pub open spec fn db_message_spec(info: DbErrorInfo) -> Seq<char> {
    match info {
        DbErrorInfo::QueryReturnedNoRows => "查询未返回任何行"@,
        DbErrorInfo::SqliteFailure(code, msg) => "数据库错误 (代码 "@ + dec_rep_signed(
            code as int,
        ) + "): "@ + match msg {
            Some(m) => m@,
            None => "未知数据库错误"@,
        },
        DbErrorInfo::InvalidColumnType(idx, name, ty) => "列类型错误: 列 "@ + name@
            + " (索引 "@ + dec_rep(idx as nat) + ") 的类型为 "@ + ty@,
        DbErrorInfo::InvalidColumnIndex(idx) => "无效的列索引: "@ + dec_rep(idx as nat),
        DbErrorInfo::InvalidColumnName(name) => "无效的列名: "@ + name@,
        DbErrorInfo::ExecuteReturnedResults => "执行语句返回了结果（应使用查询）"@,
        DbErrorInfo::InvalidQuery => "无效的查询语句"@,
        DbErrorInfo::Other(text) => "数据库错误: "@ + text@,
    }
}

/// Builds the user-facing message for one database failure.
pub fn db_message_for(info: &DbErrorInfo) -> (r: String)
    ensures
        r@ == db_message_spec(*info),
{
    match info {
        DbErrorInfo::QueryReturnedNoRows => "查询未返回任何行".to_owned(),
        DbErrorInfo::SqliteFailure(code, msg) => {
            let mut s = "数据库错误 (代码 ".to_owned();
            let num = i64_to_string(*code as i64);
            crate::strutil::push_str(&mut s, num.as_str());
            crate::strutil::push_str(&mut s, "): ");
            match msg {
                Some(m) => crate::strutil::push_str(&mut s, m.as_str()),
                None => crate::strutil::push_str(&mut s, "未知数据库错误"),
            }
            s
        },
        DbErrorInfo::InvalidColumnType(idx, name, ty) => {
            let mut s = "列类型错误: 列 ".to_owned();
            crate::strutil::push_str(&mut s, name.as_str());
            crate::strutil::push_str(&mut s, " (索引 ");
            let num = u64_to_string(*idx as u64);
            crate::strutil::push_str(&mut s, num.as_str());
            crate::strutil::push_str(&mut s, ") 的类型为 ");
            crate::strutil::push_str(&mut s, ty.as_str());
            s
        },
        DbErrorInfo::InvalidColumnIndex(idx) => {
            let mut s = "无效的列索引: ".to_owned();
            let num = u64_to_string(*idx as u64);
            crate::strutil::push_str(&mut s, num.as_str());
            s
        },
        DbErrorInfo::InvalidColumnName(name) => {
            let mut s = "无效的列名: ".to_owned();
            crate::strutil::push_str(&mut s, name.as_str());
            s
        },
        DbErrorInfo::ExecuteReturnedResults => "执行语句返回了结果（应使用查询）".to_owned(),
        DbErrorInfo::InvalidQuery => "无效的查询语句".to_owned(),
        DbErrorInfo::Other(text) => {
            let mut s = "数据库错误: ".to_owned();
            crate::strutil::push_str(&mut s, text.as_str());
            s
        },
    }
}

/// Turns a database error into a user-facing message, told apart by
/// variant.
pub fn db_error_to_string(e: rusqlite::Error) -> (r: String)
    ensures
        exists|info: DbErrorInfo| r@ == db_message_spec(info),
{
    let info = db_error_info(e);
    let r = db_message_for(&info);
    proof {
        assert(r@ == db_message_spec(info));
    }
    r
}

/// Joins messages with `"; "`.
pub open spec fn joined_with_semicolons(v: Seq<String>, upto: int) -> Seq<char>
    decreases upto,
{
    if upto <= 0 {
        Seq::empty()
    } else if upto == 1 {
        v[0]@
    } else {
        joined_with_semicolons(v, upto - 1) + "; "@ + v[upto - 1]@
    }
}

/// Combines messages into one: none gives a fixed phrase, one passes
/// through, several are counted and joined.
pub fn combine_errors(errors: &Vec<String>) -> (r: String)
    ensures
        errors@.len() == 0 ==> r@ == "无错误"@,
        errors@.len() == 1 ==> r@ == errors@[0]@,
        errors@.len() > 1 ==> r@ == "发生 "@ + dec_rep(errors@.len() as nat) + " 个错误: "@
            + joined_with_semicolons(errors@, errors@.len() as int),
{
    let n = errors.len();
    if n == 0 {
        "无错误".to_owned()
    } else if n == 1 {
        errors[0].clone()
    } else {
        let mut s = "发生 ".to_owned();
        let num = u64_to_string(n as u64);
        crate::strutil::push_str(&mut s, num.as_str());
        crate::strutil::push_str(&mut s, " 个错误: ");
        let mut joined = errors[0].clone();
        let mut i: usize = 1;
        while i < n
            invariant
                n == errors@.len(),
                1 <= i <= n,
                joined@ == joined_with_semicolons(errors@, i as int),
            decreases n - i,
        {
            crate::strutil::push_str(&mut joined, "; ");
            crate::strutil::push_str(&mut joined, errors[i].as_str());
            i += 1;
        }
        crate::strutil::push_str(&mut s, joined.as_str());
        s
    }
}

/// `prefix`, a separator, and the error text.
pub fn prefixed_error(prefix: &str, error: &str) -> (r: String)
    ensures
        r@ == prefix@ + ": "@ + error@,
{
    let mut s = prefix.to_owned();
    crate::strutil::push_str(&mut s, ": ");
    crate::strutil::push_str(&mut s, error);
    s
}

/// The error text followed by a suggestion.
pub fn error_with_suggestion(error: &str, suggestion: &str) -> (r: String)
    ensures
        r@ == error@ + "。建议: "@ + suggestion@,
{
    let mut s = error.to_owned();
    crate::strutil::push_str(&mut s, "。建议: ");
    crate::strutil::push_str(&mut s, suggestion);
    s
}

} // verus!
