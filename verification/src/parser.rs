//! Recursive-descent parser for API declarations.
//!
//! One function declaration per line:
//!
//! ```text
//! func_decl   := ["DLLEXPORT"] type name "(" arg_list ")" attr* ";"
//! arg_list    := arg ("," arg)* | "void"
//! arg         := type ["*"] name
//! type        := "void" | "uint64_t" | "Error" | "Arena"
//!              | "Dict" "(" name ")" | "ArrayOf" "(" simple_type ")"
//!              | simple_type
//! attr        := "FUNC_API_SINCE" "(" number ")" | "FUNC_API_FAST"
//!              | "FUNC_API_REMOTE_ONLY" | "FUNC_API_CHECK_TEXTLOCK"
//! keyset_decl := ... "typedef" "struct" "{" field* "}" "Dict" "(" name ")" ";"
//! field       := "Object" name ";"
//! ```
//!
//! A function-declaration line that fails to parse is dropped from the
//! result set; an unparsable keyset section aborts the whole run.
//!
//! Every parsing step has a mathematical twin written over the token
//! sequence, and the executable parser is proved to return exactly what the
//! twin describes.

use vstd::prelude::*;

use crate::model::{
    ApiArg, ApiFunc, ApiFuncArgs, ApiFuncAttrs, ApiFuncReturn, ApiKeyset, ApiType, ApiVersion,
    ApiArrayType, ApiDictionaryType, ApiField, ArgV, FuncArgsV, FuncAttrsV, FuncReturnV, FuncV,
    KeysetV, TypeV,
};
use crate::token::{
    is_special_token, lex, spec_parse_i32, ParseError, ParseErrorKind, TokenIterator, token_is,
};

verus! {

// ---------------------------------------------------------------------------
// Spec-level parser.  Each function consumes tokens from the front of a
// token sequence and yields the parsed value together with the remaining
// tokens, or nothing when the input does not follow the grammar.
// ---------------------------------------------------------------------------
/// View of one parsed argument-or-role: either a normal typed argument, a
/// keyset argument still to be resolved, or one of the implicit roles that
/// are dropped from the declared argument list.
pub enum TypeCaseV {
    Normal(TypeV),
    Keyset(Seq<char>),
    Void,
    ChannelId,
    Arena,
    Error,
}

/// The simple (non-nested) type names.
pub open spec fn spec_simple_type(name: Seq<char>) -> Option<TypeV> {
    if name == "Boolean"@ {
        Option::Some(TypeV::Boolean)
    } else if name == "Integer"@ {
        Option::Some(TypeV::Integer)
    } else if name == "Float"@ {
        Option::Some(TypeV::Float)
    } else if name == "String"@ {
        Option::Some(TypeV::String)
    } else if name == "Array"@ {
        Option::Some(TypeV::Array(Option::None))
    } else if name == "Dictionary"@ {
        Option::Some(TypeV::Dictionary(Option::None))
    } else if name == "LuaRef"@ {
        Option::Some(TypeV::LuaRef)
    } else if name == "Buffer"@ {
        Option::Some(TypeV::Buffer)
    } else if name == "Window"@ {
        Option::Some(TypeV::Window)
    } else if name == "Tabpage"@ {
        Option::Some(TypeV::Tabpage)
    } else if name == "Object"@ {
        Option::Some(TypeV::Object)
    } else {
        Option::None
    }
}

/// The type names that take a parenthesized inner type.
pub open spec fn spec_is_nested_type(name: Seq<char>) -> bool {
    name == "ArrayOf"@ || name == "Dict"@
}

/// A nested type from its outer and inner type names.
pub open spec fn spec_nested_type(name: Seq<char>, inner: Seq<char>) -> Option<TypeV> {
    if name == "ArrayOf"@ {
        match spec_simple_type(inner) {
            Option::Some(t) => Option::Some(TypeV::Array(Option::Some(Box::new(t)))),
            Option::None => Option::None,
        }
    } else if name == "DictionaryOf"@ {
        match spec_simple_type(inner) {
            Option::Some(t) => Option::Some(TypeV::Dictionary(Option::Some(Box::new(t)))),
            Option::None => Option::None,
        }
    } else {
        Option::None
    }
}

/// `"(" identifier ")"`, yielding the identifier.
pub open spec fn spec_parse_single_arg(toks: Seq<Seq<char>>) -> Option<(Seq<char>, Seq<Seq<char>>)> {
    if toks.len() >= 3 && toks[0] == "("@ && !is_special_token(toks[1]) && toks[2] == ")"@ {
        Option::Some((toks[1], toks.skip(3)))
    } else {
        Option::None
    }
}

/// One type, classified into its argument role.
pub open spec fn spec_parse_type(toks: Seq<Seq<char>>) -> Option<(TypeCaseV, Seq<Seq<char>>)> {
    if toks.len() == 0 || is_special_token(toks[0]) {
        Option::None
    } else {
        let name = toks[0];
        let rest = toks.drop_first();
        if name == "void"@ {
            Option::Some((TypeCaseV::Void, rest))
        } else if name == "uint64_t"@ {
            Option::Some((TypeCaseV::ChannelId, rest))
        } else if name == "Error"@ {
            Option::Some((TypeCaseV::Error, rest))
        } else if name == "Arena"@ {
            Option::Some((TypeCaseV::Arena, rest))
        } else if name == "Dict"@ {
            match spec_parse_single_arg(rest) {
                Option::Some((keyset, rest2)) => Option::Some((TypeCaseV::Keyset(keyset), rest2)),
                Option::None => Option::None,
            }
        } else if spec_is_nested_type(name) {
            match spec_parse_single_arg(rest) {
                Option::Some((inner, rest2)) => match spec_nested_type(name, inner) {
                    Option::Some(t) => Option::Some((TypeCaseV::Normal(t), rest2)),
                    Option::None => Option::None,
                },
                Option::None => Option::None,
            }
        } else {
            match spec_simple_type(name) {
                Option::Some(t) => Option::Some((TypeCaseV::Normal(t), rest)),
                Option::None => Option::None,
            }
        }
    }
}

/// Argument roles whose declaration carries a `*` before the name.
pub open spec fn spec_arg_is_pointer(tc: TypeCaseV) -> bool {
    tc is Keyset || tc is Arena || tc is Error
}

/// One argument: a type, a `*` for the pointer roles, and a name.  A lone
/// `void` takes no name.
pub open spec fn spec_parse_arg(toks: Seq<Seq<char>>) -> Option<
    ((TypeCaseV, Seq<char>), Seq<Seq<char>>),
> {
    match spec_parse_type(toks) {
        Option::None => Option::None,
        Option::Some((tc, rest)) => {
            if tc is Void {
                Option::Some(((tc, Seq::empty()), rest))
            } else if spec_arg_is_pointer(tc) {
                if rest.len() >= 2 && rest[0] == "*"@ && !is_special_token(rest[1]) {
                    Option::Some(((tc, rest[1]), rest.skip(2)))
                } else {
                    Option::None
                }
            } else {
                if rest.len() >= 1 && !is_special_token(rest[0]) {
                    Option::Some(((tc, rest[0]), rest.drop_first()))
                } else {
                    Option::None
                }
            }
        },
    }
}

pub proof fn lemma_parse_type_consumes(toks: Seq<Seq<char>>)
    ensures
        spec_parse_type(toks) matches Option::Some((tc, rest)) ==> rest.len() < toks.len(),
{
    if spec_parse_type(toks) is Some {
        assert(toks.drop_first().len() == toks.len() - 1);
        let rest1 = toks.drop_first();
        if spec_parse_single_arg(rest1) is Some {
            assert(rest1.skip(3).len() == rest1.len() - 3);
        }
    }
}

pub proof fn lemma_parse_arg_consumes(toks: Seq<Seq<char>>)
    ensures
        spec_parse_arg(toks) matches Option::Some((a, rest)) ==> rest.len() < toks.len(),
{
    lemma_parse_type_consumes(toks);
}

// ---------------------------------------------------------------------------
// Executable parser for types and arguments.
// ---------------------------------------------------------------------------
/// One parsed argument-or-role.
#[derive(Debug)]
pub enum ParseTypeCase {
    /// A normal typed argument or return type.
    Normal(ApiType),
    /// A keyset argument, by the declared keyset name.
    Keyset(String),
    /// The `void` marker.
    Void,
    /// The implicit caller-identity channel id.
    ChannelId,
    /// The implicit scratch arena.
    Arena,
    /// The error-out marker, which sets the error flag on the return.
    Error,
}

impl View for ParseTypeCase {
    type V = TypeCaseV;

    open spec fn view(&self) -> TypeCaseV {
        match self {
            ParseTypeCase::Normal(t) => TypeCaseV::Normal(t@),
            ParseTypeCase::Keyset(s) => TypeCaseV::Keyset(s@),
            ParseTypeCase::Void => TypeCaseV::Void,
            ParseTypeCase::ChannelId => TypeCaseV::ChannelId,
            ParseTypeCase::Arena => TypeCaseV::Arena,
            ParseTypeCase::Error => TypeCaseV::Error,
        }
    }
}

impl ParseTypeCase {
    /// Whether the argument is declared through a pointer, so that a `*`
    /// stands between the type and the name.
    pub fn arg_is_pointer(&self) -> (b: bool)
        ensures
            b == spec_arg_is_pointer(self@),
    {
        matches!(self, ParseTypeCase::Keyset(_) | ParseTypeCase::Arena | ParseTypeCase::Error)
    }
}

impl ApiType {
    /// The simple (non-nested) type of the given name, if any.
    pub fn simple_type_from_str(name: &str) -> (r: Option<ApiType>)
        ensures
            match r {
                Option::Some(t) => spec_simple_type(name@) == Option::Some(t@),
                Option::None => spec_simple_type(name@) is None,
            },
    {
        if crate::token::str_eq(name, "Boolean") {
            Option::Some(ApiType::Boolean)
        } else if crate::token::str_eq(name, "Integer") {
            Option::Some(ApiType::Integer)
        } else if crate::token::str_eq(name, "Float") {
            Option::Some(ApiType::Float)
        } else if crate::token::str_eq(name, "String") {
            Option::Some(ApiType::String)
        } else if crate::token::str_eq(name, "Array") {
            Option::Some(ApiType::Array(ApiArrayType { inner_type: Option::None }))
        } else if crate::token::str_eq(name, "Dictionary") {
            Option::Some(ApiType::Dictionary(ApiDictionaryType { inner_type: Option::None }))
        } else if crate::token::str_eq(name, "LuaRef") {
            Option::Some(ApiType::LuaRef)
        } else if crate::token::str_eq(name, "Buffer") {
            Option::Some(ApiType::Buffer)
        } else if crate::token::str_eq(name, "Window") {
            Option::Some(ApiType::Window)
        } else if crate::token::str_eq(name, "Tabpage") {
            Option::Some(ApiType::Tabpage)
        } else if crate::token::str_eq(name, "Object") {
            Option::Some(ApiType::Object)
        } else {
            Option::None
        }
    }

    /// Whether the name takes a parenthesized inner type.
    pub fn str_is_nested_type(name: &str) -> (b: bool)
        ensures
            b == spec_is_nested_type(name@),
    {
        crate::token::str_eq(name, "ArrayOf") || crate::token::str_eq(name, "Dict")
    }

    /// The nested type of the given outer and inner names, if any.
    pub fn nested_type_from_strs(name: &str, inner: &str) -> (r: Option<ApiType>)
        ensures
            match r {
                Option::Some(t) => spec_nested_type(name@, inner@) == Option::Some(t@),
                Option::None => spec_nested_type(name@, inner@) is None,
            },
    {
        if crate::token::str_eq(name, "ArrayOf") {
            match ApiType::simple_type_from_str(inner) {
                Option::Some(t) => Option::Some(
                    ApiType::Array(ApiArrayType { inner_type: Option::Some(Box::new(t)) }),
                ),
                Option::None => Option::None,
            }
        } else if crate::token::str_eq(name, "DictionaryOf") {
            match ApiType::simple_type_from_str(inner) {
                Option::Some(t) => Option::Some(
                    ApiType::Dictionary(ApiDictionaryType { inner_type: Option::Some(Box::new(t)) }),
                ),
                Option::None => Option::None,
            }
        } else {
            Option::None
        }
    }
}

/// Parses `"(" identifier ")"` and returns the identifier.
pub fn parse_single_arg(it: &mut TokenIterator) -> (r: Result<String, ParseError>)
    requires
        old(it).wf(),
    ensures
        final(it).wf(),
        match r {
            Result::Ok(name) => spec_parse_single_arg(old(it).remaining()) matches Option::Some(
                (n, rest),
            ) && name@ == n && final(it).remaining() == rest,
            Result::Err(_) => spec_parse_single_arg(old(it).remaining()) is None,
        },
{
    it.expect_next_token("(")?;
    let result = it.next_identifier()?;
    it.expect_next_token(")")?;
    proof {
        assert(old(it).remaining().skip(3) =~= old(
            it,
        ).remaining().drop_first().drop_first().drop_first());
    }
    Ok(result)
}

/// Parses one type and classifies it into its argument role.
pub fn parse_type(it: &mut TokenIterator) -> (r: Result<ParseTypeCase, ParseError>)
    requires
        old(it).wf(),
    ensures
        final(it).wf(),
        match r {
            Result::Ok(tc) => spec_parse_type(old(it).remaining()) matches Option::Some((v, rest))
                && v == tc@ && final(it).remaining() == rest,
            Result::Err(_) => spec_parse_type(old(it).remaining()) is None,
        },
{
    let name = it.next_identifier()?;
    if token_is(&name, "void") {
        Ok(ParseTypeCase::Void)
    } else if token_is(&name, "uint64_t") {
        Ok(ParseTypeCase::ChannelId)
    } else if token_is(&name, "Error") {
        Ok(ParseTypeCase::Error)
    } else if token_is(&name, "Arena") {
        Ok(ParseTypeCase::Arena)
    } else if token_is(&name, "Dict") {
        let keyset = parse_single_arg(it)?;
        Ok(ParseTypeCase::Keyset(keyset))
    } else if ApiType::str_is_nested_type(name.as_str()) {
        let inner = parse_single_arg(it)?;
        match ApiType::nested_type_from_strs(name.as_str(), inner.as_str()) {
            Option::Some(t) => Ok(ParseTypeCase::Normal(t)),
            Option::None => Err(ParseError { kind: ParseErrorKind::UnknownType }),
        }
    } else {
        match ApiType::simple_type_from_str(name.as_str()) {
            Option::Some(t) => Ok(ParseTypeCase::Normal(t)),
            Option::None => Err(ParseError { kind: ParseErrorKind::UnknownType }),
        }
    }
}

/// One parsed argument before classification: its role and its name.
#[derive(Debug)]
pub struct ParseApiArg {
    pub type_: ParseTypeCase,
    pub name: String,
}

impl View for ParseApiArg {
    type V = (TypeCaseV, Seq<char>);

    open spec fn view(&self) -> (TypeCaseV, Seq<char>) {
        (self.type_@, self.name@)
    }
}

impl DeepView for ParseApiArg {
    type V = (TypeCaseV, Seq<char>);

    open spec fn deep_view(&self) -> (TypeCaseV, Seq<char>) {
        self@
    }
}

/// Parses one argument: a type, a `*` for pointer roles, and a name.
pub fn parse_arg(it: &mut TokenIterator) -> (r: Result<ParseApiArg, ParseError>)
    requires
        old(it).wf(),
    ensures
        final(it).wf(),
        match r {
            Result::Ok(a) => spec_parse_arg(old(it).remaining()) matches Option::Some((v, rest))
                && v == a@ && final(it).remaining() == rest,
            Result::Err(_) => spec_parse_arg(old(it).remaining()) is None,
        },
{
    let type_ = parse_type(it)?;
    let name: String;
    if matches!(type_, ParseTypeCase::Void) {
        name = String::new();
    } else if type_.arg_is_pointer() {
        it.expect_next_token("*")?;
        name = it.next_identifier()?;
        proof {
            let rest = spec_parse_type(old(it).remaining())->Some_0.1;
            assert(rest.skip(2) =~= rest.drop_first().drop_first());
        }
    } else {
        name = it.next_identifier()?;
    }
    Ok(ParseApiArg { type_, name })
}

// ---------------------------------------------------------------------------
// Argument lists.
// ---------------------------------------------------------------------------
/// The arguments after the opening parenthesis: `arg ("," arg)* ")"`.
pub open spec fn spec_parse_args_rest(toks: Seq<Seq<char>>) -> Option<
    (Seq<(TypeCaseV, Seq<char>)>, Seq<Seq<char>>),
>
    decreases toks.len(),
    via spec_parse_args_rest_decreases
{
    match spec_parse_arg(toks) {
        Option::None => Option::None,
        Option::Some((a, rest)) => {
            if rest.len() == 0 {
                Option::None
            } else if rest[0] == ")"@ {
                Option::Some((seq![a], rest.drop_first()))
            } else if rest[0] == ","@ {
                match spec_parse_args_rest(rest.drop_first()) {
                    Option::None => Option::None,
                    Option::Some((more, rest2)) => Option::Some((seq![a] + more, rest2)),
                }
            } else {
                Option::None
            }
        },
    }
}

#[via_fn]
proof fn spec_parse_args_rest_decreases(toks: Seq<Seq<char>>) {
    lemma_parse_arg_consumes(toks);
}

/// A full argument list: `"(" arg ("," arg)* ")"`.
pub open spec fn spec_parse_args(toks: Seq<Seq<char>>) -> Option<
    (Seq<(TypeCaseV, Seq<char>)>, Seq<Seq<char>>),
> {
    if toks.len() >= 1 && toks[0] == "("@ {
        spec_parse_args_rest(toks.drop_first())
    } else {
        Option::None
    }
}

fn parse_args_rest(it: &mut TokenIterator, args: &mut Vec<ParseApiArg>) -> (r: Result<
    (),
    ParseError,
>)
    requires
        old(it).wf(),
    ensures
        final(it).wf(),
        match r {
            Result::Ok(_) => spec_parse_args_rest(old(it).remaining()) matches Option::Some(
                (vs, rest),
            ) && final(args).deep_view() == old(args).deep_view() + vs && final(it).remaining()
                == rest,
            Result::Err(_) => spec_parse_args_rest(old(it).remaining()) is None,
        },
    decreases it.remaining().len(),
{
    proof {
        lemma_parse_arg_consumes(it.remaining());
    }
    let a = parse_arg(it)?;
    let ghost av = a@;
    let ghost dv0 = args.deep_view();
    args.push(a);
    proof {
        assert(args.deep_view() =~= dv0.push(av));
    }
    let token = match it.next_token() {
        Option::None => {
            return Err(ParseError { kind: ParseErrorKind::UnexpectedEnd });
        },
        Option::Some(t) => t,
    };
    if token_is(&token, ")") {
        proof {
            assert(args.deep_view() =~= dv0 + seq![av]);
        }
        return Ok(());
    }
    if !token_is(&token, ",") {
        return Err(ParseError { kind: ParseErrorKind::UnexpectedToken });
    }
    let ghost dv1 = args.deep_view();
    let ghost rem1 = it.remaining();
    let r = parse_args_rest(it, args);
    match r {
        Result::Ok(_) => {
            proof {
                let more = spec_parse_args_rest(rem1)->Some_0.0;
                assert(dv1 =~= dv0 + seq![av]);
                assert((dv0 + seq![av]) + more =~= dv0 + (seq![av] + more));
            }
            Ok(())
        },
        Result::Err(e) => Err(e),
    }
}

/// Parses a parenthesized argument list.
pub fn parse_args(it: &mut TokenIterator) -> (r: Result<Vec<ParseApiArg>, ParseError>)
    requires
        old(it).wf(),
    ensures
        final(it).wf(),
        match r {
            Result::Ok(v) => spec_parse_args(old(it).remaining()) matches Option::Some((vs, rest))
                && v.deep_view() == vs && final(it).remaining() == rest,
            Result::Err(_) => spec_parse_args(old(it).remaining()) is None,
        },
{
    it.expect_next_token("(")?;
    let mut args: Vec<ParseApiArg> = Vec::new();
    let ghost dv0 = args.deep_view();
    parse_args_rest(it, &mut args)?;
    proof {
        let vs = spec_parse_args_rest(old(it).remaining().drop_first())->Some_0.0;
        assert(dv0 + vs =~= vs);
    }
    Ok(args)
}

// ---------------------------------------------------------------------------
// Attributes.
// ---------------------------------------------------------------------------
/// View of one parsed function attribute.
pub enum AttrV {
    Since(int),
    Fast,
    RemoteOnly,
    CheckTextLock,
}

/// One parsed function attribute.
#[derive(Debug)]
pub enum ParseAttribute {
    Since(i32),
    Fast,
    RemoteOnly,
    CheckTextLock,
}

impl View for ParseAttribute {
    type V = AttrV;

    open spec fn view(&self) -> AttrV {
        match self {
            ParseAttribute::Since(v) => AttrV::Since(*v as int),
            ParseAttribute::Fast => AttrV::Fast,
            ParseAttribute::RemoteOnly => AttrV::RemoteOnly,
            ParseAttribute::CheckTextLock => AttrV::CheckTextLock,
        }
    }
}

/// One attribute: a known attribute name, with a parenthesized version
/// number for the introduction-version attribute.
pub open spec fn spec_parse_attribute(toks: Seq<Seq<char>>) -> Option<(AttrV, Seq<Seq<char>>)> {
    if toks.len() == 0 || is_special_token(toks[0]) {
        Option::None
    } else {
        let name = toks[0];
        let rest = toks.drop_first();
        if name == "FUNC_API_SINCE"@ {
            if rest.len() >= 3 && rest[0] == "("@ && spec_parse_i32(rest[1]) is Some && rest[2]
                == ")"@ {
                Option::Some((AttrV::Since(spec_parse_i32(rest[1])->Some_0 as int), rest.skip(3)))
            } else {
                Option::None
            }
        } else if name == "FUNC_API_FAST"@ {
            Option::Some((AttrV::Fast, rest))
        } else if name == "FUNC_API_REMOTE_ONLY"@ {
            Option::Some((AttrV::RemoteOnly, rest))
        } else if name == "FUNC_API_CHECK_TEXTLOCK"@ {
            Option::Some((AttrV::CheckTextLock, rest))
        } else {
            Option::None
        }
    }
}

pub proof fn lemma_parse_attribute_consumes(toks: Seq<Seq<char>>)
    ensures
        spec_parse_attribute(toks) matches Option::Some((a, rest)) ==> rest.len() < toks.len(),
{
    if spec_parse_attribute(toks) is Some {
        assert(toks.drop_first().len() == toks.len() - 1);
    }
}

/// Parses one attribute.
pub fn parse_attributes(it: &mut TokenIterator) -> (r: Result<ParseAttribute, ParseError>)
    requires
        old(it).wf(),
    ensures
        final(it).wf(),
        match r {
            Result::Ok(a) => spec_parse_attribute(old(it).remaining()) matches Option::Some(
                (v, rest),
            ) && v == a@ && final(it).remaining() == rest,
            Result::Err(_) => spec_parse_attribute(old(it).remaining()) is None,
        },
{
    let attr = it.next_identifier()?;
    if token_is(&attr, "FUNC_API_SINCE") {
        it.expect_next_token("(")?;
        let version = it.next_number()?;
        it.expect_next_token(")")?;
        proof {
            let rest = old(it).remaining().drop_first();
            assert(rest.skip(3) =~= rest.drop_first().drop_first().drop_first());
        }
        Ok(ParseAttribute::Since(version))
    } else if token_is(&attr, "FUNC_API_FAST") {
        Ok(ParseAttribute::Fast)
    } else if token_is(&attr, "FUNC_API_REMOTE_ONLY") {
        Ok(ParseAttribute::RemoteOnly)
    } else if token_is(&attr, "FUNC_API_CHECK_TEXTLOCK") {
        Ok(ParseAttribute::CheckTextLock)
    } else {
        Err(ParseError { kind: ParseErrorKind::UnknownAttribute })
    }
}

/// Applies one attribute to the attribute set.
pub open spec fn spec_apply_attr(acc: FuncAttrsV, a: AttrV) -> FuncAttrsV {
    match a {
        AttrV::Since(v) => FuncAttrsV {
            since: Option::Some(v),
            fast: acc.fast,
            remote_only: acc.remote_only,
            check_text_lock: acc.check_text_lock,
        },
        AttrV::Fast => FuncAttrsV {
            since: acc.since,
            fast: true,
            remote_only: acc.remote_only,
            check_text_lock: acc.check_text_lock,
        },
        AttrV::RemoteOnly => FuncAttrsV {
            since: acc.since,
            fast: acc.fast,
            remote_only: true,
            check_text_lock: acc.check_text_lock,
        },
        AttrV::CheckTextLock => FuncAttrsV {
            since: acc.since,
            fast: acc.fast,
            remote_only: acc.remote_only,
            check_text_lock: true,
        },
    }
}

/// The attribute list before the terminating `;`.  The `;` itself and
/// whatever follows it are left unread.
pub open spec fn spec_parse_attrs(toks: Seq<Seq<char>>, acc: FuncAttrsV) -> Option<FuncAttrsV>
    decreases toks.len(),
    via spec_parse_attrs_decreases
{
    if toks.len() == 0 {
        Option::None
    } else if toks[0] == ";"@ {
        Option::Some(acc)
    } else {
        match spec_parse_attribute(toks) {
            Option::None => Option::None,
            Option::Some((a, rest)) => spec_parse_attrs(rest, spec_apply_attr(acc, a)),
        }
    }
}

#[via_fn]
proof fn spec_parse_attrs_decreases(toks: Seq<Seq<char>>, acc: FuncAttrsV) {
    lemma_parse_attribute_consumes(toks);
}

fn parse_attrs_into(it: &mut TokenIterator, attrs: &mut ApiFuncAttrs) -> (r: Result<
    (),
    ParseError,
>)
    requires
        old(it).wf(),
    ensures
        final(it).wf(),
        match r {
            Result::Ok(_) => spec_parse_attrs(old(it).remaining(), old(attrs)@) == Option::Some(
                final(attrs)@,
            ),
            Result::Err(_) => spec_parse_attrs(old(it).remaining(), old(attrs)@) is None,
        },
    decreases it.remaining().len(),
{
    let done = match it.peek_token() {
        Option::None => {
            return Err(ParseError { kind: ParseErrorKind::UnexpectedEnd });
        },
        Option::Some(t) => token_is(t, ";"),
    };
    if done {
        return Ok(());
    }
    proof {
        lemma_parse_attribute_consumes(it.remaining());
    }
    let a = parse_attributes(it)?;
    match a {
        ParseAttribute::Since(v) => {
            attrs.since = Option::Some(ApiVersion { version: v });
        },
        ParseAttribute::Fast => {
            attrs.fast = true;
        },
        ParseAttribute::RemoteOnly => {
            attrs.remote_only = true;
        },
        ParseAttribute::CheckTextLock => {
            attrs.check_text_lock = true;
        },
    }
    parse_attrs_into(it, attrs)
}

// ---------------------------------------------------------------------------
// Argument classification and whole-line parsing.
// ---------------------------------------------------------------------------
/// The keyset that a name resolves to: the one parsed latest under that
/// name, as a name parsed twice shadows the earlier keyset.
pub open spec fn spec_lookup_keyset(ks: Seq<KeysetV>, name: Seq<char>) -> Option<KeysetV>
    decreases ks.len(),
{
    if ks.len() == 0 {
        Option::None
    } else if ks.last().name == name {
        Option::Some(ks.last())
    } else {
        spec_lookup_keyset(ks.drop_last(), name)
    }
}

/// Looks a keyset name up among the previously parsed keysets.
pub fn lookup_keyset(keysets: &Vec<ApiKeyset>, name: &String) -> (r: Option<ApiKeyset>)
    ensures
        match r {
            Option::Some(k) => spec_lookup_keyset(keysets.deep_view(), name@) == Option::Some(k@),
            Option::None => spec_lookup_keyset(keysets.deep_view(), name@) is None,
        },
{
    let ghost full = keysets.deep_view();
    let mut i: usize = keysets.len();
    proof {
        assert(full.take(keysets.len() as int) =~= full);
    }
    while i > 0
        invariant
            i <= keysets.len(),
            full == keysets.deep_view(),
            spec_lookup_keyset(full, name@) == spec_lookup_keyset(full.take(i as int), name@),
        decreases i,
    {
        i = i - 1;
        proof {
            assert(full.take(i + 1).drop_last() =~= full.take(i as int));
            assert(full.take(i + 1).last() == full[i as int]);
            assert(full[i as int] == keysets[i as int].deep_view());
        }
        if crate::token::str_eq(keysets[i].name.as_str(), name.as_str()) {
            return Option::Some(keysets[i].clone());
        }
    }
    proof {
        assert(full.take(0) =~= Seq::<KeysetV>::empty());
    }
    Option::None
}

/// Folds the parsed arguments into the declared argument list and the
/// implicit call-shape and error flags.  `many` says whether the
/// declaration had more than one argument, which a `void` argument rules
/// out.
pub open spec fn spec_classify_args(
    parsed: Seq<(TypeCaseV, Seq<char>)>,
    many: bool,
    ks: Seq<KeysetV>,
    args: Seq<ArgV>,
    chan: bool,
    arena: bool,
    err: bool,
) -> Option<(Seq<ArgV>, bool, bool, bool)>
    decreases parsed.len(),
{
    if parsed.len() == 0 {
        Option::Some((args, chan, arena, err))
    } else {
        let tc = parsed[0].0;
        let nm = parsed[0].1;
        let rest = parsed.drop_first();
        match tc {
            TypeCaseV::Void => if many {
                Option::None
            } else {
                spec_classify_args(rest, many, ks, args, chan, arena, err)
            },
            TypeCaseV::ChannelId => spec_classify_args(rest, many, ks, args, true, arena, err),
            TypeCaseV::Arena => spec_classify_args(rest, many, ks, args, chan, true, err),
            TypeCaseV::Error => spec_classify_args(rest, many, ks, args, chan, arena, true),
            TypeCaseV::Normal(t) => spec_classify_args(
                rest,
                many,
                ks,
                args.push(ArgV { name: nm, type_: t }),
                chan,
                arena,
                err,
            ),
            TypeCaseV::Keyset(k) => match spec_lookup_keyset(ks, k) {
                Option::None => Option::None,
                Option::Some(info) => spec_classify_args(
                    rest,
                    many,
                    ks,
                    args.push(ArgV { name: nm, type_: TypeV::Keyset(info) }),
                    chan,
                    arena,
                    err,
                ),
            },
        }
    }
}

// ---------------------------------------------------------------------------
// Keyset sections.
// ---------------------------------------------------------------------------
/// One keyset field: an `Object`-typed name followed by `;`.  Any other
/// declared type is rejected: every field of a keyset holds the fully
/// dynamic object type.
pub open spec fn spec_parse_keyset_field(toks: Seq<Seq<char>>) -> Option<(Seq<char>, Seq<Seq<char>>)> {
    match spec_parse_type(toks) {
        Option::None => Option::None,
        Option::Some((tc, rest)) => {
            if !(tc matches TypeCaseV::Normal(TypeV::Object)) {
                Option::None
            } else if rest.len() >= 2 && !is_special_token(rest[0]) && rest[1] == ";"@ {
                Option::Some((rest[0], rest.skip(2)))
            } else {
                Option::None
            }
        },
    }
}

pub proof fn lemma_parse_keyset_field_consumes(toks: Seq<Seq<char>>)
    ensures
        spec_parse_keyset_field(toks) matches Option::Some((f, rest)) ==> rest.len() < toks.len(),
{
    lemma_parse_type_consumes(toks);
    if spec_parse_keyset_field(toks) is Some {
        let rest1 = spec_parse_type(toks)->Some_0.1;
        assert(rest1.skip(2).len() == rest1.len() - 2);
    }
}

/// The fields of a keyset, up to but not including the closing `}`.
pub open spec fn spec_parse_fields(toks: Seq<Seq<char>>) -> Option<(Seq<Seq<char>>, Seq<Seq<char>>)>
    decreases toks.len(),
    via spec_parse_fields_decreases
{
    if toks.len() == 0 {
        Option::None
    } else if toks[0] == "}"@ {
        Option::Some((Seq::empty(), toks))
    } else {
        match spec_parse_keyset_field(toks) {
            Option::None => Option::None,
            Option::Some((f, rest)) => match spec_parse_fields(rest) {
                Option::None => Option::None,
                Option::Some((fs, rest2)) => Option::Some((seq![f] + fs, rest2)),
            },
        }
    }
}

#[via_fn]
proof fn spec_parse_fields_decreases(toks: Seq<Seq<char>>) {
    lemma_parse_keyset_field_consumes(toks);
}

/// One step through a keyset header: tokens are skipped until `typedef`,
/// then `struct "{" field* "}" Dict "(" name ")"` is required.  The stream
/// may also end cleanly before any `typedef`.
pub enum KeysetStepV {
    /// The stream ended with no further keyset.
    Done,
    /// One more keyset, and the tokens after it.
    Next(KeysetV, Seq<Seq<char>>),
    /// The section does not follow the grammar.
    Fail,
}

pub open spec fn spec_parse_keyset(toks: Seq<Seq<char>>) -> KeysetStepV
    decreases toks.len(),
{
    if toks.len() == 0 {
        KeysetStepV::Done
    } else if toks[0] != "typedef"@ {
        spec_parse_keyset(toks.drop_first())
    } else {
        let rest = toks.drop_first();
        if rest.len() >= 2 && rest[0] == "struct"@ && rest[1] == "{"@ {
            match spec_parse_fields(rest.skip(2)) {
                Option::None => KeysetStepV::Fail,
                Option::Some((fields, rest2)) => {
                    match spec_parse_type(rest2.drop_first()) {
                        Option::Some((TypeCaseV::Keyset(name), rest3)) => KeysetStepV::Next(
                            KeysetV { name, fields },
                            rest3,
                        ),
                        _ => KeysetStepV::Fail,
                    }
                },
            }
        } else {
            KeysetStepV::Fail
        }
    }
}

pub proof fn lemma_parse_keyset_consumes(toks: Seq<Seq<char>>)
    ensures
        spec_parse_keyset(toks) matches KeysetStepV::Next(k, rest) ==> rest.len() < toks.len(),
    decreases toks.len(),
{
    if toks.len() > 0 {
        if toks[0] != "typedef"@ {
            lemma_parse_keyset_consumes(toks.drop_first());
        } else {
            let rest = toks.drop_first();
            if rest.len() >= 2 && rest[0] == "struct"@ && rest[1] == "{"@ {
                match spec_parse_fields(rest.skip(2)) {
                    Option::None => {},
                    Option::Some((fields, rest2)) => {
                        lemma_parse_fields_bound(rest.skip(2));
                        lemma_parse_type_consumes(rest2.drop_first());
                    },
                }
            }
        }
    }
}

pub proof fn lemma_parse_fields_bound(toks: Seq<Seq<char>>)
    ensures
        spec_parse_fields(toks) matches Option::Some((fs, rest)) ==> rest.len() <= toks.len()
            && rest.len() >= 1 && rest[0] == "}"@,
    decreases toks.len(),
{
    if toks.len() > 0 && toks[0] != "}"@ {
        match spec_parse_keyset_field(toks) {
            Option::None => {},
            Option::Some((f, rest)) => {
                lemma_parse_keyset_field_consumes(toks);
                lemma_parse_fields_bound(rest);
            },
        }
    }
}

/// Every keyset in the token stream, in order.
pub open spec fn spec_parse_keysets_toks(toks: Seq<Seq<char>>) -> Option<Seq<KeysetV>>
    decreases toks.len(),
    via spec_parse_keysets_toks_decreases
{
    match spec_parse_keyset(toks) {
        KeysetStepV::Done => Option::Some(Seq::empty()),
        KeysetStepV::Fail => Option::None,
        KeysetStepV::Next(k, rest) => match spec_parse_keysets_toks(rest) {
            Option::None => Option::None,
            Option::Some(ks) => Option::Some(seq![k] + ks),
        },
    }
}

#[via_fn]
proof fn spec_parse_keysets_toks_decreases(toks: Seq<Seq<char>>) {
    lemma_parse_keyset_consumes(toks);
}

/// Parses one keyset field and returns its name.
pub fn parse_keyset_field(it: &mut TokenIterator) -> (r: Result<String, ParseError>)
    requires
        old(it).wf(),
    ensures
        final(it).wf(),
        match r {
            Result::Ok(name) => spec_parse_keyset_field(old(it).remaining()) matches Option::Some(
                (n, rest),
            ) && name@ == n && final(it).remaining() == rest,
            Result::Err(_) => spec_parse_keyset_field(old(it).remaining()) is None,
        },
{
    let type_ = parse_type(it)?;
    if !matches!(type_, ParseTypeCase::Normal(ApiType::Object)) {
        return Err(ParseError { kind: ParseErrorKind::BadKeysetField });
    }
    let name = it.next_identifier()?;
    it.expect_next_token(";")?;
    proof {
        let rest = spec_parse_type(old(it).remaining())->Some_0.1;
        assert(rest.skip(2) =~= rest.drop_first().drop_first());
    }
    Ok(name)
}

fn parse_fields_into(it: &mut TokenIterator, fields: &mut Vec<ApiField>) -> (r: Result<
    (),
    ParseError,
>)
    requires
        old(it).wf(),
    ensures
        final(it).wf(),
        match r {
            Result::Ok(_) => spec_parse_fields(old(it).remaining()) matches Option::Some(
                (fs, rest),
            ) && final(fields).deep_view() == old(fields).deep_view() + fs && final(it).remaining()
                == rest,
            Result::Err(_) => spec_parse_fields(old(it).remaining()) is None,
        },
    decreases it.remaining().len(),
{
    let done = match it.peek_token() {
        Option::None => {
            return Err(ParseError { kind: ParseErrorKind::UnexpectedEnd });
        },
        Option::Some(t) => token_is(t, "}"),
    };
    if done {
        proof {
            assert(fields.deep_view() + Seq::<Seq<char>>::empty() =~= fields.deep_view());
        }
        return Ok(());
    }
    proof {
        lemma_parse_keyset_field_consumes(it.remaining());
    }
    let name = parse_keyset_field(it)?;
    let ghost fv = name@;
    let ghost dv0 = fields.deep_view();
    fields.push(ApiField { name });
    proof {
        assert(fields.deep_view() =~= dv0.push(fv));
    }
    let ghost dv1 = fields.deep_view();
    let ghost rem1 = it.remaining();
    let r = parse_fields_into(it, fields);
    match r {
        Result::Ok(_) => {
            proof {
                let more = spec_parse_fields(rem1)->Some_0.0;
                assert(dv1 =~= dv0 + seq![fv]);
                assert((dv0 + seq![fv]) + more =~= dv0 + (seq![fv] + more));
            }
            Ok(())
        },
        Result::Err(e) => Err(e),
    }
}

/// Parses the next keyset section: tokens are skipped until a `typedef`
/// begins one.  Returns `None` at a clean end of the stream.
pub fn parse_keyset(it: &mut TokenIterator) -> (r: Result<Option<ApiKeyset>, ParseError>)
    requires
        old(it).wf(),
    ensures
        final(it).wf(),
        match r {
            Result::Ok(Option::Some(k)) => spec_parse_keyset(old(it).remaining())
                matches KeysetStepV::Next(kv, rest) && kv == k@ && final(it).remaining() == rest,
            Result::Ok(Option::None) => spec_parse_keyset(old(it).remaining())
                is Done,
            Result::Err(_) => spec_parse_keyset(old(it).remaining()) is Fail,
        },
    decreases it.remaining().len(),
{
    let t = match it.next_token() {
        Option::None => {
            return Ok(Option::None);
        },
        Option::Some(t) => t,
    };
    if !token_is(&t, "typedef") {
        return parse_keyset(it);
    }
    it.expect_next_token("struct")?;
    it.expect_next_token("{")?;
    proof {
        let rest = old(it).remaining().drop_first();
        assert(rest.skip(2) =~= rest.drop_first().drop_first());
    }
    let mut keys: Vec<ApiField> = Vec::new();
    let ghost kv0 = keys.deep_view();
    parse_fields_into(it, &mut keys)?;
    proof {
        let fs = spec_parse_fields(old(it).remaining().drop_first().skip(2))->Some_0.0;
        assert(kv0 + fs =~= fs);
        lemma_parse_fields_bound(old(it).remaining().drop_first().skip(2));
    }
    it.expect_next_token("}")?;
    match parse_type(it)? {
        ParseTypeCase::Keyset(name) => Ok(Option::Some(ApiKeyset { name, fields: keys })),
        _ => Err(ParseError { kind: ParseErrorKind::UnexpectedToken }),
    }
}

/// The function that a line declares, once its pieces are parsed: the
/// classification of the parsed arguments decides the declared argument
/// list and the flags, and failure to classify drops the line.
pub open spec fn spec_line_outcome(
    parsed: Seq<(TypeCaseV, Seq<char>)>,
    many: bool,
    ks: Seq<KeysetV>,
    name: Seq<char>,
    rt: Option<TypeV>,
    attrs: FuncAttrsV,
) -> Option<FuncV> {
    match spec_classify_args(parsed, many, ks, Seq::empty(), false, false, false) {
        Option::None => Option::None,
        Option::Some((args, chan, arena, err)) => Option::Some(
            FuncV {
            name,
            args: FuncArgsV { args, has_channel_id: chan, has_arena: arena },
            return_: FuncReturnV { type_: rt, has_error: err },
            attrs,
        },
        ),
    }
}

/// The meaning of one declaration line, resolved against the previously
/// parsed keysets: the function it declares, or nothing when the line does
/// not parse.
pub open spec fn spec_parse_line(line: Seq<char>, ks: Seq<KeysetV>) -> Option<FuncV> {
    let toks0 = lex(line);
    if toks0.len() == 0 {
        Option::None
    } else {
        let toks = if toks0[0] == "DLLEXPORT"@ {
            toks0.drop_first()
        } else {
            toks0
        };
        match spec_parse_type(toks) {
            Option::None => Option::None,
            Option::Some((rtc, rest)) => {
                if !(rtc is Normal || rtc is Void) {
                    Option::None
                } else {
                    let rt = match rtc {
                        TypeCaseV::Normal(t) => Option::Some(t),
                        _ => Option::None,
                    };
                    if rest.len() == 0 || is_special_token(rest[0]) {
                        Option::None
                    } else {
                        let name = rest[0];
                        match spec_parse_args(rest.drop_first()) {
                            Option::None => Option::None,
                            Option::Some((parsed, rest2)) => match spec_parse_attrs(
                                rest2,
                                crate::model::spec_default_attrs(),
                            ) {
                                Option::None => Option::None,
                                Option::Some(attrs) => match spec_classify_args(
                                    parsed,
                                    parsed.len() > 1,
                                    ks,
                                    Seq::empty(),
                                    false,
                                    false,
                                    false,
                                ) {
                                    Option::None => Option::None,
                                    Option::Some((args, chan, arena, err)) => Option::Some(
                                        FuncV {
                                            name,
                                            args: FuncArgsV {
                                                args,
                                                has_channel_id: chan,
                                                has_arena: arena,
                                            },
                                            return_: FuncReturnV { type_: rt, has_error: err },
                                            attrs,
                                        },
                                    ),
                                },
                            },
                        }
                    }
                }
            },
        }
    }
}

/// Parses one declaration line against the previously parsed keysets.
pub fn parse_line(line: &str, keysets: &Vec<ApiKeyset>) -> (r: Result<ApiFunc, ParseError>)
    ensures
        match r {
            Result::Ok(f) => spec_parse_line(line@, keysets.deep_view()) == Option::Some(f@),
            Result::Err(_) => spec_parse_line(line@, keysets.deep_view()) is None,
        },
{
    let mut it = TokenIterator::new(line);
    let is_dllexport = match it.peek_token() {
        Option::None => {
            return Err(ParseError { kind: ParseErrorKind::UnexpectedEnd });
        },
        Option::Some(first) => token_is(first, "DLLEXPORT"),
    };
    if is_dllexport {
        let _ = it.next_token();
    }
    let return_type: Option<ApiType> = match parse_type(&mut it)? {
        ParseTypeCase::Normal(t) => Option::Some(t),
        ParseTypeCase::Void => Option::None,
        _ => {
            return Err(ParseError { kind: ParseErrorKind::BadReturnType });
        },
    };
    let name = it.next_identifier()?;
    let parsed_args = parse_args(&mut it)?;
    let mut attrs = ApiFuncAttrs::default();
    parse_attrs_into(&mut it, &mut attrs)?;

    let ghost parsed0 = parsed_args.deep_view();
    let ghost ksdv = keysets.deep_view();
    let ghost namev = name@;
    let ghost attrsv = attrs@;
    let ghost rt_v: Option<TypeV> = match return_type {
        Option::Some(ref t) => Option::Some(t@),
        Option::None => Option::None,
    };
    let many = parsed_args.len() > 1;
    let mut parsed_args = parsed_args;
    let mut args: Vec<ApiArg> = Vec::new();
    let mut has_channel_id = false;
    let mut has_arena = false;
    let mut has_error = false;
    proof {
        assert(args.deep_view() =~= Seq::<ArgV>::empty());
        assert(spec_parse_line(line@, ksdv) == spec_line_outcome(
            parsed0,
            many,
            ksdv,
            namev,
            rt_v,
            attrsv,
        ));
    }
    while parsed_args.len() > 0
        invariant
            ksdv == keysets.deep_view(),
            spec_classify_args(parsed0, many, ksdv, Seq::empty(), false, false, false)
                == spec_classify_args(
                parsed_args.deep_view(),
                many,
                ksdv,
                args.deep_view(),
                has_channel_id,
                has_arena,
                has_error,
            ),
            spec_parse_line(line@, ksdv) == spec_line_outcome(
                parsed0,
                many,
                ksdv,
                namev,
                rt_v,
                attrsv,
            ),
        decreases parsed_args.len(),
    {
        let ghost dv = parsed_args.deep_view();
        let ghost argsdv = args.deep_view();
        let pa = parsed_args.remove(0);
        proof {
            assert(parsed_args.deep_view() =~= dv.drop_first());
            assert(pa@ == dv[0]);
        }
        match pa.type_ {
            ParseTypeCase::Void => {
                if many {
                    return Err(ParseError { kind: ParseErrorKind::VoidArgumentNotAlone });
                }
            },
            ParseTypeCase::ChannelId => {
                has_channel_id = true;
            },
            ParseTypeCase::Arena => {
                has_arena = true;
            },
            ParseTypeCase::Error => {
                has_error = true;
            },
            ParseTypeCase::Normal(t) => {
                let ghost tv = t@;
                args.push(ApiArg { name: pa.name, type_: t });
                proof {
                    assert(args.deep_view() =~= argsdv.push(ArgV { name: dv[0].1, type_: tv }));
                }
            },
            ParseTypeCase::Keyset(k) => {
                match lookup_keyset(keysets, &k) {
                    Option::None => {
                        return Err(ParseError { kind: ParseErrorKind::UnresolvedKeyset });
                    },
                    Option::Some(info) => {
                        let ghost iv = info@;
                        args.push(ApiArg { name: pa.name, type_: ApiType::Keyset(info) });
                        proof {
                            assert(args.deep_view() =~= argsdv.push(
                                ArgV { name: dv[0].1, type_: TypeV::Keyset(iv) },
                            ));
                        }
                    },
                }
            },
        }
    }
    proof {
        assert(parsed_args.deep_view() =~= Seq::<(TypeCaseV, Seq<char>)>::empty());
    }
    Ok(
        ApiFunc {
            name,
            args: ApiFuncArgs { args, has_channel_id, has_arena },
            return_: ApiFuncReturn { type_: return_type, has_error },
            attrs,
        },
    )
}

// ---------------------------------------------------------------------------
// Lines, filtering, and the batch entry points.
// ---------------------------------------------------------------------------
/// Length of the run before the first line break.
pub open spec fn nl_run(s: Seq<char>) -> int
    decreases s.len(),
{
    if s.len() == 0 || s[0] == '\n' {
        0
    } else {
        1 + nl_run(s.drop_first())
    }
}

pub proof fn lemma_nl_run_bounds(s: Seq<char>)
    ensures
        0 <= nl_run(s) <= s.len(),
    decreases s.len(),
{
    if s.len() > 0 && s[0] != '\n' {
        lemma_nl_run_bounds(s.drop_first());
    }
}

pub proof fn lemma_nl_run_value(s: Seq<char>, k: int)
    requires
        0 <= k <= s.len(),
        forall|t: int| 0 <= t < k ==> #[trigger] s[t] != '\n',
        k == s.len() || s[k] == '\n',
    ensures
        nl_run(s) == k,
    decreases k,
{
    if k > 0 {
        assert forall|t: int| 0 <= t < k - 1 implies #[trigger] s.drop_first()[t] != '\n' by {
            assert(s.drop_first()[t] == s[t + 1]);
        }
        if k - 1 < s.drop_first().len() {
            assert(s.drop_first()[k - 1] == s[k]);
        }
        lemma_nl_run_value(s.drop_first(), k - 1);
    }
}

/// A line with a trailing carriage return stripped.
pub open spec fn strip_cr(l: Seq<char>) -> Seq<char> {
    if l.len() > 0 && l.last() == '\r' {
        l.drop_last()
    } else {
        l
    }
}

/// The lines of a text: split at line breaks, each line stripped of a
/// trailing carriage return, with an optional final line break.
pub open spec fn split_lines_spec(s: Seq<char>) -> Seq<Seq<char>>
    decreases s.len(),
    via split_lines_decreases
{
    if s.len() == 0 {
        Seq::empty()
    } else {
        let n = nl_run(s);
        let line = strip_cr(s.take(n));
        if n == s.len() {
            seq![line]
        } else {
            seq![line] + split_lines_spec(s.skip(n + 1))
        }
    }
}

#[via_fn]
proof fn split_lines_decreases(s: Seq<char>) {
    lemma_nl_run_bounds(s);
}

/// Splits a text into its lines.
pub fn split_lines(s: &str) -> (lines: Vec<String>)
    ensures
        lines.deep_view() == split_lines_spec(s@),
{
    let len = s.unicode_len();
    let mut lines: Vec<String> = Vec::new();
    let mut i: usize = 0;
    proof {
        assert(s@.skip(0) =~= s@);
        assert(lines.deep_view() + split_lines_spec(s@) =~= split_lines_spec(s@));
    }
    while i < len
        invariant
            i <= len,
            len == s@.len(),
            lines.deep_view() + split_lines_spec(s@.skip(i as int)) == split_lines_spec(s@),
        decreases len - i,
    {
        let ghost rest = s@.skip(i as int);
        let mut j: usize = i;
        while j < len && s.get_char(j) != '\n'
            invariant
                i <= j <= len,
                len == s@.len(),
                forall|t: int| i <= t < j ==> #[trigger] s@[t] != '\n',
            decreases len - j,
        {
            j = j + 1;
        }
        proof {
            assert forall|t: int| 0 <= t < j - i implies #[trigger] rest[t] != '\n' by {
                assert(rest[t] == s@[i + t]);
            }
            if (j as int) < len as int {
                assert(rest[j - i] == s@[j as int]);
            }
            lemma_nl_run_value(rest, j - i);
        }
        // Strip one trailing carriage return from the line.
        let mut jj = j;
        if jj > i && s.get_char(jj - 1) == '\r' {
            jj = jj - 1;
        }
        let line = s.substring_char(i, jj);
        let line = String::from_str(line);
        proof {
            assert(rest.take(j - i) =~= s@.subrange(i as int, j as int));
            if jj < j {
                assert(rest.take(j - i).last() == s@[j - 1]);
                assert(line@ =~= rest.take(j - i).drop_last());
            } else {
                assert(line@ =~= rest.take(j - i));
            }
            assert(line@ == strip_cr(rest.take(j - i)));
        }
        let ghost old_dv = lines.deep_view();
        lines.push(line);
        proof {
            assert(lines.deep_view() =~= old_dv.push(line@));
            if (j as int) == len as int {
                assert(rest.take(j - i) =~= rest.take(nl_run(rest)));
                assert(old_dv.push(line@) + split_lines_spec(s@.skip(len as int)) =~= old_dv
                    + split_lines_spec(s@.skip(i as int))) by {
                    assert(s@.skip(len as int) =~= Seq::<char>::empty());
                    assert(seq![line@] + split_lines_spec(Seq::<char>::empty()) =~= seq![line@]);
                    assert(old_dv.push(line@) =~= old_dv + seq![line@]);
                }
            } else {
                assert(rest.skip(j - i + 1) =~= s@.skip(j + 1));
                assert(old_dv.push(line@) + split_lines_spec(s@.skip(j + 1)) =~= old_dv
                    + split_lines_spec(s@.skip(i as int)));
            }
        }
        if j < len {
            i = j + 1;
        } else {
            i = len;
        }
    }
    proof {
        assert(s@.skip(len as int) =~= Seq::<char>::empty());
        assert(lines.deep_view() + split_lines_spec(s@.skip(len as int)) =~= lines.deep_view());
    }
    lines
}

/// A line with leading ASCII whitespace dropped.
pub open spec fn trim_start_spec(l: Seq<char>) -> Seq<char>
    decreases l.len(),
{
    if l.len() > 0 && crate::token::is_space_char(l[0]) {
        trim_start_spec(l.drop_first())
    } else {
        l
    }
}

/// A line with trailing ASCII whitespace dropped.
pub open spec fn trim_end_spec(l: Seq<char>) -> Seq<char>
    decreases l.len(),
{
    if l.len() > 0 && crate::token::is_space_char(l.last()) {
        trim_end_spec(l.drop_last())
    } else {
        l
    }
}

/// A line with leading and trailing ASCII whitespace dropped.
pub open spec fn trim_spec(l: Seq<char>) -> Seq<char> {
    trim_end_spec(trim_start_spec(l))
}

/// Keyset-header lines that take part in parsing: preprocessor lines and
/// blank lines are left out.
pub open spec fn keep_line_spec(l: Seq<char>) -> bool {
    trim_spec(l).len() > 0 && trim_spec(l)[0] != '#'
}

proof fn lemma_trim_end_head(l: Seq<char>)
    requires
        l.len() > 0,
        !crate::token::is_space_char(l[0]),
    ensures
        trim_end_spec(l).len() > 0,
        trim_end_spec(l)[0] == l[0],
    decreases l.len(),
{
    if l.len() > 0 && crate::token::is_space_char(l.last()) {
        assert(l.drop_last()[0] == l[0]);
        lemma_trim_end_head(l.drop_last());
    }
}

/// Whether a line takes part in keyset parsing.
fn keep_line(l: &String) -> (b: bool)
    ensures
        b == keep_line_spec(l@),
{
    let s = l.as_str();
    let len = s.unicode_len();
    let mut a: usize = 0;
    proof {
        assert(s@.skip(0) =~= s@);
    }
    while a < len && crate::token::is_space(s.get_char(a))
        invariant
            a <= len,
            len == s@.len(),
            l@ == s@,
            trim_start_spec(l@) == trim_start_spec(s@.skip(a as int)),
            forall|t: int| 0 <= t < a ==> crate::token::is_space_char(#[trigger] s@[t]),
        decreases len - a,
    {
        proof {
            assert(s@.skip(a as int)[0] == s@[a as int]);
            assert(s@.skip(a as int).drop_first() =~= s@.skip(a + 1));
        }
        a = a + 1;
    }
    if a == len {
        proof {
            assert(s@.skip(len as int) =~= Seq::<char>::empty());
            assert(trim_spec(l@).len() == 0);
        }
        return false;
    }
    let c = s.get_char(a);
    proof {
        assert(s@.skip(a as int)[0] == s@[a as int]);
        assert(trim_start_spec(s@.skip(a as int)) == s@.skip(a as int));
        lemma_trim_end_head(s@.skip(a as int));
    }
    c as u32 != '#' as u32
}

/// Non-separator lines re-joined with line breaks.
pub open spec fn join_newline(ls: Seq<Seq<char>>) -> Seq<char>
    decreases ls.len(),
{
    if ls.len() == 0 {
        Seq::empty()
    } else if ls.len() == 1 {
        ls[0]
    } else {
        ls[0] + seq!['\n'] + join_newline(ls.drop_first())
    }
}

proof fn lemma_join_newline_push(ls: Seq<Seq<char>>, x: Seq<char>)
    ensures
        join_newline(ls.push(x)) == if ls.len() == 0 {
            x
        } else {
            join_newline(ls) + seq!['\n'] + x
        },
    decreases ls.len(),
{
    if ls.len() == 0 {
        assert(ls.push(x)[0] == x);
        assert(join_newline(ls.push(x)) == x);
    } else if ls.len() == 1 {
        assert(ls.push(x)[0] == ls[0]);
        assert(ls.push(x).drop_first() =~= ls.drop_first().push(x));
        lemma_join_newline_push(ls.drop_first(), x);
        assert(join_newline(ls.drop_first().push(x)) == x);
        assert(join_newline(ls.push(x)) == ls[0] + seq!['\n'] + x);
        assert(join_newline(ls) == ls[0]);
    } else {
        assert(ls.push(x)[0] == ls[0]);
        assert(ls.push(x).drop_first() =~= ls.drop_first().push(x));
        lemma_join_newline_push(ls.drop_first(), x);
        assert(join_newline(ls.push(x)) == ls[0] + seq!['\n'] + (join_newline(ls.drop_first())
            + seq!['\n'] + x));
        assert(ls[0] + seq!['\n'] + (join_newline(ls.drop_first()) + seq!['\n'] + x) =~= (ls[0]
            + seq!['\n'] + join_newline(ls.drop_first())) + seq!['\n'] + x);
    }
}

/// The keyset-header text that is parsed: the kept lines, re-joined.
pub open spec fn spec_kept_header(s: Seq<char>) -> Seq<char> {
    join_newline(split_lines_spec(s).filter(|l: Seq<char>| keep_line_spec(l)))
}

/// The keysets of a keyset-header text, or nothing when a keyset section
/// does not follow the grammar, which aborts the whole run.
pub open spec fn spec_api_keysets(s: Seq<char>) -> Option<Seq<KeysetV>> {
    spec_parse_keysets_toks(lex(spec_kept_header(s)))
}

fn parse_keysets_into(it: &mut TokenIterator, result: &mut Vec<ApiKeyset>) -> (r: Result<
    (),
    ParseError,
>)
    requires
        old(it).wf(),
    ensures
        final(it).wf(),
        match r {
            Result::Ok(_) => spec_parse_keysets_toks(old(it).remaining()) matches Option::Some(ks)
                && final(result).deep_view() == old(result).deep_view() + ks,
            Result::Err(_) => spec_parse_keysets_toks(old(it).remaining()) is None,
        },
    decreases it.remaining().len(),
{
    proof {
        lemma_parse_keyset_consumes(it.remaining());
    }
    let step = parse_keyset(it)?;
    match step {
        Option::None => {
            proof {
                assert(result.deep_view() + Seq::<KeysetV>::empty() =~= result.deep_view());
            }
            Ok(())
        },
        Option::Some(k) => {
            let ghost kv = k@;
            let ghost dv0 = result.deep_view();
            result.push(k);
            proof {
                assert(result.deep_view() =~= dv0.push(kv));
            }
            let ghost dv1 = result.deep_view();
            let ghost rem1 = it.remaining();
            let r = parse_keysets_into(it, result);
            match r {
                Result::Ok(_) => {
                    proof {
                        let more = spec_parse_keysets_toks(rem1)->Some_0;
                        assert(dv1 =~= dv0 + seq![kv]);
                        assert((dv0 + seq![kv]) + more =~= dv0 + (seq![kv] + more));
                    }
                    Ok(())
                },
                Result::Err(e) => Err(e),
            }
        },
    }
}

/// Parses every keyset of a keyset-header text.  Preprocessor and blank
/// lines are left out first; a keyset section that does not follow the
/// grammar aborts the whole run.
pub fn parse_keysets(header: &str) -> (r: Result<Vec<ApiKeyset>, ParseError>)
    ensures
        match r {
            Result::Ok(v) => spec_api_keysets(header@) == Option::Some(v.deep_view()),
            Result::Err(_) => spec_api_keysets(header@) is None,
        },
{
    let lines = split_lines(header);
    let ghost linesdv = lines.deep_view();
    let mut kept: Vec<String> = Vec::new();
    let mut i: usize = 0;
    proof {
        assert(linesdv.take(0) =~= Seq::<Seq<char>>::empty());
        reveal(Seq::filter);
    }
    while i < lines.len()
        invariant
            i <= lines.len(),
            linesdv == lines.deep_view(),
            kept.deep_view() == linesdv.take(i as int).filter(|l: Seq<char>| keep_line_spec(l)),
        decreases lines.len() - i,
    {
        let ghost pre = linesdv.take(i as int);
        proof {
            reveal(Seq::filter);
            assert(linesdv.take(i + 1).drop_last() =~= pre);
            assert(linesdv.take(i + 1).last() == linesdv[i as int]);
            assert(linesdv[i as int] == lines[i as int]@);
        }
        if keep_line(&lines[i]) {
            let ghost kdv = kept.deep_view();
            let line = lines[i].clone();
            kept.push(line);
            proof {
                assert(kept.deep_view() =~= kdv.push(linesdv[i as int]));
            }
        }
        i = i + 1;
    }
    proof {
        assert(linesdv.take(lines.len() as int) =~= linesdv);
    }
    // Join the kept lines back into one text.
    let mut joined = String::new();
    let mut k: usize = 0;
    let ghost keptdv = kept.deep_view();
    proof {
        assert(keptdv.take(0) =~= Seq::<Seq<char>>::empty());
    }
    while k < kept.len()
        invariant
            k <= kept.len(),
            keptdv == kept.deep_view(),
            joined@ == join_newline(keptdv.take(k as int)),
        decreases kept.len() - k,
    {
        let ghost pre = keptdv.take(k as int);
        if k > 0 {
            joined.append("\n");
        }
        joined.append(kept[k].as_str());
        proof {
            assert(keptdv.take(k + 1) =~= pre.push(keptdv[k as int]));
            lemma_join_newline_push(pre, keptdv[k as int]);
            if k == 0 {
                assert(joined@ =~= keptdv[0]);
            } else {
                assert(joined@ =~= join_newline(pre) + seq!['\n'] + keptdv[k as int]) by {
                    assert("\n"@ =~= seq!['\n']) by {
                        reveal_strlit("\n");
                    }
                }
            }
        }
        k = k + 1;
    }
    proof {
        assert(keptdv.take(kept.len() as int) =~= keptdv);
    }
    let mut it = TokenIterator::new(joined.as_str());
    let mut result: Vec<ApiKeyset> = Vec::new();
    let ghost rdv0 = result.deep_view();
    parse_keysets_into(&mut it, &mut result)?;
    proof {
        let ks = spec_parse_keysets_toks(lex(joined@))->Some_0;
        assert(rdv0 + ks =~= ks);
    }
    Ok(result)
}

/// Generates the information for all API keysets of a keyset-header text.
///
/// Keysets are dictionaries with fixed keys.
pub fn api_keysets(keysets_header: &str) -> (r: Result<Vec<ApiKeyset>, ParseError>)
    ensures
        match r {
            Result::Ok(v) => spec_api_keysets(keysets_header@) == Option::Some(v.deep_view()),
            Result::Err(_) => spec_api_keysets(keysets_header@) is None,
        },
{
    parse_keysets(keysets_header)
}

/// The functions declared by the lines of a header, in order; a line that
/// does not parse is dropped.
pub open spec fn spec_parse_funcs(ls: Seq<Seq<char>>, ks: Seq<KeysetV>) -> Seq<FuncV>
    decreases ls.len(),
{
    if ls.len() == 0 {
        Seq::empty()
    } else {
        match spec_parse_line(ls[0], ks) {
            Option::Some(f) => seq![f] + spec_parse_funcs(ls.drop_first(), ks),
            Option::None => spec_parse_funcs(ls.drop_first(), ks),
        }
    }
}

/// Parses every declaration line of a header against the parsed keysets.
/// A line that fails to parse is silently dropped from the result set.
pub fn parse_funcs(header: &str, keysets: &Vec<ApiKeyset>) -> (r: Vec<ApiFunc>)
    ensures
        r.deep_view() == spec_parse_funcs(split_lines_spec(header@), keysets.deep_view()),
{
    let lines = split_lines(header);
    let ghost linesdv = lines.deep_view();
    let ghost ksdv = keysets.deep_view();
    let mut result: Vec<ApiFunc> = Vec::new();
    let mut i: usize = 0;
    proof {
        assert(linesdv.skip(0) =~= linesdv);
        assert(result.deep_view() + spec_parse_funcs(linesdv, ksdv) =~= spec_parse_funcs(
            linesdv,
            ksdv,
        ));
    }
    while i < lines.len()
        invariant
            i <= lines.len(),
            linesdv == lines.deep_view(),
            ksdv == keysets.deep_view(),
            result.deep_view() + spec_parse_funcs(linesdv.skip(i as int), ksdv) == spec_parse_funcs(
                linesdv,
                ksdv,
            ),
        decreases lines.len() - i,
    {
        let ghost rest = linesdv.skip(i as int);
        proof {
            assert(rest[0] == linesdv[i as int]);
            assert(linesdv[i as int] == lines[i as int]@);
            assert(rest.drop_first() =~= linesdv.skip(i + 1));
        }
        match parse_line(lines[i].as_str(), keysets) {
            Result::Ok(f) => {
                let ghost fv = f@;
                let ghost dv0 = result.deep_view();
                result.push(f);
                proof {
                    assert(result.deep_view() =~= dv0.push(fv));
                    assert(dv0.push(fv) + spec_parse_funcs(linesdv.skip(i + 1), ksdv) =~= dv0
                        + spec_parse_funcs(rest, ksdv));
                }
            },
            Result::Err(_) => {},
        }
        i = i + 1;
    }
    proof {
        assert(linesdv.skip(lines.len() as int) =~= Seq::<Seq<char>>::empty());
        assert(result.deep_view() + Seq::<FuncV>::empty() =~= result.deep_view());
    }
    result
}

/// The functions of all header texts, in order, against the keysets of the
/// keyset-header text; nothing when the keyset header does not parse.
pub open spec fn spec_funcs_of_headers(hs: Seq<Seq<char>>, ks: Seq<KeysetV>) -> Seq<FuncV>
    decreases hs.len(),
{
    if hs.len() == 0 {
        Seq::empty()
    } else {
        spec_parse_funcs(split_lines_spec(hs[0]), ks) + spec_funcs_of_headers(hs.drop_first(), ks)
    }
}

/// The API model of a whole generation run: the keysets are parsed first,
/// strictly, then every function header leniently against them.
pub open spec fn spec_api_functions(keysets_header: Seq<char>, headers: Seq<Seq<char>>) -> Option<
    Seq<FuncV>,
> {
    match spec_api_keysets(keysets_header) {
        Option::None => Option::None,
        Option::Some(ks) => Option::Some(spec_funcs_of_headers(headers, ks)),
    }
}

/// Generates the API data for all functions of the given header texts.
///
/// The keyset header is parsed first: keysets must be fully parsed before
/// the function lines that reference them, and an unparsable keyset
/// section aborts the run.  Function lines that do not parse are dropped.
pub fn api_functions(keysets_header: &str, headers: &Vec<String>) -> (r: Result<
    Vec<ApiFunc>,
    ParseError,
>)
    ensures
        match r {
            Result::Ok(v) => spec_api_functions(keysets_header@, headers.deep_view())
                == Option::Some(v.deep_view()),
            Result::Err(_) => spec_api_functions(keysets_header@, headers.deep_view()) is None,
        },
{
    let keysets = parse_keysets(keysets_header)?;
    let ghost hdv = headers.deep_view();
    let ghost ksdv = keysets.deep_view();
    let mut result: Vec<ApiFunc> = Vec::new();
    let mut i: usize = 0;
    proof {
        assert(hdv.skip(0) =~= hdv);
        assert(result.deep_view() + spec_funcs_of_headers(hdv, ksdv) =~= spec_funcs_of_headers(
            hdv,
            ksdv,
        ));
    }
    while i < headers.len()
        invariant
            i <= headers.len(),
            hdv == headers.deep_view(),
            ksdv == keysets.deep_view(),
            result.deep_view() + spec_funcs_of_headers(hdv.skip(i as int), ksdv)
                == spec_funcs_of_headers(hdv, ksdv),
        decreases headers.len() - i,
    {
        let ghost rest = hdv.skip(i as int);
        proof {
            assert(rest[0] == hdv[i as int]);
            assert(hdv[i as int] == headers[i as int]@);
            assert(rest.drop_first() =~= hdv.skip(i + 1));
        }
        let mut chunk = parse_funcs(headers[i].as_str(), &keysets);
        let ghost cdv = chunk.deep_view();
        let ghost dv0 = result.deep_view();
        result.append(&mut chunk);
        proof {
            assert(result.deep_view() =~= dv0 + cdv);
            assert((dv0 + cdv) + spec_funcs_of_headers(hdv.skip(i + 1), ksdv) =~= dv0 + (cdv
                + spec_funcs_of_headers(hdv.skip(i + 1), ksdv)));
        }
        i = i + 1;
    }
    proof {
        assert(hdv.skip(headers.len() as int) =~= Seq::<Seq<char>>::empty());
        assert(result.deep_view() + Seq::<FuncV>::empty() =~= result.deep_view());
    }
    Ok(result)
}

} // verus!
